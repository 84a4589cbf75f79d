//! The tags that the converter follows, and the latches that pair each
//! tag name with its value.

use crate::text::str_eq;
use crate::utils::FoundCaptured;
use vstd::prelude::*;

verus! {

/// The tags that the walk follows inside records.
#[derive(Clone, Copy, Debug, PartialEq, Eq, Structural)]
pub enum RecordTag {
    StationCallsign,
    QsoDate,
    TimeOn,
    Band,
    Call,
    Mode,
    RstSent,
    Stx,
    RstRcvd,
    Srx,
    Gridsquare,
    MyGridsquare,
}

/// The tags that the walk follows inside the header.
#[derive(Clone, Copy, Debug, PartialEq, Eq, Structural)]
pub enum HeaderTag {
    AdifVer,
    CreatedTimestamp,
    ProgramId,
    ProgramVersion,
}

/// The record tag with the given name; the name is in upper case.
pub open spec fn record_tag(upper: Seq<char>) -> Option<RecordTag> {
    if upper == "STATION_CALLSIGN"@ {
        Some(RecordTag::StationCallsign)
    } else if upper == "QSO_DATE"@ {
        Some(RecordTag::QsoDate)
    } else if upper == "TIME_ON"@ {
        Some(RecordTag::TimeOn)
    } else if upper == "BAND"@ {
        Some(RecordTag::Band)
    } else if upper == "CALL"@ {
        Some(RecordTag::Call)
    } else if upper == "MODE"@ {
        Some(RecordTag::Mode)
    } else if upper == "RST_SENT"@ {
        Some(RecordTag::RstSent)
    } else if upper == "STX"@ {
        Some(RecordTag::Stx)
    } else if upper == "RST_RCVD"@ {
        Some(RecordTag::RstRcvd)
    } else if upper == "SRX"@ {
        Some(RecordTag::Srx)
    } else if upper == "GRIDSQUARE"@ {
        Some(RecordTag::Gridsquare)
    } else if upper == "MY_GRIDSQUARE"@ {
        Some(RecordTag::MyGridsquare)
    } else {
        None
    }
}

/// The header tag with the given name; the name is in upper case.
pub open spec fn header_tag(upper: Seq<char>) -> Option<HeaderTag> {
    if upper == "ADIF_VER"@ {
        Some(HeaderTag::AdifVer)
    } else if upper == "CREATED_TIMESTAMP"@ {
        Some(HeaderTag::CreatedTimestamp)
    } else if upper == "PROGRAMID"@ {
        Some(HeaderTag::ProgramId)
    } else if upper == "PROGRAMVERSION"@ {
        Some(HeaderTag::ProgramVersion)
    } else {
        None
    }
}

/// The record tag with the given name; the name is in upper case.
pub fn record_tag_of(upper: &str) -> (tag: Option<RecordTag>)
    ensures
        tag == record_tag(upper@),
{
    if str_eq(upper, "STATION_CALLSIGN") {
        Some(RecordTag::StationCallsign)
    } else if str_eq(upper, "QSO_DATE") {
        Some(RecordTag::QsoDate)
    } else if str_eq(upper, "TIME_ON") {
        Some(RecordTag::TimeOn)
    } else if str_eq(upper, "BAND") {
        Some(RecordTag::Band)
    } else if str_eq(upper, "CALL") {
        Some(RecordTag::Call)
    } else if str_eq(upper, "MODE") {
        Some(RecordTag::Mode)
    } else if str_eq(upper, "RST_SENT") {
        Some(RecordTag::RstSent)
    } else if str_eq(upper, "STX") {
        Some(RecordTag::Stx)
    } else if str_eq(upper, "RST_RCVD") {
        Some(RecordTag::RstRcvd)
    } else if str_eq(upper, "SRX") {
        Some(RecordTag::Srx)
    } else if str_eq(upper, "GRIDSQUARE") {
        Some(RecordTag::Gridsquare)
    } else if str_eq(upper, "MY_GRIDSQUARE") {
        Some(RecordTag::MyGridsquare)
    } else {
        None
    }
}

/// The header tag with the given name; the name is in upper case.
pub fn header_tag_of(upper: &str) -> (tag: Option<HeaderTag>)
    ensures
        tag == header_tag(upper@),
{
    if str_eq(upper, "ADIF_VER") {
        Some(HeaderTag::AdifVer)
    } else if str_eq(upper, "CREATED_TIMESTAMP") {
        Some(HeaderTag::CreatedTimestamp)
    } else if str_eq(upper, "PROGRAMID") {
        Some(HeaderTag::ProgramId)
    } else if str_eq(upper, "PROGRAMVERSION") {
        Some(HeaderTag::ProgramVersion)
    } else {
        None
    }
}

/// The latches of the record tags. The station's callsign and locator have
/// theirs in the walk itself, because they outlive the record.
#[derive(Clone, Copy, Debug, PartialEq, Eq, Structural)]
pub struct RecordLatches {
    pub qso_date: FoundCaptured,
    pub time: FoundCaptured,
    pub band: FoundCaptured,
    pub call: FoundCaptured,
    pub mode: FoundCaptured,
    pub rst_sent: FoundCaptured,
    pub stx: FoundCaptured,
    pub rst_rcvd: FoundCaptured,
    pub srx: FoundCaptured,
    pub gridsquare: FoundCaptured,
}

impl RecordLatches {
    /// The latches at the start of a record.
    pub open spec fn fresh() -> RecordLatches {
        RecordLatches {
            qso_date: FoundCaptured::fresh(),
            time: FoundCaptured::fresh(),
            band: FoundCaptured::fresh(),
            call: FoundCaptured::fresh(),
            mode: FoundCaptured::fresh(),
            rst_sent: FoundCaptured::fresh(),
            stx: FoundCaptured::fresh(),
            rst_rcvd: FoundCaptured::fresh(),
            srx: FoundCaptured::fresh(),
            gridsquare: FoundCaptured::fresh(),
        }
    }

    /// The latches after a length has been announced to each of them.
    pub open spec fn declared(self, len: usize) -> RecordLatches {
        RecordLatches {
            qso_date: self.qso_date.declared(len),
            time: self.time.declared(len),
            band: self.band.declared(len),
            call: self.call.declared(len),
            mode: self.mode.declared(len),
            rst_sent: self.rst_sent.declared(len),
            stx: self.stx.declared(len),
            rst_rcvd: self.rst_rcvd.declared(len),
            srx: self.srx.declared(len),
            gridsquare: self.gridsquare.declared(len),
        }
    }
}

/// The latches of the header tags.
#[derive(Clone, Copy, Debug, PartialEq, Eq, Structural)]
pub struct HeaderLatches {
    pub adif_ver: FoundCaptured,
    pub created_timestamp: FoundCaptured,
    pub program_id: FoundCaptured,
    pub program_version: FoundCaptured,
}

impl HeaderLatches {
    /// The latches at the start of a document.
    pub open spec fn fresh() -> HeaderLatches {
        HeaderLatches {
            adif_ver: FoundCaptured::fresh(),
            created_timestamp: FoundCaptured::fresh(),
            program_id: FoundCaptured::fresh(),
            program_version: FoundCaptured::fresh(),
        }
    }

    /// The latches after the name of `tag` has been seen.
    pub open spec fn marked(self, tag: HeaderTag) -> HeaderLatches {
        match tag {
            HeaderTag::AdifVer => HeaderLatches { adif_ver: self.adif_ver.marked(), ..self },
            HeaderTag::CreatedTimestamp => HeaderLatches {
                created_timestamp: self.created_timestamp.marked(),
                ..self
            },
            HeaderTag::ProgramId => HeaderLatches { program_id: self.program_id.marked(), ..self },
            HeaderTag::ProgramVersion => HeaderLatches {
                program_version: self.program_version.marked(),
                ..self
            },
        }
    }

    /// The latches after a length has been announced to each of them.
    pub open spec fn declared(self, len: usize) -> HeaderLatches {
        HeaderLatches {
            adif_ver: self.adif_ver.declared(len),
            created_timestamp: self.created_timestamp.declared(len),
            program_id: self.program_id.declared(len),
            program_version: self.program_version.declared(len),
        }
    }
}

} // verus!
