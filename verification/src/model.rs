//! The conversion as a mathematical walk over the parsed document.
//!
//! The walk keeps one latch for each tag it follows. A field name sets the
//! latch of its tag; the next value is taken by every latch that is set and
//! has not taken a value before. Latches of record tags start afresh with
//! each record, those of the station's callsign and locator and of the
//! header tags live as long as the document.

use crate::bands::{routed, stamped, BandModel};
use crate::converter::{ConvertError, LogModel, NumericField};
use crate::dates::DateRangeModel;
use crate::reg1test::{
    band_label, contact_number, mode_code, HeaderModel, RecordModel, RemarksModel,
};
use crate::tags::{header_tag, record_tag, HeaderLatches, RecordLatches, RecordTag};
use crate::text::{first_of, parse_unsigned, trimmed, uppercased, without_first};
use crate::tree::{NodeKind, ParseNode};
use crate::utils::FoundCaptured;
use vstd::prelude::*;

verus! {

/// The state of the walk.
pub struct WalkModel {
    /// Latch of the station's callsign, kept for the whole document.
    pub station_callsign: FoundCaptured,
    /// Latch of the station's locator, kept for the whole document.
    pub my_square: FoundCaptured,
    /// Latches of the header tags, kept for the whole document.
    pub header_latches: HeaderLatches,
    /// The station's callsign; empty until it has been met.
    pub pcall: Seq<char>,
    /// The station's locator; empty until it has been met.
    pub pwwlo: Seq<char>,
    /// The contact dates met so far.
    pub dates: DateRangeModel,
    /// The remark lines gathered so far.
    pub remarks: Seq<Seq<char>>,
    /// The bands with the records finished so far.
    pub bands: Seq<BandModel>,
    /// Latches of the record tags, for the record being read.
    pub latches: RecordLatches,
    /// The record being read.
    pub record: RecordModel,
    /// The band label of the record being read.
    pub pband: Seq<char>,
}

/// What the walk makes of one node.
pub type Step = spec_fn(WalkModel, ParseNode) -> Result<WalkModel, ConvertError>;

/// The state after `step` has been applied to the first `count` of `nodes`
/// in turn, starting from `start`; the first error ends the walk.
pub open spec fn fold_nodes(nodes: Seq<ParseNode>, count: nat, start: WalkModel, step: Step) -> Result<
    WalkModel,
    ConvertError,
>
    decreases count,
{
    if count == 0 {
        Ok(start)
    } else {
        match fold_nodes(nodes, (count - 1) as nat, start, step) {
            Ok(state) => step(state, nodes[count - 1]),
            Err(e) => Err(e),
        }
    }
}

impl WalkModel {
    /// The walk before the document.
    pub open spec fn start() -> WalkModel {
        WalkModel {
            station_callsign: FoundCaptured::fresh(),
            my_square: FoundCaptured::fresh(),
            header_latches: HeaderLatches::fresh(),
            pcall: Seq::empty(),
            pwwlo: Seq::empty(),
            dates: DateRangeModel::fresh(),
            remarks: Seq::empty(),
            bands: Seq::empty(),
            latches: RecordLatches::fresh(),
            record: RecordModel::fresh(),
            pband: Seq::empty(),
        }
    }

    /// The walk after the name of `tag` has been seen in a record.
    pub open spec fn marked(self, tag: RecordTag) -> WalkModel {
        let l = self.latches;
        match tag {
            RecordTag::StationCallsign => WalkModel {
                station_callsign: self.station_callsign.marked(),
                ..self
            },
            RecordTag::MyGridsquare => WalkModel { my_square: self.my_square.marked(), ..self },
            RecordTag::QsoDate => WalkModel {
                latches: RecordLatches { qso_date: l.qso_date.marked(), ..l },
                ..self
            },
            RecordTag::TimeOn => WalkModel {
                latches: RecordLatches { time: l.time.marked(), ..l },
                ..self
            },
            RecordTag::Band => WalkModel {
                latches: RecordLatches { band: l.band.marked(), ..l },
                ..self
            },
            RecordTag::Call => WalkModel {
                latches: RecordLatches { call: l.call.marked(), ..l },
                ..self
            },
            RecordTag::Mode => WalkModel {
                latches: RecordLatches { mode: l.mode.marked(), ..l },
                ..self
            },
            RecordTag::RstSent => WalkModel {
                latches: RecordLatches { rst_sent: l.rst_sent.marked(), ..l },
                ..self
            },
            RecordTag::Stx => WalkModel {
                latches: RecordLatches { stx: l.stx.marked(), ..l },
                ..self
            },
            RecordTag::RstRcvd => WalkModel {
                latches: RecordLatches { rst_rcvd: l.rst_rcvd.marked(), ..l },
                ..self
            },
            RecordTag::Srx => WalkModel {
                latches: RecordLatches { srx: l.srx.marked(), ..l },
                ..self
            },
            RecordTag::Gridsquare => WalkModel {
                latches: RecordLatches { gridsquare: l.gridsquare.marked(), ..l },
                ..self
            },
        }
    }

    /// The walk after a field name in a record; `upper` is the name in
    /// upper case. A name that is no record tag changes nothing.
    pub open spec fn named(self, upper: Seq<char>) -> WalkModel {
        match record_tag(upper) {
            Some(tag) => self.marked(tag),
            None => self,
        }
    }

    /// The walk after the length `len` has been announced to every latch
    /// of the record tags.
    pub open spec fn declared(self, len: usize) -> WalkModel {
        WalkModel {
            station_callsign: self.station_callsign.declared(len),
            my_square: self.my_square.declared(len),
            latches: self.latches.declared(len),
            ..self
        }
    }

    /// The walk after a data length in a record: the length is announced
    /// to every latch; a text that is no length changes nothing.
    pub open spec fn measured(self, text: Seq<char>) -> WalkModel {
        match parse_unsigned(text, usize::MAX as nat) {
            Some(len) => self.declared(len as usize),
            None => self,
        }
    }

    /// The station's callsign is taken from the first value offered to its
    /// latch.
    #[verifier::opaque]
    pub open spec fn take_station_callsign(self, value: Seq<char>) -> WalkModel {
        WalkModel {
            station_callsign: self.station_callsign.taken(),
            pcall: if self.station_callsign.ready() {
                value
            } else {
                self.pcall
            },
            ..self
        }
    }

    /// The station's locator is taken from the first value offered to its
    /// latch.
    #[verifier::opaque]
    pub open spec fn take_my_square(self, value: Seq<char>) -> WalkModel {
        WalkModel {
            my_square: self.my_square.taken(),
            pwwlo: if self.my_square.ready() {
                value
            } else {
                self.pwwlo
            },
            ..self
        }
    }

    /// The date must be a number that fits 32 bits. It enters the date
    /// range, and the record gets it without its first two characters.
    #[verifier::opaque]
    pub open spec fn take_qso_date(self, value: Seq<char>) -> Result<WalkModel, ConvertError> {
        if self.latches.qso_date.ready() {
            match parse_unsigned(value, u32::MAX as nat) {
                Some(date) => Ok(
                    WalkModel {
                        latches: RecordLatches {
                            qso_date: self.latches.qso_date.taken(),
                            ..self.latches
                        },
                        dates: self.dates.observed(date as u32, value),
                        record: RecordModel { date: without_first(value, 2), ..self.record },
                        ..self
                    },
                ),
                None => Err(ConvertError::MalformedNumericField(NumericField::QsoDate)),
            }
        } else {
            Ok(self)
        }
    }

    /// The record gets the first four characters of the time.
    #[verifier::opaque]
    pub open spec fn take_time(self, value: Seq<char>) -> WalkModel {
        if self.latches.time.ready() {
            WalkModel {
                latches: RecordLatches { time: self.latches.time.taken(), ..self.latches },
                record: RecordModel { time: first_of(value, 4), ..self.record },
                ..self
            }
        } else {
            self
        }
    }

    /// The band designator decides the band label of the record.
    #[verifier::opaque]
    pub open spec fn take_band(self, value: Seq<char>) -> WalkModel {
        if self.latches.band.ready() {
            WalkModel {
                latches: RecordLatches { band: self.latches.band.taken(), ..self.latches },
                pband: band_label(value),
                ..self
            }
        } else {
            self
        }
    }

    /// The record gets the callsign as it stands.
    #[verifier::opaque]
    pub open spec fn take_call(self, value: Seq<char>) -> WalkModel {
        if self.latches.call.ready() {
            WalkModel {
                latches: RecordLatches { call: self.latches.call.taken(), ..self.latches },
                record: RecordModel { call: value, ..self.record },
                ..self
            }
        } else {
            self
        }
    }

    /// The record gets the code of the mode.
    #[verifier::opaque]
    pub open spec fn take_mode(self, value: Seq<char>) -> WalkModel {
        if self.latches.mode.ready() {
            WalkModel {
                latches: RecordLatches { mode: self.latches.mode.taken(), ..self.latches },
                record: RecordModel { mode_code: mode_code(value), ..self.record },
                ..self
            }
        } else {
            self
        }
    }

    /// The record gets the report sent as it stands.
    #[verifier::opaque]
    pub open spec fn take_rst_sent(self, value: Seq<char>) -> WalkModel {
        if self.latches.rst_sent.ready() {
            WalkModel {
                latches: RecordLatches { rst_sent: self.latches.rst_sent.taken(), ..self.latches },
                record: RecordModel { sent_rst: value, ..self.record },
                ..self
            }
        } else {
            self
        }
    }

    /// The record gets the contact number sent.
    #[verifier::opaque]
    pub open spec fn take_stx(self, value: Seq<char>) -> Result<WalkModel, ConvertError> {
        if self.latches.stx.ready() {
            match contact_number(value) {
                Some(number) => Ok(
                    WalkModel {
                        latches: RecordLatches { stx: self.latches.stx.taken(), ..self.latches },
                        record: RecordModel { sent_qso_number: number, ..self.record },
                        ..self
                    },
                ),
                None => Err(ConvertError::MalformedNumericField(NumericField::Stx)),
            }
        } else {
            Ok(self)
        }
    }

    /// The record gets the report received as it stands.
    #[verifier::opaque]
    pub open spec fn take_rst_rcvd(self, value: Seq<char>) -> WalkModel {
        if self.latches.rst_rcvd.ready() {
            WalkModel {
                latches: RecordLatches { rst_rcvd: self.latches.rst_rcvd.taken(), ..self.latches },
                record: RecordModel { received_rst: value, ..self.record },
                ..self
            }
        } else {
            self
        }
    }

    /// The record gets the contact number received.
    #[verifier::opaque]
    pub open spec fn take_srx(self, value: Seq<char>) -> Result<WalkModel, ConvertError> {
        if self.latches.srx.ready() {
            match contact_number(value) {
                Some(number) => Ok(
                    WalkModel {
                        latches: RecordLatches { srx: self.latches.srx.taken(), ..self.latches },
                        record: RecordModel { received_qso_number: number, ..self.record },
                        ..self
                    },
                ),
                None => Err(ConvertError::MalformedNumericField(NumericField::Srx)),
            }
        } else {
            Ok(self)
        }
    }

    /// The record gets the locator received as it stands.
    #[verifier::opaque]
    pub open spec fn take_gridsquare(self, value: Seq<char>) -> WalkModel {
        if self.latches.gridsquare.ready() {
            WalkModel {
                latches: RecordLatches {
                    gridsquare: self.latches.gridsquare.taken(),
                    ..self.latches
                },
                record: RecordModel { received_wwl: value, ..self.record },
                ..self
            }
        } else {
            self
        }
    }

    /// The walk after a value in a record; `value` is trimmed. The value is
    /// offered to every latch in a fixed order, and the first number that
    /// cannot be read ends the walk.
    pub open spec fn valued(self, value: Seq<char>) -> Result<WalkModel, ConvertError> {
        match self.take_station_callsign(value).take_qso_date(value) {
            Err(e) => Err(e),
            Ok(dated) => match dated.take_time(value).take_band(value).take_call(value).take_mode(
                value,
            ).take_rst_sent(value).take_stx(value) {
                Err(e) => Err(e),
                Ok(sent) => match sent.take_rst_rcvd(value).take_srx(value) {
                    Err(e) => Err(e),
                    Ok(received) => Ok(received.take_gridsquare(value).take_my_square(value)),
                },
            },
        }
    }

    /// What one child of a field does to the walk inside a record.
    pub open spec fn field_child(self, node: ParseNode) -> Result<WalkModel, ConvertError> {
        match node.kind {
            NodeKind::FieldName => Ok(self.named(uppercased(node.text@))),
            NodeKind::DataLength => Ok(self.measured(node.text@)),
            NodeKind::Data => self.valued(trimmed(node.text@)),
            _ => Ok(self),
        }
    }

    /// The walk after a field of a record.
    pub open spec fn field(self, node: ParseNode) -> Result<WalkModel, ConvertError> {
        fold_nodes(node.children@, node.children@.len(), self, field_step())
    }

    /// What one child of a record does to the walk: a field is read, any
    /// other node is passed over.
    pub open spec fn record_child(self, node: ParseNode) -> Result<WalkModel, ConvertError> {
        if node.kind == NodeKind::Field {
            self.field(node)
        } else {
            Ok(self)
        }
    }

    /// The walk at the start of a record: nothing is known of the contact.
    pub open spec fn begin_record(self) -> WalkModel {
        WalkModel {
            latches: RecordLatches::fresh(),
            record: RecordModel::fresh(),
            pband: Seq::empty(),
            ..self
        }
    }

    /// The header that a new band gets now: the station's callsign and
    /// locator as far as they are known, and the band label of the record.
    pub open spec fn band_header(self) -> HeaderModel {
        HeaderModel {
            pcall: self.pcall,
            pwwlo: self.pwwlo,
            pband: self.pband,
            ..HeaderModel::fresh()
        }
    }

    /// The walk at the end of a record: the record joins its band, and
    /// nothing of it stays behind.
    pub open spec fn end_record(self) -> WalkModel {
        WalkModel {
            bands: routed(self.bands, self.band_header(), self.record),
            ..self.begin_record()
        }
    }

    /// The walk after a record.
    pub open spec fn record(self, node: ParseNode) -> Result<WalkModel, ConvertError> {
        match fold_nodes(node.children@, node.children@.len(), self.begin_record(), record_step()) {
            Ok(read) => Ok(read.end_record()),
            Err(e) => Err(e),
        }
    }

    /// The walk after a field name in the header; `upper` is the name in
    /// upper case.
    pub open spec fn header_named(self, upper: Seq<char>) -> WalkModel {
        match header_tag(upper) {
            Some(tag) => WalkModel { header_latches: self.header_latches.marked(tag), ..self },
            None => self,
        }
    }

    /// The walk after a data length in the header: the length is announced
    /// to every latch of the header tags; a text that is no length changes
    /// nothing.
    pub open spec fn header_measured(self, text: Seq<char>) -> WalkModel {
        match parse_unsigned(text, usize::MAX as nat) {
            Some(len) => WalkModel {
                header_latches: self.header_latches.declared(len as usize),
                ..self
            },
            None => self,
        }
    }

    /// The walk with one more remark line.
    pub open spec fn remarked(self, line: Seq<char>) -> WalkModel {
        WalkModel { remarks: self.remarks.push(line), ..self }
    }

    /// The walk after a value in the header; `value` is trimmed. Each
    /// header tag that takes the value adds the remark line `NAME=value`.
    pub open spec fn header_valued(self, value: Seq<char>) -> WalkModel {
        let l = self.header_latches;
        let lines = self.remarks + (if l.adif_ver.ready() {
            seq!["ADIF_VER="@ + value]
        } else {
            Seq::empty()
        }) + (if l.created_timestamp.ready() {
            seq!["CREATED_TIMESTAMP="@ + value]
        } else {
            Seq::empty()
        }) + (if l.program_id.ready() {
            seq!["PROGRAMID="@ + value]
        } else {
            Seq::empty()
        }) + (if l.program_version.ready() {
            seq!["PROGRAMVERSION="@ + value]
        } else {
            Seq::empty()
        });
        WalkModel {
            header_latches: HeaderLatches {
                adif_ver: l.adif_ver.taken(),
                created_timestamp: l.created_timestamp.taken(),
                program_id: l.program_id.taken(),
                program_version: l.program_version.taken(),
            },
            remarks: lines,
            ..self
        }
    }

    /// What one child of a field does to the walk inside the header.
    pub open spec fn header_field_child(self, node: ParseNode) -> Result<WalkModel, ConvertError> {
        match node.kind {
            NodeKind::FieldName => Ok(self.header_named(uppercased(node.text@))),
            NodeKind::DataLength => Ok(self.header_measured(node.text@)),
            NodeKind::Data => Ok(self.header_valued(trimmed(node.text@))),
            _ => Ok(self),
        }
    }

    /// What one child of a block of lines does to the walk: a line becomes
    /// a remark.
    pub open spec fn block_child(self, node: ParseNode) -> Result<WalkModel, ConvertError> {
        if node.kind == NodeKind::LiteralLine {
            Ok(self.remarked(trimmed(node.text@)))
        } else {
            Ok(self)
        }
    }

    /// What one child of the header does to the walk.
    pub open spec fn header_child(self, node: ParseNode) -> Result<WalkModel, ConvertError> {
        match node.kind {
            NodeKind::LiteralLine => Ok(self.remarked(trimmed(node.text@))),
            NodeKind::MultiLineBlock => fold_nodes(
                node.children@,
                node.children@.len(),
                self,
                block_step(),
            ),
            NodeKind::Field => fold_nodes(
                node.children@,
                node.children@.len(),
                self,
                header_field_step(),
            ),
            _ => Ok(self),
        }
    }

    /// The walk after the header.
    pub open spec fn header(self, node: ParseNode) -> Result<WalkModel, ConvertError> {
        fold_nodes(node.children@, node.children@.len(), self, header_step())
    }

    /// What one child of the document does to the walk.
    pub open spec fn document_child(self, node: ParseNode) -> Result<WalkModel, ConvertError> {
        match node.kind {
            NodeKind::Header => self.header(node),
            NodeKind::Record => self.record(node),
            _ => Ok(self),
        }
    }

    /// The log at the end of the walk: every band carries the date range of
    /// the whole document.
    pub open spec fn finished(self) -> LogModel {
        LogModel {
            bands: stamped(self.bands, self.dates.text()),
            remarks: RemarksModel { multi_line: self.remarks, ..RemarksModel::fresh() },
        }
    }
}

/// [`WalkModel::field_child`] as a step.
pub open spec fn field_step() -> Step {
    |state: WalkModel, node: ParseNode| state.field_child(node)
}

/// [`WalkModel::record_child`] as a step.
pub open spec fn record_step() -> Step {
    |state: WalkModel, node: ParseNode| state.record_child(node)
}

/// [`WalkModel::header_field_child`] as a step.
pub open spec fn header_field_step() -> Step {
    |state: WalkModel, node: ParseNode| state.header_field_child(node)
}

/// [`WalkModel::block_child`] as a step.
pub open spec fn block_step() -> Step {
    |state: WalkModel, node: ParseNode| state.block_child(node)
}

/// [`WalkModel::header_child`] as a step.
pub open spec fn header_step() -> Step {
    |state: WalkModel, node: ParseNode| state.header_child(node)
}

/// [`WalkModel::document_child`] as a step.
pub open spec fn document_step() -> Step {
    |state: WalkModel, node: ParseNode| state.document_child(node)
}

/// The walk after the whole document, or the error that ended it.
pub open spec fn walked(document: ParseNode) -> Result<WalkModel, ConvertError> {
    fold_nodes(
        document.children@,
        document.children@.len(),
        WalkModel::start(),
        document_step(),
    )
}

/// Once a walk over nodes has met an error, that error is its outcome.
pub proof fn lemma_fold_error(
    nodes: Seq<ParseNode>,
    upto: nat,
    count: nat,
    start: WalkModel,
    step: Step,
)
    requires
        upto <= count,
        fold_nodes(nodes, upto, start, step) is Err,
    ensures
        fold_nodes(nodes, count, start, step) == fold_nodes(nodes, upto, start, step),
    decreases count - upto,
{
    if upto < count {
        lemma_fold_error(nodes, upto, (count - 1) as nat, start, step);
    }
}

/// What holds at the start of a walk over nodes, and is kept by every step
/// that succeeds, holds at its end.
pub proof fn lemma_fold_invariant(
    nodes: Seq<ParseNode>,
    count: nat,
    start: WalkModel,
    step: Step,
    inv: spec_fn(WalkModel) -> bool,
)
    requires
        inv(start),
        forall|state: WalkModel, node: ParseNode|
            inv(state) ==> (#[trigger] step(state, node) matches Ok(next) ==> inv(next)),
    ensures
        fold_nodes(nodes, count, start, step) matches Ok(end) ==> inv(end),
    decreases count,
{
    if count > 0 {
        lemma_fold_invariant(nodes, (count - 1) as nat, start, step, inv);
    }
}

/// A walk over nodes can be taken in two parts: over the first `upto`
/// nodes, and from there over the rest.
pub proof fn lemma_fold_split(
    nodes: Seq<ParseNode>,
    upto: nat,
    count: nat,
    start: WalkModel,
    step: Step,
)
    requires
        upto <= count <= nodes.len(),
    ensures
        fold_nodes(nodes, count, start, step) == match fold_nodes(nodes, upto, start, step) {
            Ok(middle) => fold_nodes(
                nodes.skip(upto as int),
                (count - upto) as nat,
                middle,
                step,
            ),
            Err(e) => Err(e),
        },
    decreases count - upto,
{
    if upto < count {
        lemma_fold_split(nodes, upto, (count - 1) as nat, start, step);
        assert(nodes.skip(upto as int)[count - upto - 1] == nodes[count - 1]);
    }
}

} // verus!
