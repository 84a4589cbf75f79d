//! The walk over the parsed document, step by step.

use crate::bands::{band_index, lemma_band_index};
use crate::converter::{band_views, Band, ConvertError, NumericField};
use crate::dates::DateRange;
use crate::model::{
    block_step, document_step, field_step, fold_nodes, header_field_step, header_step,
    lemma_fold_error, record_step, walked, WalkModel,
};
use crate::reg1test::{
    line_views, parse_contact_number, Reg1testHeader, Reg1testQSORecord, Reg1testQSOs,
};
use crate::tags::{
    header_tag_of, record_tag_of, HeaderLatches, HeaderTag, RecordLatches, RecordTag,
};
use crate::text::{lemma_trimmed_idempotent, parse_decimal, skip_chars, take_chars, trim, trimmed};
use crate::tree::{NodeKind, ParseNode};
use crate::utils::FoundCaptured;
use vstd::prelude::*;

verus! {

/// The state of the walk over a document.
pub struct Walk {
    /// Latch of the station's callsign, kept for the whole document.
    pub station_callsign: FoundCaptured,
    /// Latch of the station's locator, kept for the whole document.
    pub my_square: FoundCaptured,
    /// Latches of the header tags, kept for the whole document.
    pub header_latches: HeaderLatches,
    /// The station's callsign; empty until it has been met.
    pub pcall: String,
    /// The station's locator; empty until it has been met.
    pub pwwlo: String,
    /// The contact dates met so far.
    pub dates: DateRange,
    /// The remark lines gathered so far.
    pub remarks: Vec<String>,
    /// The bands with the records finished so far.
    pub bands: Vec<Band>,
    /// Latches of the record tags, for the record being read.
    pub latches: RecordLatches,
    /// The record being read.
    pub record: Reg1testQSORecord,
    /// The band label of the record being read.
    pub pband: String,
}

impl View for Walk {
    type V = WalkModel;

    open spec fn view(&self) -> WalkModel {
        WalkModel {
            station_callsign: self.station_callsign,
            my_square: self.my_square,
            header_latches: self.header_latches,
            pcall: self.pcall@,
            pwwlo: self.pwwlo@,
            dates: self.dates@,
            remarks: line_views(self.remarks@),
            bands: band_views(self.bands@),
            latches: self.latches,
            record: self.record@,
            pband: self.pband@,
        }
    }
}

impl Walk {
    /// Every band holds as many records as its count says.
    pub open spec fn wf(&self) -> bool {
        forall|i: int| 0 <= i < self.bands@.len() ==> (#[trigger] self.bands@[i]).wf()
    }

    /// The walk before the document.
    pub fn new() -> (walk: Walk)
        ensures
            walk@ == WalkModel::start(),
            walk.wf(),
    {
        let walk = Walk {
            station_callsign: FoundCaptured::default(),
            my_square: FoundCaptured::default(),
            header_latches: HeaderLatches {
                adif_ver: FoundCaptured::default(),
                created_timestamp: FoundCaptured::default(),
                program_id: FoundCaptured::default(),
                program_version: FoundCaptured::default(),
            },
            pcall: String::new(),
            pwwlo: String::new(),
            dates: DateRange::new(),
            remarks: Vec::new(),
            bands: Vec::new(),
            latches: Self::fresh_latches(),
            record: Reg1testQSORecord::default(),
            pband: String::new(),
        };
        assert(walk@.remarks =~= Seq::empty());
        assert(walk@.bands =~= Seq::empty());
        walk
    }

    /// The latches at the start of a record.
    fn fresh_latches() -> (latches: RecordLatches)
        ensures
            latches == RecordLatches::fresh(),
    {
        RecordLatches {
            qso_date: FoundCaptured::default(),
            time: FoundCaptured::default(),
            band: FoundCaptured::default(),
            call: FoundCaptured::default(),
            mode: FoundCaptured::default(),
            rst_sent: FoundCaptured::default(),
            stx: FoundCaptured::default(),
            rst_rcvd: FoundCaptured::default(),
            srx: FoundCaptured::default(),
            gridsquare: FoundCaptured::default(),
        }
    }

    /// Sets the latch of `tag`.
    fn mark(&mut self, tag: RecordTag)
        ensures
            final(self)@ == old(self)@.marked(tag),
            final(self).bands == old(self).bands,
    {
        match tag {
            RecordTag::StationCallsign => self.station_callsign.set_found(),
            RecordTag::QsoDate => self.latches.qso_date.set_found(),
            RecordTag::TimeOn => self.latches.time.set_found(),
            RecordTag::Band => self.latches.band.set_found(),
            RecordTag::Call => self.latches.call.set_found(),
            RecordTag::Mode => self.latches.mode.set_found(),
            RecordTag::RstSent => self.latches.rst_sent.set_found(),
            RecordTag::Stx => self.latches.stx.set_found(),
            RecordTag::RstRcvd => self.latches.rst_rcvd.set_found(),
            RecordTag::Srx => self.latches.srx.set_found(),
            RecordTag::Gridsquare => self.latches.gridsquare.set_found(),
            RecordTag::MyGridsquare => self.my_square.set_found(),
        }
    }

    /// Announces a length to every latch of the record tags.
    fn declare_length(&mut self, len: usize)
        ensures
            final(self)@ == old(self)@.declared(len),
            final(self).bands == old(self).bands,
    {
        self.station_callsign.set_length(len);
        self.latches.qso_date.set_length(len);
        self.latches.time.set_length(len);
        self.latches.band.set_length(len);
        self.latches.call.set_length(len);
        self.latches.mode.set_length(len);
        self.latches.rst_sent.set_length(len);
        self.latches.stx.set_length(len);
        self.latches.rst_rcvd.set_length(len);
        self.latches.srx.set_length(len);
        self.latches.gridsquare.set_length(len);
        self.my_square.set_length(len);
    }

    /// Offers a value to the latch of the station's callsign.
    fn take_station_callsign(&mut self, value: &str)
        ensures
            final(self)@ == old(self)@.take_station_callsign(value@),
            final(self).bands == old(self).bands,
    {
        reveal(WalkModel::take_station_callsign);
        if self.station_callsign.is_found() {
            self.pcall = value.to_owned();
        }
    }

    /// Offers a value to the latch of the station's locator.
    fn take_my_square(&mut self, value: &str)
        ensures
            final(self)@ == old(self)@.take_my_square(value@),
            final(self).bands == old(self).bands,
    {
        reveal(WalkModel::take_my_square);
        if self.my_square.is_found() {
            self.pwwlo = value.to_owned();
        }
    }

    /// Offers a value to the latch of the contact date.
    fn take_qso_date(&mut self, value: &str) -> (done: Result<(), ConvertError>)
        ensures
            match done {
                Ok(()) => old(self)@.take_qso_date(value@) == Ok::<WalkModel, ConvertError>(
                    final(self)@,
                ),
                Err(e) => old(self)@.take_qso_date(value@) == Err::<WalkModel, ConvertError>(e),
            },
            final(self).bands == old(self).bands,
    {
        reveal(WalkModel::take_qso_date);
        if self.latches.qso_date.is_found() {
            match parse_decimal(value, 4294967295) {
                Some(date) => {
                    self.dates.observe(date as u32, value);
                    self.record.date = skip_chars(value, 2);
                },
                None => {
                    return Err(ConvertError::MalformedNumericField(NumericField::QsoDate));
                },
            }
        }
        Ok(())
    }

    /// Offers a value to the latch of the contact time.
    fn take_time(&mut self, value: &str)
        ensures
            final(self)@ == old(self)@.take_time(value@),
            final(self).bands == old(self).bands,
    {
        reveal(WalkModel::take_time);
        if self.latches.time.is_found() {
            self.record.time = take_chars(value, 4);
        }
    }

    /// Offers a trimmed value to the latch of the band.
    fn take_band(&mut self, value: &str)
        requires
            value@ == trimmed(value@),
        ensures
            final(self)@ == old(self)@.take_band(value@),
            final(self).bands == old(self).bands,
    {
        reveal(WalkModel::take_band);
        if self.latches.band.is_found() {
            self.pband = Reg1testHeader::get_band(value);
        }
    }

    /// Offers a value to the latch of the callsign worked.
    fn take_call(&mut self, value: &str)
        ensures
            final(self)@ == old(self)@.take_call(value@),
            final(self).bands == old(self).bands,
    {
        reveal(WalkModel::take_call);
        if self.latches.call.is_found() {
            self.record.call = value.to_owned();
        }
    }

    /// Offers a trimmed value to the latch of the mode.
    fn take_mode(&mut self, value: &str)
        requires
            value@ == trimmed(value@),
        ensures
            final(self)@ == old(self)@.take_mode(value@),
            final(self).bands == old(self).bands,
    {
        reveal(WalkModel::take_mode);
        if self.latches.mode.is_found() {
            self.record.mode_code = Reg1testQSORecord::get_mode(value);
        }
    }

    /// Offers a value to the latch of the report sent.
    fn take_rst_sent(&mut self, value: &str)
        ensures
            final(self)@ == old(self)@.take_rst_sent(value@),
            final(self).bands == old(self).bands,
    {
        reveal(WalkModel::take_rst_sent);
        if self.latches.rst_sent.is_found() {
            self.record.sent_rst = value.to_owned();
        }
    }

    /// Offers a value to the latch of the contact number sent.
    fn take_stx(&mut self, value: &str) -> (done: Result<(), ConvertError>)
        ensures
            match done {
                Ok(()) => old(self)@.take_stx(value@) == Ok::<WalkModel, ConvertError>(
                    final(self)@,
                ),
                Err(e) => old(self)@.take_stx(value@) == Err::<WalkModel, ConvertError>(e),
            },
            final(self).bands == old(self).bands,
    {
        reveal(WalkModel::take_stx);
        if self.latches.stx.is_found() {
            match parse_contact_number(value) {
                Some(number) => {
                    self.record.sent_qso_number = number;
                },
                None => {
                    return Err(ConvertError::MalformedNumericField(NumericField::Stx));
                },
            }
        }
        Ok(())
    }

    /// Offers a value to the latch of the report received.
    fn take_rst_rcvd(&mut self, value: &str)
        ensures
            final(self)@ == old(self)@.take_rst_rcvd(value@),
            final(self).bands == old(self).bands,
    {
        reveal(WalkModel::take_rst_rcvd);
        if self.latches.rst_rcvd.is_found() {
            self.record.received_rst = value.to_owned();
        }
    }

    /// Offers a value to the latch of the contact number received.
    fn take_srx(&mut self, value: &str) -> (done: Result<(), ConvertError>)
        ensures
            match done {
                Ok(()) => old(self)@.take_srx(value@) == Ok::<WalkModel, ConvertError>(
                    final(self)@,
                ),
                Err(e) => old(self)@.take_srx(value@) == Err::<WalkModel, ConvertError>(e),
            },
            final(self).bands == old(self).bands,
    {
        reveal(WalkModel::take_srx);
        if self.latches.srx.is_found() {
            match parse_contact_number(value) {
                Some(number) => {
                    self.record.received_qso_number = number;
                },
                None => {
                    return Err(ConvertError::MalformedNumericField(NumericField::Srx));
                },
            }
        }
        Ok(())
    }

    /// Offers a value to the latch of the locator received.
    fn take_gridsquare(&mut self, value: &str)
        ensures
            final(self)@ == old(self)@.take_gridsquare(value@),
            final(self).bands == old(self).bands,
    {
        reveal(WalkModel::take_gridsquare);
        if self.latches.gridsquare.is_found() {
            self.record.received_wwl = value.to_owned();
        }
    }

    /// Offers a trimmed value to every latch of the record tags, in a
    /// fixed order, and gives the value to each tag that takes it.
    fn take_value(&mut self, value: &str) -> (done: Result<(), ConvertError>)
        requires
            value@ == trimmed(value@),
        ensures
            match done {
                Ok(()) => old(self)@.valued(value@) == Ok::<WalkModel, ConvertError>(final(self)@),
                Err(e) => old(self)@.valued(value@) == Err::<WalkModel, ConvertError>(e),
            },
            final(self).bands == old(self).bands,
    {
        self.take_station_callsign(value);
        match self.take_qso_date(value) {
            Err(e) => {
                return Err(e);
            },
            Ok(()) => {},
        }
        self.take_time(value);
        self.take_band(value);
        self.take_call(value);
        self.take_mode(value);
        self.take_rst_sent(value);
        match self.take_stx(value) {
            Err(e) => {
                return Err(e);
            },
            Ok(()) => {},
        }
        self.take_rst_rcvd(value);
        match self.take_srx(value) {
            Err(e) => {
                return Err(e);
            },
            Ok(()) => {},
        }
        self.take_gridsquare(value);
        self.take_my_square(value);
        Ok(())
    }

    /// Reads one child of a field of a record.
    fn scan_field_child(&mut self, node: &ParseNode) -> (done: Result<(), ConvertError>)
        ensures
            match done {
                Ok(()) => old(self)@.field_child(*node) == Ok::<WalkModel, ConvertError>(
                    final(self)@,
                ),
                Err(e) => old(self)@.field_child(*node) == Err::<WalkModel, ConvertError>(e),
            },
            final(self).bands == old(self).bands,
    {
        match node.kind {
            NodeKind::FieldName => {
                let upper = node.text.as_str().to_uppercase();
                match record_tag_of(upper.as_str()) {
                    Some(tag) => self.mark(tag),
                    None => {},
                }
                Ok(())
            },
            NodeKind::DataLength => {
                match parse_decimal(node.text.as_str(), usize::MAX as u64) {
                    Some(len) => self.declare_length(len as usize),
                    None => {},
                }
                Ok(())
            },
            NodeKind::Data => {
                let value = trim(node.text.as_str());
                proof {
                    lemma_trimmed_idempotent(node.text@);
                }
                self.take_value(value.as_str())
            },
            _ => Ok(()),
        }
    }

    /// Reads a field of a record: its name, its length, its value.
    fn scan_field(&mut self, node: &ParseNode) -> (done: Result<(), ConvertError>)
        ensures
            match done {
                Ok(()) => old(self)@.field(*node) == Ok::<WalkModel, ConvertError>(final(self)@),
                Err(e) => old(self)@.field(*node) == Err::<WalkModel, ConvertError>(e),
            },
            final(self).bands == old(self).bands,
    {
        let ghost start = self@;
        let count = node.children.len();
        let mut i: usize = 0;
        while i < count
            invariant
                i <= count,
                count == node.children@.len(),
                start == old(self)@,
                fold_nodes(node.children@, i as nat, start, field_step()) == Ok::<
                    WalkModel,
                    ConvertError,
                >(self@),
                self.bands == old(self).bands,
            decreases count - i,
        {
            match self.scan_field_child(&node.children[i]) {
                Err(e) => {
                    proof {
                        lemma_fold_error(
                            node.children@,
                            (i + 1) as nat,
                            count as nat,
                            start,
                            field_step(),
                        );
                    }
                    return Err(e);
                },
                Ok(()) => {},
            }
            i += 1;
        }
        Ok(())
    }

    /// Forgets the record read before.
    fn begin_record(&mut self)
        ensures
            final(self)@ == old(self)@.begin_record(),
            final(self).bands == old(self).bands,
    {
        self.latches = Self::fresh_latches();
        self.record = Reg1testQSORecord::default();
        self.pband = String::new();
    }

    /// The header of a band that starts now.
    fn band_header(&self) -> (header: Reg1testHeader)
        ensures
            header@ == self@.band_header(),
    {
        let mut header = Reg1testHeader::default();
        header.pcall = self.pcall.clone();
        header.pwwlo = self.pwwlo.clone();
        header.pband = self.pband.clone();
        header
    }

    /// The place of the first band labelled `label`; the number of bands
    /// when there is none.
    fn find_band(&self, label: &String) -> (place: usize)
        ensures
            place == band_index(self@.bands, label@),
            place <= self.bands@.len(),
    {
        let mut i: usize = 0;
        while i < self.bands.len()
            invariant
                i <= self.bands@.len(),
                forall|k: int| 0 <= k < i ==> (#[trigger] self@.bands[k]).header.pband != label@,
            decreases self.bands@.len() - i,
        {
            if self.bands[i].header.pband == *label {
                proof {
                    lemma_band_index(self@.bands, label@, i as int);
                }
                return i;
            }
            i += 1;
        }
        proof {
            lemma_band_index(self@.bands, label@, i as int);
        }
        i
    }

    /// Hands the record read to its band and forgets it.
    fn end_record(&mut self)
        requires
            old(self).wf(),
        ensures
            final(self).wf(),
            final(self)@ == old(self)@.end_record(),
    {
        let mut record = Reg1testQSORecord::default();
        core::mem::swap(&mut record, &mut self.record);
        let place = self.find_band(&self.pband);
        if place < self.bands.len() {
            self.bands[place].add_qso(record);
        } else {
            let mut band = Band { header: self.band_header(), records: Reg1testQSOs::default() };
            band.add_qso(record);
            self.bands.push(band);
        }
        self.latches = Self::fresh_latches();
        self.pband = String::new();
        assert(self@.bands =~= old(self)@.end_record().bands);
    }

    /// Reads a record and hands it to its band.
    fn scan_record(&mut self, node: &ParseNode) -> (done: Result<(), ConvertError>)
        requires
            old(self).wf(),
        ensures
            final(self).wf(),
            match done {
                Ok(()) => old(self)@.record(*node) == Ok::<WalkModel, ConvertError>(final(self)@),
                Err(e) => old(self)@.record(*node) == Err::<WalkModel, ConvertError>(e),
            },
    {
        self.begin_record();
        let ghost start = self@;
        let count = node.children.len();
        let mut i: usize = 0;
        while i < count
            invariant
                i <= count,
                count == node.children@.len(),
                start == old(self)@.begin_record(),
                fold_nodes(node.children@, i as nat, start, record_step()) == Ok::<
                    WalkModel,
                    ConvertError,
                >(self@),
                self.wf(),
            decreases count - i,
        {
            let child = &node.children[i];
            if child.kind == NodeKind::Field {
                match self.scan_field(child) {
                    Err(e) => {
                        proof {
                            lemma_fold_error(
                                node.children@,
                                (i + 1) as nat,
                                count as nat,
                                start,
                                record_step(),
                            );
                        }
                        return Err(e);
                    },
                    Ok(()) => {},
                }
            }
            i += 1;
        }
        self.end_record();
        Ok(())
    }

    /// Adds a remark line.
    fn remark(&mut self, line: String)
        ensures
            final(self)@ == old(self)@.remarked(line@),
            final(self).bands == old(self).bands,
    {
        self.remarks.push(line);
        assert(self@.remarks =~= old(self)@.remarks.push(line@));
    }

    /// Sets the latch of a header tag.
    fn mark_header(&mut self, tag: HeaderTag)
        ensures
            final(self)@ == (WalkModel {
                header_latches: old(self)@.header_latches.marked(tag),
                ..old(self)@
            }),
            final(self).bands == old(self).bands,
    {
        match tag {
            HeaderTag::AdifVer => self.header_latches.adif_ver.set_found(),
            HeaderTag::CreatedTimestamp => self.header_latches.created_timestamp.set_found(),
            HeaderTag::ProgramId => self.header_latches.program_id.set_found(),
            HeaderTag::ProgramVersion => self.header_latches.program_version.set_found(),
        }
    }

    /// Announces a length to every latch of the header tags.
    fn declare_header_length(&mut self, len: usize)
        ensures
            final(self)@ == (WalkModel {
                header_latches: old(self)@.header_latches.declared(len),
                ..old(self)@
            }),
            final(self).bands == old(self).bands,
    {
        self.header_latches.adif_ver.set_length(len);
        self.header_latches.created_timestamp.set_length(len);
        self.header_latches.program_id.set_length(len);
        self.header_latches.program_version.set_length(len);
    }

    /// Offers a value to every latch of the header tags; each tag that
    /// takes it adds a remark line.
    fn take_header_value(&mut self, value: &str)
        ensures
            final(self)@ == old(self)@.header_valued(value@),
            final(self).bands == old(self).bands,
    {
        if self.header_latches.adif_ver.is_found() {
            let mut line = "ADIF_VER=".to_owned();
            line.append(value);
            self.remarks.push(line);
        }
        if self.header_latches.created_timestamp.is_found() {
            let mut line = "CREATED_TIMESTAMP=".to_owned();
            line.append(value);
            self.remarks.push(line);
        }
        if self.header_latches.program_id.is_found() {
            let mut line = "PROGRAMID=".to_owned();
            line.append(value);
            self.remarks.push(line);
        }
        if self.header_latches.program_version.is_found() {
            let mut line = "PROGRAMVERSION=".to_owned();
            line.append(value);
            self.remarks.push(line);
        }
        assert(self@.remarks =~= old(self)@.header_valued(value@).remarks);
    }

    /// Reads one child of a field of the header.
    fn scan_header_field_child(&mut self, node: &ParseNode)
        ensures
            old(self)@.header_field_child(*node) == Ok::<WalkModel, ConvertError>(final(self)@),
            final(self).bands == old(self).bands,
    {
        match node.kind {
            NodeKind::FieldName => {
                let upper = node.text.as_str().to_uppercase();
                match header_tag_of(upper.as_str()) {
                    Some(tag) => self.mark_header(tag),
                    None => {},
                }
            },
            NodeKind::DataLength => {
                match parse_decimal(node.text.as_str(), usize::MAX as u64) {
                    Some(len) => self.declare_header_length(len as usize),
                    None => {},
                }
            },
            NodeKind::Data => {
                let value = trim(node.text.as_str());
                self.take_header_value(value.as_str());
            },
            _ => {},
        }
    }

    /// Reads one child of the header.
    fn scan_header_child(&mut self, node: &ParseNode)
        ensures
            old(self)@.header_child(*node) == Ok::<WalkModel, ConvertError>(final(self)@),
            final(self).bands == old(self).bands,
    {
        let ghost start = self@;
        match node.kind {
            NodeKind::LiteralLine => {
                self.remark(trim(node.text.as_str()));
            },
            NodeKind::MultiLineBlock => {
                let count = node.children.len();
                let mut i: usize = 0;
                while i < count
                    invariant
                        i <= count,
                        count == node.children@.len(),
                        fold_nodes(node.children@, i as nat, start, block_step()) == Ok::<
                            WalkModel,
                            ConvertError,
                        >(self@),
                        self.bands == old(self).bands,
                    decreases count - i,
                {
                    let child = &node.children[i];
                    if child.kind == NodeKind::LiteralLine {
                        self.remark(trim(child.text.as_str()));
                    }
                    i += 1;
                }
            },
            NodeKind::Field => {
                let count = node.children.len();
                let mut i: usize = 0;
                while i < count
                    invariant
                        i <= count,
                        count == node.children@.len(),
                        fold_nodes(node.children@, i as nat, start, header_field_step()) == Ok::<
                            WalkModel,
                            ConvertError,
                        >(self@),
                        self.bands == old(self).bands,
                    decreases count - i,
                {
                    self.scan_header_field_child(&node.children[i]);
                    i += 1;
                }
            },
            _ => {},
        }
    }

    /// Reads the header of the document.
    fn scan_header(&mut self, node: &ParseNode)
        ensures
            old(self)@.header(*node) == Ok::<WalkModel, ConvertError>(final(self)@),
            final(self).bands == old(self).bands,
    {
        let ghost start = self@;
        let count = node.children.len();
        let mut i: usize = 0;
        while i < count
            invariant
                i <= count,
                count == node.children@.len(),
                fold_nodes(node.children@, i as nat, start, header_step()) == Ok::<
                    WalkModel,
                    ConvertError,
                >(self@),
                self.bands == old(self).bands,
            decreases count - i,
        {
            self.scan_header_child(&node.children[i]);
            i += 1;
        }
    }

    /// Walks over a whole document.
    pub fn over(document: &ParseNode) -> (end: Result<Walk, ConvertError>)
        ensures
            match end {
                Ok(walk) => walked(*document) == Ok::<WalkModel, ConvertError>(walk@) && walk.wf(),
                Err(e) => walked(*document) == Err::<WalkModel, ConvertError>(e),
            },
    {
        let mut walk = Walk::new();
        let count = document.children.len();
        let mut i: usize = 0;
        while i < count
            invariant
                i <= count,
                count == document.children@.len(),
                fold_nodes(document.children@, i as nat, WalkModel::start(), document_step())
                    == Ok::<WalkModel, ConvertError>(walk@),
                walk.wf(),
            decreases count - i,
        {
            let child = &document.children[i];
            match child.kind {
                NodeKind::Header => {
                    walk.scan_header(child);
                },
                NodeKind::Record => {
                    match walk.scan_record(child) {
                        Err(e) => {
                            proof {
                                lemma_fold_error(
                                    document.children@,
                                    (i + 1) as nat,
                                    count as nat,
                                    WalkModel::start(),
                                    document_step(),
                                );
                            }
                            return Err(e);
                        },
                        Ok(()) => {},
                    }
                },
                _ => {},
            }
            i += 1;
        }
        Ok(walk)
    }
}

} // verus!
