//! The conversion of a parsed ADIF document into REG1TEST text.

use crate::bands::{
    bands_filled, labels_distinct, stamped, total_count, BandModel,
};
use crate::laws::{lemma_bands_filled_and_distinct, lemma_counts_add_up, record_nodes};
use crate::model::{walked, WalkModel};
use crate::reg1test::{
    Reg1testHeader, Reg1testQSORecord, Reg1testQSOs, Reg1testRemarks, RemarksModel,
};
use crate::tree::ParseNode;
use crate::walk::Walk;
use vstd::prelude::*;

verus! {

/// A tag whose value must be a number.
#[derive(Clone, Copy, Debug, PartialEq, Eq, Structural)]
pub enum NumericField {
    /// `QSO_DATE`, the date of a contact.
    QsoDate,
    /// `STX`, the contact number sent.
    Stx,
    /// `SRX`, the contact number received.
    Srx,
}

/// Why a document cannot be converted.
#[derive(Clone, Copy, Debug, PartialEq, Eq, Structural)]
pub enum ConvertError {
    /// The value of a numeric tag is not an unsigned decimal number, or does
    /// not fit the field it is meant for.
    MalformedNumericField(NumericField),
}

impl NumericField {
    /// The name of the tag.
    pub open spec fn name(self) -> Seq<char> {
        match self {
            NumericField::QsoDate => "QSO_DATE"@,
            NumericField::Stx => "STX"@,
            NumericField::Srx => "SRX"@,
        }
    }
}

impl ConvertError {
    /// The message for the user.
    pub open spec fn text(self) -> Seq<char> {
        match self {
            ConvertError::MalformedNumericField(field) => "ERROR: malformed number in "@
                + field.name(),
        }
    }

    /// The message for the user: it names the tag whose value is no
    /// number.
    pub fn message(&self) -> (message: String)
        ensures
            message@ == self.text(),
    {
        let mut message = "ERROR: malformed number in ".to_owned();
        match self {
            ConvertError::MalformedNumericField(NumericField::QsoDate) => message.append("QSO_DATE"),
            ConvertError::MalformedNumericField(NumericField::Stx) => message.append("STX"),
            ConvertError::MalformedNumericField(NumericField::Srx) => message.append("SRX"),
        }
        message
    }
}

/// The contacts made on one band, under the header of their section.
#[derive(Debug)]
pub struct Band {
    pub header: Reg1testHeader,
    pub records: Reg1testQSOs,
}

impl View for Band {
    type V = BandModel;

    open spec fn view(&self) -> BandModel {
        BandModel { header: self.header@, records: self.records@ }
    }
}

/// The views of a vector of bands.
pub open spec fn band_views(bands: Seq<Band>) -> Seq<BandModel> {
    Seq::new(bands.len(), |i: int| bands[i]@)
}

impl Band {
    /// The count of the band says how many records it holds.
    pub open spec fn wf(&self) -> bool {
        self@.records.wf()
    }

    /// Adds a contact at the end of the band.
    pub fn add_qso(&mut self, qso: Reg1testQSORecord)
        requires
            old(self).wf(),
        ensures
            final(self).wf(),
            final(self)@ == old(self)@.with_record(qso@),
    {
        self.records.qso_records.push(qso);
        assert(self.records.qso_records.len() == old(self).records.count + 1);
        self.records.count += 1;
        assert(self@.records.qso_records =~= old(self)@.records.qso_records.push(qso@));
    }
}

/// The outcome of a conversion: the bands in the order in which the
/// document first named them, and the remarks of its header.
#[derive(Debug)]
pub struct Reg1testLog {
    pub bands: Vec<Band>,
    pub remarks: Reg1testRemarks,
}

/// The outcome of a conversion: the bands in the order in which they were
/// first met, and the remarks.
pub struct LogModel {
    pub bands: Seq<BandModel>,
    pub remarks: RemarksModel,
}

impl View for Reg1testLog {
    type V = LogModel;

    open spec fn view(&self) -> LogModel {
        LogModel { bands: band_views(self.bands@), remarks: self.remarks@ }
    }
}

/// The section of one band: header, remarks, records, and an empty line.
pub open spec fn band_text(band: BandModel, remarks: RemarksModel) -> Seq<char> {
    band.header.text() + seq!['\n'] + remarks.text() + seq!['\n'] + band.records.text() + seq![
        '\n',
    ]
}

/// The sections of `bands`, one after the other.
pub open spec fn bands_text(bands: Seq<BandModel>, remarks: RemarksModel) -> Seq<char>
    decreases bands.len(),
{
    if bands.len() == 0 {
        Seq::empty()
    } else {
        bands_text(bands.drop_last(), remarks) + band_text(bands.last(), remarks)
    }
}

impl LogModel {
    /// The remarks that the sections show: none when they are skipped.
    pub open spec fn shown_remarks(self, skip_remarks: bool) -> RemarksModel {
        if skip_remarks {
            RemarksModel { multi_line: Seq::empty(), ..self.remarks }
        } else {
            self.remarks
        }
    }

    /// The REG1TEST text of the log.
    pub open spec fn text(self, skip_remarks: bool) -> Seq<char> {
        bands_text(self.bands, self.shown_remarks(skip_remarks))
    }
}

/// The REG1TEST text of a document, or the error that its conversion ends
/// with.
pub open spec fn converted(document: ParseNode, skip_remarks: bool) -> Result<
    Seq<char>,
    ConvertError,
> {
    match walked(document) {
        Ok(end) => Ok(end.finished().text(skip_remarks)),
        Err(e) => Err(e),
    }
}

/// Whether `outcome` is what the conversion of `document` gives.
pub open spec fn converts_to(
    document: ParseNode,
    skip_remarks: bool,
    outcome: Result<String, ConvertError>,
) -> bool {
    match outcome {
        Ok(text) => converted(document, skip_remarks) == Ok::<Seq<char>, ConvertError>(text@),
        Err(e) => converted(document, skip_remarks) == Err::<Seq<char>, ConvertError>(e),
    }
}

/// Writes the date range `tdate` into the header of every band.
fn stamp_bands(bands: &mut Vec<Band>, tdate: &String)
    ensures
        band_views(final(bands)@) == stamped(band_views(old(bands)@), tdate@),
{
    let count = bands.len();
    let mut i: usize = 0;
    while i < count
        invariant
            i <= count,
            count == bands@.len(),
            bands@.len() == old(bands)@.len(),
            forall|k: int| 0 <= k < i ==> (#[trigger] bands@[k])@ == old(bands)@[k]@.with_dates(tdate@),
            forall|k: int| i <= k < count ==> (#[trigger] bands@[k]) == old(bands)@[k],
        decreases count - i,
    {
        bands[i].header.tdate = tdate.clone();
        i += 1;
    }
    assert(band_views(bands@) =~= stamped(band_views(old(bands)@), tdate@));
}

impl Reg1testLog {
    /// Converts a parsed document: gathers its contacts band by band and
    /// its remarks, and gives every band the date range of the document.
    pub fn from_document(document: &ParseNode) -> (log: Result<Reg1testLog, ConvertError>)
        ensures
            match log {
                Ok(log) => {
                    &&& walked(*document) matches Ok(end) && log@ == end.finished()
                    &&& total_count(log@.bands) == record_nodes(
                        document.children@,
                        document.children@.len(),
                    )
                    &&& bands_filled(log@.bands)
                    &&& labels_distinct(log@.bands)
                },
                Err(e) => walked(*document) == Err::<WalkModel, ConvertError>(e),
            },
    {
        proof {
            lemma_counts_add_up(*document);
            lemma_bands_filled_and_distinct(*document);
        }
        match Walk::over(document) {
            Err(e) => Err(e),
            Ok(walk) => {
                let tdate = walk.dates.to_text();
                let mut bands = walk.bands;
                stamp_bands(&mut bands, &tdate);
                let mut remarks = Reg1testRemarks::default();
                remarks.multi_line = walk.remarks;
                Ok(Reg1testLog { bands, remarks })
            },
        }
    }

    /// The REG1TEST text of the log: the sections of the bands one after
    /// the other. With `skip_remarks` the remarks sections stay empty.
    pub fn to_text(&self, skip_remarks: bool) -> (text: String)
        ensures
            text@ == self@.text(skip_remarks),
    {
        let remarks = if skip_remarks {
            let shown = Reg1testRemarks { name: self.remarks.name.clone(), multi_line: Vec::new() };
            assert(shown@.multi_line =~= Seq::empty());
            shown.to_text()
        } else {
            self.remarks.to_text()
        };
        let ghost shown = self@.shown_remarks(skip_remarks);
        let ghost bands = self@.bands;
        let mut out = String::new();
        let mut i: usize = 0;
        while i < self.bands.len()
            invariant
                i <= self.bands@.len(),
                bands == band_views(self.bands@),
                remarks@ == shown.text(),
                out@ == bands_text(bands.take(i as int), shown),
            decreases self.bands@.len() - i,
        {
            let band = &self.bands[i];
            let header = band.header.to_text();
            let records = band.records.to_text();
            out.append(header.as_str());
            out.push('\n');
            out.append(remarks.as_str());
            out.push('\n');
            out.append(records.as_str());
            out.push('\n');
            proof {
                assert(bands.take(i + 1).drop_last() =~= bands.take(i as int));
                assert(out@ =~= bands_text(bands.take(i as int), shown) + band_text(
                    bands[i as int],
                    shown,
                ));
            }
            i += 1;
        }
        assert(bands.take(i as int) =~= bands);
        out
    }
}

/// Converts a parsed ADIF document into REG1TEST text, one section for
/// each band. With `skip_remarks` the remarks sections stay empty.
///
/// The conversion fails when the value of a date or of a contact number is
/// not a number.
pub fn convert_to_reg1test(document: &ParseNode, skip_remarks: bool) -> (text: Result<
    String,
    ConvertError,
>)
    ensures
        converts_to(*document, skip_remarks, text),
{
    match Reg1testLog::from_document(document) {
        Ok(log) => Ok(log.to_text(skip_remarks)),
        Err(e) => Err(e),
    }
}

} // verus!
