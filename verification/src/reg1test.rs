//! The REG1TEST sections: header, remarks and contact records, with the
//! text that each of them contributes to the output.

use crate::text::{
    decimal_digits, lemma_decimal_digits, lemma_parse_decimal_digits, lemma_without_leading_zeros,
    parse_decimal, parse_unsigned, push_decimal, push_zero_padded, str_eq, strip_leading_zeros,
    trim, trimmed, without_leading_zeros, zero_padded, zeros,
};
use vstd::prelude::*;

verus! {

/// Header of one band section.
#[derive(Debug)]
pub struct Reg1testHeader {
    /// Section name with the format version, `REG1TEST;1`.
    pub name: String,
    /// First and last contact date of the document, `first;last`.
    pub tdate: String,
    /// Callsign of the originating station.
    pub pcall: String,
    /// Locator of the originating station.
    pub pwwlo: String,
    /// Frequency label of the band.
    pub pband: String,
    /// Contest section; its line is left out while this is empty.
    pub psect: String,
    /// Club; its line is left out while this is empty.
    pub pclub: String,
}

/// What a [`Reg1testHeader`] holds, as character sequences.
pub struct HeaderModel {
    pub name: Seq<char>,
    pub tdate: Seq<char>,
    pub pcall: Seq<char>,
    pub pwwlo: Seq<char>,
    pub pband: Seq<char>,
    pub psect: Seq<char>,
    pub pclub: Seq<char>,
}

impl HeaderModel {
    /// The header that nothing has been written to.
    pub open spec fn fresh() -> HeaderModel {
        HeaderModel {
            name: "REG1TEST;1"@,
            tdate: Seq::empty(),
            pcall: Seq::empty(),
            pwwlo: Seq::empty(),
            pband: Seq::empty(),
            psect: Seq::empty(),
            pclub: Seq::empty(),
        }
    }

    /// The line `\nkey value`, or nothing when the value is empty.
    pub open spec fn optional_line(key: Seq<char>, value: Seq<char>) -> Seq<char> {
        if value.len() == 0 {
            Seq::empty()
        } else {
            seq!['\n'] + key + value
        }
    }

    /// The header lines. The last line does not end in a line break.
    pub open spec fn text(self) -> Seq<char> {
        seq!['['] + self.name + seq![']', '\n'] + "TDate="@ + self.tdate + seq!['\n'] + "PCall="@
            + self.pcall + seq!['\n'] + "PWWLo="@ + self.pwwlo + seq!['\n'] + "PBand="@
            + self.pband + Self::optional_line("PSect="@, self.psect) + Self::optional_line(
            "PClub="@,
            self.pclub,
        )
    }
}

impl View for Reg1testHeader {
    type V = HeaderModel;

    open spec fn view(&self) -> HeaderModel {
        HeaderModel {
            name: self.name@,
            tdate: self.tdate@,
            pcall: self.pcall@,
            pwwlo: self.pwwlo@,
            pband: self.pband@,
            psect: self.psect@,
            pclub: self.pclub@,
        }
    }
}

impl Default for Reg1testHeader {
    fn default() -> (header: Reg1testHeader)
        ensures
            header@ == HeaderModel::fresh(),
    {
        Reg1testHeader {
            name: "REG1TEST;1".to_owned(),
            tdate: String::new(),
            pcall: String::new(),
            pwwlo: String::new(),
            pband: String::new(),
            psect: String::new(),
            pclub: String::new(),
        }
    }
}

/// The frequency label of an ADIF band designator; empty for a designator
/// that the table does not hold. The match is exact and case-sensitive.
pub open spec fn band_label(adif_band: Seq<char>) -> Seq<char> {
    if adif_band == "6m"@ {
        "50 MHz"@
    } else if adif_band == "4m"@ {
        "70 MHz"@
    } else if adif_band == "2m"@ {
        "144 MHz"@
    } else if adif_band == "70cm"@ {
        "432 MHz"@
    } else if adif_band == "23cm"@ {
        "1,3 GHz"@
    } else if adif_band == "13cm"@ {
        "2,3 GHz"@
    } else if adif_band == "9cm"@ {
        "3,4 GHz"@
    } else if adif_band == "6cm"@ {
        "5,7 GHz"@
    } else if adif_band == "3cm"@ {
        "10 GHz"@
    } else if adif_band == "1.25cm"@ {
        "24 GHz"@
    } else if adif_band == "6mm"@ {
        "47 GHz"@
    } else if adif_band == "4mm"@ {
        "76 GHz"@
    } else if adif_band == "2.5mm"@ {
        "120 GHz"@
    } else if adif_band == "2mm"@ {
        "144 GHz"@
    } else if adif_band == "1mm"@ {
        "248 GHz"@
    } else {
        Seq::empty()
    }
}

impl Reg1testHeader {
    /// The frequency label for an ADIF band designator, which may be
    /// surrounded by white space.
    pub fn get_band(band: &str) -> (label: String)
        ensures
            label@ == band_label(trimmed(band@)),
    {
        let designator = trim(band);
        let d = designator.as_str();
        if str_eq(d, "6m") {
            "50 MHz".to_owned()
        } else if str_eq(d, "4m") {
            "70 MHz".to_owned()
        } else if str_eq(d, "2m") {
            "144 MHz".to_owned()
        } else if str_eq(d, "70cm") {
            "432 MHz".to_owned()
        } else if str_eq(d, "23cm") {
            "1,3 GHz".to_owned()
        } else if str_eq(d, "13cm") {
            "2,3 GHz".to_owned()
        } else if str_eq(d, "9cm") {
            "3,4 GHz".to_owned()
        } else if str_eq(d, "6cm") {
            "5,7 GHz".to_owned()
        } else if str_eq(d, "3cm") {
            "10 GHz".to_owned()
        } else if str_eq(d, "1.25cm") {
            "24 GHz".to_owned()
        } else if str_eq(d, "6mm") {
            "47 GHz".to_owned()
        } else if str_eq(d, "4mm") {
            "76 GHz".to_owned()
        } else if str_eq(d, "2.5mm") {
            "120 GHz".to_owned()
        } else if str_eq(d, "2mm") {
            "144 GHz".to_owned()
        } else if str_eq(d, "1mm") {
            "248 GHz".to_owned()
        } else {
            String::new()
        }
    }

    /// The header lines of a band section.
    pub fn to_text(&self) -> (text: String)
        ensures
            text@ == self@.text(),
    {
        let mut out = String::new();
        out.push('[');
        out.append(self.name.as_str());
        out.push(']');
        out.push('\n');
        out.append("TDate=");
        out.append(self.tdate.as_str());
        out.push('\n');
        out.append("PCall=");
        out.append(self.pcall.as_str());
        out.push('\n');
        out.append("PWWLo=");
        out.append(self.pwwlo.as_str());
        out.push('\n');
        out.append("PBand=");
        out.append(self.pband.as_str());
        if !self.psect.as_str().is_empty() {
            out.push('\n');
            out.append("PSect=");
            out.append(self.psect.as_str());
        }
        if !self.pclub.as_str().is_empty() {
            out.push('\n');
            out.append("PClub=");
            out.append(self.pclub.as_str());
        }
        assert(out@ =~= self@.text());
        out
    }
}

/// The remarks section: free text lines taken from the document header.
#[derive(Debug)]
pub struct Reg1testRemarks {
    /// Section name, `Remarks`.
    pub name: String,
    /// The remark lines, in the order in which they were met.
    pub multi_line: Vec<String>,
}

/// What a [`Reg1testRemarks`] holds, as character sequences.
pub struct RemarksModel {
    pub name: Seq<char>,
    pub multi_line: Seq<Seq<char>>,
}

/// The views of a vector of strings.
pub open spec fn line_views(lines: Seq<String>) -> Seq<Seq<char>> {
    Seq::new(lines.len(), |i: int| lines[i]@)
}

/// Every line of `lines` with a line break in front of it.
pub open spec fn lines_text(lines: Seq<Seq<char>>) -> Seq<char>
    decreases lines.len(),
{
    if lines.len() == 0 {
        Seq::empty()
    } else {
        lines_text(lines.drop_last()) + seq!['\n'] + lines.last()
    }
}

impl RemarksModel {
    /// The remarks section without lines.
    pub open spec fn fresh() -> RemarksModel {
        RemarksModel { name: "Remarks"@, multi_line: Seq::empty() }
    }

    /// The section line and the remark lines. The last line does not end in
    /// a line break.
    pub open spec fn text(self) -> Seq<char> {
        seq!['['] + self.name + seq![']'] + lines_text(self.multi_line)
    }
}

impl View for Reg1testRemarks {
    type V = RemarksModel;

    open spec fn view(&self) -> RemarksModel {
        RemarksModel { name: self.name@, multi_line: line_views(self.multi_line@) }
    }
}

impl Default for Reg1testRemarks {
    fn default() -> (remarks: Reg1testRemarks)
        ensures
            remarks@ == RemarksModel::fresh(),
    {
        let remarks = Reg1testRemarks { name: "Remarks".to_owned(), multi_line: Vec::new() };
        assert(remarks@.multi_line =~= Seq::empty());
        remarks
    }
}

impl Reg1testRemarks {
    /// The section line followed by the remark lines.
    pub fn to_text(&self) -> (text: String)
        ensures
            text@ == self@.text(),
    {
        let mut out = String::new();
        out.push('[');
        out.append(self.name.as_str());
        out.push(']');
        let ghost head = out@;
        let ghost lines = self@.multi_line;
        let mut i: usize = 0;
        while i < self.multi_line.len()
            invariant
                i <= self.multi_line.len(),
                lines == line_views(self.multi_line@),
                out@ == head + lines_text(lines.take(i as int)),
            decreases self.multi_line.len() - i,
        {
            out.push('\n');
            out.append(self.multi_line[i].as_str());
            proof {
                assert(lines.take(i + 1).drop_last() =~= lines.take(i as int));
                assert(out@ =~= head + lines_text(lines.take(i + 1)));
            }
            i += 1;
        }
        assert(lines.take(i as int) =~= lines);
        out
    }
}

/// One contact, as REG1TEST records it.
#[derive(Debug)]
pub struct Reg1testQSORecord {
    /// Date, `YYMMDD`.
    pub date: String,
    /// Time in UTC, `HHMM`.
    pub time: String,
    /// Callsign of the station worked.
    pub call: String,
    /// Mode code, a digit.
    pub mode_code: char,
    /// Report sent.
    pub sent_rst: String,
    /// Contact number sent; 0 for none.
    pub sent_qso_number: u16,
    /// Report received.
    pub received_rst: String,
    /// Contact number received; 0 for none.
    pub received_qso_number: u16,
    /// Exchange received.
    pub received_exchange: String,
    /// Locator received.
    pub received_wwl: String,
    /// Points claimed for the contact.
    pub qso_points: String,
    /// Flag of a new exchange.
    pub new_exchange: String,
    /// Flag of a new locator.
    pub new_wwl: String,
    /// Flag of a new country.
    pub new_dxcc: String,
    /// Flag of a duplicate contact.
    pub duplicate_qso: String,
}

/// What a [`Reg1testQSORecord`] holds, as character sequences.
pub struct RecordModel {
    pub date: Seq<char>,
    pub time: Seq<char>,
    pub call: Seq<char>,
    pub mode_code: char,
    pub sent_rst: Seq<char>,
    pub sent_qso_number: u16,
    pub received_rst: Seq<char>,
    pub received_qso_number: u16,
    pub received_exchange: Seq<char>,
    pub received_wwl: Seq<char>,
    pub qso_points: Seq<char>,
    pub new_exchange: Seq<char>,
    pub new_wwl: Seq<char>,
    pub new_dxcc: Seq<char>,
    pub duplicate_qso: Seq<char>,
}

/// How a contact number is written: nothing for 0, else the number with
/// zeros in front up to three digits, or four above 999.
pub open spec fn contact_number_text(number: u16) -> Seq<char> {
    if number == 0 {
        Seq::empty()
    } else if number > 999 {
        zero_padded(number as nat, 4)
    } else {
        zero_padded(number as nat, 3)
    }
}

/// The single-character mode code of an ADIF mode; `'0'` for a mode that
/// the table does not hold. The match is exact and case-sensitive.
pub open spec fn mode_code(adif_mode: Seq<char>) -> char {
    if adif_mode == "SSB"@ {
        '1'
    } else if adif_mode == "CW"@ {
        '2'
    } else if adif_mode == "AM"@ {
        '5'
    } else if adif_mode == "FM"@ {
        '6'
    } else if adif_mode == "RTTY"@ {
        '7'
    } else if adif_mode == "SSTV"@ {
        '8'
    } else if adif_mode == "ATV"@ {
        '9'
    } else {
        '0'
    }
}

impl RecordModel {
    /// The record of a contact of which nothing is known.
    pub open spec fn fresh() -> RecordModel {
        RecordModel {
            date: Seq::empty(),
            time: Seq::empty(),
            call: Seq::empty(),
            mode_code: '0',
            sent_rst: Seq::empty(),
            sent_qso_number: 0,
            received_rst: Seq::empty(),
            received_qso_number: 0,
            received_exchange: Seq::empty(),
            received_wwl: Seq::empty(),
            qso_points: Seq::empty(),
            new_exchange: Seq::empty(),
            new_wwl: Seq::empty(),
            new_dxcc: Seq::empty(),
            duplicate_qso: Seq::empty(),
        }
    }

    /// The record line: fifteen fields, a semicolon after each but the last,
    /// and a line break at the end.
    pub open spec fn line(self) -> Seq<char> {
        self.date.push(';') + self.time.push(';') + self.call.push(';') + seq![
            self.mode_code,
            ';',
        ] + self.sent_rst.push(';') + contact_number_text(self.sent_qso_number).push(';')
            + self.received_rst.push(';') + contact_number_text(self.received_qso_number).push(
            ';',
        ) + self.received_exchange.push(';') + self.received_wwl.push(';')
            + self.qso_points.push(';') + self.new_exchange.push(';') + self.new_wwl.push(';')
            + self.new_dxcc.push(';') + self.duplicate_qso.push('\n')
    }
}

impl View for Reg1testQSORecord {
    type V = RecordModel;

    open spec fn view(&self) -> RecordModel {
        RecordModel {
            date: self.date@,
            time: self.time@,
            call: self.call@,
            mode_code: self.mode_code,
            sent_rst: self.sent_rst@,
            sent_qso_number: self.sent_qso_number,
            received_rst: self.received_rst@,
            received_qso_number: self.received_qso_number,
            received_exchange: self.received_exchange@,
            received_wwl: self.received_wwl@,
            qso_points: self.qso_points@,
            new_exchange: self.new_exchange@,
            new_wwl: self.new_wwl@,
            new_dxcc: self.new_dxcc@,
            duplicate_qso: self.duplicate_qso@,
        }
    }
}

impl Default for Reg1testQSORecord {
    fn default() -> (record: Reg1testQSORecord)
        ensures
            record@ == RecordModel::fresh(),
    {
        Reg1testQSORecord {
            date: String::new(),
            time: String::new(),
            call: String::new(),
            mode_code: '0',
            sent_rst: String::new(),
            sent_qso_number: 0,
            received_rst: String::new(),
            received_qso_number: 0,
            received_exchange: String::new(),
            received_wwl: String::new(),
            qso_points: String::new(),
            new_exchange: String::new(),
            new_wwl: String::new(),
            new_dxcc: String::new(),
            duplicate_qso: String::new(),
        }
    }
}

/// Appends a contact number to `out` as a record line shows it.
pub fn push_contact_number(out: &mut String, number: u16)
    ensures
        final(out)@ == old(out)@ + contact_number_text(number),
{
    if number > 0 {
        if number > 999 {
            push_zero_padded(out, number as u64, 4);
        } else {
            push_zero_padded(out, number as u64, 3);
        }
    } else {
        assert(out@ + contact_number_text(number) =~= out@);
    }
}

/// What a contact number denotes: the value without its leading zeros is
/// read as a number that fits 16 bits; nothing but zeros denotes 0.
pub open spec fn contact_number(value: Seq<char>) -> Option<u16> {
    let digits = without_leading_zeros(value);
    if digits.len() == 0 {
        Some(0u16)
    } else {
        match parse_unsigned(digits, u16::MAX as nat) {
            Some(number) => Some(number as u16),
            None => None,
        }
    }
}

/// Reads a contact number: leading zeros are dropped, and what is left is
/// read as a number; nothing left is 0.
pub fn parse_contact_number(value: &str) -> (number: Option<u16>)
    ensures
        number == contact_number(value@),
{
    let digits = strip_leading_zeros(value);
    if digits.as_str().is_empty() {
        Some(0)
    } else {
        match parse_decimal(digits.as_str(), 65535) {
            Some(n) => Some(n as u16),
            None => None,
        }
    }
}

/// A contact number written into a record line reads back as the same
/// number.
pub proof fn lemma_contact_number_round_trip(number: u16)
    ensures
        contact_number(contact_number_text(number)) == Some(number),
{
    if number == 0 {
        assert(without_leading_zeros(Seq::<char>::empty()) =~= Seq::<char>::empty());
    } else {
        let digits = decimal_digits(number as nat);
        lemma_decimal_digits(number as nat);
        lemma_parse_decimal_digits(number as nat, u16::MAX as nat);
        let width: nat = if number > 999 {
            4
        } else {
            3
        };
        if digits.len() >= width {
            lemma_without_leading_zeros(0, digits);
            assert(zeros(0) + digits =~= digits);
        } else {
            lemma_without_leading_zeros((width - digits.len()) as nat, digits);
        }
    }
}

impl Reg1testQSORecord {
    /// The mode code for an ADIF mode, which may be surrounded by white
    /// space.
    pub fn get_mode(mode_string: &str) -> (code: char)
        ensures
            code == mode_code(trimmed(mode_string@)),
    {
        let mode = trim(mode_string);
        let m = mode.as_str();
        if str_eq(m, "SSB") {
            '1'
        } else if str_eq(m, "CW") {
            '2'
        } else if str_eq(m, "AM") {
            '5'
        } else if str_eq(m, "FM") {
            '6'
        } else if str_eq(m, "RTTY") {
            '7'
        } else if str_eq(m, "SSTV") {
            '8'
        } else if str_eq(m, "ATV") {
            '9'
        } else {
            '0'
        }
    }

    /// The record line of the contact, line break included.
    pub fn to_text(&self) -> (line: String)
        ensures
            line@ == self@.line(),
    {
        let mut out = String::new();
        out.append(self.date.as_str());
        out.push(';');
        out.append(self.time.as_str());
        out.push(';');
        out.append(self.call.as_str());
        out.push(';');
        out.push(self.mode_code);
        out.push(';');
        out.append(self.sent_rst.as_str());
        out.push(';');
        push_contact_number(&mut out, self.sent_qso_number);
        out.push(';');
        out.append(self.received_rst.as_str());
        out.push(';');
        push_contact_number(&mut out, self.received_qso_number);
        out.push(';');
        out.append(self.received_exchange.as_str());
        out.push(';');
        out.append(self.received_wwl.as_str());
        out.push(';');
        out.append(self.qso_points.as_str());
        out.push(';');
        out.append(self.new_exchange.as_str());
        out.push(';');
        out.append(self.new_wwl.as_str());
        out.push(';');
        out.append(self.new_dxcc.as_str());
        out.push(';');
        out.append(self.duplicate_qso.as_str());
        out.push('\n');
        assert(out@ =~= self@.line());
        out
    }
}

/// The contact records of one band.
#[derive(Debug)]
pub struct Reg1testQSOs {
    /// Section name, `QSORecords`.
    pub name: String,
    /// Number of records; equal to the length of `qso_records`.
    pub count: usize,
    /// The records, in the order of the document.
    pub qso_records: Vec<Reg1testQSORecord>,
}

/// What a [`Reg1testQSOs`] holds, as character sequences.
pub struct RecordsModel {
    pub name: Seq<char>,
    pub count: nat,
    pub qso_records: Seq<RecordModel>,
}

/// The views of a vector of records.
pub open spec fn record_views(records: Seq<Reg1testQSORecord>) -> Seq<RecordModel> {
    Seq::new(records.len(), |i: int| records[i]@)
}

/// The record lines of `records`, one after the other.
pub open spec fn record_lines(records: Seq<RecordModel>) -> Seq<char>
    decreases records.len(),
{
    if records.len() == 0 {
        Seq::empty()
    } else {
        record_lines(records.drop_last()) + records.last().line()
    }
}

impl RecordsModel {
    /// The records section without records.
    pub open spec fn fresh() -> RecordsModel {
        RecordsModel { name: "QSORecords"@, count: 0, qso_records: Seq::empty() }
    }

    /// The count says how many records there are.
    pub open spec fn wf(self) -> bool {
        self.count == self.qso_records.len()
    }

    /// The section with one more record at its end.
    pub open spec fn with_record(self, record: RecordModel) -> RecordsModel {
        RecordsModel {
            name: self.name,
            count: self.count + 1,
            qso_records: self.qso_records.push(record),
        }
    }

    /// The section line with the count, then the record lines.
    pub open spec fn text(self) -> Seq<char> {
        seq!['['] + self.name + seq![';'] + decimal_digits(self.count) + seq![']', '\n']
            + record_lines(self.qso_records)
    }
}

impl View for Reg1testQSOs {
    type V = RecordsModel;

    open spec fn view(&self) -> RecordsModel {
        RecordsModel {
            name: self.name@,
            count: self.count as nat,
            qso_records: record_views(self.qso_records@),
        }
    }
}

impl Default for Reg1testQSOs {
    fn default() -> (records: Reg1testQSOs)
        ensures
            records@ == RecordsModel::fresh(),
    {
        let records = Reg1testQSOs {
            name: "QSORecords".to_owned(),
            count: 0,
            qso_records: Vec::new(),
        };
        assert(records@.qso_records =~= Seq::empty());
        records
    }
}

impl Reg1testQSOs {
    /// The section line with the count, then one line for each record.
    pub fn to_text(&self) -> (text: String)
        ensures
            text@ == self@.text(),
    {
        let mut out = String::new();
        out.push('[');
        out.append(self.name.as_str());
        out.push(';');
        push_decimal(&mut out, self.count as u64);
        out.push(']');
        out.push('\n');
        let ghost head = out@;
        let ghost records = self@.qso_records;
        let mut i: usize = 0;
        while i < self.qso_records.len()
            invariant
                i <= self.qso_records.len(),
                records == record_views(self.qso_records@),
                out@ == head + record_lines(records.take(i as int)),
            decreases self.qso_records.len() - i,
        {
            let line = self.qso_records[i].to_text();
            out.append(line.as_str());
            proof {
                assert(records.take(i + 1).drop_last() =~= records.take(i as int));
                assert(out@ =~= head + record_lines(records.take(i + 1)));
            }
            i += 1;
        }
        assert(records.take(i as int) =~= records);
        assert(out@ =~= self@.text());
        out
    }
}

} // verus!
