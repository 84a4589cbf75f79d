use adi2edi::converter::Band;
use adi2edi::dates::DateRange;
use adi2edi::reg1test::{Reg1testHeader, Reg1testQSORecord, Reg1testQSOs, Reg1testRemarks};

fn contact(call: &str, sent: u16, received: u16) -> Reg1testQSORecord {
    let mut record = Reg1testQSORecord::default();
    record.date = "230615".to_string();
    record.time = "1430".to_string();
    record.call = call.to_string();
    record.mode_code = '2';
    record.sent_rst = "599".to_string();
    record.sent_qso_number = sent;
    record.received_rst = "579".to_string();
    record.received_qso_number = received;
    record.received_wwl = "FN31".to_string();
    record
}

#[test]
fn default_header_is_empty_but_for_its_name() {
    let header = Reg1testHeader::default();
    assert_eq!(header.name, "REG1TEST;1");
    assert_eq!(header.tdate, "");
    assert_eq!(header.pcall, "");
    assert_eq!(header.pwwlo, "");
    assert_eq!(header.pband, "");
    assert_eq!(header.psect, "");
    assert_eq!(header.pclub, "");
    assert_eq!(header.to_text(), "[REG1TEST;1]\nTDate=\nPCall=\nPWWLo=\nPBand=");
}

#[test]
fn header_lines() {
    let mut header = Reg1testHeader::default();
    header.tdate = "20230615;20230617".to_string();
    header.pcall = "N0CALL".to_string();
    header.pwwlo = "FN20".to_string();
    header.pband = "144 MHz".to_string();
    assert_eq!(
        header.to_text(),
        "[REG1TEST;1]\nTDate=20230615;20230617\nPCall=N0CALL\nPWWLo=FN20\nPBand=144 MHz"
    );
}

#[test]
fn header_shows_section_and_club_when_they_are_set() {
    let mut header = Reg1testHeader::default();
    header.pband = "432 MHz".to_string();
    header.psect = "SINGLE".to_string();
    assert_eq!(header.to_text(), "[REG1TEST;1]\nTDate=\nPCall=\nPWWLo=\nPBand=432 MHz\nPSect=SINGLE");
    header.pclub = "ARRL".to_string();
    assert_eq!(
        header.to_text(),
        "[REG1TEST;1]\nTDate=\nPCall=\nPWWLo=\nPBand=432 MHz\nPSect=SINGLE\nPClub=ARRL"
    );
    header.psect = String::new();
    assert_eq!(header.to_text(), "[REG1TEST;1]\nTDate=\nPCall=\nPWWLo=\nPBand=432 MHz\nPClub=ARRL");
}

#[test]
fn remarks_lines() {
    let mut remarks = Reg1testRemarks::default();
    assert_eq!(remarks.name, "Remarks");
    assert_eq!(remarks.to_text(), "[Remarks]");
    remarks.multi_line.push("first".to_string());
    remarks.multi_line.push("".to_string());
    remarks.multi_line.push("ADIF_VER=3.1.4".to_string());
    assert_eq!(remarks.to_text(), "[Remarks]\nfirst\n\nADIF_VER=3.1.4");
}

#[test]
fn default_record_line() {
    let record = Reg1testQSORecord::default();
    assert_eq!(record.mode_code, '0');
    assert_eq!(record.sent_qso_number, 0);
    assert_eq!(record.received_qso_number, 0);
    assert_eq!(record.to_text(), ";;;0;;;;;;;;;;;\n");
}

#[test]
fn record_line_has_fifteen_fields() {
    let record = contact("W1AW", 1, 2);
    let line = record.to_text();
    assert_eq!(line, "230615;1430;W1AW;2;599;001;579;002;;FN31;;;;;\n");
    assert_eq!(line.trim_end_matches('\n').split(';').count(), 15);
}

#[test]
fn record_line_shows_every_field_in_its_place() {
    let record = Reg1testQSORecord {
        date: "a".to_string(),
        time: "b".to_string(),
        call: "c".to_string(),
        mode_code: 'd',
        sent_rst: "e".to_string(),
        sent_qso_number: 6,
        received_rst: "g".to_string(),
        received_qso_number: 1008,
        received_exchange: "i".to_string(),
        received_wwl: "j".to_string(),
        qso_points: "k".to_string(),
        new_exchange: "l".to_string(),
        new_wwl: "m".to_string(),
        new_dxcc: "n".to_string(),
        duplicate_qso: "o".to_string(),
    };
    assert_eq!(record.to_text(), "a;b;c;d;e;006;g;1008;i;j;k;l;m;n;o\n");
}

#[test]
fn records_section_lines() {
    let mut records = Reg1testQSOs::default();
    assert_eq!(records.name, "QSORecords");
    assert_eq!(records.count, 0);
    assert_eq!(records.to_text(), "[QSORecords;0]\n");
    records.qso_records.push(contact("W1AW", 1, 2));
    records.qso_records.push(contact("K1ABC", 2, 0));
    records.count = 2;
    assert_eq!(
        records.to_text(),
        "[QSORecords;2]\n230615;1430;W1AW;2;599;001;579;002;;FN31;;;;;\n\
         230615;1430;K1ABC;2;599;002;579;;;FN31;;;;;\n"
    );
}

#[test]
fn add_qso_appends_and_counts() {
    let mut band = Band { header: Reg1testHeader::default(), records: Reg1testQSOs::default() };
    band.add_qso(contact("W1AW", 1, 2));
    assert_eq!(band.records.count, 1);
    assert_eq!(band.records.qso_records.len(), 1);
    band.add_qso(contact("K1ABC", 2, 3));
    assert_eq!(band.records.count, 2);
    assert_eq!(band.records.qso_records.len(), 2);
    assert_eq!(band.records.qso_records[0].call, "W1AW");
    assert_eq!(band.records.qso_records[1].call, "K1ABC");
    assert_eq!(band.header.name, "REG1TEST;1");
}

#[test]
fn date_range_keeps_earliest_and_latest() {
    let mut range = DateRange::new();
    assert_eq!(range.to_text(), ";");
    range.observe(20230615, "20230615");
    assert_eq!(range.to_text(), "20230615;20230615");
    range.observe(20230701, "20230701");
    range.observe(20221231, "20221231");
    range.observe(20230101, "20230101");
    assert_eq!(range.to_text(), "20221231;20230701");
    assert_eq!(range.min_date, 20221231);
    assert_eq!(range.max_date, 20230701);
}

#[test]
fn date_range_keeps_the_first_spelling_of_equal_dates() {
    let mut range = DateRange::new();
    range.observe(20230615, "20230615");
    range.observe(20230615, "+20230615");
    assert_eq!(range.to_text(), "20230615;20230615");
}

#[test]
fn date_range_takes_only_dates_between_its_starts() {
    let mut range = DateRange::new();
    range.observe(99991231, "99991231");
    assert_eq!(range.to_text(), ";99991231");
    let mut zero = DateRange::new();
    zero.observe(0, "00000000");
    assert_eq!(zero.to_text(), "00000000;");
    let mut edge = DateRange::new();
    edge.observe(99991230, "99991230");
    edge.observe(1, "1");
    assert_eq!(edge.to_text(), "1;99991230");
}
