use adi2edi::reg1test::{Reg1testHeader, Reg1testQSORecord};
use adi2edi::tags::{header_tag_of, record_tag_of, HeaderTag, RecordTag};

#[test]
fn band_label_of_70cm() {
    assert_eq!(Reg1testHeader::get_band("70cm"), "432 MHz");
}

#[test]
fn band_label_of_unknown_designator_is_empty() {
    assert_eq!(Reg1testHeader::get_band("xyz"), "");
    assert_eq!(Reg1testHeader::get_band(""), "");
}

#[test]
fn band_labels_of_the_whole_table() {
    let table = [
        ("6m", "50 MHz"),
        ("4m", "70 MHz"),
        ("2m", "144 MHz"),
        ("70cm", "432 MHz"),
        ("23cm", "1,3 GHz"),
        ("13cm", "2,3 GHz"),
        ("9cm", "3,4 GHz"),
        ("6cm", "5,7 GHz"),
        ("3cm", "10 GHz"),
        ("1.25cm", "24 GHz"),
        ("6mm", "47 GHz"),
        ("4mm", "76 GHz"),
        ("2.5mm", "120 GHz"),
        ("2mm", "144 GHz"),
        ("1mm", "248 GHz"),
    ];
    for (designator, label) in table {
        assert_eq!(Reg1testHeader::get_band(designator), label);
    }
}

#[test]
fn band_designator_is_matched_exactly() {
    assert_eq!(Reg1testHeader::get_band("2M"), "");
    assert_eq!(Reg1testHeader::get_band("70CM"), "");
    assert_eq!(Reg1testHeader::get_band("2 m"), "");
    assert_eq!(Reg1testHeader::get_band("20m"), "");
}

#[test]
fn band_designator_may_be_surrounded_by_white_space() {
    assert_eq!(Reg1testHeader::get_band(" 2m\n"), "144 MHz");
    assert_eq!(Reg1testHeader::get_band("\t23cm "), "1,3 GHz");
}

#[test]
fn mode_code_of_cw() {
    assert_eq!(Reg1testQSORecord::get_mode("CW"), '2');
}

#[test]
fn mode_code_of_empty_mode() {
    assert_eq!(Reg1testQSORecord::get_mode(""), '0');
}

#[test]
fn mode_code_is_case_sensitive() {
    assert_eq!(Reg1testQSORecord::get_mode("cw"), '0');
    assert_eq!(Reg1testQSORecord::get_mode("Ssb"), '0');
}

#[test]
fn mode_codes_of_the_whole_table() {
    let table = [
        ("SSB", '1'),
        ("CW", '2'),
        ("AM", '5'),
        ("FM", '6'),
        ("RTTY", '7'),
        ("SSTV", '8'),
        ("ATV", '9'),
    ];
    for (mode, code) in table {
        assert_eq!(Reg1testQSORecord::get_mode(mode), code);
    }
}

#[test]
fn mode_outside_the_table_has_code_zero() {
    assert_eq!(Reg1testQSORecord::get_mode("LSB"), '0');
    assert_eq!(Reg1testQSORecord::get_mode("USB"), '0');
    assert_eq!(Reg1testQSORecord::get_mode("FT8"), '0');
    assert_eq!(Reg1testQSORecord::get_mode("C W"), '0');
}

#[test]
fn mode_may_be_surrounded_by_white_space() {
    assert_eq!(Reg1testQSORecord::get_mode(" FM \n"), '6');
}

#[test]
fn record_tags_by_name() {
    let table = [
        ("STATION_CALLSIGN", RecordTag::StationCallsign),
        ("QSO_DATE", RecordTag::QsoDate),
        ("TIME_ON", RecordTag::TimeOn),
        ("BAND", RecordTag::Band),
        ("CALL", RecordTag::Call),
        ("MODE", RecordTag::Mode),
        ("RST_SENT", RecordTag::RstSent),
        ("STX", RecordTag::Stx),
        ("RST_RCVD", RecordTag::RstRcvd),
        ("SRX", RecordTag::Srx),
        ("GRIDSQUARE", RecordTag::Gridsquare),
        ("MY_GRIDSQUARE", RecordTag::MyGridsquare),
    ];
    for (name, tag) in table {
        assert_eq!(record_tag_of(name), Some(tag));
    }
}

#[test]
fn record_tag_names_are_matched_exactly() {
    assert_eq!(record_tag_of("call"), None);
    assert_eq!(record_tag_of("CALL "), None);
    assert_eq!(record_tag_of("FREQ"), None);
    assert_eq!(record_tag_of("ADIF_VER"), None);
    assert_eq!(record_tag_of(""), None);
}

#[test]
fn header_tags_by_name() {
    assert_eq!(header_tag_of("ADIF_VER"), Some(HeaderTag::AdifVer));
    assert_eq!(header_tag_of("CREATED_TIMESTAMP"), Some(HeaderTag::CreatedTimestamp));
    assert_eq!(header_tag_of("PROGRAMID"), Some(HeaderTag::ProgramId));
    assert_eq!(header_tag_of("PROGRAMVERSION"), Some(HeaderTag::ProgramVersion));
    assert_eq!(header_tag_of("programid"), None);
    assert_eq!(header_tag_of("CALL"), None);
}
