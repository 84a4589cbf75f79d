use adi2edi::converter::{convert_to_reg1test, ConvertError, NumericField, Reg1testLog};
use adi2edi::tree::{NodeKind, ParseNode};
use adi2edi::walk::Walk;

fn field(name: &str, value: &str) -> ParseNode {
    let length = value.len().to_string();
    ParseNode::branch(
        NodeKind::Field,
        vec![
            ParseNode::leaf(NodeKind::FieldName, name),
            ParseNode::leaf(NodeKind::DataLength, &length),
            ParseNode::leaf(NodeKind::Data, value),
        ],
    )
}

fn record(fields: Vec<ParseNode>) -> ParseNode {
    ParseNode::branch(NodeKind::Record, fields)
}

fn header(children: Vec<ParseNode>) -> ParseNode {
    ParseNode::branch(NodeKind::Header, children)
}

fn line(text: &str) -> ParseNode {
    ParseNode::leaf(NodeKind::LiteralLine, text)
}

fn document(children: Vec<ParseNode>) -> ParseNode {
    let mut all = children;
    all.push(ParseNode::leaf(NodeKind::End, ""));
    ParseNode::branch(NodeKind::Document, all)
}

fn sample_record(band: &str, call: &str, date: &str) -> ParseNode {
    record(vec![
        field("QSO_DATE", date),
        field("TIME_ON", "143000"),
        field("BAND", band),
        field("CALL", call),
        field("MODE", "CW"),
        field("RST_SENT", "599"),
        field("STX", "001"),
        field("RST_RCVD", "599"),
        field("SRX", "002"),
        field("GRIDSQUARE", "FN31"),
        field("STATION_CALLSIGN", "N0CALL"),
        field("MY_GRIDSQUARE", "FN20"),
    ])
}

fn short_record(band: &str, call: &str) -> ParseNode {
    record(vec![field("BAND", band), field("CALL", call)])
}

fn calls(log: &Reg1testLog, band: usize) -> Vec<String> {
    log.bands[band].records.qso_records.iter().map(|r| r.call.clone()).collect()
}

#[test]
fn single_record_document_gives_one_section() {
    let doc = document(vec![sample_record("2m", "W1AW", "20230615")]);
    let text = convert_to_reg1test(&doc, false).unwrap();
    assert_eq!(
        text,
        "[REG1TEST;1]\nTDate=20230615;20230615\nPCall=N0CALL\nPWWLo=FN20\nPBand=144 MHz\n\
         [Remarks]\n[QSORecords;1]\n230615;1430;W1AW;2;599;001;599;002;;FN31;;;;;\n\n"
    );
}

#[test]
fn single_record_document_gives_one_band() {
    let doc = document(vec![sample_record("2m", "W1AW", "20230615")]);
    let log = Reg1testLog::from_document(&doc).unwrap();
    assert_eq!(log.bands.len(), 1);
    let band = &log.bands[0];
    assert_eq!(band.header.pband, "144 MHz");
    assert_eq!(band.header.tdate, "20230615;20230615");
    assert_eq!(band.header.pcall, "N0CALL");
    assert_eq!(band.header.pwwlo, "FN20");
    assert_eq!(band.records.count, 1);
    assert_eq!(
        band.records.qso_records[0].to_text(),
        "230615;1430;W1AW;2;599;001;599;002;;FN31;;;;;\n"
    );
}

#[test]
fn two_bands_share_dates_and_station() {
    let doc = document(vec![
        sample_record("2m", "W1AW", "20230615"),
        sample_record("70cm", "K1ABC", "20230617"),
    ]);
    let log = Reg1testLog::from_document(&doc).unwrap();
    assert_eq!(log.bands.len(), 2);
    assert_eq!(log.bands[0].header.pband, "144 MHz");
    assert_eq!(log.bands[1].header.pband, "432 MHz");
    for band in &log.bands {
        assert_eq!(band.header.tdate, "20230615;20230617");
        assert_eq!(band.header.pcall, "N0CALL");
        assert_eq!(band.header.pwwlo, "FN20");
        assert_eq!(band.records.count, 1);
    }
}

#[test]
fn two_bands_give_two_sections_with_an_empty_line_between() {
    let doc = document(vec![
        sample_record("2m", "W1AW", "20230615"),
        sample_record("70cm", "K1ABC", "20230617"),
    ]);
    let text = convert_to_reg1test(&doc, false).unwrap();
    assert_eq!(
        text,
        "[REG1TEST;1]\nTDate=20230615;20230617\nPCall=N0CALL\nPWWLo=FN20\nPBand=144 MHz\n\
         [Remarks]\n[QSORecords;1]\n230615;1430;W1AW;2;599;001;599;002;;FN31;;;;;\n\n\
         [REG1TEST;1]\nTDate=20230615;20230617\nPCall=N0CALL\nPWWLo=FN20\nPBand=432 MHz\n\
         [Remarks]\n[QSORecords;1]\n230617;1430;K1ABC;2;599;001;599;002;;FN31;;;;;\n\n"
    );
}

#[test]
fn station_is_taken_from_the_first_record_that_gives_it() {
    let doc = document(vec![
        record(vec![field("BAND", "2m"), field("STATION_CALLSIGN", "N0CALL"), field("MY_GRIDSQUARE", "FN20")]),
        record(vec![field("BAND", "70cm"), field("STATION_CALLSIGN", "W9XYZ"), field("MY_GRIDSQUARE", "EN50")]),
        record(vec![field("BAND", "23cm")]),
    ]);
    let log = Reg1testLog::from_document(&doc).unwrap();
    assert_eq!(log.bands.len(), 3);
    for band in &log.bands {
        assert_eq!(band.header.pcall, "N0CALL");
        assert_eq!(band.header.pwwlo, "FN20");
    }
}

#[test]
fn band_opened_before_the_station_is_known_has_none() {
    let doc = document(vec![
        record(vec![field("BAND", "2m")]),
        record(vec![field("BAND", "70cm"), field("STATION_CALLSIGN", "N0CALL")]),
        record(vec![field("BAND", "2m"), field("MY_GRIDSQUARE", "FN20")]),
        record(vec![field("BAND", "23cm")]),
    ]);
    let log = Reg1testLog::from_document(&doc).unwrap();
    assert_eq!(log.bands.len(), 3);
    assert_eq!(log.bands[0].header.pcall, "");
    assert_eq!(log.bands[0].header.pwwlo, "");
    assert_eq!(log.bands[1].header.pcall, "N0CALL");
    assert_eq!(log.bands[1].header.pwwlo, "");
    assert_eq!(log.bands[2].header.pcall, "N0CALL");
    assert_eq!(log.bands[2].header.pwwlo, "FN20");
}

#[test]
fn counts_of_the_bands_add_up_to_the_number_of_records() {
    let doc = document(vec![
        short_record("2m", "A"),
        short_record("70cm", "B"),
        short_record("2m", "C"),
        short_record("xyz", "D"),
        short_record("2m", "E"),
        record(vec![]),
        short_record("70cm", "F"),
    ]);
    let log = Reg1testLog::from_document(&doc).unwrap();
    let total: usize = log.bands.iter().map(|b| b.records.count).sum();
    assert_eq!(total, 7);
    for band in &log.bands {
        assert_eq!(band.records.count, band.records.qso_records.len());
    }
}

#[test]
fn bands_keep_the_order_in_which_they_were_met() {
    let doc = document(vec![
        short_record("70cm", "A"),
        short_record("2m", "B"),
        short_record("70cm", "C"),
        short_record("6m", "D"),
        short_record("2m", "E"),
    ]);
    let log = Reg1testLog::from_document(&doc).unwrap();
    let labels: Vec<&str> = log.bands.iter().map(|b| b.header.pband.as_str()).collect();
    assert_eq!(labels, vec!["432 MHz", "144 MHz", "50 MHz"]);
    assert_eq!(calls(&log, 0), vec!["A", "C"]);
    assert_eq!(calls(&log, 1), vec!["B", "E"]);
    assert_eq!(calls(&log, 2), vec!["D"]);
}

#[test]
fn unknown_bands_share_the_band_without_label() {
    let doc = document(vec![
        short_record("20m", "A"),
        short_record("2m", "B"),
        short_record("40m", "C"),
        record(vec![field("CALL", "D")]),
    ]);
    let log = Reg1testLog::from_document(&doc).unwrap();
    assert_eq!(log.bands.len(), 2);
    assert_eq!(log.bands[0].header.pband, "");
    assert_eq!(calls(&log, 0), vec!["A", "C", "D"]);
    assert_eq!(log.bands[1].header.pband, "144 MHz");
}

#[test]
fn date_range_is_earliest_and_latest_of_all_records() {
    let doc = document(vec![
        sample_record("2m", "A", "20230615"),
        sample_record("70cm", "B", "20230101"),
        sample_record("2m", "C", "20231231"),
        sample_record("6m", "D", "20230704"),
    ]);
    let log = Reg1testLog::from_document(&doc).unwrap();
    assert_eq!(log.bands.len(), 3);
    for band in &log.bands {
        assert_eq!(band.header.tdate, "20230101;20231231");
    }
}

#[test]
fn date_range_without_dates_is_a_semicolon() {
    let doc = document(vec![short_record("2m", "A"), short_record("70cm", "B")]);
    let log = Reg1testLog::from_document(&doc).unwrap();
    for band in &log.bands {
        assert_eq!(band.header.tdate, ";");
    }
    let text = convert_to_reg1test(&doc, false).unwrap();
    assert!(text.starts_with("[REG1TEST;1]\nTDate=;\nPCall=\n"));
}

#[test]
fn date_range_shows_dates_as_the_document_spells_them() {
    let doc = document(vec![
        record(vec![field("QSO_DATE", "020230615")]),
        record(vec![field("QSO_DATE", "20230615")]),
        record(vec![field("QSO_DATE", "+20230614")]),
    ]);
    let log = Reg1testLog::from_document(&doc).unwrap();
    assert_eq!(log.bands[0].header.tdate, "+20230614;020230615");
    assert_eq!(log.bands[0].records.qso_records[0].date, "0230615");
    assert_eq!(log.bands[0].records.qso_records[2].date, "0230614");
}

#[test]
fn date_out_of_the_range_of_the_search_leaves_its_end_empty() {
    let late = document(vec![record(vec![field("QSO_DATE", "99991231")])]);
    assert_eq!(Reg1testLog::from_document(&late).unwrap().bands[0].header.tdate, ";99991231");
    let early = document(vec![record(vec![field("QSO_DATE", "00000000")])]);
    assert_eq!(Reg1testLog::from_document(&early).unwrap().bands[0].header.tdate, "00000000;");
}

#[test]
fn short_date_and_time_are_kept_as_far_as_they_go() {
    let doc = document(vec![record(vec![field("QSO_DATE", "7"), field("TIME_ON", "930")])]);
    let log = Reg1testLog::from_document(&doc).unwrap();
    let record = &log.bands[0].records.qso_records[0];
    assert_eq!(record.date, "");
    assert_eq!(record.time, "930");
    assert_eq!(log.bands[0].header.tdate, "7;7");
}

#[test]
fn time_loses_its_seconds() {
    let doc = document(vec![
        record(vec![field("TIME_ON", "143059")]),
        record(vec![field("TIME_ON", "1430")]),
        record(vec![field("TIME_ON", "14305")]),
    ]);
    let log = Reg1testLog::from_document(&doc).unwrap();
    for record in &log.bands[0].records.qso_records {
        assert_eq!(record.time, "1430");
    }
}

#[test]
fn malformed_date_is_an_error() {
    let doc = document(vec![sample_record("2m", "W1AW", "2023-06-15")]);
    assert_eq!(
        convert_to_reg1test(&doc, false),
        Err(ConvertError::MalformedNumericField(NumericField::QsoDate))
    );
    let empty = document(vec![record(vec![field("QSO_DATE", "")])]);
    assert_eq!(
        Reg1testLog::from_document(&empty).err(),
        Some(ConvertError::MalformedNumericField(NumericField::QsoDate))
    );
    let huge = document(vec![record(vec![field("QSO_DATE", "4294967296")])]);
    assert_eq!(
        Reg1testLog::from_document(&huge).err(),
        Some(ConvertError::MalformedNumericField(NumericField::QsoDate))
    );
}

#[test]
fn malformed_sent_number_is_an_error() {
    let doc = document(vec![short_record("2m", "A"), record(vec![field("STX", "12a")])]);
    assert_eq!(
        convert_to_reg1test(&doc, false),
        Err(ConvertError::MalformedNumericField(NumericField::Stx))
    );
    let huge = document(vec![record(vec![field("STX", "65536")])]);
    assert_eq!(
        convert_to_reg1test(&huge, true),
        Err(ConvertError::MalformedNumericField(NumericField::Stx))
    );
}

#[test]
fn malformed_received_number_is_an_error() {
    let doc = document(vec![record(vec![field("SRX", "n/a")]), short_record("2m", "A")]);
    assert_eq!(
        convert_to_reg1test(&doc, false),
        Err(ConvertError::MalformedNumericField(NumericField::Srx))
    );
}

#[test]
fn first_malformed_number_is_reported() {
    let doc = document(vec![
        record(vec![field("SRX", "x"), field("STX", "y"), field("QSO_DATE", "z")]),
    ]);
    assert_eq!(
        convert_to_reg1test(&doc, false),
        Err(ConvertError::MalformedNumericField(NumericField::Srx))
    );
    let second = document(vec![
        record(vec![field("STX", "1")]),
        record(vec![field("QSO_DATE", "z"), field("STX", "y")]),
    ]);
    assert_eq!(
        convert_to_reg1test(&second, false),
        Err(ConvertError::MalformedNumericField(NumericField::QsoDate))
    );
}

#[test]
fn error_messages_name_the_tag() {
    assert_eq!(
        ConvertError::MalformedNumericField(NumericField::QsoDate).message(),
        "ERROR: malformed number in QSO_DATE"
    );
    assert_eq!(
        ConvertError::MalformedNumericField(NumericField::Stx).message(),
        "ERROR: malformed number in STX"
    );
    assert_eq!(
        ConvertError::MalformedNumericField(NumericField::Srx).message(),
        "ERROR: malformed number in SRX"
    );
}

#[test]
fn contact_numbers_of_zeros_are_shown_empty() {
    let doc = document(vec![record(vec![field("STX", "000"), field("SRX", "0")])]);
    let text = convert_to_reg1test(&doc, true).unwrap();
    assert!(text.ends_with("[QSORecords;1]\n;;;0;;;;;;;;;;;\n\n"));
}

#[test]
fn contact_numbers_are_read_and_shown() {
    let doc = document(vec![record(vec![field("STX", "007"), field("SRX", "1500")])]);
    let log = Reg1testLog::from_document(&doc).unwrap();
    let record = &log.bands[0].records.qso_records[0];
    assert_eq!(record.sent_qso_number, 7);
    assert_eq!(record.received_qso_number, 1500);
    assert_eq!(record.to_text(), ";;;0;;007;;1500;;;;;;;\n");
}

#[test]
fn tag_names_are_read_in_any_case() {
    let doc = document(vec![record(vec![
        field("qso_date", "20230615"),
        field("Band", "2m"),
        field("call", "W1AW"),
        field("mOdE", "FM"),
        field("station_callsign", "N0CALL"),
    ])]);
    let log = Reg1testLog::from_document(&doc).unwrap();
    assert_eq!(log.bands[0].header.pband, "144 MHz");
    assert_eq!(log.bands[0].header.pcall, "N0CALL");
    let record = &log.bands[0].records.qso_records[0];
    assert_eq!(record.date, "230615");
    assert_eq!(record.call, "W1AW");
    assert_eq!(record.mode_code, '6');
}

#[test]
fn values_are_trimmed() {
    let doc = document(vec![record(vec![
        field("CALL", " W1AW \n"),
        field("BAND", "2m\n"),
        field("MODE", "CW "),
        field("QSO_DATE", "20230615 \n"),
        field("STX", " 012 "),
    ])]);
    let log = Reg1testLog::from_document(&doc).unwrap();
    let record = &log.bands[0].records.qso_records[0];
    assert_eq!(record.call, "W1AW");
    assert_eq!(record.mode_code, '2');
    assert_eq!(record.date, "230615");
    assert_eq!(record.sent_qso_number, 12);
    assert_eq!(log.bands[0].header.pband, "144 MHz");
    assert_eq!(log.bands[0].header.tdate, "20230615;20230615");
}

#[test]
fn unknown_tags_are_passed_over() {
    let doc = document(vec![record(vec![
        field("FREQ", "144.300"),
        field("CALL", "W1AW"),
        field("COMMENT", "nice"),
    ])]);
    let log = Reg1testLog::from_document(&doc).unwrap();
    assert_eq!(calls(&log, 0), vec!["W1AW"]);
    assert_eq!(log.bands[0].records.qso_records[0].to_text(), ";;W1AW;0;;;;;;;;;;;\n");
}

#[test]
fn tag_given_twice_in_a_record_counts_once() {
    let doc = document(vec![record(vec![
        field("CALL", "FIRST"),
        field("CALL", "SECOND"),
        field("BAND", "2m"),
        field("BAND", "70cm"),
    ])]);
    let log = Reg1testLog::from_document(&doc).unwrap();
    assert_eq!(log.bands.len(), 1);
    assert_eq!(log.bands[0].header.pband, "144 MHz");
    assert_eq!(calls(&log, 0), vec!["FIRST"]);
}

#[test]
fn each_record_starts_afresh() {
    let doc = document(vec![
        sample_record("2m", "W1AW", "20230615"),
        record(vec![field("CALL", "K1ABC")]),
    ]);
    let log = Reg1testLog::from_document(&doc).unwrap();
    assert_eq!(log.bands.len(), 2);
    assert_eq!(log.bands[1].header.pband, "");
    assert_eq!(log.bands[1].records.qso_records[0].to_text(), ";;K1ABC;0;;;;;;;;;;;\n");
}

#[test]
fn value_goes_to_every_tag_that_waits_for_one() {
    let doc = document(vec![record(vec![ParseNode::branch(
        NodeKind::Field,
        vec![
            ParseNode::leaf(NodeKind::FieldName, "CALL"),
            ParseNode::leaf(NodeKind::FieldName, "RST_SENT"),
            ParseNode::leaf(NodeKind::Data, "59"),
            ParseNode::leaf(NodeKind::Data, "other"),
        ],
    )])]);
    let log = Reg1testLog::from_document(&doc).unwrap();
    let record = &log.bands[0].records.qso_records[0];
    assert_eq!(record.call, "59");
    assert_eq!(record.sent_rst, "59");
}

#[test]
fn value_without_a_tag_is_passed_over() {
    let doc = document(vec![record(vec![
        ParseNode::branch(NodeKind::Field, vec![ParseNode::leaf(NodeKind::Data, "lost")]),
        field("CALL", "W1AW"),
    ])]);
    let log = Reg1testLog::from_document(&doc).unwrap();
    assert_eq!(log.bands[0].records.qso_records[0].to_text(), ";;W1AW;0;;;;;;;;;;;\n");
}

#[test]
fn station_latch_outlives_the_record() {
    let doc = document(vec![
        record(vec![ParseNode::branch(
            NodeKind::Field,
            vec![ParseNode::leaf(NodeKind::FieldName, "STATION_CALLSIGN")],
        )]),
        record(vec![field("CALL", "W1AW")]),
    ]);
    let log = Reg1testLog::from_document(&doc).unwrap();
    assert_eq!(log.bands.len(), 1);
    assert_eq!(log.bands[0].header.pcall, "");
    let walk = Walk::over(&doc).unwrap();
    assert_eq!(walk.pcall, "W1AW");
    assert!(walk.station_callsign.captured);
}

#[test]
fn declared_lengths_are_kept_and_change_nothing() {
    let with = document(vec![record(vec![field("CALL", "W1AW")])]);
    let without = document(vec![record(vec![ParseNode::branch(
        NodeKind::Field,
        vec![ParseNode::leaf(NodeKind::FieldName, "CALL"), ParseNode::leaf(NodeKind::Data, "W1AW")],
    )])]);
    let wrong = document(vec![record(vec![ParseNode::branch(
        NodeKind::Field,
        vec![
            ParseNode::leaf(NodeKind::FieldName, "CALL"),
            ParseNode::leaf(NodeKind::DataLength, "many"),
            ParseNode::leaf(NodeKind::DataLength, "99999999999999999999999999"),
            ParseNode::leaf(NodeKind::DataLength, "17"),
            ParseNode::leaf(NodeKind::Data, "W1AW"),
        ],
    )])]);
    let expected = convert_to_reg1test(&with, false).unwrap();
    assert_eq!(convert_to_reg1test(&without, false).unwrap(), expected);
    assert_eq!(convert_to_reg1test(&wrong, false).unwrap(), expected);
}

#[test]
fn header_gives_the_remarks() {
    let doc = document(vec![
        header(vec![
            line("Exported by a logger"),
            ParseNode::branch(NodeKind::MultiLineBlock, vec![line(" two lines"), line("of text ")]),
            field("ADIF_VER", "3.1.4"),
            field("PROGRAMID", "Logger"),
            field("PROGRAMVERSION", "1.0"),
            field("CREATED_TIMESTAMP", "20230615 120000"),
            field("USERDEF1", "x"),
        ]),
        sample_record("2m", "W1AW", "20230615"),
    ]);
    let log = Reg1testLog::from_document(&doc).unwrap();
    assert_eq!(
        log.remarks.multi_line,
        vec![
            "Exported by a logger",
            "two lines",
            "of text",
            "ADIF_VER=3.1.4",
            "PROGRAMID=Logger",
            "PROGRAMVERSION=1.0",
            "CREATED_TIMESTAMP=20230615 120000",
        ]
    );
    let text = convert_to_reg1test(&doc, false).unwrap();
    assert_eq!(
        text,
        "[REG1TEST;1]\nTDate=20230615;20230615\nPCall=N0CALL\nPWWLo=FN20\nPBand=144 MHz\n\
         [Remarks]\nExported by a logger\ntwo lines\nof text\nADIF_VER=3.1.4\nPROGRAMID=Logger\n\
         PROGRAMVERSION=1.0\nCREATED_TIMESTAMP=20230615 120000\n\
         [QSORecords;1]\n230615;1430;W1AW;2;599;001;599;002;;FN31;;;;;\n\n"
    );
}

#[test]
fn remarks_can_be_skipped() {
    let doc = document(vec![
        header(vec![line("Exported by a logger"), field("ADIF_VER", "3.1.4")]),
        sample_record("2m", "W1AW", "20230615"),
    ]);
    let text = convert_to_reg1test(&doc, true).unwrap();
    assert_eq!(
        text,
        "[REG1TEST;1]\nTDate=20230615;20230615\nPCall=N0CALL\nPWWLo=FN20\nPBand=144 MHz\n\
         [Remarks]\n[QSORecords;1]\n230615;1430;W1AW;2;599;001;599;002;;FN31;;;;;\n\n"
    );
    let log = Reg1testLog::from_document(&doc).unwrap();
    assert_eq!(log.remarks.multi_line.len(), 2);
    assert_eq!(log.to_text(true), text);
}

#[test]
fn header_tag_is_taken_once_in_a_document() {
    let doc = document(vec![header(vec![
        field("ADIF_VER", "3.1.4"),
        field("ADIF_VER", "3.1.5"),
        field("adif_ver", "3.1.6"),
    ])]);
    let log = Reg1testLog::from_document(&doc).unwrap();
    assert_eq!(log.remarks.multi_line, vec!["ADIF_VER=3.1.4"]);
}

#[test]
fn header_does_not_give_the_station() {
    let doc = document(vec![
        header(vec![field("STATION_CALLSIGN", "N0CALL"), field("CALL", "X")]),
        short_record("2m", "W1AW"),
    ]);
    let log = Reg1testLog::from_document(&doc).unwrap();
    assert_eq!(log.bands[0].header.pcall, "");
    assert_eq!(log.remarks.multi_line.len(), 0);
}

#[test]
fn document_without_records_gives_no_text() {
    let doc = document(vec![header(vec![line("nothing here")])]);
    assert_eq!(convert_to_reg1test(&doc, false).unwrap(), "");
    let log = Reg1testLog::from_document(&doc).unwrap();
    assert_eq!(log.bands.len(), 0);
    assert_eq!(log.remarks.multi_line, vec!["nothing here"]);
    let empty = ParseNode::branch(NodeKind::Document, vec![]);
    assert_eq!(convert_to_reg1test(&empty, false).unwrap(), "");
}

#[test]
fn nodes_of_other_kinds_are_passed_over() {
    let doc = ParseNode::branch(
        NodeKind::Document,
        vec![
            ParseNode::leaf(NodeKind::Data, "stray"),
            ParseNode::branch(NodeKind::Field, vec![ParseNode::leaf(NodeKind::FieldName, "CALL")]),
            record(vec![
                ParseNode::leaf(NodeKind::FieldName, "CALL"),
                ParseNode::leaf(NodeKind::Data, "STRAY"),
                field("BAND", "2m"),
            ]),
        ],
    );
    let log = Reg1testLog::from_document(&doc).unwrap();
    assert_eq!(log.bands.len(), 1);
    assert_eq!(log.bands[0].records.qso_records[0].to_text(), ";;;0;;;;;;;;;;;\n");
}

#[test]
fn same_document_gives_the_same_text() {
    let doc = document(vec![
        header(vec![line("remark"), field("PROGRAMID", "Logger")]),
        sample_record("2m", "W1AW", "20230615"),
        sample_record("70cm", "K1ABC", "20230617"),
        sample_record("2m", "N1XYZ", "20230616"),
    ]);
    let first = convert_to_reg1test(&doc, false);
    let second = convert_to_reg1test(&doc, false);
    assert!(first.is_ok());
    assert_eq!(first, second);
    let bad = document(vec![record(vec![field("STX", "x")])]);
    assert_eq!(convert_to_reg1test(&bad, false), convert_to_reg1test(&bad, false));
}

#[test]
fn walk_ends_with_the_station_and_the_dates() {
    let doc = document(vec![
        sample_record("2m", "W1AW", "20230615"),
        sample_record("70cm", "K1ABC", "20230617"),
    ]);
    let walk = Walk::over(&doc).unwrap();
    assert_eq!(walk.pcall, "N0CALL");
    assert_eq!(walk.pwwlo, "FN20");
    assert_eq!(walk.dates.min_date, 20230615);
    assert_eq!(walk.dates.max_date, 20230617);
    assert_eq!(walk.bands.len(), 2);
    assert_eq!(walk.bands[0].header.tdate, "");
    assert_eq!(walk.record.call, "");
    assert_eq!(walk.pband, "");
}
