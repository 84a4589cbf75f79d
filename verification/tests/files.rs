use adi2edi::converter::convert_to_reg1test;
use adi2edi::files::{band_file_stem, section_file_stem, split_sections};
use adi2edi::tree::{NodeKind, ParseNode};

fn field(name: &str, value: &str) -> ParseNode {
    ParseNode::branch(
        NodeKind::Field,
        vec![ParseNode::leaf(NodeKind::FieldName, name), ParseNode::leaf(NodeKind::Data, value)],
    )
}

#[test]
fn file_name_of_a_band() {
    assert_eq!(band_file_stem("log", "144 MHz"), "log_144MHz");
    assert_eq!(band_file_stem("log", "1,3 GHz"), "log_1_3GHz");
    assert_eq!(band_file_stem("my log", " a , b "), "my log_a_b");
    assert_eq!(band_file_stem("", ""), "_");
}

#[test]
fn file_name_of_a_section() {
    let section = "[REG1TEST;1]\nTDate=20230615;20230615\nPCall=N0CALL\nPWWLo=FN20\nPBand=144 MHz\n[Remarks]\n[QSORecords;0]";
    assert_eq!(section_file_stem("contest", section), Some("contest_144MHz".to_string()));
    let ghz = "PBand=1,3 GHz\n";
    assert_eq!(section_file_stem("contest", ghz), Some("contest_1_3GHz".to_string()));
}

#[test]
fn section_without_band_label_has_no_file_name() {
    assert_eq!(section_file_stem("contest", "[REG1TEST;1]\nPBand=\n"), None);
    assert_eq!(section_file_stem("contest", ""), None);
    assert_eq!(section_file_stem("contest", "PBand=MHz 144"), None);
    assert_eq!(section_file_stem("contest", "pband=144 MHz"), None);
}

#[test]
fn file_name_takes_the_first_band_line() {
    let text = "PBand=144 MHz\nPBand=432 MHz\n";
    assert_eq!(section_file_stem("x", text), Some("x_144MHz".to_string()));
}

#[test]
fn text_is_cut_at_empty_lines() {
    assert_eq!(split_sections("a\n\nb"), vec!["a", "b"]);
    assert_eq!(split_sections("a\nb"), vec!["a\nb"]);
    assert_eq!(split_sections("a\n\nb\n\n"), vec!["a", "b"]);
    assert_eq!(split_sections(""), vec![""]);
    assert_eq!(split_sections("\n\n"), vec![""]);
    assert_eq!(split_sections("a\n\n\nb"), vec!["a", "\nb"]);
    assert_eq!(split_sections("a\n\n\n\nb"), vec!["a", "", "b"]);
    assert_eq!(split_sections("  a\n\nb\n\nc  "), vec!["a", "b", "c"]);
}

#[test]
fn cutting_agrees_with_the_standard_library() {
    for text in ["", "x", "\n", "a\n\nb", "a\n\n\nb\n\n\n\nc", "\n\na\n\n", "a\n \nb", "a\n\n b \n\n"] {
        let expected: Vec<&str> = text.trim().split("\n\n").collect();
        assert_eq!(split_sections(text), expected);
    }
}

#[test]
fn converted_text_gives_one_section_and_file_for_each_band() {
    let doc = ParseNode::branch(
        NodeKind::Document,
        vec![
            ParseNode::branch(NodeKind::Record, vec![field("BAND", "2m"), field("CALL", "W1AW")]),
            ParseNode::branch(NodeKind::Record, vec![field("BAND", "23cm"), field("CALL", "K1ABC")]),
        ],
    );
    let text = convert_to_reg1test(&doc, true).unwrap();
    let sections = split_sections(&text);
    assert_eq!(sections.len(), 2);
    assert_eq!(section_file_stem("out", &sections[0]), Some("out_144MHz".to_string()));
    assert_eq!(section_file_stem("out", &sections[1]), Some("out_1_3GHz".to_string()));
    assert!(sections[0].starts_with("[REG1TEST;1]\n"));
    assert!(sections[1].ends_with("[QSORecords;1]\n;;K1ABC;0;;;;;;;;;;;"));
}

#[test]
fn file_name_agrees_with_replacing_commas_and_spaces() {
    for label in ["144 MHz", "1,3 GHz", "", " ", ",", ", ,", "a,b c,,d  e", "_ _"] {
        let expected = format!("log_{}", label.replace(",", "_").replace(" ", ""));
        assert_eq!(band_file_stem("log", label), expected);
    }
}
