use adi2edi::cli::{plan, ArgsError, CliArgs, Destination, PathFacts, Plan};
use std::path::PathBuf;

fn args(infile: Option<&str>, outfile: Option<&str>, to_file: bool, skip_remarks: bool) -> CliArgs {
    CliArgs {
        infile: infile.map(PathBuf::from),
        outfile: outfile.map(PathBuf::from),
        to_file,
        skip_remarks,
    }
}

fn facts(is_file: bool, extension: Option<&str>) -> PathFacts {
    PathFacts { is_file, extension: extension.map(|e| e.to_string()) }
}

#[test]
fn input_file_must_be_given() {
    let a = args(None, Some("out.edi"), true, false);
    assert_eq!(plan(&a, &facts(true, Some("adi")), &facts(false, Some("edi"))), Err(ArgsError::InputNotSpecified));
}

#[test]
fn input_file_must_exist() {
    let a = args(Some("log.adi"), None, false, false);
    assert_eq!(plan(&a, &facts(false, Some("adi")), &facts(false, None)), Err(ArgsError::InputNotFound));
    assert_eq!(plan(&a, &facts(false, None), &facts(false, None)), Err(ArgsError::InputNotFound));
}

#[test]
fn input_file_must_have_the_extension_adi() {
    let a = args(Some("log"), None, false, false);
    assert_eq!(plan(&a, &facts(true, None), &facts(false, None)), Err(ArgsError::InputWithoutExtension));
    assert_eq!(plan(&a, &facts(true, Some("txt")), &facts(false, None)), Err(ArgsError::InputExtensionIncorrect));
    assert_eq!(plan(&a, &facts(true, Some("ADI")), &facts(false, None)), Err(ArgsError::InputExtensionIncorrect));
    assert_eq!(plan(&a, &facts(true, Some("")), &facts(false, None)), Err(ArgsError::InputExtensionIncorrect));
}

#[test]
fn output_file_must_have_the_extension_edi() {
    let a = args(Some("log.adi"), Some("out"), false, false);
    let input = facts(true, Some("adi"));
    assert_eq!(plan(&a, &input, &facts(false, None)), Err(ArgsError::OutputWithoutExtension));
    assert_eq!(plan(&a, &input, &facts(false, Some("txt"))), Err(ArgsError::OutputExtensionIncorrect));
    assert_eq!(plan(&a, &input, &facts(true, Some("EDI"))), Err(ArgsError::OutputExtensionIncorrect));
}

#[test]
fn input_is_looked_at_before_output() {
    let a = args(Some("log.txt"), Some("out.txt"), false, false);
    assert_eq!(
        plan(&a, &facts(true, Some("txt")), &facts(false, Some("txt"))),
        Err(ArgsError::InputExtensionIncorrect)
    );
}

#[test]
fn output_goes_to_the_file_given() {
    let a = args(Some("log.adi"), Some("out.edi"), false, true);
    assert_eq!(
        plan(&a, &facts(true, Some("adi")), &facts(false, Some("edi"))),
        Ok(Plan { destination: Destination::GivenFile, skip_remarks: true })
    );
    let b = args(Some("log.adi"), Some("out.edi"), true, false);
    assert_eq!(
        plan(&b, &facts(true, Some("adi")), &facts(true, Some("edi"))),
        Ok(Plan { destination: Destination::GivenFile, skip_remarks: false })
    );
}

#[test]
fn output_goes_beside_the_input_when_asked() {
    let a = args(Some("log.adi"), None, true, false);
    assert_eq!(
        plan(&a, &facts(true, Some("adi")), &facts(false, None)),
        Ok(Plan { destination: Destination::FileBesideInput, skip_remarks: false })
    );
}

#[test]
fn output_goes_to_the_terminal_otherwise() {
    let a = args(Some("log.adi"), None, false, true);
    assert_eq!(
        plan(&a, &facts(true, Some("adi")), &facts(false, Some("txt"))),
        Ok(Plan { destination: Destination::Terminal, skip_remarks: true })
    );
}

#[test]
fn messages_for_the_user() {
    assert_eq!(ArgsError::InputNotSpecified.message(), "ERROR: input file not specified");
    assert_eq!(ArgsError::InputNotFound.message(), "ERROR: input file not found");
    assert_eq!(ArgsError::InputWithoutExtension.message(), "ERROR: input file without .adi extension");
    assert_eq!(ArgsError::InputExtensionIncorrect.message(), "ERROR: input file extension is incorrect");
    assert_eq!(ArgsError::OutputWithoutExtension.message(), "ERROR: output file without .edi extension");
    assert_eq!(ArgsError::OutputExtensionIncorrect.message(), "ERROR: output file extension is incorrect");
}
