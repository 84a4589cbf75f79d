//! What the command line asks for, and what is done about it.

use crate::text::{optional_chars, str_eq};
use std::path::PathBuf;
use vstd::prelude::*;

verus! {

/// A path of the file system, as the standard library holds it. The
/// library carries paths and does not look into them.
#[verifier::external_type_specification]
#[verifier::external_body]
pub struct ExPathBuf(std::path::PathBuf);

/// The arguments of the command line.
#[derive(Debug)]
pub struct CliArgs {
    /// The ADIF file to read.
    pub infile: Option<PathBuf>,
    /// The REG1TEST file to write.
    pub outfile: Option<PathBuf>,
    /// Write to a file named after the input where no output file is given.
    pub to_file: bool,
    /// Leave the remarks out of the output.
    pub skip_remarks: bool,
}

/// What is known of a path that was given on the command line.
#[derive(Debug)]
pub struct PathFacts {
    /// The path names a file that exists.
    pub is_file: bool,
    /// The extension of the path, if it has one.
    pub extension: Option<String>,
}

/// Why the command line cannot be served.
#[derive(Clone, Copy, Debug, PartialEq, Eq, Structural)]
pub enum ArgsError {
    InputNotSpecified,
    InputNotFound,
    InputWithoutExtension,
    InputExtensionIncorrect,
    OutputWithoutExtension,
    OutputExtensionIncorrect,
}

/// Where the REG1TEST text goes.
#[derive(Clone, Copy, Debug, PartialEq, Eq, Structural)]
pub enum Destination {
    /// To the output file that was given.
    GivenFile,
    /// To a file named as the input file, with the extension `edi`.
    FileBesideInput,
    /// To the terminal.
    Terminal,
}

/// What to do for a command line that can be served.
#[derive(Clone, Copy, Debug, PartialEq, Eq, Structural)]
pub struct Plan {
    pub destination: Destination,
    pub skip_remarks: bool,
}

/// What is wrong with the input file, if anything: it must be given, must
/// exist, and must have the extension `adi`.
pub open spec fn input_fault(given: bool, is_file: bool, extension: Option<Seq<char>>) -> Option<
    ArgsError,
> {
    if !given {
        Some(ArgsError::InputNotSpecified)
    } else if !is_file {
        Some(ArgsError::InputNotFound)
    } else {
        match extension {
            None => Some(ArgsError::InputWithoutExtension),
            Some(e) => if e == "adi"@ {
                None
            } else {
                Some(ArgsError::InputExtensionIncorrect)
            },
        }
    }
}

/// Where the output goes: to the output file if one is given, which must
/// have the extension `edi`; else beside the input file if that was asked
/// for; else to the terminal.
pub open spec fn destination(given: bool, extension: Option<Seq<char>>, to_file: bool) -> Result<
    Destination,
    ArgsError,
> {
    if given {
        match extension {
            None => Err(ArgsError::OutputWithoutExtension),
            Some(e) => if e == "edi"@ {
                Ok(Destination::GivenFile)
            } else {
                Err(ArgsError::OutputExtensionIncorrect)
            },
        }
    } else if to_file {
        Ok(Destination::FileBesideInput)
    } else {
        Ok(Destination::Terminal)
    }
}

/// The plan for a command line; the input file is looked at first.
pub open spec fn planned(args: CliArgs, input: PathFacts, output: PathFacts) -> Result<
    Plan,
    ArgsError,
> {
    match input_fault(args.infile is Some, input.is_file, optional_chars(input.extension)) {
        Some(e) => Err(e),
        None => match destination(
            args.outfile is Some,
            optional_chars(output.extension),
            args.to_file,
        ) {
            Ok(destination) => Ok(Plan { destination, skip_remarks: args.skip_remarks }),
            Err(e) => Err(e),
        },
    }
}

/// Decides what to do for a command line. `input` and `output` say what is
/// known of the two paths; of a path that was not given they are not read.
pub fn plan(args: &CliArgs, input: &PathFacts, output: &PathFacts) -> (plan: Result<
    Plan,
    ArgsError,
>)
    ensures
        plan == planned(*args, *input, *output),
{
    if args.infile.is_none() {
        return Err(ArgsError::InputNotSpecified);
    }
    if !input.is_file {
        return Err(ArgsError::InputNotFound);
    }
    match &input.extension {
        None => {
            return Err(ArgsError::InputWithoutExtension);
        },
        Some(e) => {
            if !str_eq(e.as_str(), "adi") {
                return Err(ArgsError::InputExtensionIncorrect);
            }
        },
    }
    let destination = if args.outfile.is_some() {
        match &output.extension {
            None => {
                return Err(ArgsError::OutputWithoutExtension);
            },
            Some(e) => {
                if !str_eq(e.as_str(), "edi") {
                    return Err(ArgsError::OutputExtensionIncorrect);
                }
                Destination::GivenFile
            },
        }
    } else if args.to_file {
        Destination::FileBesideInput
    } else {
        Destination::Terminal
    };
    Ok(Plan { destination, skip_remarks: args.skip_remarks })
}

impl ArgsError {
    /// The message for the user.
    pub open spec fn text(self) -> Seq<char> {
        match self {
            ArgsError::InputNotSpecified => "ERROR: input file not specified"@,
            ArgsError::InputNotFound => "ERROR: input file not found"@,
            ArgsError::InputWithoutExtension => "ERROR: input file without .adi extension"@,
            ArgsError::InputExtensionIncorrect => "ERROR: input file extension is incorrect"@,
            ArgsError::OutputWithoutExtension => "ERROR: output file without .edi extension"@,
            ArgsError::OutputExtensionIncorrect => "ERROR: output file extension is incorrect"@,
        }
    }

    /// The message for the user.
    pub fn message(&self) -> (message: String)
        ensures
            message@ == self.text(),
    {
        match self {
            ArgsError::InputNotSpecified => "ERROR: input file not specified".to_owned(),
            ArgsError::InputNotFound => "ERROR: input file not found".to_owned(),
            ArgsError::InputWithoutExtension => "ERROR: input file without .adi extension".to_owned(),
            ArgsError::InputExtensionIncorrect => "ERROR: input file extension is incorrect".to_owned(),
            ArgsError::OutputWithoutExtension => "ERROR: output file without .edi extension".to_owned(),
            ArgsError::OutputExtensionIncorrect => "ERROR: output file extension is incorrect".to_owned(),
        }
    }
}

} // verus!
