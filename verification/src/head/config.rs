//! The configuration of a run that prints the first part of each input.

use vstd::prelude::*;
use vstd::string::StringExecFns;
use crate::head::parse::parse_positive_int;
use crate::head::parse::positive_int;

verus! {

/// What a configuration says, as plain mathematical values.
pub struct ConfigView {
    /// The input identifiers, in the order in which they are processed.
    pub files: Seq<Seq<char>>,
    /// The number of lines to print of each input.
    pub lines: usize,
    /// The number of bytes to print of each input, where bytes are asked
    /// for in place of lines.
    pub bytes: Option<usize>,
}

impl ConfigView {
    /// Both counts are positive.
    pub open spec fn wf(self) -> bool {
        &&& self.lines > 0
        &&& self.bytes matches Some(n) ==> n > 0
    }
}

/// The complaint about a line count that is no positive integer.
pub open spec fn illegal_line_count(val: Seq<char>) -> Seq<char> {
    "Illegal line count -- "@ + val
}

/// The complaint about a byte count that is no positive integer.
pub open spec fn illegal_byte_count(val: Seq<char>) -> Seq<char> {
    "Illegal byte count -- "@ + val
}

/// What the option values describe: a configuration if the line count
/// and, where there is one, the byte count are positive integers; else
/// the complaint about the first of the two that is not.
pub open spec fn config_from_options(
    files: Seq<Seq<char>>,
    lines: Seq<char>,
    bytes: Option<Seq<char>>,
) -> Result<ConfigView, Seq<char>> {
    match positive_int(lines) {
        None => Err(illegal_line_count(lines)),
        Some(line_count) => match bytes {
            None => Ok(ConfigView { files, lines: line_count, bytes: None }),
            Some(text) => match positive_int(text) {
                None => Err(illegal_byte_count(text)),
                Some(byte_count) => Ok(
                    ConfigView { files, lines: line_count, bytes: Some(byte_count) },
                ),
            },
        },
    }
}

/// The configuration of one run: the inputs and how much to print of
/// each. Every value of this type is well formed.
#[derive(Debug)]
pub struct Config {
    files: Vec<String>,
    lines: usize,
    bytes: Option<usize>,
}

impl View for Config {
    type V = ConfigView;

    closed spec fn view(&self) -> ConfigView {
        ConfigView { files: self.files.deep_view(), lines: self.lines, bytes: self.bytes }
    }
}

impl Config {
    #[verifier::type_invariant]
    spec fn inv(self) -> bool {
        self@.wf()
    }

    /// Builds the configuration that the option values describe, or says
    /// which of the two counts is no positive integer.
    pub fn from_options(files: Vec<String>, lines: &str, bytes: Option<&str>) -> (result: Result<
        Config,
        String,
    >)
        ensures
            match config_from_options(
                files.deep_view(),
                lines@,
                match bytes {
                    Some(text) => Some(text@),
                    None => None,
                },
            ) {
                Ok(config) => result is Ok && result->Ok_0@ == config && config.wf(),
                Err(complaint) => result is Err && result->Err_0@ == complaint,
            },
    {
        let line_count = match parse_positive_int(lines) {
            Ok(n) => n,
            Err(val) => {
                let mut complaint = String::from_str("Illegal line count -- ");
                complaint.append(val.as_str());
                return Err(complaint);
            },
        };
        let byte_count = match bytes {
            None => None,
            Some(text) => match parse_positive_int(text) {
                Ok(n) => Some(n),
                Err(val) => {
                    let mut complaint = String::from_str("Illegal byte count -- ");
                    complaint.append(val.as_str());
                    return Err(complaint);
                },
            },
        };
        Ok(Config { files, lines: line_count, bytes: byte_count })
    }

    /// The input identifiers, in the order in which they are processed.
    pub fn files(&self) -> (files: &Vec<String>)
        ensures
            files.deep_view() == self@.files,
    {
        &self.files
    }

    /// The number of lines to print of each input.
    pub fn lines(&self) -> (lines: usize)
        ensures
            lines == self@.lines,
            lines > 0,
    {
        proof {
            use_type_invariant(self);
        }
        self.lines
    }

    /// The number of bytes to print of each input, where bytes are asked
    /// for in place of lines.
    pub fn bytes(&self) -> (bytes: Option<usize>)
        ensures
            bytes == self@.bytes,
            bytes matches Some(n) ==> n > 0,
    {
        proof {
            use_type_invariant(self);
        }
        self.bytes
    }
}

} // verus!
