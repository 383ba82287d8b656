//! The errors of this crate.

use vstd::prelude::*;
use vstd::string::StringExecFns;

verus! {

/// Why a list of tests could not be made.
#[derive(Debug, Clone, PartialEq, Eq)]
pub enum ParseTestListError {
    /// A line of a binary's listing named neither a test nor a benchmark.
    ParseLine {
        /// The line, without its line ending.
        line: String,
        /// The whole output in which the line stood.
        full_output: String,
    },
    /// The directories of the dynamic library path could not be joined into
    /// one search path.
    DylibJoinPaths {
        /// The directories that cannot stand in a search path, in the order
        /// in which they were to be searched.
        paths: Vec<String>,
    },
}

/// Why the built binaries could not be made into test artifacts.
#[derive(Debug, Clone, PartialEq, Eq)]
pub enum FromMessagesError {
    /// A binary names a package that is not among the packages known.
    PackageGraph {
        /// The identifier of the package that was not found.
        package_id: String,
    },
}

/// What the message of a `ParseLine` error says of `line`.
pub open spec fn parse_line_message(line: Seq<char>) -> Seq<char> {
    "line '"@ + line + "' did not end with the string ': test' or ': benchmark'"@
}

impl ParseTestListError {
    /// For a malformed line, the sentence that names it.
    pub fn message(&self) -> (out: Option<String>)
        ensures
            match *self {
                ParseTestListError::ParseLine { line, .. } => out matches Some(text) && text@
                    == parse_line_message(line@),
                ParseTestListError::DylibJoinPaths { .. } => out is None,
            },
    {
        match self {
            ParseTestListError::ParseLine { line, .. } => {
                let mut text = String::from_str("line '");
                text.append(line.as_str());
                text.append("' did not end with the string ': test' or ': benchmark'");
                Some(text)
            },
            ParseTestListError::DylibJoinPaths { .. } => None,
        }
    }
}

} // verus!
