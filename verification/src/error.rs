//! The error type of lintspec
use vstd::prelude::*;

use crate::definitions::Parent;
use crate::text::push_str;
use crate::textindex::{location_text, TextIndex, TextRange};

verus! {

/// A lintspec error
#[derive(Debug)]
pub enum Error {
    /// Solidity version is not supported
    SolidityUnsupportedVersion(String),
    /// The Solidity source could not be parsed
    ParsingError { path: String, loc: TextIndex, message: String },
    /// Error during parsing of a version specifier string
    SemverParsingError(String),
    /// Error during parsing of a `NatSpec` comment
    NatspecParsingError { parent: Option<Parent>, span: TextRange, message: String },
    /// The sources were requested while other references (clones) of the parser still existed
    DanglingParserReferences,
    /// IO error
    IOError { path: String, err: String },
    /// An unspecified error happening during parsing
    UnknownError,
}

/// The text of a string as Rust's `Debug` formatting shows it: quoted, with special characters escaped
pub uninterp spec fn debug_quoted(s: Seq<char>) -> Seq<char>;

/// Format a string with `Debug`, through `str`'s `Debug` implementation
#[verifier::external_body]
fn debug_str(s: &str) -> (r: String)
    ensures
        r@ == debug_quoted(s@),
{
    format!("{s:?}")
}

/// The message of an error
pub open spec fn error_message(e: Error) -> Seq<char> {
    match e {
        Error::SolidityUnsupportedVersion(v) => "the provided Solidity version is not supported: `"@ + v@
            + "`"@,
        Error::ParsingError { path, loc, message } => "there was an error while parsing "@ + path@
            + ":"@ + location_text(loc) + ":\n"@ + message@,
        Error::SemverParsingError(m) => "error parsing a semver string: "@ + m@,
        Error::NatspecParsingError { message, .. } => "error parsing a natspec comment: "@ + message@,
        Error::DanglingParserReferences => "`Parse::get_sources` can only be called on the last parser instance"@,
        Error::IOError { path, err } => "IO error for "@ + debug_quoted(path@) + ": "@ + err@,
        Error::UnknownError => "unknown error while parsing Solidity"@,
    }
}

impl Error {
    /// The message of the error, as shown to users
    pub fn to_string(&self) -> (s: String)
        ensures
            s@ == error_message(*self),
    {
        match self {
            Error::SolidityUnsupportedVersion(v) => {
                let mut s = "the provided Solidity version is not supported: `".to_owned();
                push_str(&mut s, v.as_str());
                push_str(&mut s, "`");
                s
            },
            Error::ParsingError { path, loc, message } => {
                let mut s = "there was an error while parsing ".to_owned();
                push_str(&mut s, path.as_str());
                push_str(&mut s, ":");
                let location = loc.to_string();
                push_str(&mut s, location.as_str());
                push_str(&mut s, ":\n");
                push_str(&mut s, message.as_str());
                proof {
                    assert(s@ =~= error_message(*self));
                }
                s
            },
            Error::SemverParsingError(m) => {
                let mut s = "error parsing a semver string: ".to_owned();
                push_str(&mut s, m.as_str());
                s
            },
            Error::NatspecParsingError { message, .. } => {
                let mut s = "error parsing a natspec comment: ".to_owned();
                push_str(&mut s, message.as_str());
                s
            },
            Error::DanglingParserReferences => {
                "`Parse::get_sources` can only be called on the last parser instance".to_owned()
            },
            Error::IOError { path, err } => {
                let mut s = "IO error for ".to_owned();
                let quoted = debug_str(path.as_str());
                push_str(&mut s, quoted.as_str());
                push_str(&mut s, ": ");
                push_str(&mut s, err.as_str());
                proof {
                    assert(s@ =~= error_message(*self));
                }
                s
            },
            Error::UnknownError => "unknown error while parsing Solidity".to_owned(),
        }
    }
}

} // verus!
