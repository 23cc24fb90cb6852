//! What can end a run.

use vstd::prelude::*;
use vstd::string::StringExecFns;

verus! {

/// Error types.
#[derive(Debug)]
pub enum Error {
    /// Path format.
    FormatPath(&'static str),
    /// A more generic I/O error, with what the system said of it.
    Io(String),
    /// The binary is no object file that can be read, with the reader's words.
    ObjectOutput(String),
    /// The catalog could not be fetched, with the transport's words.
    UreqOutput(String),
    /// A document is no JSON, or not of a shape that is known, with the reason.
    JsonOutput(String),
}

impl Error {
    /// The line that describes the error to a user.
    pub open spec fn message_text(self) -> Seq<char> {
        match self {
            Error::FormatPath(reason) => reason@,
            Error::Io(_) => "I/O error"@,
            Error::ObjectOutput(_) => "Object error"@,
            Error::UreqOutput(_) => "Ureq error"@,
            Error::JsonOutput(_) => "Json error"@,
        }
    }

    /// The line that describes the error to a user.
    pub fn message(&self) -> (text: String)
        ensures
            text@ == self.message_text(),
    {
        match self {
            Error::FormatPath(reason) => String::from_str(reason),
            Error::Io(_) => String::from_str("I/O error"),
            Error::ObjectOutput(_) => String::from_str("Object error"),
            Error::UreqOutput(_) => String::from_str("Ureq error"),
            Error::JsonOutput(_) => String::from_str("Json error"),
        }
    }

    /// What the outside reported, where the error came from outside.
    pub open spec fn detail_text(self) -> Option<Seq<char>> {
        match self {
            Error::FormatPath(_) => None,
            Error::Io(words) => Some(words@),
            Error::ObjectOutput(words) => Some(words@),
            Error::UreqOutput(words) => Some(words@),
            Error::JsonOutput(words) => Some(words@),
        }
    }

    /// What the outside reported, where the error came from outside.
    pub fn detail(&self) -> (text: Option<String>)
        ensures
            text.deep_view() == self.detail_text(),
    {
        match self {
            Error::FormatPath(_) => None,
            Error::Io(words) => Some(words.clone()),
            Error::ObjectOutput(words) => Some(words.clone()),
            Error::UreqOutput(words) => Some(words.clone()),
            Error::JsonOutput(words) => Some(words.clone()),
        }
    }
}

/// A specialized `Result` type.
pub type Result<T> = core::result::Result<T, Error>;

} // verus!
