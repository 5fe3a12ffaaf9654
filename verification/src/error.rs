//! The errors of the library and their messages.

use vstd::prelude::*;
use vstd::std_specs::convert::FromSpecImpl;
use vstd::string::StringExecFns;

verus! {

/// `std::io::Error`, carried through as an opaque value.
#[verifier::external_type_specification]
#[verifier::external_body]
pub struct ExIoError(std::io::Error);

/// `rusqlite::Error`, carried through as an opaque value.
#[verifier::external_type_specification]
#[verifier::external_body]
pub struct ExDatabaseError(rusqlite::Error);

/// `serde_json::Error`, carried through as an opaque value.
#[verifier::external_type_specification]
#[verifier::external_body]
pub struct ExJsonError(serde_json::Error);

/// Everything that can go wrong while the state of a workspace is read or
/// written.
#[derive(Debug)]
pub enum CursorError {
    Io(std::io::Error),
    Database(rusqlite::Error),
    Json(serde_json::Error),
    Config(String),
}

impl CursorError {
    /// The words that open the message of each kind of error.
    pub open spec fn lead(&self) -> Seq<char> {
        match self {
            CursorError::Io(_) => "I/O error: "@,
            CursorError::Database(_) => "Database error: "@,
            CursorError::Json(_) => "JSON error: "@,
            CursorError::Config(_) => "Configuration error: "@,
        }
    }

    /// The message of this error, given the text of what it wraps.
    pub fn describe(&self, detail: &str) -> (message: String)
        ensures
            message@ == self.lead() + detail@,
    {
        let lead = match self {
            CursorError::Io(_) => "I/O error: ",
            CursorError::Database(_) => "Database error: ",
            CursorError::Json(_) => "JSON error: ",
            CursorError::Config(_) => "Configuration error: ",
        };
        let mut message = lead.to_owned();
        message.append(detail);
        message
    }

    /// The message of this error: its kind, then the wrapped error in its
    /// own words.
    pub fn message(&self) -> (message: String)
        ensures
            self.lead().is_prefix_of(message@),
            self matches CursorError::Config(text) ==> message@ == self.lead() + text@,
    {
        let detail = match self {
            CursorError::Io(err) => err.to_string(),
            CursorError::Database(err) => err.to_string(),
            CursorError::Json(err) => err.to_string(),
            CursorError::Config(text) => text.clone(),
        };
        self.describe(detail.as_str())
    }
}

impl From<std::io::Error> for CursorError {
    fn from(err: std::io::Error) -> (error: Self) {
        CursorError::Io(err)
    }
}

impl FromSpecImpl<std::io::Error> for CursorError {
    open spec fn obeys_from_spec() -> bool {
        true
    }

    open spec fn from_spec(err: std::io::Error) -> Self {
        CursorError::Io(err)
    }
}

impl From<rusqlite::Error> for CursorError {
    fn from(err: rusqlite::Error) -> (error: Self) {
        CursorError::Database(err)
    }
}

impl FromSpecImpl<rusqlite::Error> for CursorError {
    open spec fn obeys_from_spec() -> bool {
        true
    }

    open spec fn from_spec(err: rusqlite::Error) -> Self {
        CursorError::Database(err)
    }
}

impl From<serde_json::Error> for CursorError {
    fn from(err: serde_json::Error) -> (error: Self) {
        CursorError::Json(err)
    }
}

impl FromSpecImpl<serde_json::Error> for CursorError {
    open spec fn obeys_from_spec() -> bool {
        true
    }

    open spec fn from_spec(err: serde_json::Error) -> Self {
        CursorError::Json(err)
    }
}

impl From<String> for CursorError {
    fn from(err: String) -> (error: Self) {
        CursorError::Config(err)
    }
}

impl FromSpecImpl<String> for CursorError {
    open spec fn obeys_from_spec() -> bool {
        true
    }

    open spec fn from_spec(err: String) -> Self {
        CursorError::Config(err)
    }
}

impl<'a> From<&'a str> for CursorError {
    fn from(err: &'a str) -> (error: Self)
        ensures
            error matches CursorError::Config(text) && text@ == err@,
    {
        CursorError::Config(err.to_owned())
    }
}

impl<'a> FromSpecImpl<&'a str> for CursorError {
    open spec fn obeys_from_spec() -> bool {
        false
    }

    open spec fn from_spec(err: &'a str) -> Self {
        arbitrary()
    }
}

} // verus!
