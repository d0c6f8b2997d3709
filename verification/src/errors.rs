//! The errors of the client.

use vstd::prelude::*;
use crate::query::errors::QueryFailed;

verus! {

/// `std::io::Error`, the error of a stream; nothing is known of what it
/// holds.
#[verifier::external_type_specification]
#[verifier::external_body]
pub struct ExIoError(std::io::Error);

/// The error type for the operations of the client, its queries and its
/// responses.
#[derive(Debug)]
pub enum ClientError {
    /// The stream to the database has failed.
    Io(std::io::Error),
    /// The byte sequence being parsed is not a valid UTF-8 sequence.
    Utf8Parse(std::string::FromUtf8Error),
    /// The provided credentials are invalid.
    Auth,
    /// The command was processed but failed.
    CommandFailed {
        /// What the server said of the failure.
        message: String,
    },
    /// The query was processed but failed.
    QueryFailed(QueryFailed),
}

/// What the stream's error says of itself, through `ToString::to_string`.
#[verifier::external_body]
fn io_error_text(e: &std::io::Error) -> (s: String) {
    e.to_string()
}

/// What the decoding error says of itself, through `ToString::to_string`.
#[verifier::external_body]
fn utf8_error_text(e: &std::string::FromUtf8Error) -> (s: String) {
    e.to_string()
}

impl ClientError {
    /// The error as a line for a reader: the server's own words where it
    /// sent any.
    pub fn to_string(&self) -> (s: String)
        ensures
            self is Auth ==> s@ == "access denied"@,
            self is CommandFailed ==> s@ == self->message@,
            self is QueryFailed ==> s@ == self->QueryFailed_0.raw_text(),
    {
        match self {
            ClientError::Io(e) => io_error_text(e),
            ClientError::Utf8Parse(e) => utf8_error_text(e),
            ClientError::Auth => "access denied".to_owned(),
            ClientError::CommandFailed { message } => message.clone(),
            ClientError::QueryFailed(q) => q.raw().to_owned(),
        }
    }
}

impl From<std::io::Error> for ClientError {
    fn from(err: std::io::Error) -> (e: ClientError) {
        ClientError::Io(err)
    }
}

impl vstd::std_specs::convert::FromSpecImpl<std::io::Error> for ClientError {
    open spec fn obeys_from_spec() -> bool {
        true
    }

    open spec fn from_spec(err: std::io::Error) -> ClientError {
        ClientError::Io(err)
    }
}

impl From<std::string::FromUtf8Error> for ClientError {
    fn from(err: std::string::FromUtf8Error) -> (e: ClientError) {
        ClientError::Utf8Parse(err)
    }
}

impl vstd::std_specs::convert::FromSpecImpl<std::string::FromUtf8Error> for ClientError {
    open spec fn obeys_from_spec() -> bool {
        true
    }

    open spec fn from_spec(err: std::string::FromUtf8Error) -> ClientError {
        ClientError::Utf8Parse(err)
    }
}

} // verus!
