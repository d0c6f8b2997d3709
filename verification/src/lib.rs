//! Protocol engine of a client for the BaseX XML database server.
//!
//! The crate answers the authentication challenge, frames commands and
//! escapes their arguments, decodes streamed responses and tracks query
//! sessions. It never touches a socket: whoever holds the stream sends the
//! bytes that the crate frames, and hands the bytes that arrive to the
//! crate's decoders, in chunks of any size.

pub mod client;
pub mod codec;
pub mod connection;
pub mod decoder;
pub mod errors;
pub mod escape_reader;
pub mod inbox;
pub mod query;
pub mod text;

pub use client::{Client, CommandWithOptionalInput, QueryWithOptionalInfo, Response as CommandResponse};
pub use connection::{Authenticated, Connection, Unauthenticated};
pub use errors::ClientError;
pub use escape_reader::EscapeReader;
pub use inbox::Inbox;
pub use query::{
    analysis, serializer, ArgumentWithOptionalValue, ArgumentWriter, Query, QueryFailed,
    Response as QueryResponse, ToQueryArgument, WithInfo, WithoutInfo,
};
