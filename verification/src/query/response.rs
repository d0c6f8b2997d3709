//! The response to a query's execution: the result, read in chunks as it
//! arrives, then the status, and after a failure the server's error text.

use vstd::prelude::*;
use vstd::utf8::{decode_utf8, valid_utf8};
use crate::decoder::{run, start, Decoder, DecoderState, Shape, Status};
use crate::errors::ClientError;
use crate::inbox::{first, Inbox};
use crate::query::errors::{error_parts, QueryFailed};
use crate::query::Query;

verus! {

/// Whether a response can be closed: it is complete and its status is one
/// of the two that the protocol has.
pub open spec fn closable(s: DecoderState) -> bool {
    s.complete() && s.status() != Some(Status::Invalid)
}

/// Response from a query's execution.
#[derive(Debug)]
pub struct Response<HasInfo> {
    query: Query<HasInfo>,
    decoder: Decoder,
}

impl<HasInfo> View for Response<HasInfo> {
    type V = DecoderState;

    closed spec fn view(&self) -> DecoderState {
        self.decoder@
    }
}

impl<HasInfo> Response<HasInfo> {
    /// The query that was executed and comes back when the response is
    /// closed.
    pub closed spec fn spec_query(&self) -> Query<HasInfo> {
        self.query
    }

    /// The id of the query that was executed.
    pub closed spec fn query_id(&self) -> Seq<char> {
        self.query.id()
    }

    /// The response to the execution that `query` has just framed.
    pub fn new(query: Query<HasInfo>) -> (r: Response<HasInfo>)
        ensures
            r@ == start(Shape::Query),
            r.spec_query() == query,
            r.query_id() == query.id(),
    {
        Response { query, decoder: Decoder::new(Shape::Query) }
    }

    /// Reads `chunk`, the next bytes that arrived: appends the result bytes
    /// among them to `out`, keeps status and error text, and tells how many
    /// bytes of the chunk belong to this response. A complete response
    /// reads nothing.
    pub fn read(&mut self, chunk: &[u8], out: &mut Vec<u8>) -> (used: usize)
        ensures
            final(self)@ == run(old(self)@, chunk@).state,
            final(out)@ == old(out)@ + run(old(self)@, chunk@).out,
            used == run(old(self)@, chunk@).used,
            used <= chunk@.len(),
            final(self).spec_query() == old(self).spec_query(),
            final(self).query_id() == old(self).query_id(),
            old(self)@.complete() ==> used == 0 && final(self)@ == old(self)@ && final(out)@
                == old(out)@,
    {
        proof {
            if self@.complete() {
                crate::decoder::lemma_run_complete(self@, chunk@);
                assert(old(out)@ + Seq::<u8>::empty() =~= old(out)@);
            }
        }
        self.decoder.feed(chunk, out)
    }

    /// Reads from the bytes that wait in `inbox`, at most `limit` of them, as
    /// `read` reads from a chunk; what was not read stays in the inbox.
    pub fn read_from(&mut self, inbox: &mut Inbox, limit: usize, out: &mut Vec<u8>) -> (used: usize)
        ensures
            final(self)@ == run(old(self)@, first(old(inbox)@, limit as int)).state,
            final(out)@ == old(out)@ + run(old(self)@, first(old(inbox)@, limit as int)).out,
            used == run(old(self)@, first(old(inbox)@, limit as int)).used,
            used <= limit,
            final(inbox)@ == old(inbox)@.skip(used as int),
            final(self).spec_query() == old(self).spec_query(),
            final(self).query_id() == old(self).query_id(),
    {
        inbox.feed(&mut self.decoder, limit, out)
    }

    /// Whether result, status and error text were all read.
    pub fn is_complete(&self) -> (b: bool)
        ensures
            b == self@.complete(),
    {
        self.decoder.is_complete()
    }

    /// The status, once its byte was read.
    pub fn status(&self) -> (st: Option<Status>)
        ensures
            st == self@.status(),
    {
        self.decoder.status()
    }

    /// The bytes of the server's error text read so far; none unless the
    /// query failed.
    pub fn error(&self) -> (bytes: &Vec<u8>)
        ensures
            bytes@ == self@.info,
    {
        self.decoder.info()
    }

    /// Ends a complete response: gives the query back if it succeeded, else
    /// the failure that the server's error text describes.
    pub fn close(self) -> (r: Result<Query<HasInfo>, ClientError>)
        requires
            closable(self@),
        ensures
            self@.status() == Some(Status::Success) ==> r is Ok && r->Ok_0 == self.spec_query(),
            self@.status() == Some(Status::Failure) && !valid_utf8(self@.info) ==> r is Err
                && r->Err_0 is Utf8Parse,
            self@.status() == Some(Status::Failure) && valid_utf8(self@.info) ==> r is Err
                && r->Err_0 is QueryFailed && r->Err_0->QueryFailed_0.raw_text() == decode_utf8(
                self@.info,
            ) && r->Err_0->QueryFailed_0.parts() == error_parts(decode_utf8(self@.info)),
    {
        match self.decoder.status() {
            Some(Status::Success) => Ok(self.query),
            _ => {
                match String::from_utf8(self.decoder.into_info()) {
                    Ok(text) => Err(ClientError::QueryFailed(QueryFailed::new(text))),
                    Err(e) => Err(ClientError::Utf8Parse(e)),
                }
            },
        }
    }
}

} // verus!
