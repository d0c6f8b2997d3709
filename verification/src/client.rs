//! The client's side of standard mode: the database commands, and the
//! decoder of their streamed responses.

use vstd::prelude::*;
use vstd::utf8::{decode_utf8, encode_utf8, valid_utf8};
use crate::codec::DELIMITER;
use crate::connection::{argument, Authenticated, Connection};
use crate::decoder::{run, start, Decoder, DecoderState, Shape, Status};
use crate::errors::ClientError;
use crate::inbox::{first, Inbox};

verus! {

/// Represents a database command code in standard mode.
#[derive(Clone, Copy, Debug, PartialEq, Eq, Structural)]
pub enum Command {
    Query,
    Create,
    Add,
    Replace,
    Store,
}

impl Command {
    /// The byte that stands for the command on the wire.
    pub open spec fn spec_code(self) -> u8 {
        match self {
            Command::Query => 0,
            Command::Create => 8,
            Command::Add => 9,
            Command::Replace => 12,
            Command::Store => 13,
        }
    }

    /// The byte that stands for the command on the wire.
    #[verifier::when_used_as_spec(spec_code)]
    pub fn code(self) -> (c: u8)
        ensures
            c == self.spec_code(),
    {
        match self {
            Command::Query => 0,
            Command::Create => 8,
            Command::Add => 9,
            Command::Replace => 12,
            Command::Store => 13,
        }
    }
}

/// The command that switches the collecting of query info on or off.
pub open spec fn query_info_command(on: bool) -> Seq<char> {
    if on {
        "SET QUERYINFO true"@
    } else {
        "SET QUERYINFO false"@
    }
}

/// Encapsulates a command with optional input. To frame it, either call
/// `with_input` or `without_input`.
#[derive(Debug)]
pub struct CommandWithOptionalInput<'a> {
    connection: &'a Connection<Authenticated>,
}

impl<'a> CommandWithOptionalInput<'a> {
    /// Frames the input as the command's last argument.
    pub fn with_input(self, input: &[u8], out: &mut Vec<u8>)
        ensures
            final(out)@ == old(out)@ + argument(input@),
    {
        self.connection.send_arg(input, out);
    }

    /// Frames the command without input: an absent argument.
    pub fn without_input(self, out: &mut Vec<u8>)
        ensures
            final(out)@ == old(out)@ + seq![DELIMITER],
    {
        self.connection.skip_arg(out);
    }
}

/// What a command with a path and an input adds to the wire.
pub open spec fn resource_frame(command: Command, path: Seq<char>, input: Seq<u8>) -> Seq<u8> {
    seq![command.spec_code()] + argument(encode_utf8(path)) + argument(input)
}

/// Frames the database commands and creates queries. It owns the
/// authenticated connection.
#[derive(Debug, Clone)]
pub struct Client {
    connection: Connection<Authenticated>,
}

impl Client {
    /// Returns a new client with the given connection bound to it.
    pub fn new(connection: Connection<Authenticated>) -> (c: Client)
        ensures
            c.spec_connection() == connection,
    {
        Client { connection }
    }

    /// The connection, for the framing and reading that no command covers.
    pub fn connection(&self) -> (c: &Connection<Authenticated>)
        ensures
            *c == self.spec_connection(),
    {
        &self.connection
    }

    /// A second client, for a second handle to the same channel: a copy
    /// that equals this client.
    pub fn try_clone(&self) -> (c: Client)
        ensures
            c == *self,
    {
        Client { connection: self.connection.try_clone() }
    }

    /// The connection that the client owns.
    pub closed spec fn spec_connection(&self) -> Connection<Authenticated> {
        self.connection
    }

    /// Frames a server command with its arguments, one line of text, and
    /// returns the decoder of its response.
    pub fn execute(self, command: &str, out: &mut Vec<u8>) -> (r: Response)
        ensures
            final(out)@ == old(out)@ + argument(encode_utf8(command@)),
            r@ == start(Shape::Command),
            r.spec_client() == self,
    {
        self.connection.send_arg(command.as_bytes(), out);
        Response::new(self)
    }

    /// Frames the creation of the database `name`; the input follows.
    pub fn create<'a>(&'a mut self, name: &str, out: &mut Vec<u8>) -> (c: CommandWithOptionalInput<
        'a,
    >)
        ensures
            final(out)@ == old(out)@ + seq![Command::Create.spec_code()] + argument(
                encode_utf8(name@),
            ),
            *final(self) == *old(self),
    {
        self.connection.send_cmd(Command::Create.code(), out);
        self.connection.send_arg(name.as_bytes(), out);
        assert(out@ =~= old(out)@ + seq![Command::Create.spec_code()] + argument(
            encode_utf8(name@),
        ));
        CommandWithOptionalInput { connection: &self.connection }
    }

    /// Frames a command that takes a path and an input.
    fn send_resource(&mut self, command: Command, path: &str, input: &[u8], out: &mut Vec<u8>)
        ensures
            final(out)@ == old(out)@ + resource_frame(command, path@, input@),
            *final(self) == *old(self),
    {
        self.connection.send_cmd(command.code(), out);
        self.connection.send_arg(path.as_bytes(), out);
        self.connection.send_arg(input, out);
        assert(out@ =~= old(out)@ + resource_frame(command, path@, input@));
    }

    /// Frames the replacing of the resource at `path` with `input`.
    pub fn replace(&mut self, path: &str, input: &[u8], out: &mut Vec<u8>)
        ensures
            final(out)@ == old(out)@ + resource_frame(Command::Replace, path@, input@),
            *final(self) == *old(self),
    {
        self.send_resource(Command::Replace, path, input, out);
    }

    /// Frames the storing of the binary `input` under `path`.
    pub fn store(&mut self, path: &str, input: &[u8], out: &mut Vec<u8>)
        ensures
            final(out)@ == old(out)@ + resource_frame(Command::Store, path@, input@),
            *final(self) == *old(self),
    {
        self.send_resource(Command::Store, path, input, out);
    }

    /// Frames the adding of the resource `input` under `path`.
    pub fn add(&mut self, path: &str, input: &[u8], out: &mut Vec<u8>)
        ensures
            final(out)@ == old(out)@ + resource_frame(Command::Add, path@, input@),
            *final(self) == *old(self),
    {
        self.send_resource(Command::Add, path, input, out);
    }

    /// Starts a query from XQuery code; whether its info is collected is
    /// said next.
    pub fn query(self, query: &[u8]) -> (q: QueryWithOptionalInfo)
        ensures
            q.text() == query@,
            q.spec_client() == self,
    {
        let mut text: Vec<u8> = Vec::new();
        text.extend_from_slice(query);
        QueryWithOptionalInfo { client: self, query: text }
    }

    /// Frames the registration of a query; the server answers with its id.
    pub fn send_query(&mut self, query: &[u8], out: &mut Vec<u8>)
        ensures
            final(out)@ == old(out)@ + seq![Command::Query.spec_code()] + argument(query@),
            *final(self) == *old(self),
    {
        self.connection.send_cmd(Command::Query.code(), out);
        self.connection.send_arg(query, out);
        assert(out@ =~= old(out)@ + seq![Command::Query.spec_code()] + argument(query@));
    }
}

/// A query that is about to be registered, with or without info.
#[derive(Debug)]
pub struct QueryWithOptionalInfo {
    client: Client,
    query: Vec<u8>,
}

impl QueryWithOptionalInfo {
    /// The XQuery code.
    pub closed spec fn text(&self) -> Seq<u8> {
        self.query@
    }

    /// The client that will register the query.
    pub closed spec fn spec_client(&self) -> Client {
        self.client
    }

    /// Frames the switch to collecting info; returns the decoder of the
    /// response to it and the XQuery code, to be registered once the
    /// response is closed.
    pub fn with_info(self, out: &mut Vec<u8>) -> (r: (Response, Vec<u8>))
        ensures
            final(out)@ == old(out)@ + argument(encode_utf8(query_info_command(true))),
            r.0@ == start(Shape::Command),
            r.0.spec_client() == self.spec_client(),
            r.1@ == self.text(),
    {
        let response = self.client.execute("SET QUERYINFO true", out);
        (response, self.query)
    }

    /// Frames the switch to collecting no info; returns the decoder of the
    /// response to it and the XQuery code, to be registered once the
    /// response is closed.
    pub fn without_info(self, out: &mut Vec<u8>) -> (r: (Response, Vec<u8>))
        ensures
            final(out)@ == old(out)@ + argument(encode_utf8(query_info_command(false))),
            r.0@ == start(Shape::Command),
            r.0.spec_client() == self.spec_client(),
            r.1@ == self.text(),
    {
        let response = self.client.execute("SET QUERYINFO false", out);
        (response, self.query)
    }
}

/// What closing a complete command response comes to.
pub open spec fn is_closed(s: DecoderState, r: Result<(Client, String), ClientError>) -> bool {
    if !valid_utf8(s.info) {
        r is Err && r->Err_0 is Utf8Parse
    } else if s.status() == Some(Status::Success) {
        r is Ok && r->Ok_0.1@ == decode_utf8(s.info)
    } else {
        r is Err && r->Err_0 is CommandFailed && r->Err_0->message@ == decode_utf8(s.info)
    }
}

/// Response from a command: a payload that is read in chunks as it arrives,
/// then the info and the status.
#[derive(Debug)]
pub struct Response {
    client: Client,
    decoder: Decoder,
}

impl View for Response {
    type V = DecoderState;

    closed spec fn view(&self) -> DecoderState {
        self.decoder@
    }
}

impl Response {
    /// The client that framed the command and comes back when the response
    /// is closed.
    pub closed spec fn spec_client(&self) -> Client {
        self.client
    }

    /// The response to a command that `client` has just framed.
    pub fn new(client: Client) -> (r: Response)
        ensures
            r@ == start(Shape::Command),
            r.spec_client() == client,
    {
        Response { client, decoder: Decoder::new(Shape::Command) }
    }

    /// Reads `chunk`, the next bytes that arrived: appends the payload
    /// bytes among them to `out`, keeps info and status, and tells how many
    /// bytes of the chunk belong to this response. A complete response
    /// reads nothing.
    pub fn read(&mut self, chunk: &[u8], out: &mut Vec<u8>) -> (used: usize)
        ensures
            final(self)@ == run(old(self)@, chunk@).state,
            final(out)@ == old(out)@ + run(old(self)@, chunk@).out,
            used == run(old(self)@, chunk@).used,
            used <= chunk@.len(),
            old(self)@.complete() ==> used == 0 && final(self)@ == old(self)@ && final(out)@
                == old(out)@,
            final(self).spec_client() == old(self).spec_client(),
    {
        proof {
            if self@.complete() {
                crate::decoder::lemma_run_complete(self@, chunk@);
                assert(old(out)@ + Seq::<u8>::empty() =~= old(out)@);
            }
        }
        self.decoder.feed(chunk, out)
    }

    /// Reads from the bytes that wait in `inbox`, at most `limit` of them, as
    /// `read` reads from a chunk; what was not read stays in the inbox.
    pub fn read_from(&mut self, inbox: &mut Inbox, limit: usize, out: &mut Vec<u8>) -> (used: usize)
        ensures
            final(self)@ == run(old(self)@, first(old(inbox)@, limit as int)).state,
            final(out)@ == old(out)@ + run(old(self)@, first(old(inbox)@, limit as int)).out,
            used == run(old(self)@, first(old(inbox)@, limit as int)).used,
            used <= limit,
            final(inbox)@ == old(inbox)@.skip(used as int),
            final(self).spec_client() == old(self).spec_client(),
    {
        inbox.feed(&mut self.decoder, limit, out)
    }

    /// Whether payload, info and status were all read.
    pub fn is_complete(&self) -> (b: bool)
        ensures
            b == self@.complete(),
    {
        self.decoder.is_complete()
    }

    /// The status, once its byte was read.
    pub fn status(&self) -> (st: Option<Status>)
        ensures
            st == self@.status(),
    {
        self.decoder.status()
    }

    /// The bytes of the info read so far.
    pub fn info(&self) -> (bytes: &Vec<u8>)
        ensures
            bytes@ == self@.info,
    {
        self.decoder.info()
    }

    /// Ends a complete response: returns the client and the info if the
    /// command succeeded, else the failure that carries the info.
    pub fn close(self) -> (r: Result<(Client, String), ClientError>)
        requires
            self@.complete(),
            self@.status() != Some(Status::Invalid),
        ensures
            is_closed(self@, r),
            r is Ok ==> r->Ok_0.0 == self.spec_client(),
    {
        let status = self.decoder.status();
        let info = match String::from_utf8(self.decoder.into_info()) {
            Ok(info) => info,
            Err(e) => {
                return Err(ClientError::Utf8Parse(e));
            },
        };
        match status {
            Some(Status::Success) => Ok((self.client, info)),
            _ => Err(ClientError::CommandFailed { message: info }),
        }
    }
}

} // verus!
