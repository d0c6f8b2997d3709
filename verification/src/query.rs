//! Query sessions: the commands of query mode, the decoder of an execution's
//! response, and what the server's textual answers mean.

pub mod analysis;
pub mod argument;
pub mod errors;
pub mod response;
pub mod serializer;

pub use argument::{ArgumentWriter, ToQueryArgument};
pub use errors::QueryFailed;
pub use response::Response;

use vstd::prelude::*;
use vstd::utf8::encode_utf8;
use core::marker::PhantomData;
use crate::client::Client;
use crate::codec::DELIMITER;
use crate::connection::argument;
use crate::decoder::{start, Shape};
use crate::query::analysis::RawInfo;
use crate::query::argument::boolean_text;
use crate::query::serializer::{parsed_options, Options};
use crate::text::chars_of;

verus! {

/// Query that has its compiler info collected.
#[derive(Debug)]
pub struct WithInfo;

/// Query that has no compiler info collected.
#[derive(Debug)]
pub struct WithoutInfo;

/// Represents a database command code in query mode.
#[derive(Clone, Copy, Debug, PartialEq, Eq, Structural)]
pub enum Command {
    Close,
    Bind,
    Execute,
    Info,
    Options,
    Context,
    Updating,
}

impl Command {
    /// The byte that stands for the command on the wire.
    pub open spec fn spec_code(self) -> u8 {
        match self {
            Command::Close => 2,
            Command::Bind => 3,
            Command::Execute => 5,
            Command::Info => 6,
            Command::Options => 7,
            Command::Context => 0x0e,
            Command::Updating => 0x1e,
        }
    }

    /// The byte that stands for the command on the wire.
    #[verifier::when_used_as_spec(spec_code)]
    pub fn code(self) -> (c: u8)
        ensures
            c == self.spec_code(),
    {
        match self {
            Command::Close => 2,
            Command::Bind => 3,
            Command::Execute => 5,
            Command::Info => 6,
            Command::Options => 7,
            Command::Context => 0x0e,
            Command::Updating => 0x1e,
        }
    }
}

/// What a command of query mode adds to the wire before its own arguments:
/// its code and the id of the query.
pub open spec fn query_frame(command: Command, id: Seq<char>) -> Seq<u8> {
    seq![command.spec_code()] + argument(encode_utf8(id))
}

/// The type that a context value is always sent with.
pub open spec fn context_type() -> Seq<char> {
    "document-node()"@
}

/// The type that a context value is always sent with.
pub fn context_type_name() -> (name: &'static str)
    ensures
        name@ == context_type(),
{
    "document-node()"
}

/// What the answer to `updating` means: `true` or `false`, nothing else.
pub open spec fn updating_of(text: Seq<char>) -> Option<bool> {
    if text == boolean_text(true) {
        Some(true)
    } else if text == boolean_text(false) {
        Some(false)
    } else {
        None
    }
}

/// Encapsulates a query argument with optional value. To bind the argument,
/// either call `with_value` or `without_value`.
#[derive(Debug)]
pub struct ArgumentWithOptionalValue<'a, HasInfo> {
    query: &'a Query<HasInfo>,
}

impl<'a, HasInfo> ArgumentWithOptionalValue<'a, HasInfo> {
    /// The query whose variable is being bound.
    pub closed spec fn spec_query(&self) -> Query<HasInfo> {
        *self.query
    }

    /// The argument of a binding that `query` has just framed.
    pub fn new(query: &'a Query<HasInfo>) -> (a: ArgumentWithOptionalValue<'a, HasInfo>)
        ensures
            a.spec_query() == *query,
    {
        ArgumentWithOptionalValue { query }
    }

    /// Frames the value and the name of its type.
    pub fn with_value<A: ToQueryArgument>(self, value: A, out: &mut Vec<u8>)
        ensures
            final(out)@ == old(out)@ + argument(encode_utf8(value.xquery_text())) + argument(
                encode_utf8(A::xquery_type_name()),
            ),
    {
        let mut writer = ArgumentWriter::new(self.query.client.connection());
        value.write_xquery(&mut writer);
        let mut written = writer.into_bytes();
        out.append(&mut written);
        self.query.client.connection().send_arg(A::xquery_type().as_str().as_bytes(), out);
        assert(Seq::<u8>::empty() + argument(encode_utf8(value.xquery_text())) =~= argument(
            encode_utf8(value.xquery_text()),
        ));
    }

    /// Frames the binding without a value: value absent, type absent. This
    /// clears the binding.
    pub fn without_value(self, out: &mut Vec<u8>)
        ensures
            final(out)@ == old(out)@ + seq![DELIMITER, DELIMITER],
    {
        self.query.client.connection().skip_arg(out);
        self.query.client.connection().skip_arg(out);
        assert(out@ =~= old(out)@ + seq![DELIMITER, DELIMITER]);
    }
}

/// A query that the server has registered under an id. Its code cannot be
/// changed. The client may bind arguments and set the context, execute the
/// query, ask whether it updates, and read its options or its info.
#[derive(Debug)]
pub struct Query<HasInfo = WithoutInfo> {
    has_info: PhantomData<HasInfo>,
    id: String,
    client: Client,
}

impl<HasInfo> Query<HasInfo> {
    /// The id that the server gave the query.
    pub closed spec fn id(&self) -> Seq<char> {
        self.id@
    }

    /// Frames a command of query mode for this query: the command's code
    /// and the query's id. The command's own arguments follow.
    pub fn send(&self, command: Command, out: &mut Vec<u8>)
        ensures
            final(out)@ == old(out)@ + query_frame(command, self.id()),
    {
        self.client.connection().send_cmd(command.code(), out);
        self.client.connection().send_arg(self.id.as_str().as_bytes(), out);
        assert(out@ =~= old(out)@ + query_frame(command, self.id()));
    }

    /// Frames the deletion of the query and gives the client back.
    pub fn close(self, out: &mut Vec<u8>) -> (client: Client)
        ensures
            final(out)@ == old(out)@ + query_frame(Command::Close, self.id()),
            client == self.spec_client(),
    {
        self.send(Command::Close, out);
        self.client
    }

    /// Frames the binding of the variable `name`; its value follows.
    pub fn bind<'a>(&'a mut self, name: &str, out: &mut Vec<u8>) -> (a: ArgumentWithOptionalValue<
        'a,
        HasInfo,
    >)
        ensures
            final(out)@ == old(out)@ + query_frame(Command::Bind, old(self).id()) + argument(
                encode_utf8(name@),
            ),
            *final(self) == *old(self),
            a.spec_query() == *old(self),
    {
        self.send(Command::Bind, out);
        self.client.connection().send_arg(name.as_bytes(), out);
        ArgumentWithOptionalValue { query: &*self }
    }

    /// Frames the execution of the query and returns the decoder of its
    /// response, which holds the query until it is closed.
    pub fn execute(self, out: &mut Vec<u8>) -> (r: Response<HasInfo>)
        ensures
            final(out)@ == old(out)@ + query_frame(Command::Execute, self.id()),
            r@ == start(Shape::Query),
            r.spec_query() == self,
            r.query_id() == self.id(),
    {
        self.send(Command::Execute, out);
        Response::new(self)
    }

    /// Frames the request for the query's serialization options.
    pub fn options(&mut self, out: &mut Vec<u8>)
        ensures
            final(out)@ == old(out)@ + query_frame(Command::Options, old(self).id()),
            *final(self) == *old(self),
    {
        self.send(Command::Options, out);
    }

    /// The options that the server's answer holds.
    pub fn options_response(&self, text: &str) -> (o: Options)
        ensures
            o@ == parsed_options(text@),
    {
        match Options::from_str(text) {
            Ok(o) => o,
            Err(_) => Options::empty(),
        }
    }

    /// Frames the replacing of the context with `value`, which is always
    /// sent as a document node.
    pub fn context(&mut self, value: &[u8], out: &mut Vec<u8>)
        ensures
            final(out)@ == old(out)@ + query_frame(Command::Context, old(self).id()) + argument(
                value@,
            ) + argument(encode_utf8(context_type())),
            *final(self) == *old(self),
    {
        self.send(Command::Context, out);
        self.client.connection().send_arg(value, out);
        self.client.connection().send_arg(context_type_name().as_bytes(), out);
    }

    /// Frames the question whether the query has updating expressions.
    pub fn updating(&mut self, out: &mut Vec<u8>)
        ensures
            final(out)@ == old(out)@ + query_frame(Command::Updating, old(self).id()),
            *final(self) == *old(self),
    {
        self.send(Command::Updating, out);
    }

    /// What the server's answer to `updating` means, if it is one of the
    /// two answers that the protocol has.
    pub fn parse_updating(&self, text: &str) -> (r: Option<bool>)
        ensures
            r == updating_of(text@),
    {
        let c = chars_of(text);
        if c.len() == 4 && c[0] == 't' && c[1] == 'r' && c[2] == 'u' && c[3] == 'e' {
            assert(text@ =~= boolean_text(true));
            Some(true)
        } else if c.len() == 5 && c[0] == 'f' && c[1] == 'a' && c[2] == 'l' && c[3] == 's'
            && c[4] == 'e' {
            assert(text@ =~= boolean_text(false));
            Some(false)
        } else {
            None
        }
    }

    /// What the server's answer to `updating` means.
    pub fn updating_response(&self, text: &str) -> (r: bool)
        requires
            updating_of(text@) is Some,
        ensures
            Some(r) == updating_of(text@),
    {
        match self.parse_updating(text) {
            Some(r) => r,
            None => false,
        }
    }

    /// The client that the query holds.
    pub fn client(&self) -> (c: &Client)
        ensures
            *c == self.spec_client(),
    {
        &self.client
    }

    /// Gives up the query for its client, without a word to the server.
    pub fn into_inner(self) -> (c: Client)
        ensures
            c == self.spec_client(),
    {
        self.client
    }

    /// The client that the query holds.
    pub closed spec fn spec_client(&self) -> Client {
        self.client
    }
}

impl Query<WithoutInfo> {
    /// Attaches to a query that the server has registered under `id`.
    pub fn without_info(id: String, client: Client) -> (q: Query<WithoutInfo>)
        ensures
            q.id() == id@,
            q.spec_client() == client,
    {
        Query { has_info: PhantomData, id, client }
    }
}

impl Query<WithInfo> {
    /// Attaches to a query that the server has registered under `id`.
    pub fn with_info(id: String, client: Client) -> (q: Query<WithInfo>)
        ensures
            q.id() == id@,
            q.spec_client() == client,
    {
        Query { has_info: PhantomData, id, client }
    }

    /// Frames the request for the query's compilation and profiling info.
    pub fn info(&mut self, out: &mut Vec<u8>)
        ensures
            final(out)@ == old(out)@ + query_frame(Command::Info, old(self).id()),
            *final(self) == *old(self),
    {
        self.send(Command::Info, out);
    }

    /// The info that the server's answer holds.
    pub fn info_response(&self, text: String) -> (info: RawInfo)
        ensures
            info@ == text@,
    {
        RawInfo::new(text)
    }
}

} // verus!
