//! The connection's side of the protocol: the authentication handshake, the
//! framing of commands and arguments, and the reading of a command's answer.
//!
//! A connection moves no bytes itself. It is the proof that the handshake
//! was passed: only an authenticated connection frames commands.

use vstd::prelude::*;
use vstd::utf8::{decode_utf8, encode_utf8, valid_utf8};
use core::marker::PhantomData;
use crate::codec::{escape_into, escaped, DELIMITER};
use crate::errors::ClientError;
use crate::text::{chars_of, find_char, find_from, string_of};

verus! {

/// [`Connection`] state before authentication for the session.
#[derive(Debug, Clone)]
pub struct Unauthenticated;

/// [`Connection`] state after successful authentication for the session.
#[derive(Debug, Clone)]
pub struct Authenticated;

/// The MD5 digest of a byte sequence, sixteen bytes.
pub uninterp spec fn md5_digest(data: Seq<u8>) -> Seq<u8>;

/// `md5::compute` returns the MD5 digest of the bytes it is given.
#[verifier::external_body]
fn md5_compute(data: &[u8]) -> (digest: [u8; 16])
    ensures
        digest@ == md5_digest(data@),
{
    md5::compute(data).0
}

/// The lower-case hexadecimal digit of a number below sixteen: `0` to `9`
/// from character 48 on, `a` to `f` from character 97 on.
pub open spec fn hex_digit(n: int) -> char {
    if n < 10 {
        (48 + n) as char
    } else {
        (97 + n - 10) as char
    }
}

/// The bytes written in lower-case hexadecimal, two digits each.
pub open spec fn hex_chars(bytes: Seq<u8>) -> Seq<char>
    decreases bytes.len(),
{
    if bytes.len() == 0 {
        Seq::empty()
    } else {
        hex_chars(bytes.drop_last()).push(hex_digit(bytes.last() as int / 16)).push(
            hex_digit(bytes.last() as int % 16),
        )
    }
}

/// The lower-case hexadecimal digit of a number below sixteen.
fn hex_digit_of(n: u8) -> (c: char)
    requires
        n < 16,
    ensures
        c == hex_digit(n as int),
{
    if n < 10 {
        (48u8 + n) as char
    } else {
        (97u8 + (n - 10)) as char
    }
}

/// Appends the bytes, written in lower-case hexadecimal, to `out`.
pub fn push_hex(bytes: &[u8], out: &mut String)
    ensures
        final(out)@ == old(out)@ + hex_chars(bytes@),
{
    let mut i: usize = 0;
    while i < bytes.len()
        invariant
            i <= bytes.len(),
            out@ == old(out)@ + hex_chars(bytes@.take(i as int)),
        decreases bytes.len() - i,
    {
        let b = bytes[i];
        proof {
            assert(bytes@.take(i + 1).drop_last() =~= bytes@.take(i as int));
            assert(bytes@.take(i + 1).last() == b);
        }
        out.push(hex_digit_of(b / 16));
        out.push(hex_digit_of(b % 16));
        i += 1;
        assert(out@ =~= old(out)@ + hex_chars(bytes@.take(i as int)));
    }
    assert(bytes@.take(i as int) =~= bytes@);
}

/// Whether a challenge has the colon that parts the server's name from the
/// timestamp.
pub open spec fn has_timestamp(challenge: Seq<char>) -> bool {
    find_from(challenge, ':', 0) < challenge.len()
}

/// The server's name in a challenge: what stands before the first colon.
pub open spec fn server_name(challenge: Seq<char>) -> Seq<char> {
    challenge.subrange(0, find_from(challenge, ':', 0))
}

/// The timestamp in a challenge: what stands behind the first colon, up to
/// the next colon if there is one.
pub open spec fn timestamp(challenge: Seq<char>) -> Seq<char> {
    let first = find_from(challenge, ':', 0);
    challenge.subrange(first + 1, find_from(challenge, ':', first + 1))
}

/// The digest of a text, in lower-case hexadecimal.
pub open spec fn digest_hex(text: Seq<char>) -> Seq<char> {
    hex_chars(md5_digest(encode_utf8(text)))
}

/// The client's answer to a challenge: the user's name, a delimiter, the
/// digest of the digest of `user:name:password` followed by the timestamp,
/// and a delimiter.
pub open spec fn auth_string(challenge: Seq<char>, user: Seq<char>, password: Seq<char>) -> Seq<
    char,
> {
    let first = digest_hex(user + seq![':'] + server_name(challenge) + seq![':'] + password);
    let second = digest_hex(first + timestamp(challenge));
    user + seq!['\0'] + second + seq!['\0']
}

/// The digest of a text, in lower-case hexadecimal.
fn digest_hex_of(text: &str) -> (hex: String)
    ensures
        hex@ == digest_hex(text@),
{
    let digest = md5_compute(text.as_bytes());
    let mut hex = String::new();
    push_hex(digest.as_slice(), &mut hex);
    hex
}

/// Responsible for the low-level side of the protocol: it answers the
/// server's challenge, frames commands and arguments, and reads a command's
/// answer. It does not know what a command does.
#[derive(Debug)]
pub struct Connection<State = Unauthenticated> {
    state: PhantomData<State>,
}

impl Connection<Unauthenticated> {
    /// A connection that has not passed the handshake.
    pub fn new() -> (c: Connection<Unauthenticated>) {
        Connection { state: PhantomData }
    }

    /// The answer to the server's challenge, to be sent as it is.
    pub fn auth_reply(&self, challenge: &str, user: &str, password: &str) -> (reply: String)
        requires
            has_timestamp(challenge@),
        ensures
            reply@ == auth_string(challenge@, user@, password@),
    {
        let chars = chars_of(challenge);
        let first = find_char(&chars, ':', 0);
        let second = find_char(&chars, ':', first + 1);
        let name = string_of(&chars, 0, first);
        let stamp = string_of(&chars, first + 1, second);
        let mut secret = user.to_owned();
        secret.push(':');
        secret.push_str(name.as_str());
        secret.push(':');
        secret.push_str(password);
        assert(secret@ =~= user@ + seq![':'] + server_name(challenge@) + seq![':'] + password@);
        let mut salted = digest_hex_of(secret.as_str());
        salted.push_str(stamp.as_str());
        let second_digest = digest_hex_of(salted.as_str());
        let mut reply = user.to_owned();
        reply.push('\0');
        reply.push_str(second_digest.as_str());
        reply.push('\0');
        assert(reply@ =~= auth_string(challenge@, user@, password@));
        reply
    }

    /// Ends the handshake with the control byte that the server sent after
    /// the answer: zero lets the connection pass, anything else is a
    /// rejection and the connection is gone.
    pub fn authenticate(self, control: u8) -> (r: Result<Connection<Authenticated>, ClientError>)
        ensures
            control == 0 ==> r is Ok,
            control != 0 ==> r is Err && r->Err_0 is Auth,
    {
        if control != 0 {
            return Err(ClientError::Auth);
        }
        Ok(Connection { state: PhantomData })
    }
}

/// What one argument adds to the wire: its escaped bytes and a delimiter.
pub open spec fn argument(data: Seq<u8>) -> Seq<u8> {
    escaped(data) + seq![DELIMITER]
}

/// What a command's answer comes to, given its info text and status byte.
pub open spec fn is_response(info: Seq<u8>, status: u8, r: Result<String, ClientError>) -> bool {
    if !valid_utf8(info) {
        r is Err && r->Err_0 is Utf8Parse
    } else if status == 0 {
        r is Ok && r->Ok_0@ == decode_utf8(info)
    } else {
        r is Err && r->Err_0 is CommandFailed && r->Err_0->message@ == decode_utf8(info)
    }
}

impl Connection<Authenticated> {
    /// Frames a command code: one byte.
    pub fn send_cmd(&self, code: u8, out: &mut Vec<u8>)
        ensures
            final(out)@ == old(out)@ + seq![code],
    {
        out.push(code);
        assert(out@ =~= old(out)@ + seq![code]);
    }

    /// Frames an argument: its escaped bytes, then the delimiter.
    pub fn send_arg(&self, data: &[u8], out: &mut Vec<u8>)
        ensures
            final(out)@ == old(out)@ + argument(data@),
    {
        escape_into(data, out);
        out.push(DELIMITER);
        assert(out@ =~= old(out)@ + argument(data@));
    }

    /// Frames an absent argument: a bare delimiter.
    pub fn skip_arg(&self, out: &mut Vec<u8>)
        ensures
            final(out)@ == old(out)@ + seq![DELIMITER],
    {
        out.push(DELIMITER);
        assert(out@ =~= old(out)@ + seq![DELIMITER]);
    }

    /// Whether a status byte reports success.
    pub fn is_ok(&self, status: u8) -> (ok: bool)
        ensures
            ok == (status == 0),
    {
        status == 0
    }

    /// The answer to a command, from the info text and the status byte that
    /// followed it: the info if the command succeeded, else the failure
    /// that carries it.
    pub fn get_response(&self, info: Vec<u8>, status: u8) -> (r: Result<String, ClientError>)
        ensures
            is_response(info@, status, r),
    {
        let text = match String::from_utf8(info) {
            Ok(text) => text,
            Err(e) => {
                return Err(ClientError::Utf8Parse(e));
            },
        };
        if status == 0 {
            Ok(text)
        } else {
            Err(ClientError::CommandFailed { message: text })
        }
    }
}

impl<State> Clone for Connection<State> {
    fn clone(&self) -> (c: Connection<State>) {
        self.try_clone()
    }
}

impl<State> Connection<State> {
    /// A second connection in the same state, for a second handle to the
    /// same channel: a copy that equals this connection.
    pub fn try_clone(&self) -> (c: Connection<State>)
        ensures
            c == *self,
    {
        Connection { state: self.state }
    }

    /// The text that a delimited string holds.
    pub fn read_string(&self, raw: Vec<u8>) -> (r: Result<String, ClientError>)
        ensures
            r is Ok <==> valid_utf8(raw@),
            r is Ok ==> r->Ok_0@ == decode_utf8(raw@),
            r is Err ==> r->Err_0 is Utf8Parse,
    {
        match String::from_utf8(raw) {
            Ok(text) => Ok(text),
            Err(e) => Err(ClientError::Utf8Parse(e)),
        }
    }
}

} // verus!
