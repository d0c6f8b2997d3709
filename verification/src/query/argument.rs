//! Values bound to the variables of a query: each is written as text in
//! XQuery's own notation and is sent with the name of its XQuery type.

use vstd::prelude::*;
use vstd::utf8::encode_utf8;
use crate::connection::{argument, Authenticated, Connection};
use crate::text::decimal;

verus! {

/// Writes argument values, framed as a connection frames them.
#[derive(Debug)]
pub struct ArgumentWriter {
    connection: Connection<Authenticated>,
    buffer: Vec<u8>,
}

impl ArgumentWriter {
    /// The bytes framed so far.
    pub closed spec fn written(&self) -> Seq<u8> {
        self.buffer@
    }

    /// A writer that has written nothing, for a query on `connection`.
    pub fn new(connection: &Connection<Authenticated>) -> (w: ArgumentWriter)
        ensures
            w.written() == Seq::<u8>::empty(),
            w.spec_connection() == *connection,
    {
        ArgumentWriter { connection: connection.try_clone(), buffer: Vec::new() }
    }

    /// The connection that the writer frames for.
    pub closed spec fn spec_connection(&self) -> Connection<Authenticated> {
        self.connection
    }

    /// Writes the bytes as the argument's value.
    pub fn write(&mut self, data: &[u8])
        ensures
            final(self).written() == old(self).written() + argument(data@),
            final(self).spec_connection() == old(self).spec_connection(),
    {
        let mut buffer: Vec<u8> = Vec::new();
        core::mem::swap(&mut self.buffer, &mut buffer);
        self.connection.send_arg(data, &mut buffer);
        self.buffer = buffer;
    }

    /// Gives up the writer for the bytes it has framed.
    pub fn into_bytes(self) -> (bytes: Vec<u8>)
        ensures
            bytes@ == self.written(),
    {
        self.buffer
    }
}

/// An integer in decimal, with a minus sign where it is negative.
pub open spec fn signed_decimal(n: int) -> Seq<char> {
    if n < 0 {
        seq!['-'] + decimal((-n) as nat)
    } else {
        decimal(n as nat)
    }
}

/// The text of a boolean.
pub open spec fn boolean_text(b: bool) -> Seq<char> {
    if b {
        seq!['t', 'r', 'u', 'e']
    } else {
        seq!['f', 'a', 'l', 's', 'e']
    }
}

/// Appends the decimal text of `n` to `out`.
fn push_decimal(n: u64, out: &mut String)
    ensures
        final(out)@ == old(out)@ + decimal(n as nat),
    decreases n,
{
    if n >= 10 {
        push_decimal(n / 10, out);
    }
    out.push((48u8 + (n % 10) as u8) as char);
    assert(out@ =~= old(out)@ + decimal(n as nat));
}

/// The decimal text of an unsigned number.
pub fn unsigned_text(n: u64) -> (s: String)
    ensures
        s@ == decimal(n as nat),
{
    let mut s = String::new();
    push_decimal(n, &mut s);
    s
}

/// The decimal text of a signed number.
pub fn signed_text(n: i64) -> (s: String)
    ensures
        s@ == signed_decimal(n as int),
{
    let mut s = String::new();
    if n < 0 {
        s.push('-');
        let magnitude: u64 = if n == i64::MIN {
            0x8000_0000_0000_0000u64
        } else {
            (-n) as u64
        };
        push_decimal(magnitude, &mut s);
    } else {
        push_decimal(n as u64, &mut s);
    }
    s
}

/// Makes a type able to be bound as an XQuery argument value.
pub trait ToQueryArgument {
    /// The value as text in XQuery's notation.
    spec fn xquery_text(&self) -> Seq<char>;

    /// The name of the XQuery type of the value.
    spec fn xquery_type_name() -> Seq<char>;

    /// Writes this value with `writer` as an XQuery argument value.
    fn write_xquery(&self, writer: &mut ArgumentWriter)
        ensures
            final(writer).written() == old(writer).written() + argument(
                encode_utf8(self.xquery_text()),
            ),
    ;

    /// The type name of the XQuery representation.
    fn xquery_type() -> (name: String)
        ensures
            name@ == Self::xquery_type_name(),
    ;
}

impl ToQueryArgument for bool {
    open spec fn xquery_text(&self) -> Seq<char> {
        boolean_text(*self)
    }

    open spec fn xquery_type_name() -> Seq<char> {
        "xs:boolean"@
    }

    fn write_xquery(&self, writer: &mut ArgumentWriter) {
        proof {
            reveal_strlit("true");
            reveal_strlit("false");
        }
        let text = if *self {
            "true"
        } else {
            "false"
        };
        assert(text@ =~= boolean_text(*self));
        writer.write(text.as_bytes());
    }

    fn xquery_type() -> (name: String) {
        "xs:boolean".to_owned()
    }
}

impl ToQueryArgument for u8 {
    open spec fn xquery_text(&self) -> Seq<char> {
        decimal(*self as nat)
    }

    open spec fn xquery_type_name() -> Seq<char> {
        "xs:unsignedByte"@
    }

    fn write_xquery(&self, writer: &mut ArgumentWriter) {
        writer.write(unsigned_text(*self as u64).as_str().as_bytes());
    }

    fn xquery_type() -> (name: String) {
        "xs:unsignedByte".to_owned()
    }
}

impl ToQueryArgument for i8 {
    open spec fn xquery_text(&self) -> Seq<char> {
        signed_decimal(*self as int)
    }

    open spec fn xquery_type_name() -> Seq<char> {
        "xs:byte"@
    }

    fn write_xquery(&self, writer: &mut ArgumentWriter) {
        writer.write(signed_text(*self as i64).as_str().as_bytes());
    }

    fn xquery_type() -> (name: String) {
        "xs:byte".to_owned()
    }
}

impl ToQueryArgument for u16 {
    open spec fn xquery_text(&self) -> Seq<char> {
        decimal(*self as nat)
    }

    open spec fn xquery_type_name() -> Seq<char> {
        "xs:unsignedShort"@
    }

    fn write_xquery(&self, writer: &mut ArgumentWriter) {
        writer.write(unsigned_text(*self as u64).as_str().as_bytes());
    }

    fn xquery_type() -> (name: String) {
        "xs:unsignedShort".to_owned()
    }
}

impl ToQueryArgument for i16 {
    open spec fn xquery_text(&self) -> Seq<char> {
        signed_decimal(*self as int)
    }

    open spec fn xquery_type_name() -> Seq<char> {
        "xs:short"@
    }

    fn write_xquery(&self, writer: &mut ArgumentWriter) {
        writer.write(signed_text(*self as i64).as_str().as_bytes());
    }

    fn xquery_type() -> (name: String) {
        "xs:short".to_owned()
    }
}

impl ToQueryArgument for u32 {
    open spec fn xquery_text(&self) -> Seq<char> {
        decimal(*self as nat)
    }

    open spec fn xquery_type_name() -> Seq<char> {
        "xs:unsignedInt"@
    }

    fn write_xquery(&self, writer: &mut ArgumentWriter) {
        writer.write(unsigned_text(*self as u64).as_str().as_bytes());
    }

    fn xquery_type() -> (name: String) {
        "xs:unsignedInt".to_owned()
    }
}

impl ToQueryArgument for i32 {
    open spec fn xquery_text(&self) -> Seq<char> {
        signed_decimal(*self as int)
    }

    open spec fn xquery_type_name() -> Seq<char> {
        "xs:int"@
    }

    fn write_xquery(&self, writer: &mut ArgumentWriter) {
        writer.write(signed_text(*self as i64).as_str().as_bytes());
    }

    fn xquery_type() -> (name: String) {
        "xs:int".to_owned()
    }
}

impl ToQueryArgument for u64 {
    open spec fn xquery_text(&self) -> Seq<char> {
        decimal(*self as nat)
    }

    open spec fn xquery_type_name() -> Seq<char> {
        "xs:unsignedLong"@
    }

    fn write_xquery(&self, writer: &mut ArgumentWriter) {
        writer.write(unsigned_text(*self).as_str().as_bytes());
    }

    fn xquery_type() -> (name: String) {
        "xs:unsignedLong".to_owned()
    }
}

impl ToQueryArgument for i64 {
    open spec fn xquery_text(&self) -> Seq<char> {
        signed_decimal(*self as int)
    }

    open spec fn xquery_type_name() -> Seq<char> {
        "xs:long"@
    }

    fn write_xquery(&self, writer: &mut ArgumentWriter) {
        writer.write(signed_text(*self).as_str().as_bytes());
    }

    fn xquery_type() -> (name: String) {
        "xs:long".to_owned()
    }
}

impl<'a> ToQueryArgument for &'a str {
    open spec fn xquery_text(&self) -> Seq<char> {
        self@
    }

    open spec fn xquery_type_name() -> Seq<char> {
        "xs:string"@
    }

    fn write_xquery(&self, writer: &mut ArgumentWriter) {
        writer.write(self.as_bytes());
    }

    fn xquery_type() -> (name: String) {
        "xs:string".to_owned()
    }
}

impl ToQueryArgument for String {
    open spec fn xquery_text(&self) -> Seq<char> {
        self@
    }

    open spec fn xquery_type_name() -> Seq<char> {
        "xs:string"@
    }

    fn write_xquery(&self, writer: &mut ArgumentWriter) {
        writer.write(self.as_str().as_bytes());
    }

    fn xquery_type() -> (name: String) {
        "xs:string".to_owned()
    }
}

/// A value of the type `xs:float`, held as the text that writes it.
#[derive(Debug, Clone, PartialEq, Eq)]
pub struct XsFloat {
    text: String,
}

impl XsFloat {
    /// The value that `text` writes.
    pub fn new(text: String) -> (value: XsFloat)
        ensures
            value.xquery_text() == text@,
    {
        XsFloat { text }
    }
}

impl ToQueryArgument for XsFloat {
    closed spec fn xquery_text(&self) -> Seq<char> {
        self.text@
    }

    open spec fn xquery_type_name() -> Seq<char> {
        "xs:float"@
    }

    fn write_xquery(&self, writer: &mut ArgumentWriter) {
        writer.write(self.text.as_str().as_bytes());
    }

    fn xquery_type() -> (name: String) {
        "xs:float".to_owned()
    }
}

/// A value of the type `xs:double`, held as the text that writes it.
#[derive(Debug, Clone, PartialEq, Eq)]
pub struct XsDouble {
    text: String,
}

impl XsDouble {
    /// The value that `text` writes.
    pub fn new(text: String) -> (value: XsDouble)
        ensures
            value.xquery_text() == text@,
    {
        XsDouble { text }
    }
}

impl ToQueryArgument for XsDouble {
    closed spec fn xquery_text(&self) -> Seq<char> {
        self.text@
    }

    open spec fn xquery_type_name() -> Seq<char> {
        "xs:double"@
    }

    fn write_xquery(&self, writer: &mut ArgumentWriter) {
        writer.write(self.text.as_str().as_bytes());
    }

    fn xquery_type() -> (name: String) {
        "xs:double".to_owned()
    }
}

impl<'b, D: ToQueryArgument> ToQueryArgument for &'b D {
    open spec fn xquery_text(&self) -> Seq<char> {
        (**self).xquery_text()
    }

    open spec fn xquery_type_name() -> Seq<char> {
        D::xquery_type_name()
    }

    fn write_xquery(&self, writer: &mut ArgumentWriter) {
        (*self).write_xquery(writer)
    }

    fn xquery_type() -> (name: String) {
        D::xquery_type()
    }
}

/// An absent value is sent as the empty text, under the type of the value
/// that could have been there.
impl<D: ToQueryArgument> ToQueryArgument for Option<D> {
    open spec fn xquery_text(&self) -> Seq<char> {
        match self {
            Some(data) => data.xquery_text(),
            None => Seq::empty(),
        }
    }

    open spec fn xquery_type_name() -> Seq<char> {
        D::xquery_type_name()
    }

    fn write_xquery(&self, writer: &mut ArgumentWriter) {
        match self {
            Some(data) => data.write_xquery(writer),
            None => {
                let empty = String::new();
                writer.write(empty.as_str().as_bytes());
            },
        }
    }

    fn xquery_type() -> (name: String) {
        D::xquery_type()
    }
}

} // verus!
