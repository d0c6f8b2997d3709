//! The error that a failed query reports, parsed from the server's text:
//! `Stopped at <file>, <line>/<column>: [<code>] <message>`.

use vstd::prelude::*;
use crate::text::{
    chars_of, decimal, find_char, find_from, is_digit, lemma_decimal_parses,
    lemma_find_from_is, lemma_rfind_before_is, parse_number, parsed_number, rfind_before,
    rfind_char, string_of,
};

verus! {

/// Where the file name starts: behind the eleven characters of `Stopped at `.
pub const FILE_START: usize = 11;

/// The parts of an error text.
pub struct ErrorParts {
    /// The error code, as it stands between the square brackets.
    pub code: Seq<char>,
    /// The line of the error, counted from one.
    pub line: usize,
    /// The column of the error, counted from one.
    pub column: usize,
    /// The message behind the code.
    pub message: Seq<char>,
    /// The source file, `.` when the query came from no file.
    pub file: Seq<char>,
}

/// Where the parts of an error text stand.
pub struct ErrorLayout {
    /// The first `[`.
    pub code_index: int,
    /// The first `]` behind it.
    pub code_stop: int,
    /// The last `/` before the code.
    pub line_separator: int,
    /// The last `,` before that `/`.
    pub line_start: int,
    /// The first `:` behind that `/`.
    pub line_stop: int,
}

/// The positions that the parts of `raw` are found by.
pub open spec fn layout_of(raw: Seq<char>) -> ErrorLayout {
    let code_index = find_from(raw, '[', 0);
    let line_separator = rfind_before(raw, '/', code_index);
    ErrorLayout {
        code_index,
        code_stop: find_from(raw, ']', code_index),
        line_separator,
        line_start: rfind_before(raw, ',', line_separator),
        line_stop: find_from(raw, ':', line_separator),
    }
}

/// Whether all the marks of an error text are there, and in an order that
/// leaves room for each part.
pub open spec fn layout_fits(raw: Seq<char>) -> bool {
    let l = layout_of(raw);
    &&& l.code_index < raw.len()
    &&& l.code_stop < raw.len()
    &&& l.line_separator >= 0
    &&& l.line_start >= 0
    &&& l.line_stop < raw.len()
    &&& l.line_start + 2 <= l.line_separator
    &&& l.code_stop + 2 <= raw.len()
    &&& FILE_START <= l.line_start
}

/// The parts of `raw`, where it is an error text: the code stands between the
/// first `[` and the `]` that follows; the line between the last `,` before
/// the code (and the character behind it) and the last `/` before the code;
/// the column between that `/` and the `:` that follows; the message two
/// characters behind the `]`; the file between `Stopped at ` and that `,`.
pub open spec fn parse_error(raw: Seq<char>) -> Option<ErrorParts> {
    let l = layout_of(raw);
    if !layout_fits(raw) {
        None
    } else {
        let line = parsed_number(raw.subrange(l.line_start + 2, l.line_separator));
        let column = parsed_number(raw.subrange(l.line_separator + 1, l.line_stop));
        if line is None || column is None {
            None
        } else {
            Some(
                ErrorParts {
                    code: raw.subrange(l.code_index + 1, l.code_stop),
                    line: line->0,
                    column: column->0,
                    message: raw.subrange(l.code_stop + 2, raw.len() as int),
                    file: raw.subrange(FILE_START as int, l.line_start),
                },
            )
        }
    }
}

/// The parts of a text that is no error text: the whole text is the
/// message, there is no code, and the place is the first character of no
/// file.
pub open spec fn fallback_parts(raw: Seq<char>) -> ErrorParts {
    ErrorParts { code: Seq::empty(), line: 1, column: 1, message: raw, file: seq!['.'] }
}

/// The parts of the failure that a text reports: those that the grammar
/// gives where the text is an error text, else the fallback.
pub open spec fn error_parts(raw: Seq<char>) -> ErrorParts {
    match parse_error(raw) {
        Some(parts) => parts,
        None => fallback_parts(raw),
    }
}

/// What every error text starts with.
pub open spec fn stopped_at() -> Seq<char> {
    seq!['S', 't', 'o', 'p', 'p', 'e', 'd', ' ', 'a', 't', ' ']
}

/// The error text that the server writes for the given parts:
/// `Stopped at <file>, <line>/<column>: [<code>] <message>`.
pub open spec fn error_text(parts: ErrorParts) -> Seq<char> {
    stopped_at() + parts.file + seq![',', ' '] + decimal(parts.line as nat) + seq!['/'] + decimal(
        parts.column as nat,
    ) + seq![':', ' ', '['] + parts.code + seq![']', ' '] + parts.message
}

/// The grammar of error texts: a text written for some parts is parsed to
/// those parts, as long as the file's name holds no `[` and the code no `]`.
/// The file's name may hold commas, slashes and colons, and the message
/// anything.
pub proof fn lemma_parse_error_text(parts: ErrorParts)
    requires
        forall|i: int| 0 <= i < parts.file.len() ==> parts.file[i] != '[',
        forall|i: int| 0 <= i < parts.code.len() ==> parts.code[i] != ']',
    ensures
        parse_error(error_text(parts)) == Some(parts),
{
    let raw = error_text(parts);
    let line = decimal(parts.line as nat);
    let column = decimal(parts.column as nat);
    lemma_decimal_parses(parts.line as nat);
    lemma_decimal_parses(parts.column as nat);
    let comma = 11 + parts.file.len() as int;
    let slash = comma + 2 + line.len();
    let colon = slash + 1 + column.len();
    let open = colon + 2;
    let close = open + 1 + parts.code.len();
    assert(raw.len() == close + 2 + parts.message.len());
    assert(raw[comma] == ',');
    assert(raw[slash] == '/');
    assert(raw[colon] == ':');
    assert(raw[open] == '[');
    assert(raw[close] == ']');
    assert forall|i: int| 0 <= i < open implies raw[i] != '[' by {
        if 11 <= i < comma {
            assert(raw[i] == parts.file[i - 11]);
        } else if comma + 2 <= i < slash {
            assert(raw[i] == line[i - comma - 2]);
            assert(is_digit(line[i - comma - 2]));
        } else if slash < i < colon {
            assert(raw[i] == column[i - slash - 1]);
            assert(is_digit(column[i - slash - 1]));
        }
    }
    assert forall|i: int| open <= i < close implies raw[i] != ']' by {
        if open < i {
            assert(raw[i] == parts.code[i - open - 1]);
        }
    }
    assert forall|i: int| slash < i < open implies raw[i] != '/' by {
        if i < colon {
            assert(raw[i] == column[i - slash - 1]);
            assert(is_digit(column[i - slash - 1]));
        }
    }
    assert forall|i: int| comma < i < slash implies raw[i] != ',' by {
        if comma + 2 <= i {
            assert(raw[i] == line[i - comma - 2]);
            assert(is_digit(line[i - comma - 2]));
        }
    }
    assert forall|i: int| slash <= i < colon implies raw[i] != ':' by {
        if slash < i {
            assert(raw[i] == column[i - slash - 1]);
            assert(is_digit(column[i - slash - 1]));
        }
    }
    lemma_find_from_is(raw, '[', 0, open);
    lemma_find_from_is(raw, ']', open, close);
    lemma_rfind_before_is(raw, '/', open, slash);
    lemma_rfind_before_is(raw, ',', slash, comma);
    lemma_find_from_is(raw, ':', slash, colon);
    assert(raw.subrange(comma + 2, slash) =~= line);
    assert(raw.subrange(slash + 1, colon) =~= column);
    assert(raw.subrange(open + 1, close) =~= parts.code);
    assert(raw.subrange(close + 2, raw.len() as int) =~= parts.message);
    assert(raw.subrange(11, comma) =~= parts.file);
}

/// The parts of an error text as they were read.
struct Found {
    code: String,
    line: usize,
    position: usize,
    message: String,
    file: String,
}

impl Found {
    /// The parts that were read.
    spec fn parts(&self) -> ErrorParts {
        ErrorParts {
            code: self.code@,
            line: self.line,
            column: self.position,
            message: self.message@,
            file: self.file@,
        }
    }
}

/// Reads the parts of an error text; `None` where `raw` is no error text.
fn read_parts(raw: &str) -> (r: Option<Found>)
    ensures
        r is Some <==> parse_error(raw@) is Some,
        r is Some ==> Some(r->0.parts()) == parse_error(raw@),
{
    let chars = chars_of(raw);
    let len = chars.len();
    proof {
        crate::text::lemma_find_from(chars@, '[', 0);
    }
    let code_index = find_char(&chars, '[', 0);
    if code_index >= len {
        return None;
    }
    let code_stop = find_char(&chars, ']', code_index);
    if code_stop >= len {
        return None;
    }
    let line_separator = match rfind_char(&chars, '/', code_index) {
        Some(at) => at,
        None => {
            return None;
        },
    };
    let line_start = match rfind_char(&chars, ',', line_separator) {
        Some(at) => at,
        None => {
            return None;
        },
    };
    let line_stop = find_char(&chars, ':', line_separator);
    if line_stop >= len {
        return None;
    }
    if line_separator < 2 || line_start > line_separator - 2 {
        return None;
    }
    if code_stop > len - 2 || line_start < FILE_START {
        return None;
    }
    proof {
        crate::text::lemma_rfind_before(chars@, '/', code_index as int);
        crate::text::lemma_find_from(chars@, ':', line_separator + 1);
        crate::text::lemma_find_from(chars@, ']', code_index + 1);
        assert(layout_fits(chars@));
    }
    let line = match parse_number(&chars, line_start + 2, line_separator) {
        Some(n) => n,
        None => {
            return None;
        },
    };
    let position = match parse_number(&chars, line_separator + 1, line_stop) {
        Some(n) => n,
        None => {
            return None;
        },
    };
    let code = string_of(&chars, code_index + 1, code_stop);
    let message = string_of(&chars, code_stop + 2, len);
    let file = string_of(&chars, FILE_START, line_start);
    Some(Found { code, line, position, message, file })
}

/// The error type for failed query execution.
#[derive(Debug)]
pub struct QueryFailed {
    raw: String,
    code: String,
    line: usize,
    position: usize,
    message: String,
    file: String,
}

impl QueryFailed {
    /// The unparsed error text.
    pub closed spec fn raw_text(&self) -> Seq<char> {
        self.raw@
    }

    /// The parts that the error holds.
    pub closed spec fn parts(&self) -> ErrorParts {
        ErrorParts {
            code: self.code@,
            line: self.line,
            column: self.position,
            message: self.message@,
            file: self.file@,
        }
    }

    /// Parses an error text; `None` where `raw` is no error text.
    pub fn parse(raw: String) -> (r: Option<QueryFailed>)
        ensures
            r is Some <==> parse_error(raw@) is Some,
            r is Some ==> r->0.raw_text() == raw@ && Some(r->0.parts()) == parse_error(raw@),
    {
        match read_parts(raw.as_str()) {
            Some(found) => Some(
                QueryFailed {
                    raw,
                    code: found.code,
                    line: found.line,
                    position: found.position,
                    message: found.message,
                    file: found.file,
                },
            ),
            None => None,
        }
    }

    /// The failure that a text reports. Every text reports one: a text that
    /// is no error text is the message of a failure without code, at the
    /// first character of no file.
    pub fn new(raw: String) -> (r: QueryFailed)
        ensures
            r.raw_text() == raw@,
            r.parts() == error_parts(raw@),
    {
        match read_parts(raw.as_str()) {
            Some(found) => QueryFailed {
                raw,
                code: found.code,
                line: found.line,
                position: found.position,
                message: found.message,
                file: found.file,
            },
            None => {
                let message = raw.clone();
                let file = ".".to_owned();
                proof {
                    reveal_strlit(".");
                    assert(file@ =~= seq!['.']);
                }
                QueryFailed { raw, code: String::new(), line: 1, position: 1, message, file }
            },
        }
    }

    /// The unparsed error string.
    pub fn raw(&self) -> (r: &str)
        ensures
            r@ == self.raw_text(),
    {
        self.raw.as_str()
    }

    /// The XQuery error code.
    pub fn code(&self) -> (r: &str)
        ensures
            r@ == self.parts().code,
    {
        self.code.as_str()
    }

    /// The line in the file where the error occurred.
    pub fn line(&self) -> (r: usize)
        ensures
            r == self.parts().line,
    {
        self.line
    }

    /// The character position in the line where the error occurred.
    pub fn position(&self) -> (r: usize)
        ensures
            r == self.parts().column,
    {
        self.position
    }

    /// The error message.
    pub fn message(&self) -> (r: &str)
        ensures
            r@ == self.parts().message,
    {
        self.message.as_str()
    }

    /// The XQuery source file; `.` when the query came from no file.
    pub fn file(&self) -> (r: &str)
        ensures
            r@ == self.parts().file,
    {
        self.file.as_str()
    }
}

} // verus!
