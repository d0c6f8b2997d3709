//! The profiling report of a query, as the server prints it: lines that
//! start with fixed headers, each with its value up to the end of the line.

use vstd::prelude::*;
use crate::text::{
    alphabetic, chars_of, find_char, find_from, find_sub, find_sub_from, parse_number,
    parsed_number, slice_of, split, split_from, string_of, texts,
};

verus! {

/// The value behind `header` in `raw`: what stands between the first
/// occurrence of the header and the end of its line.
pub open spec fn value_of(raw: Seq<char>, header: Seq<char>) -> Option<Seq<char>> {
    let at = find_sub_from(raw, header, 0);
    let from = at + header.len();
    let to = find_from(raw, '\n', from);
    if at < 0 || from > raw.len() || to >= raw.len() {
        None
    } else {
        Some(raw.subrange(from, to))
    }
}

/// The first position at or behind `from` that holds no decimal digit.
pub open spec fn digits_end(s: Seq<char>, from: int) -> int
    decreases s.len() - from,
{
    if from < 0 || from >= s.len() {
        s.len() as int
    } else if !('0' <= s[from] <= '9') {
        from
    } else {
        digits_end(s, from + 1)
    }
}

/// The number that a value starts with: its leading decimal digits, at
/// least one, read as a number that fits.
pub open spec fn leading_number(value: Seq<char>) -> Option<usize> {
    parsed_number(value.subrange(0, digits_end(value, 0)))
}

/// The number that the value behind `header` starts with.
pub open spec fn count_of(raw: Seq<char>, header: Seq<char>) -> Option<usize> {
    match value_of(raw, header) {
        Some(value) => leading_number(value),
        None => None,
    }
}

/// The header of the list of compilation steps, with the mark of the first
/// step.
pub open spec fn steps_header() -> Seq<char> {
    seq!['C', 'o', 'm', 'p', 'i', 'l', 'i', 'n', 'g', ':', '\n', '-', ' ']
}

/// What parts two compilation steps: the end of a line and the mark of the
/// next step.
pub open spec fn steps_separator() -> Seq<char> {
    seq!['\n', '-', ' ']
}

/// What ends the list of compilation steps: an empty line.
pub open spec fn steps_end() -> Seq<char> {
    seq!['\n', '\n']
}

/// The compilation steps listed in `raw`: what stands between the header of
/// the list and the empty line that follows it, one step per mark.
pub open spec fn steps_of(raw: Seq<char>) -> Option<Seq<Seq<char>>> {
    let at = find_sub_from(raw, steps_header(), 0);
    let from = at + steps_header().len();
    let to = find_sub_from(raw, steps_end(), from);
    if at < 0 || to < from || to > raw.len() {
        None
    } else {
        Some(split_from(raw.subrange(from, to), steps_separator(), 0))
    }
}

/// The value that stands for "no database" in the lines on locking.
pub open spec fn none_text() -> Seq<char> {
    seq!['(', 'n', 'o', 'n', 'e', ')']
}

/// A value of a line on locking: absent where the line says `(none)`.
pub open spec fn optional(value: Seq<char>) -> Option<Seq<char>> {
    if value == none_text() {
        None
    } else {
        Some(value)
    }
}

/// The texts of an optional string.
pub open spec fn optional_text(s: Option<String>) -> Option<Seq<char>> {
    match s {
        Some(s) => Some(s@),
        None => None,
    }
}

/// The unit of a duration.
#[derive(Clone, Copy, Debug, PartialEq, Eq, Structural)]
pub enum Unit {
    /// `s`
    Seconds,
    /// `ms`
    Milliseconds,
}

/// The parts of a duration's text.
pub struct DurationParts {
    /// The amount, a decimal number as text.
    pub amount: Seq<char>,
    /// The unit.
    pub unit: Unit,
}

/// The parts of a duration's text as they were read.
#[derive(Debug, Clone, PartialEq, Eq)]
pub struct DurationText {
    /// The amount, a decimal number as text.
    pub amount: String,
    /// The unit.
    pub unit: Unit,
}

impl View for DurationText {
    type V = DurationParts;

    open spec fn view(&self) -> DurationParts {
        DurationParts { amount: self.amount@, unit: self.unit }
    }
}

/// The parts of an optional duration's text.
pub open spec fn optional_duration(d: Option<DurationText>) -> Option<DurationParts> {
    match d {
        Some(d) => Some(d@),
        None => None,
    }
}

/// The first position at or behind `from` that holds no letter.
pub open spec fn letters_end(s: Seq<char>, from: int) -> int
    decreases s.len() - from,
{
    if from < 0 || from >= s.len() {
        s.len() as int
    } else if !alphabetic(s[from]) {
        from
    } else {
        letters_end(s, from + 1)
    }
}

/// The parts of a duration's text: the amount, which is what stands before
/// the first space, and the unit, which is what the letters behind that
/// space spell, `s` or `ms`. Whatever follows the letters does not count.
pub open spec fn duration_parts(value: Seq<char>) -> Option<DurationParts> {
    let space = find_from(value, ' ', 0);
    let unit = value.subrange(space + 1, letters_end(value, space + 1));
    if space >= value.len() {
        None
    } else if unit == seq!['s'] {
        Some(DurationParts { amount: value.subrange(0, space), unit: Unit::Seconds })
    } else if unit == seq!['m', 's'] {
        Some(DurationParts { amount: value.subrange(0, space), unit: Unit::Milliseconds })
    } else {
        None
    }
}

/// The parts of the duration behind `header` in `raw`.
pub open spec fn duration_of(raw: Seq<char>, header: Seq<char>) -> Option<DurationParts> {
    match value_of(raw, header) {
        Some(value) => duration_parts(value),
        None => None,
    }
}

/// Splits a duration's text into its amount and its unit, if it has a space
/// and behind it one of the two units.
pub fn split_duration(value: &str) -> (r: Option<DurationText>)
    ensures
        optional_duration(r) == duration_parts(value@),
{
    let c = chars_of(value);
    let space = find_char(&c, ' ', 0);
    if space >= c.len() {
        return None;
    }
    let start = space + 1;
    let mut end: usize = start;
    while end < c.len() && c[end].is_alphabetic()
        invariant
            start <= end <= c.len(),
            letters_end(c@, start as int) == letters_end(c@, end as int),
        decreases c.len() - end,
    {
        end += 1;
    }
    let ghost unit = c@.subrange(start as int, end as int);
    if end - start == 1 && c[start] == 's' {
        assert(unit =~= seq!['s']);
        Some(DurationText { amount: string_of(&c, 0, space), unit: Unit::Seconds })
    } else if end - start == 2 && c[start] == 'm' && c[start + 1] == 's' {
        assert(unit =~= seq!['m', 's']);
        Some(DurationText { amount: string_of(&c, 0, space), unit: Unit::Milliseconds })
    } else {
        assert(unit != seq!['s']) by {
            if unit.len() == 1 {
                assert(unit[0] == c@[start as int]);
            }
        }
        assert(unit != seq!['m', 's']) by {
            if unit.len() == 2 {
                assert(unit[0] == c@[start as int]);
                assert(unit[1] == c@[start + 1]);
            }
        }
        None
    }
}

/// The report, kept as the text that came.
#[derive(Debug, Clone, PartialEq)]
pub struct RawInfo {
    raw: String,
}

impl View for RawInfo {
    type V = Seq<char>;

    closed spec fn view(&self) -> Seq<char> {
        self.raw@
    }
}

impl RawInfo {
    /// The report that `raw` holds.
    pub fn new(raw: String) -> (info: RawInfo)
        ensures
            info@ == raw@,
    {
        RawInfo { raw }
    }

    /// The report as it came.
    pub fn to_string(&self) -> (s: String)
        ensures
            s@ == self@,
    {
        self.raw.clone()
    }

    /// The value behind `header`, if the report has the header and the
    /// line ends.
    pub fn find_value(&self, header: &str) -> (r: Option<String>)
        ensures
            optional_text(r) == value_of(self@, header@),
    {
        let raw = chars_of(self.raw.as_str());
        let pattern = chars_of(header);
        let at = match find_sub(&raw, &pattern, 0) {
            Some(at) => at,
            None => {
                return None;
            },
        };
        let from = at + pattern.len();
        let to = find_char(&raw, '\n', from);
        if to >= raw.len() {
            return None;
        }
        Some(string_of(&raw, from, to))
    }

    /// The value behind `header`.
    pub fn string_from(&self, header: &str) -> (r: String)
        requires
            value_of(self@, header@) is Some,
        ensures
            Some(r@) == value_of(self@, header@),
    {
        match self.find_value(header) {
            Some(value) => value,
            None => String::new(),
        }
    }

    /// The value behind `header`, absent where the line says `(none)`.
    pub fn option_string_from(&self, header: &str) -> (r: Option<String>)
        requires
            value_of(self@, header@) is Some,
        ensures
            optional_text(r) == optional(value_of(self@, header@)->0),
    {
        let value = self.string_from(header);
        let c = chars_of(value.as_str());
        if c.len() == 6 && c[0] == '(' && c[1] == 'n' && c[2] == 'o' && c[3] == 'n' && c[4]
            == 'e' && c[5] == ')' {
            assert(value@ =~= none_text());
            None
        } else {
            Some(value)
        }
    }

    /// The number that the value behind `header` starts with, if the report
    /// has the header and the value starts with a number that fits.
    pub fn find_count(&self, header: &str) -> (r: Option<usize>)
        ensures
            r == count_of(self@, header@),
    {
        let value = match self.find_value(header) {
            Some(value) => value,
            None => {
                return None;
            },
        };
        let c = chars_of(value.as_str());
        let mut end: usize = 0;
        while end < c.len() && c[end] >= '0' && c[end] <= '9'
            invariant
                end <= c.len(),
                digits_end(c@, 0) == digits_end(c@, end as int),
            decreases c.len() - end,
        {
            end += 1;
        }
        parse_number(&c, 0, end)
    }

    /// The number that the value behind `header` starts with.
    pub fn usize_from(&self, header: &str) -> (r: usize)
        requires
            count_of(self@, header@) is Some,
        ensures
            Some(r) == count_of(self@, header@),
    {
        match self.find_count(header) {
            Some(n) => n,
            None => 0,
        }
    }

    /// The amount and the unit of the duration behind `header`, if the
    /// report has the header and the value is a duration's text.
    pub fn find_duration(&self, header: &str) -> (r: Option<DurationText>)
        ensures
            optional_duration(r) == duration_of(self@, header@),
    {
        match self.find_value(header) {
            Some(value) => split_duration(value.as_str()),
            None => None,
        }
    }

    /// The compilation steps, if the report lists them.
    pub fn find_compiling(&self) -> (r: Option<Vec<String>>)
        ensures
            r is Some <==> steps_of(self@) is Some,
            r is Some ==> Some(texts(r->0@)) == steps_of(self@),
    {
        let raw = chars_of(self.raw.as_str());
        let header = chars_of("Compiling:\n- ");
        let end = chars_of("\n\n");
        let separator = chars_of("\n- ");
        proof {
            reveal_strlit("Compiling:\n- ");
            reveal_strlit("\n\n");
            reveal_strlit("\n- ");
            assert(header@ =~= steps_header());
            assert(end@ =~= steps_end());
            assert(separator@ =~= steps_separator());
        }
        let at = match find_sub(&raw, &header, 0) {
            Some(at) => at,
            None => {
                return None;
            },
        };
        let from = at + header.len();
        let to = match find_sub(&raw, &end, from) {
            Some(to) => to,
            None => {
                return None;
            },
        };
        let body = slice_of(&raw, from, to);
        Some(split(&body, &separator))
    }

    /// Compilation steps to parse the query and produce an optimized
    /// version.
    pub fn compiling(&self) -> (r: Vec<String>)
        requires
            steps_of(self@) is Some,
        ensures
            Some(texts(r@)) == steps_of(self@),
    {
        match self.find_compiling() {
            Some(steps) => steps,
            None => Vec::new(),
        }
    }

    /// Nodes hit.
    pub fn hits(&self) -> (r: usize)
        requires
            count_of(self@, "Hit(s): "@) is Some,
        ensures
            Some(r) == count_of(self@, "Hit(s): "@),
    {
        self.usize_from("Hit(s): ")
    }

    /// Nodes updated.
    pub fn updated(&self) -> (r: usize)
        requires
            count_of(self@, "Updated: "@) is Some,
        ensures
            Some(r) == count_of(self@, "Updated: "@),
    {
        self.usize_from("Updated: ")
    }

    /// Bytes printed for the query analysis.
    pub fn printed(&self) -> (r: usize)
        requires
            count_of(self@, "Printed: "@) is Some,
        ensures
            Some(r) == count_of(self@, "Printed: "@),
    {
        self.usize_from("Printed: ")
    }

    /// The database that the query locks for reading, if there is any.
    pub fn read_locking(&self) -> (r: Option<String>)
        requires
            value_of(self@, "Read Locking: "@) is Some,
        ensures
            optional_text(r) == optional(value_of(self@, "Read Locking: "@)->0),
    {
        self.option_string_from("Read Locking: ")
    }

    /// The database that the query locks for writing, if there is any.
    pub fn write_locking(&self) -> (r: Option<String>)
        requires
            value_of(self@, "Write Locking: "@) is Some,
        ensures
            optional_text(r) == optional(value_of(self@, "Write Locking: "@)->0),
    {
        self.option_string_from("Write Locking: ")
    }

    /// The optimized XQuery after compilation.
    pub fn optimized_query(&self) -> (r: String)
        requires
            value_of(self@, "Optimized Query:\n"@) is Some,
        ensures
            Some(r@) == value_of(self@, "Optimized Query:\n"@),
    {
        self.string_from("Optimized Query:\n")
    }

    /// The input XQuery.
    pub fn query(&self) -> (r: String)
        requires
            value_of(self@, "Query:\n"@) is Some,
        ensures
            Some(r@) == value_of(self@, "Query:\n"@),
    {
        self.string_from("Query:\n")
    }
}

} // verus!
