//! Text helpers: strings as sequences of characters, and the conversions
//! between text and the bytes that travel on the wire.

use vstd::prelude::*;
use vstd::utf8::{decode_utf8, valid_utf8};

verus! {

/// `String::push` appends one character to the end of the string.
pub assume_specification[ String::push ](s: &mut String, c: char)
    ensures
        final(s)@ == old(s)@.push(c),
;

/// `String::push_str` appends a string slice to the end of the string.
pub assume_specification[ String::push_str ](s: &mut String, other: &str)
    ensures
        final(s)@ == old(s)@ + other@,
;

/// Whether a character is a letter, as Unicode's property `Alphabetic` says.
pub uninterp spec fn alphabetic(c: char) -> bool;

/// `char::is_alphabetic` tells whether the character has Unicode's property
/// `Alphabetic`; the answer depends on the character alone.
pub assume_specification[ char::is_alphabetic ](c: char) -> (b: bool)
    ensures
        b == alphabetic(c),
;

/// `std::string::FromUtf8Error`, the error of `String::from_utf8`; nothing
/// is known of what it holds.
#[verifier::external_type_specification]
#[verifier::external_body]
pub struct ExFromUtf8Error(std::string::FromUtf8Error);

/// `String::from_utf8` turns bytes into a string exactly when they are valid
/// UTF-8, and the string then holds the characters that the bytes encode;
/// otherwise it returns an error.
pub assume_specification[ String::from_utf8 ](bytes: Vec<u8>) -> (r: Result<
    String,
    std::string::FromUtf8Error,
>)
    ensures
        r is Ok <==> valid_utf8(bytes@),
        r is Ok ==> r->Ok_0@ == decode_utf8(bytes@),
;

/// The characters of `s`, one by one.
pub fn chars_of(s: &str) -> (chars: Vec<char>)
    ensures
        chars@ == s@,
{
    let mut chars: Vec<char> = Vec::new();
    for c in it: s.chars()
        invariant
            chars@ == s@.take(it.index() as int),
            it.seq() == s@,
    {
        chars.push(c);
        assert(chars@ =~= s@.take(it.index() + 1));
    }
    assert(s@.take(s@.len() as int) =~= s@);
    chars
}

/// The string made of the characters `chars[from..to]`.
pub fn string_of(chars: &Vec<char>, from: usize, to: usize) -> (s: String)
    requires
        from <= to <= chars.len(),
    ensures
        s@ == chars@.subrange(from as int, to as int),
{
    let mut s = String::new();
    let mut i: usize = from;
    while i < to
        invariant
            from <= i <= to <= chars.len(),
            s@ == chars@.subrange(from as int, i as int),
        decreases to - i,
    {
        s.push(chars[i]);
        i += 1;
        assert(s@ =~= chars@.subrange(from as int, i as int));
    }
    s
}

/// The first position at or behind `from` where `c` stands in `s`, or the
/// length of `s` where there is none.
pub open spec fn find_from(s: Seq<char>, c: char, from: int) -> int
    decreases s.len() - from,
{
    if from < 0 || from >= s.len() {
        s.len() as int
    } else if s[from] == c {
        from
    } else {
        find_from(s, c, from + 1)
    }
}

/// The last position before `end` where `c` stands in `s`, or `-1` where
/// there is none.
pub open spec fn rfind_before(s: Seq<char>, c: char, end: int) -> int
    decreases end,
{
    if end <= 0 || end > s.len() {
        -1
    } else if s[end - 1] == c {
        end - 1
    } else {
        rfind_before(s, c, end - 1)
    }
}

/// What `find_from` finds: the position holds `c`, and no position between
/// `from` and it does.
pub proof fn lemma_find_from(s: Seq<char>, c: char, from: int)
    requires
        0 <= from <= s.len(),
    ensures
        from <= find_from(s, c, from) <= s.len(),
        find_from(s, c, from) < s.len() ==> s[find_from(s, c, from)] == c,
        forall|i: int| from <= i < find_from(s, c, from) ==> s[i] != c,
    decreases s.len() - from,
{
    if from < s.len() && s[from] != c {
        lemma_find_from(s, c, from + 1);
    }
}

/// What `rfind_before` finds: the position holds `c`, and no position between
/// it and `end` does.
pub proof fn lemma_rfind_before(s: Seq<char>, c: char, end: int)
    requires
        0 <= end <= s.len(),
    ensures
        -1 <= rfind_before(s, c, end) < end,
        rfind_before(s, c, end) >= 0 ==> s[rfind_before(s, c, end)] == c,
        forall|i: int| rfind_before(s, c, end) < i < end ==> s[i] != c,
    decreases end,
{
    if end > 0 && s[end - 1] != c {
        lemma_rfind_before(s, c, end - 1);
    }
}

/// The first position at or behind `from` where `c` stands, or the length.
pub fn find_char(chars: &Vec<char>, c: char, from: usize) -> (at: usize)
    requires
        from <= chars.len(),
    ensures
        at == find_from(chars@, c, from as int),
        from <= at <= chars.len(),
{
    let mut i: usize = from;
    while i < chars.len() && chars[i] != c
        invariant
            from <= i <= chars.len(),
            find_from(chars@, c, from as int) == find_from(chars@, c, i as int),
        decreases chars.len() - i,
    {
        i += 1;
    }
    i
}

/// The last position before `end` where `c` stands, if there is one.
pub fn rfind_char(chars: &Vec<char>, c: char, end: usize) -> (at: Option<usize>)
    requires
        end <= chars.len(),
    ensures
        at is None <==> rfind_before(chars@, c, end as int) < 0,
        at is Some ==> at->0 == rfind_before(chars@, c, end as int) && at->0 < end,
{
    let mut i: usize = end;
    while i > 0 && chars[i - 1] != c
        invariant
            i <= end <= chars.len(),
            rfind_before(chars@, c, end as int) == rfind_before(chars@, c, i as int),
        decreases i,
    {
        i -= 1;
    }
    if i == 0 {
        None
    } else {
        Some(i - 1)
    }
}

/// Whether `c` is one of the ten decimal digits.
pub open spec fn is_digit(c: char) -> bool {
    '0' <= c <= '9'
}

/// The number that the digits of `s` write in base ten.
pub open spec fn decimal_value(s: Seq<char>) -> nat
    decreases s.len(),
{
    if s.len() == 0 {
        0
    } else {
        (decimal_value(s.drop_last()) * 10 + (s.last() as u32 - '0' as u32)) as nat
    }
}

/// Whether `s` holds decimal digits only.
pub open spec fn all_digits(s: Seq<char>) -> bool {
    forall|i: int| 0 <= i < s.len() ==> is_digit(#[trigger] s[i])
}

/// The digits of an unsigned number text: the text without a leading `+`.
pub open spec fn unsigned_digits(s: Seq<char>) -> Seq<char> {
    if s.len() > 0 && s[0] == '+' {
        s.skip(1)
    } else {
        s
    }
}

/// The number that a text writes, as the standard parser of unsigned
/// integers reads it: an optional `+`, then at least one decimal digit and
/// nothing else, and a value that fits.
pub open spec fn parsed_number(s: Seq<char>) -> Option<usize> {
    let digits = unsigned_digits(s);
    if digits.len() > 0 && all_digits(digits) && decimal_value(digits) <= usize::MAX {
        Some(decimal_value(digits) as usize)
    } else {
        None
    }
}

/// The decimal digit of a number below ten.
pub open spec fn digit_char(d: int) -> char {
    (48 + d) as char
}

/// A natural number in decimal, without leading zeros.
pub open spec fn decimal(n: nat) -> Seq<char>
    decreases n,
{
    if n < 10 {
        seq![digit_char(n as int)]
    } else {
        decimal(n / 10).push(digit_char((n % 10) as int))
    }
}

/// A number written in decimal is read back as itself.
pub proof fn lemma_decimal_parses(n: nat)
    ensures
        decimal(n).len() > 0,
        all_digits(decimal(n)),
        decimal_value(decimal(n)) == n,
        n <= usize::MAX ==> parsed_number(decimal(n)) == Some(n as usize),
    decreases n,
{
    if n < 10 {
        assert(decimal(n).drop_last() =~= Seq::<char>::empty());
        assert(decimal_value(decimal(n).drop_last()) == 0);
    } else {
        lemma_decimal_parses(n / 10);
        assert(decimal(n).drop_last() =~= decimal(n / 10));
    }
    assert(is_digit(decimal(n)[0]));
}

/// Where a character stands with none like it between `from` and there,
/// `find_from` finds it.
pub proof fn lemma_find_from_is(s: Seq<char>, c: char, from: int, at: int)
    requires
        0 <= from <= at < s.len(),
        s[at] == c,
        forall|i: int| from <= i < at ==> s[i] != c,
    ensures
        find_from(s, c, from) == at,
    decreases at - from,
{
    if from < at {
        lemma_find_from_is(s, c, from + 1, at);
    }
}

/// Where a character stands with none like it between there and `end`,
/// `rfind_before` finds it.
pub proof fn lemma_rfind_before_is(s: Seq<char>, c: char, end: int, at: int)
    requires
        0 <= at < end <= s.len(),
        s[at] == c,
        forall|i: int| at < i < end ==> s[i] != c,
    ensures
        rfind_before(s, c, end) == at,
    decreases end - at,
{
    if at + 1 < end {
        lemma_rfind_before_is(s, c, end - 1, at);
    }
}

/// A number does not get smaller when digits follow.
pub proof fn lemma_decimal_value_grows(s: Seq<char>, n: int)
    requires
        0 <= n <= s.len(),
        all_digits(s),
    ensures
        decimal_value(s.take(n)) <= decimal_value(s),
    decreases s.len() - n,
{
    if n == s.len() {
        assert(s.take(n) =~= s);
    } else {
        assert(s.drop_last().take(n) =~= s.take(n));
        assert(all_digits(s.drop_last()));
        lemma_decimal_value_grows(s.drop_last(), n);
        assert(is_digit(s[s.len() - 1]));
    }
}

/// Reads the unsigned number that `chars[from..to]` writes.
pub fn parse_number(chars: &Vec<char>, from: usize, to: usize) -> (r: Option<usize>)
    requires
        from <= to <= chars.len(),
    ensures
        r == parsed_number(chars@.subrange(from as int, to as int)),
{
    let ghost text = chars@.subrange(from as int, to as int);
    let start: usize = if from < to && chars[from] == '+' {
        from + 1
    } else {
        from
    };
    let ghost digits = unsigned_digits(text);
    assert(digits =~= chars@.subrange(start as int, to as int));
    if start == to {
        return None;
    }
    let mut value: usize = 0;
    let mut i: usize = start;
    while i < to
        invariant
            from <= start <= i <= to <= chars.len(),
            digits == chars@.subrange(start as int, to as int),
            digits == unsigned_digits(chars@.subrange(from as int, to as int)),
            all_digits(digits.take(i - start)),
            value == decimal_value(digits.take(i - start)),
        decreases to - i,
    {
        let c = chars[i];
        assert(digits[i - start] == c);
        if !(c >= '0' && c <= '9') {
            assert(!is_digit(digits[i - start]));
            return None;
        }
        let d: usize = (c as u32 - '0' as u32) as usize;
        proof {
            assert(digits.take(i - start + 1).drop_last() =~= digits.take(i - start));
            assert(digits.take(i - start + 1).last() == c);
        }
        if value > (usize::MAX - d) / 10 {
            proof {
                assert(decimal_value(digits.take(i - start + 1)) == value * 10 + d);
                assert(value * 10 + d > usize::MAX);
                if all_digits(digits) {
                    lemma_decimal_value_grows(digits, i - start + 1);
                }
            }
            return None;
        }
        value = value * 10 + d;
        i += 1;
        assert forall|k: int| 0 <= k < digits.take(i - start).len() implies is_digit(
            #[trigger] digits.take(i - start)[k],
        ) by {
            if k < i - start - 1 {
                assert(digits.take(i - start)[k] == digits.take(i - start - 1)[k]);
            }
        }
    }
    assert(digits.take(i - start) =~= digits);
    Some(value)
}

/// Whether `pattern` stands in `s` at position `at`.
pub open spec fn matches_at(s: Seq<char>, pattern: Seq<char>, at: int) -> bool {
    0 <= at && at + pattern.len() <= s.len() && s.subrange(at, at + pattern.len()) == pattern
}

/// The first position at or behind `from` where `pattern` stands in `s`, or
/// `-1` where it stands nowhere.
pub open spec fn find_sub_from(s: Seq<char>, pattern: Seq<char>, from: int) -> int
    decreases s.len() - from,
{
    if from < 0 || from + pattern.len() > s.len() {
        -1
    } else if matches_at(s, pattern, from) {
        from
    } else if from >= s.len() {
        -1
    } else {
        find_sub_from(s, pattern, from + 1)
    }
}

/// What `find_sub_from` finds: the pattern stands there, and at no position
/// between `from` and there.
pub proof fn lemma_find_sub_from(s: Seq<char>, pattern: Seq<char>, from: int)
    requires
        0 <= from,
    ensures
        find_sub_from(s, pattern, from) == -1 || from <= find_sub_from(s, pattern, from),
        find_sub_from(s, pattern, from) >= 0 ==> matches_at(
            s,
            pattern,
            find_sub_from(s, pattern, from),
        ),
        forall|i: int|
            from <= i && (i < find_sub_from(s, pattern, from) || find_sub_from(s, pattern, from)
                < 0) ==> !matches_at(s, pattern, i),
    decreases s.len() - from,
{
    if from + pattern.len() <= s.len() && !matches_at(s, pattern, from) && from < s.len() {
        lemma_find_sub_from(s, pattern, from + 1);
    }
}

/// Whether `pattern` stands in `chars` at position `at`.
pub fn matches_here(chars: &Vec<char>, pattern: &Vec<char>, at: usize) -> (r: bool)
    ensures
        r == matches_at(chars@, pattern@, at as int),
{
    if pattern.len() > chars.len() || at > chars.len() - pattern.len() {
        return false;
    }
    let mut j: usize = 0;
    while j < pattern.len()
        invariant
            j <= pattern.len(),
            at + pattern.len() <= chars.len(),
            forall|k: int| 0 <= k < j ==> chars@[at + k] == pattern@[k],
        decreases pattern.len() - j,
    {
        if chars[at + j] != pattern[j] {
            assert(chars@.subrange(at as int, at + pattern.len())[j as int] != pattern@[j as int]);
            return false;
        }
        j += 1;
    }
    assert(chars@.subrange(at as int, at + pattern.len()) =~= pattern@);
    true
}

/// The first position at or behind `from` where `pattern` stands, if there
/// is one.
pub fn find_sub(chars: &Vec<char>, pattern: &Vec<char>, from: usize) -> (at: Option<usize>)
    ensures
        at is None <==> find_sub_from(chars@, pattern@, from as int) < 0,
        at is Some ==> at->0 == find_sub_from(chars@, pattern@, from as int) && from <= at->0
            && at->0 + pattern.len() <= chars.len(),
{
    if pattern.len() > chars.len() {
        return None;
    }
    let last = chars.len() - pattern.len();
    let mut i: usize = from;
    while i <= last
        invariant
            from <= i,
            last == chars.len() - pattern.len(),
            pattern.len() <= chars.len(),
            find_sub_from(chars@, pattern@, from as int) == find_sub_from(
                chars@,
                pattern@,
                i as int,
            ),
        decreases last + 1 - i,
    {
        if matches_here(chars, pattern, i) {
            return Some(i);
        }
        if i == last {
            assert(find_sub_from(chars@, pattern@, i + 1) == -1);
            return None;
        }
        i += 1;
    }
    None
}

/// The characters `chars[from..to]`.
pub fn slice_of(chars: &Vec<char>, from: usize, to: usize) -> (part: Vec<char>)
    requires
        from <= to <= chars.len(),
    ensures
        part@ == chars@.subrange(from as int, to as int),
{
    let mut part: Vec<char> = Vec::new();
    let mut i: usize = from;
    while i < to
        invariant
            from <= i <= to <= chars.len(),
            part@ == chars@.subrange(from as int, i as int),
        decreases to - i,
    {
        part.push(chars[i]);
        i += 1;
        assert(part@ =~= chars@.subrange(from as int, i as int));
    }
    part
}

/// The parts of `s` that stand between the occurrences of `separator`, read
/// from position `from` on: one part more than there are occurrences.
pub open spec fn split_from(s: Seq<char>, separator: Seq<char>, from: int) -> Seq<Seq<char>>
    decreases s.len() - from,
{
    let at = find_sub_from(s, separator, from);
    if separator.len() == 0 || from < 0 || from > s.len() {
        Seq::empty()
    } else if at < from || at + separator.len() > s.len() {
        seq![s.subrange(from, s.len() as int)]
    } else {
        seq![s.subrange(from, at)] + split_from(s, separator, at + separator.len())
    }
}

/// The texts of a list of strings.
pub open spec fn texts(v: Seq<String>) -> Seq<Seq<char>> {
    Seq::new(v.len(), |i: int| v[i]@)
}

/// The parts of `chars` that stand between the occurrences of `separator`.
pub fn split(chars: &Vec<char>, separator: &Vec<char>) -> (parts: Vec<String>)
    requires
        separator.len() > 0,
    ensures
        texts(parts@) == split_from(chars@, separator@, 0),
{
    let mut parts: Vec<String> = Vec::new();
    let mut from: usize = 0;
    let mut open = true;
    assert(texts(parts@) =~= Seq::<Seq<char>>::empty());
    while open
        invariant
            from <= chars.len(),
            separator.len() > 0,
            open ==> split_from(chars@, separator@, 0) == texts(parts@) + split_from(
                chars@,
                separator@,
                from as int,
            ),
            !open ==> split_from(chars@, separator@, 0) == texts(parts@),
        decreases chars.len() - from + (if open { 1int } else { 0int }),
    {
        let ghost before = texts(parts@);
        proof {
            lemma_find_sub_from(chars@, separator@, from as int);
        }
        match find_sub(chars, separator, from) {
            Some(at) => {
                let part = string_of(chars, from, at);
                parts.push(part);
                assert(texts(parts@) =~= before + seq![chars@.subrange(from as int, at as int)]);
                from = at + separator.len();
            },
            None => {
                let part = string_of(chars, from, chars.len());
                parts.push(part);
                assert(texts(parts@) =~= before + seq![
                    chars@.subrange(from as int, chars@.len() as int),
                ]);
                open = false;
            },
        }
    }
    parts
}

} // verus!
