//! Serialization parameters: how the server renders the items and nodes that
//! a query returns. They travel as one line of text, a comma-separated list
//! of `key=value` pairs, and are kept here as a table ordered by key.

use vstd::prelude::*;
use vstd::utf8::encode_utf8;
use crate::client::{Client, Response};
use crate::connection::argument;
use crate::decoder::{start, Shape};
use crate::text::chars_of;

verus! {

/// One entry of the table: a key and its value.
pub type Pair = (Seq<char>, Seq<char>);

/// The order of keys: character by character, a proper prefix first.
pub open spec fn key_lt(a: Seq<char>, b: Seq<char>) -> bool
    decreases a.len(),
{
    if b.len() == 0 {
        false
    } else if a.len() == 0 {
        true
    } else if a[0] != b[0] {
        a[0] < b[0]
    } else {
        key_lt(a.skip(1), b.skip(1))
    }
}

/// No key stands before itself.
pub proof fn lemma_key_lt_irreflexive(a: Seq<char>)
    ensures
        !key_lt(a, a),
    decreases a.len(),
{
    if a.len() > 0 {
        lemma_key_lt_irreflexive(a.skip(1));
    }
}

/// Of two different keys one stands before the other.
pub proof fn lemma_key_lt_total(a: Seq<char>, b: Seq<char>)
    ensures
        a == b || key_lt(a, b) || key_lt(b, a),
    decreases a.len(),
{
    if a.len() > 0 && b.len() > 0 && a[0] == b[0] {
        lemma_key_lt_total(a.skip(1), b.skip(1));
        if a.skip(1) == b.skip(1) {
            assert(a =~= seq![a[0]] + a.skip(1));
            assert(b =~= seq![b[0]] + b.skip(1));
        }
    } else if a.len() == 0 && b.len() == 0 {
        assert(a =~= b);
    }
}

/// The order of keys is transitive.
pub proof fn lemma_key_lt_transitive(a: Seq<char>, b: Seq<char>, c: Seq<char>)
    requires
        key_lt(a, b),
        key_lt(b, c),
    ensures
        key_lt(a, c),
    decreases a.len(),
{
    if a.len() > 0 && a[0] == b[0] && b[0] == c[0] {
        lemma_key_lt_transitive(a.skip(1), b.skip(1), c.skip(1));
    }
}

/// Whether the keys of a table stand in strictly rising order.
pub open spec fn sorted(e: Seq<Pair>) -> bool {
    forall|i: int, j: int| 0 <= i < j < e.len() ==> key_lt(#[trigger] e[i].0, #[trigger] e[j].0)
}

/// The first position at or behind `from` whose key does not stand before
/// `key`, or the length of the table.
pub open spec fn slot_from(e: Seq<Pair>, key: Seq<char>, from: int) -> int
    decreases e.len() - from,
{
    if from < 0 || from >= e.len() {
        e.len() as int
    } else if !key_lt(e[from].0, key) {
        from
    } else {
        slot_from(e, key, from + 1)
    }
}

/// The table with `value` under `key`: in place of the old value where the
/// key was there, else at the key's place in the order.
pub open spec fn put(e: Seq<Pair>, key: Seq<char>, value: Seq<char>) -> Seq<Pair> {
    let at = slot_from(e, key, 0);
    if at < e.len() && e[at].0 == key {
        e.update(at, (key, value))
    } else {
        e.insert(at, (key, value))
    }
}

/// The value under `key`, if the table has the key.
pub open spec fn lookup(e: Seq<Pair>, key: Seq<char>) -> Option<Seq<char>> {
    let at = slot_from(e, key, 0);
    if at < e.len() && e[at].0 == key {
        Some(e[at].1)
    } else {
        None
    }
}

/// What `slot_from` finds.
pub proof fn lemma_slot_from(e: Seq<Pair>, key: Seq<char>, from: int)
    requires
        0 <= from <= e.len(),
    ensures
        from <= slot_from(e, key, from) <= e.len(),
        slot_from(e, key, from) < e.len() ==> !key_lt(e[slot_from(e, key, from)].0, key),
        forall|i: int| from <= i < slot_from(e, key, from) ==> key_lt(#[trigger] e[i].0, key),
    decreases e.len() - from,
{
    if from < e.len() && key_lt(e[from].0, key) {
        lemma_slot_from(e, key, from + 1);
    }
}

/// Putting a pair into an ordered table leaves it ordered.
pub proof fn lemma_put_sorted(e: Seq<Pair>, key: Seq<char>, value: Seq<char>)
    requires
        sorted(e),
    ensures
        sorted(put(e, key, value)),
{
    let at = slot_from(e, key, 0);
    let r = put(e, key, value);
    lemma_slot_from(e, key, 0);
    assert forall|i: int, j: int| 0 <= i < j < r.len() implies key_lt(
        #[trigger] r[i].0,
        #[trigger] r[j].0,
    ) by {
        if at < e.len() && e[at].0 == key {
            assert(r[i].0 == e[i].0 && r[j].0 == e[j].0);
        } else {
            if at < e.len() {
                lemma_key_lt_total(e[at].0, key);
            }
            if j < at {
                assert(r[i] == e[i] && r[j] == e[j]);
            } else if j == at {
                assert(r[i] == e[i]);
            } else if i == at {
                assert(r[j] == e[j - 1]);
                if j - 1 > at {
                    assert(key_lt(e[at].0, e[j - 1].0));
                    lemma_key_lt_transitive(key, e[at].0, e[j - 1].0);
                }
            } else if i < at {
                assert(r[i] == e[i] && r[j] == e[j - 1]);
            } else {
                assert(r[i] == e[i - 1] && r[j] == e[j - 1]);
            }
        }
    }
}

/// In an ordered table a key stands at most once, and `lookup` finds it
/// wherever it stands.
pub proof fn lemma_lookup_finds(e: Seq<Pair>, i: int)
    requires
        sorted(e),
        0 <= i < e.len(),
    ensures
        lookup(e, e[i].0) == Some(e[i].1),
{
    let key = e[i].0;
    let at = slot_from(e, key, 0);
    lemma_slot_from(e, key, 0);
    lemma_key_lt_irreflexive(key);
    if at < i {
        assert(key_lt(e[at].0, e[i].0));
    } else if at > i {
        assert(key_lt(e[i].0, key));
    }
}

/// After a key was put, the table has the new value under it, and every
/// other key has what it had.
pub proof fn lemma_lookup_put(e: Seq<Pair>, key: Seq<char>, value: Seq<char>, other: Seq<char>)
    requires
        sorted(e),
    ensures
        lookup(put(e, key, value), key) == Some(value),
        other != key ==> lookup(put(e, key, value), other) == lookup(e, other),
{
    let at = slot_from(e, key, 0);
    let r = put(e, key, value);
    lemma_slot_from(e, key, 0);
    lemma_put_sorted(e, key, value);
    assert(r[at] == (key, value));
    lemma_lookup_finds(r, at);
    if other != key {
        let a = slot_from(e, other, 0);
        let b = slot_from(r, other, 0);
        lemma_slot_from(e, other, 0);
        lemma_slot_from(r, other, 0);
        if a < e.len() && e[a].0 == other {
            let replaced = at < e.len() && e[at].0 == key;
            let k: int = if replaced || a < at {
                a
            } else {
                a + 1
            };
            assert(r[k] == e[a]);
            lemma_lookup_finds(r, k);
        } else {
            if b < r.len() && r[b].0 == other {
                let replaced = at < e.len() && e[at].0 == key;
                let k: int = if replaced || b < at {
                    b
                } else {
                    b - 1
                };
                assert(b != at);
                assert(e[k] == r[b]);
                lemma_lookup_finds(e, k);
            }
        }
    }
}

/// The text of a table: `key=value` for each entry in order, with commas
/// between them.
pub open spec fn rendered(e: Seq<Pair>) -> Seq<char>
    decreases e.len(),
{
    if e.len() == 0 {
        Seq::empty()
    } else if e.len() == 1 {
        e[0].0 + seq!['='] + e[0].1
    } else {
        rendered(e.drop_last()) + seq![','] + e.last().0 + seq!['='] + e.last().1
    }
}

/// The command that sets the serializer of the session to a table.
pub open spec fn save_command(e: Seq<Pair>) -> Seq<char> {
    "SET SERIALIZER "@ + rendered(e)
}

/// Where the reader of a parameter text stands.
pub struct Reading {
    /// The entries closed so far.
    pub entries: Seq<Pair>,
    /// The key being read.
    pub key: Seq<char>,
    /// The value being read.
    pub value: Seq<char>,
    /// Whether the `=` behind the key was met.
    pub key_complete: bool,
}

/// Reads one character: `=` ends the key, `,` closes the entry, and any
/// other character goes to the value if the key has ended, else to the key.
pub open spec fn read_char(r: Reading, c: char) -> Reading {
    if c == '=' {
        Reading { key_complete: true, ..r }
    } else if c == ',' {
        Reading {
            entries: put(r.entries, r.key, r.value),
            key: Seq::empty(),
            value: Seq::empty(),
            key_complete: false,
        }
    } else if r.key_complete {
        Reading { value: r.value.push(c), ..r }
    } else {
        Reading { key: r.key.push(c), ..r }
    }
}

/// Reads a text from the left, starting where `r` stands.
pub open spec fn read_from(r: Reading, s: Seq<char>) -> Reading
    decreases s.len(),
{
    if s.len() == 0 {
        r
    } else {
        read_char(read_from(r, s.drop_last()), s.last())
    }
}

/// Where the reader stands before the first character.
pub open spec fn reading_start() -> Reading {
    Reading {
        entries: Seq::empty(),
        key: Seq::empty(),
        value: Seq::empty(),
        key_complete: false,
    }
}

/// Reads a text from the left.
pub open spec fn read_text(s: Seq<char>) -> Reading {
    read_from(reading_start(), s)
}

/// The table that a parameter text stands for. The entry that the text ends
/// in counts only if its key is not empty.
pub open spec fn parsed_options(s: Seq<char>) -> Seq<Pair> {
    let r = read_text(s);
    if r.key.len() > 0 {
        put(r.entries, r.key, r.value)
    } else {
        r.entries
    }
}

/// Reading a text gives an ordered table.
pub proof fn lemma_read_text_sorted(s: Seq<char>)
    ensures
        sorted(read_text(s).entries),
        sorted(parsed_options(s)),
    decreases s.len(),
{
    if s.len() > 0 {
        lemma_read_text_sorted(s.drop_last());
        let r = read_text(s.drop_last());
        lemma_put_sorted(r.entries, r.key, r.value);
    }
    let r = read_text(s);
    lemma_put_sorted(r.entries, r.key, r.value);
}

/// Reading two texts in turn is reading them as one.
pub proof fn lemma_read_concat(r: Reading, a: Seq<char>, b: Seq<char>)
    ensures
        read_from(r, a + b) == read_from(read_from(r, a), b),
    decreases b.len(),
{
    if b.len() == 0 {
        assert(a + b =~= a);
    } else {
        lemma_read_concat(r, a, b.drop_last());
        assert((a + b).drop_last() =~= a + b.drop_last());
        assert((a + b).last() == b.last());
    }
}

/// Whether a text can stand for a key or a value as it is: it holds
/// neither `=` nor `,`.
pub open spec fn plain(word: Seq<char>) -> bool {
    forall|i: int| 0 <= i < word.len() ==> word[i] != '=' && word[i] != ','
}

/// A plain word is read into the key or the value, whichever is open.
pub proof fn lemma_read_word(r: Reading, word: Seq<char>)
    requires
        plain(word),
    ensures
        read_from(r, word) == (if r.key_complete {
            Reading { value: r.value + word, ..r }
        } else {
            Reading { key: r.key + word, ..r }
        }),
    decreases word.len(),
{
    if word.len() == 0 {
        assert(r.value + word =~= r.value);
        assert(r.key + word =~= r.key);
    } else {
        lemma_read_word(r, word.drop_last());
        assert(plain(word.drop_last()));
        assert(word[word.len() - 1] != '=' && word[word.len() - 1] != ',');
        assert((r.value + word.drop_last()).push(word.last()) =~= r.value + word);
        assert((r.key + word.drop_last()).push(word.last()) =~= r.key + word);
    }
}

/// Reading exactly one character.
pub proof fn lemma_read_one(r: Reading, c: char)
    ensures
        read_from(r, seq![c]) == read_char(r, c),
{
    let one = seq![c];
    assert(one.drop_last() =~= Seq::<char>::empty());
    assert(one.last() == c);
    assert(read_from(r, one.drop_last()) == r);
}

/// Whether a table can be written as text and read back: its keys rise, no
/// key is empty, and keys and values are plain.
pub open spec fn writable(e: Seq<Pair>) -> bool {
    &&& sorted(e)
    &&& forall|i: int| 0 <= i < e.len() ==> (#[trigger] e[i]).0.len() > 0
    &&& forall|i: int| 0 <= i < e.len() ==> plain((#[trigger] e[i]).0) && plain(e[i].1)
}

/// A key behind all the keys of an ordered table is put at its end.
pub proof fn lemma_put_last(e: Seq<Pair>)
    requires
        sorted(e),
        e.len() > 0,
    ensures
        put(e.drop_last(), e.last().0, e.last().1) == e,
{
    let init = e.drop_last();
    let key = e.last().0;
    lemma_slot_from(init, key, 0);
    let at = slot_from(init, key, 0);
    if at < init.len() {
        assert(key_lt(e[at].0, e[e.len() - 1].0));
        assert(init[at] == e[at]);
    }
    assert(init.insert(init.len() as int, e.last()) =~= e);
}

/// Where the reader stands at the end of a written table: all entries but
/// the last are closed, and the last is being read.
pub proof fn lemma_read_rendered(e: Seq<Pair>)
    requires
        writable(e),
        e.len() > 0,
    ensures
        read_text(rendered(e)) == (Reading {
            entries: e.drop_last(),
            key: e.last().0,
            value: e.last().1,
            key_complete: true,
        }),
    decreases e.len(),
{
    let key = e.last().0;
    let value = e.last().1;
    let before: Seq<char> = if e.len() == 1 {
        Seq::empty()
    } else {
        rendered(e.drop_last()) + seq![',']
    };
    let opened: Reading = Reading {
        entries: e.drop_last(),
        key: Seq::empty(),
        value: Seq::empty(),
        key_complete: false,
    };
    if e.len() == 1 {
        assert(e.drop_last() =~= Seq::<Pair>::empty());
        assert(read_from(reading_start(), before) == opened);
        assert(rendered(e) =~= before + key + seq!['='] + value);
    } else {
        let init = e.drop_last();
        assert(writable(init)) by {
            assert forall|i: int, j: int| 0 <= i < j < init.len() implies key_lt(
                #[trigger] init[i].0,
                #[trigger] init[j].0,
            ) by {
                assert(init[i] == e[i] && init[j] == e[j]);
            }
            assert forall|i: int| 0 <= i < init.len() implies (#[trigger] init[i]).0.len() > 0
                && plain(init[i].0) && plain(init[i].1) by {
                assert(init[i] == e[i]);
            }
        }
        lemma_read_rendered(init);
        lemma_put_last(init);
        lemma_read_concat(reading_start(), rendered(init), seq![',']);
        lemma_read_one(read_text(rendered(init)), ',');
        assert(read_from(reading_start(), before) == opened);
    }
    lemma_read_concat(reading_start(), before, key);
    lemma_read_word(opened, key);
    lemma_read_concat(reading_start(), before + key, seq!['=']);
    lemma_read_one(read_from(reading_start(), before + key), '=');
    lemma_read_concat(reading_start(), before + key + seq!['='], value);
    lemma_read_word(read_from(reading_start(), before + key + seq!['=']), value);
    assert(Seq::<char>::empty() + key =~= key);
    assert(Seq::<char>::empty() + value =~= value);
}

/// Round trip: a table written as text and read back is the same table.
pub proof fn lemma_options_round_trip(e: Seq<Pair>)
    requires
        writable(e),
    ensures
        parsed_options(rendered(e)) == e,
{
    if e.len() > 0 {
        lemma_read_rendered(e);
        lemma_put_last(e);
    }
}

/// The entries of a stored table as pairs of texts.
pub open spec fn pairs(v: Seq<(String, String)>) -> Seq<Pair> {
    Seq::new(v.len(), |i: int| (v[i].0@, v[i].1@))
}

/// Whether `a` stands before `b` in the order of keys.
fn chars_lt(a: &Vec<char>, b: &Vec<char>) -> (r: bool)
    ensures
        r == key_lt(a@, b@),
{
    let mut i: usize = 0;
    assert(a@.skip(0) =~= a@ && b@.skip(0) =~= b@);
    while i < a.len() && i < b.len() && a[i] == b[i]
        invariant
            i <= a.len(),
            i <= b.len(),
            key_lt(a@, b@) == key_lt(a@.skip(i as int), b@.skip(i as int)),
        decreases a.len() - i,
    {
        proof {
            assert(a@.skip(i as int).skip(1) =~= a@.skip(i + 1));
            assert(b@.skip(i as int).skip(1) =~= b@.skip(i + 1));
        }
        i += 1;
    }
    if i >= b.len() {
        false
    } else if i >= a.len() {
        true
    } else {
        a[i] < b[i]
    }
}

/// Puts `value` under `key` into a stored table.
fn put_entry(entries: &mut Vec<(String, String)>, key: String, value: String)
    ensures
        pairs(final(entries)@) == put(pairs(old(entries)@), key@, value@),
{
    let key_chars = chars_of(key.as_str());
    let ghost e = pairs(entries@);
    let mut at: usize = 0;
    let mut searching = true;
    while searching && at < entries.len()
        invariant
            at <= entries.len(),
            entries@ == old(entries)@,
            e == pairs(entries@),
            key_chars@ == key@,
            slot_from(e, key@, 0) == slot_from(e, key@, at as int),
            !searching ==> at < entries.len() && !key_lt(e[at as int].0, key@),
        decreases entries.len() - at + (if searching { 1int } else { 0int }),
    {
        let entry_chars = chars_of(entries[at].0.as_str());
        if chars_lt(&entry_chars, &key_chars) {
            at += 1;
        } else {
            searching = false;
        }
    }
    if at < entries.len() && entries[at].0 == key {
        entries.set(at, (key, value));
        assert(pairs(entries@) =~= e.update(at as int, (key@, value@)));
    } else {
        entries.insert(at, (key, value));
        assert(pairs(entries@) =~= e.insert(at as int, (key@, value@)));
    }
}

/// Error that has occurred when parsing an option's value.
#[derive(Debug)]
pub struct ParseError {
    value: String,
}

impl ParseError {
    /// The text that could not be read.
    pub closed spec fn value_text(&self) -> Seq<char> {
        self.value@
    }

    /// An error for the text `value`.
    pub fn new(value: &str) -> (e: ParseError)
        ensures
            e.value_text() == value@,
    {
        ParseError { value: value.to_owned() }
    }

    /// The error as a line for a reader.
    pub fn to_string(&self) -> (s: String)
        ensures
            s@ == "expected yes/no, got: "@ + self.value_text(),
    {
        let mut s = "expected yes/no, got: ".to_owned();
        s.push_str(self.value.as_str());
        s
    }
}

/// Creates a value from an attribute's text.
pub trait FromAttribute<'a>: Sized {
    /// Whether `r` is what the text `s` reads as.
    spec fn reads_as(s: Seq<char>, r: Result<Self, ParseError>) -> bool;

    /// Returns the value that the text stands for.
    fn from_str(s: &'a str) -> (r: Result<Self, ParseError>)
        ensures
            Self::reads_as(s@, r),
    ;
}

impl FromAttribute<'_> for bool {
    /// `yes` is true, `no` is false, and any other text is an error that
    /// holds the text.
    open spec fn reads_as(s: Seq<char>, r: Result<bool, ParseError>) -> bool {
        if s == seq!['y', 'e', 's'] {
            r == Ok::<bool, ParseError>(true)
        } else if s == seq!['n', 'o'] {
            r == Ok::<bool, ParseError>(false)
        } else {
            r is Err && r->Err_0.value_text() == s
        }
    }

    fn from_str(s: &str) -> (r: Result<bool, ParseError>) {
        let chars = chars_of(s);
        if chars.len() == 3 && chars[0] == 'y' && chars[1] == 'e' && chars[2] == 's' {
            assert(s@ =~= seq!['y', 'e', 's']);
            Ok(true)
        } else if chars.len() == 2 && chars[0] == 'n' && chars[1] == 'o' {
            assert(s@ =~= seq!['n', 'o']);
            Ok(false)
        } else {
            Err(ParseError::new(s))
        }
    }
}

impl<'a> FromAttribute<'a> for &'a str {
    /// Every text reads as itself.
    open spec fn reads_as(s: Seq<char>, r: Result<&'a str, ParseError>) -> bool {
        r is Ok && r->Ok_0@ == s
    }

    fn from_str(s: &'a str) -> (r: Result<&'a str, ParseError>) {
        Ok(s)
    }
}

/// Converts a value to an attribute's text.
pub trait ToAttribute {
    /// The text that the value is written as.
    spec fn text(&self) -> Seq<char>;

    /// Returns this value as text.
    fn as_str(&self) -> (s: &str)
        ensures
            s@ == self.text(),
    ;
}

impl ToAttribute for bool {
    /// True is `yes` and false is `no`.
    open spec fn text(&self) -> Seq<char> {
        if *self {
            seq!['y', 'e', 's']
        } else {
            seq!['n', 'o']
        }
    }

    fn as_str(&self) -> (s: &str) {
        proof {
            reveal_strlit("yes");
            reveal_strlit("no");
        }
        if *self {
            let s = "yes";
            assert(s@ =~= seq!['y', 'e', 's']);
            s
        } else {
            let s = "no";
            assert(s@ =~= seq!['n', 'o']);
            s
        }
    }
}

impl ToAttribute for &str {
    /// A text is written as it is.
    open spec fn text(&self) -> Seq<char> {
        self@
    }

    fn as_str(&self) -> (s: &str) {
        self
    }
}

/// Options for the query serializer: a table of texts, ordered by key.
#[derive(Debug, PartialEq)]
pub struct Options {
    options: Vec<(String, String)>,
}

impl View for Options {
    type V = Seq<Pair>;

    closed spec fn view(&self) -> Seq<Pair> {
        pairs(self.options@)
    }
}

impl Clone for Options {
    fn clone(&self) -> (o: Options)
        ensures
            o@ == self@,
    {
        proof {
            use_type_invariant(self);
        }
        let mut entries: Vec<(String, String)> = Vec::new();
        let mut i: usize = 0;
        while i < self.options.len()
            invariant
                i <= self.options.len(),
                pairs(entries@) == self@.take(i as int),
            decreases self.options.len() - i,
        {
            let ghost before = pairs(entries@);
            let key = self.options[i].0.clone();
            let value = self.options[i].1.clone();
            entries.push((key, value));
            assert(pairs(entries@) =~= before.push((key@, value@)));
            i += 1;
            assert(pairs(entries@) =~= self@.take(i as int));
        }
        assert(self@.take(i as int) =~= self@);
        Options { options: entries }
    }
}

impl Options {
    #[verifier::type_invariant]
    spec fn ordered(&self) -> bool {
        sorted(self@)
    }

    /// Creates empty options. The server sets its own defaults if this is
    /// saved.
    pub fn empty() -> (o: Options)
        ensures
            o@ == Seq::<Pair>::empty(),
    {
        let o = Options { options: Vec::new() };
        assert(o@ =~= Seq::<Pair>::empty());
        o
    }

    /// Reads the options from a comma separated list of `key=value` pairs.
    /// Every text is read; there is no error.
    pub fn from_str(s: &str) -> (r: Result<Options, ParseError>)
        ensures
            r is Ok,
            r->Ok_0@ == parsed_options(s@),
    {
        let chars = chars_of(s);
        let mut entries: Vec<(String, String)> = Vec::new();
        let mut key = String::new();
        let mut value = String::new();
        let mut key_complete = false;
        let mut i: usize = 0;
        assert(pairs(entries@) =~= Seq::<Pair>::empty());
        while i < chars.len()
            invariant
                i <= chars.len(),
                read_text(chars@.take(i as int)) == (Reading {
                    entries: pairs(entries@),
                    key: key@,
                    value: value@,
                    key_complete,
                }),
            decreases chars.len() - i,
        {
            let x = chars[i];
            proof {
                assert(chars@.take(i + 1).drop_last() =~= chars@.take(i as int));
                assert(chars@.take(i + 1).last() == x);
            }
            if x == '=' {
                key_complete = true;
            } else if x == ',' {
                put_entry(&mut entries, key, value);
                key = String::new();
                value = String::new();
                key_complete = false;
            } else if key_complete {
                value.push(x);
            } else {
                key.push(x);
            }
            i += 1;
        }
        assert(chars@.take(i as int) =~= chars@);
        if key.as_str().unicode_len() > 0 {
            put_entry(&mut entries, key, value);
        }
        proof {
            lemma_read_text_sorted(s@);
        }
        Ok(Options { options: entries })
    }

    /// The options as a comma separated list of `key=value` pairs, in the
    /// order of the keys.
    pub fn to_string(&self) -> (s: String)
        ensures
            s@ == rendered(self@),
    {
        let mut s = String::new();
        let mut i: usize = 0;
        while i < self.options.len()
            invariant
                i <= self.options.len(),
                s@ == rendered(self@.take(i as int)),
            decreases self.options.len() - i,
        {
            let ghost before = self@.take(i as int);
            let ghost now = self@.take(i + 1);
            proof {
                assert(now.drop_last() =~= before);
                assert(now.last() == (self.options@[i as int].0@, self.options@[i as int].1@));
            }
            if i > 0 {
                s.push(',');
            }
            s.push_str(self.options[i].0.as_str());
            s.push('=');
            s.push_str(self.options[i].1.as_str());
            i += 1;
            assert(s@ =~= rendered(now));
        }
        assert(self@.take(i as int) =~= self@);
        s
    }

    /// Frames the command that saves the options to the server's serializer
    /// for the current session, and returns the decoder of its response.
    pub fn save(&self, client: Client, out: &mut Vec<u8>) -> (r: Response)
        ensures
            final(out)@ == old(out)@ + argument(encode_utf8(save_command(self@))),
            r@ == start(Shape::Command),
            r.spec_client() == client,
    {
        let mut command = "SET SERIALIZER ".to_owned();
        command.push_str(self.to_string().as_str());
        client.execute(command.as_str(), out)
    }

    /// Gets the attribute under `key`, read as a `T`, if it exists.
    pub fn get<'a, T: FromAttribute<'a>>(&'a self, key: &str) -> (r: Option<
        Result<T, ParseError>,
    >)
        ensures
            r is Some <==> lookup(self@, key@) is Some,
            r is Some ==> T::reads_as(lookup(self@, key@)->0, r->0),
    {
        proof {
            use_type_invariant(self);
            lemma_slot_from(self@, key@, 0);
        }
        let mut i: usize = 0;
        while i < self.options.len()
            invariant
                i <= self.options.len(),
                sorted(self@),
                forall|j: int| 0 <= j < i ==> self@[j].0 != key@,
            decreases self.options.len() - i,
        {
            if self.options[i].0.as_str().to_owned() == key.to_owned() {
                proof {
                    lemma_lookup_finds(self@, i as int);
                }
                return Some(T::from_str(self.options[i].1.as_str()));
            }
            i += 1;
        }
        None
    }

    /// Inserts a new attribute value, in place of the old one if there is
    /// one.
    pub fn set<V: ToAttribute>(&mut self, key: &str, value: V)
        ensures
            final(self)@ == put(old(self)@, key@, value.text()),
    {
        proof {
            use_type_invariant(&*self);
            lemma_put_sorted(self@, key@, value.text());
        }
        let mut entries: Vec<(String, String)> = Vec::new();
        assert(pairs(entries@) =~= Seq::<Pair>::empty());
        core::mem::swap(&mut self.options, &mut entries);
        put_entry(&mut entries, key.to_owned(), value.as_str().to_owned());
        self.options = entries;
    }
}

} // verus!
