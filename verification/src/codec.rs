//! Byte stuffing: `0x00` ends a value on the wire and `0xFF` marks the next
//! byte as literal, so both are prefixed with `0xFF` when they occur as data.

use vstd::prelude::*;

verus! {

/// The byte that ends a value on the wire.
pub const DELIMITER: u8 = 0x00;

/// The byte that marks the following byte as literal.
pub const ESCAPE: u8 = 0xFF;

/// Whether a data byte needs a marker in front of it.
pub open spec fn is_special(b: u8) -> bool {
    b == DELIMITER || b == ESCAPE
}

/// How one data byte appears on the wire.
pub open spec fn escaped_byte(b: u8) -> Seq<u8> {
    if is_special(b) {
        seq![ESCAPE, b]
    } else {
        seq![b]
    }
}

/// How a data sequence appears on the wire, without its closing delimiter.
pub open spec fn escaped(data: Seq<u8>) -> Seq<u8>
    decreases data.len(),
{
    if data.len() == 0 {
        Seq::empty()
    } else {
        escaped(data.drop_last()) + escaped_byte(data.last())
    }
}

/// Escaping distributes over concatenation.
pub proof fn lemma_escaped_concat(a: Seq<u8>, b: Seq<u8>)
    ensures
        escaped(a + b) == escaped(a) + escaped(b),
    decreases b.len(),
{
    if b.len() == 0 {
        assert(a + b =~= a);
        assert(escaped(a) + escaped(b) =~= escaped(a));
    } else {
        lemma_escaped_concat(a, b.drop_last());
        assert((a + b).drop_last() =~= a + b.drop_last());
        assert((a + b).last() == b.last());
        assert(escaped(a) + (escaped(b.drop_last()) + escaped_byte(b.last())) =~= (escaped(a)
            + escaped(b.drop_last())) + escaped_byte(b.last()));
    }
}

/// Appends the escaped form of `data` to `out`.
pub fn escape_into(data: &[u8], out: &mut Vec<u8>)
    ensures
        final(out)@ == old(out)@ + escaped(data@),
{
    let mut i: usize = 0;
    while i < data.len()
        invariant
            i <= data.len(),
            out@ == old(out)@ + escaped(data@.take(i as int)),
        decreases data.len() - i,
    {
        let b = data[i];
        proof {
            assert(data@.take(i + 1).drop_last() =~= data@.take(i as int));
            assert(data@.take(i + 1).last() == b);
        }
        if b == DELIMITER || b == ESCAPE {
            out.push(ESCAPE);
        }
        out.push(b);
        i += 1;
        assert(out@ =~= old(out)@ + escaped(data@.take(i as int)));
    }
    assert(data@.take(i as int) =~= data@);
}

/// The escaped form of `data`.
pub fn escape(data: &[u8]) -> (wire: Vec<u8>)
    ensures
        wire@ == escaped(data@),
{
    let mut wire: Vec<u8> = Vec::new();
    escape_into(data, &mut wire);
    wire
}

/// What a scan of wire bytes has produced so far.
pub struct Scan {
    /// The data bytes recovered, markers removed.
    pub payload: Seq<u8>,
    /// Whether the last byte read was a marker whose byte is still to come.
    pub escape: bool,
    /// How many wire bytes were read, the delimiter included.
    pub used: nat,
    /// Whether the unescaped delimiter was met.
    pub found: bool,
}

/// Reads one more wire byte, unless the delimiter was already met.
pub open spec fn scan_step(prev: Scan, b: u8) -> Scan {
    if prev.found {
        prev
    } else if !prev.escape && b == ESCAPE {
        Scan { payload: prev.payload, escape: true, used: prev.used + 1, found: false }
    } else if !prev.escape && b == DELIMITER {
        Scan { payload: prev.payload, escape: false, used: prev.used + 1, found: true }
    } else {
        Scan { payload: prev.payload.push(b), escape: false, used: prev.used + 1, found: false }
    }
}

/// Scans `wire` from the left, starting with the given marker state, and stops
/// behind the first unescaped delimiter.
pub open spec fn scan(escape: bool, wire: Seq<u8>) -> Scan
    decreases wire.len(),
{
    if wire.len() == 0 {
        Scan { payload: Seq::empty(), escape, used: 0, found: false }
    } else {
        scan_step(scan(escape, wire.drop_last()), wire.last())
    }
}

/// A scan never reads more than it was given, and reads all of it unless it
/// met the delimiter.
pub proof fn lemma_scan_used(escape: bool, wire: Seq<u8>)
    ensures
        scan(escape, wire).used <= wire.len(),
        !scan(escape, wire).found ==> scan(escape, wire).used == wire.len(),
        scan(escape, wire).found ==> scan(escape, wire).used >= 1 && !scan(escape, wire).escape,
        scan(escape, wire).payload.len() <= scan(escape, wire).used,
    decreases wire.len(),
{
    if wire.len() > 0 {
        lemma_scan_used(escape, wire.drop_last());
    }
}

/// Result of scanning one chunk in executable code.
pub struct Scanned {
    /// How many bytes of the chunk were read, the delimiter included.
    pub used: usize,
    /// Whether the unescaped delimiter was met.
    pub found: bool,
}

/// Scans `chunk`, appends the data bytes it holds to `out` and keeps the
/// marker state in `escape` for the chunk that follows.
pub fn unescape_into(escape: &mut bool, chunk: &[u8], out: &mut Vec<u8>) -> (r: Scanned)
    ensures
        final(out)@ == old(out)@ + scan(*old(escape), chunk@).payload,
        *final(escape) == scan(*old(escape), chunk@).escape,
        r.used == scan(*old(escape), chunk@).used,
        r.found == scan(*old(escape), chunk@).found,
{
    let mut i: usize = 0;
    let mut found = false;
    while i < chunk.len() && !found
        invariant
            i <= chunk.len(),
            out@ == old(out)@ + scan(*old(escape), chunk@.take(i as int)).payload,
            *escape == scan(*old(escape), chunk@.take(i as int)).escape,
            found == scan(*old(escape), chunk@.take(i as int)).found,
            i == scan(*old(escape), chunk@.take(i as int)).used,
        decreases chunk.len() - i + (if found { 0int } else { 1int }),
    {
        let b = chunk[i];
        proof {
            assert(chunk@.take(i + 1).drop_last() =~= chunk@.take(i as int));
            assert(chunk@.take(i + 1).last() == b);
        }
        if !*escape && b == ESCAPE {
            *escape = true;
        } else if !*escape && b == DELIMITER {
            found = true;
        } else {
            *escape = false;
            out.push(b);
        }
        i += 1;
        assert(out@ =~= old(out)@ + scan(*old(escape), chunk@.take(i as int)).payload);
    }
    proof {
        lemma_scan_rest(*old(escape), chunk@, i as int);
    }
    Scanned { used: i, found }
}

/// Bytes behind the delimiter do not change a scan.
pub proof fn lemma_scan_rest(escape: bool, wire: Seq<u8>, n: int)
    requires
        0 <= n <= wire.len(),
        scan(escape, wire.take(n)).found || n == wire.len(),
    ensures
        scan(escape, wire) == scan(escape, wire.take(n)),
    decreases wire.len() - n,
{
    if n == wire.len() {
        assert(wire.take(n) =~= wire);
    } else {
        assert(wire.drop_last().take(n) =~= wire.take(n));
        lemma_scan_rest(escape, wire.drop_last(), n);
    }
}

/// A scan continued by the scan of the bytes that follow.
pub open spec fn scan_join(first: Scan, second: Scan) -> Scan {
    if first.found {
        first
    } else {
        Scan {
            payload: first.payload + second.payload,
            escape: second.escape,
            used: first.used + second.used,
            found: second.found,
        }
    }
}

/// Scanning two chunks in turn, the marker state carried over, gives what
/// scanning them as one chunk gives.
pub proof fn lemma_scan_concat(escape: bool, a: Seq<u8>, b: Seq<u8>)
    ensures
        scan(escape, a + b) == scan_join(scan(escape, a), scan(scan(escape, a).escape, b)),
    decreases b.len(),
{
    let first = scan(escape, a);
    if b.len() == 0 {
        assert(a + b =~= a);
        assert(first.payload + Seq::<u8>::empty() =~= first.payload);
    } else {
        lemma_scan_concat(escape, a, b.drop_last());
        assert((a + b).drop_last() =~= a + b.drop_last());
        assert((a + b).last() == b.last());
        let mid = scan(first.escape, b.drop_last());
        assert(first.payload + mid.payload.push(b.last()) =~= (first.payload + mid.payload).push(
            b.last(),
        ));
    }
}

/// All chunks of a list, one after the other.
pub open spec fn concat_all(chunks: Seq<Seq<u8>>) -> Seq<u8>
    decreases chunks.len(),
{
    if chunks.len() == 0 {
        Seq::empty()
    } else {
        concat_all(chunks.drop_last()) + chunks.last()
    }
}

/// Scans a list of chunks one by one, carrying the marker state from each
/// chunk to the next.
pub open spec fn scan_chunks(escape: bool, chunks: Seq<Seq<u8>>) -> Scan
    decreases chunks.len(),
{
    if chunks.len() == 0 {
        Scan { payload: Seq::empty(), escape, used: 0, found: false }
    } else {
        let before = scan_chunks(escape, chunks.drop_last());
        scan_join(before, scan(before.escape, chunks.last()))
    }
}

/// However the wire bytes are cut into chunks, empty ones included, the scan
/// of the chunks is the scan of the whole.
pub proof fn lemma_scan_chunks(escape: bool, chunks: Seq<Seq<u8>>)
    ensures
        scan_chunks(escape, chunks) == scan(escape, concat_all(chunks)),
    decreases chunks.len(),
{
    if chunks.len() > 0 {
        lemma_scan_chunks(escape, chunks.drop_last());
        lemma_scan_concat(escape, concat_all(chunks.drop_last()), chunks.last());
    }
}

/// The scan of a single byte is one step from the start.
pub proof fn lemma_scan_one(escape: bool, b: u8)
    ensures
        scan(escape, seq![b]) == scan_step(
            Scan { payload: Seq::empty(), escape, used: 0, found: false },
            b,
        ),
{
    let w = seq![b];
    assert(w.drop_last() =~= Seq::<u8>::empty());
    assert(w.last() == b);
    assert(scan(escape, w.drop_last()) == Scan {
        payload: Seq::empty(),
        escape,
        used: 0,
        found: false,
    });
}

/// Scanning escaped data gives the data back and meets no delimiter.
pub proof fn lemma_scan_escaped(data: Seq<u8>)
    ensures
        scan(false, escaped(data)).payload == data,
        !scan(false, escaped(data)).escape,
        scan(false, escaped(data)).used == escaped(data).len(),
        !scan(false, escaped(data)).found,
    decreases data.len(),
{
    if data.len() > 0 {
        let init = data.drop_last();
        let b = data.last();
        lemma_scan_escaped(init);
        lemma_scan_concat(false, escaped(init), escaped_byte(b));
        let tail = escaped_byte(b);
        if is_special(b) {
            assert(tail =~= seq![ESCAPE] + seq![b]);
            lemma_scan_concat(false, seq![ESCAPE], seq![b]);
            lemma_scan_one(false, ESCAPE);
            lemma_scan_one(true, b);
            assert(scan(false, tail).payload =~= seq![b]);
        } else {
            lemma_scan_one(false, b);
            assert(scan(false, tail).payload =~= seq![b]);
        }
        assert(init + seq![b] =~= data);
    }
}

/// Round trip: what was escaped and closed with a delimiter is recovered
/// exactly, whatever bytes the data holds and whatever follows the delimiter.
pub proof fn lemma_round_trip(data: Seq<u8>, rest: Seq<u8>)
    ensures
        scan(false, escaped(data) + seq![DELIMITER] + rest).payload == data,
        scan(false, escaped(data) + seq![DELIMITER] + rest).found,
        scan(false, escaped(data) + seq![DELIMITER] + rest).used == escaped(data).len() + 1,
        !scan(false, escaped(data) + seq![DELIMITER] + rest).escape,
{
    lemma_scan_escaped(data);
    let closed = escaped(data) + seq![DELIMITER];
    lemma_scan_concat(false, escaped(data), seq![DELIMITER]);
    lemma_scan_one(false, DELIMITER);
    assert(data + Seq::<u8>::empty() =~= data);
    lemma_scan_concat(false, closed, rest);
}

/// Round trip under chunking: if the chunks, read one after the other, hold
/// escaped data with its delimiter, then scanning them chunk by chunk recovers
/// the data, however small or uneven the chunks are.
pub proof fn lemma_round_trip_chunked(data: Seq<u8>, rest: Seq<u8>, chunks: Seq<Seq<u8>>)
    requires
        concat_all(chunks) == escaped(data) + seq![DELIMITER] + rest,
    ensures
        scan_chunks(false, chunks).payload == data,
        scan_chunks(false, chunks).found,
        scan_chunks(false, chunks).used == escaped(data).len() + 1,
{
    lemma_scan_chunks(false, chunks);
    lemma_round_trip(data, rest);
}

} // verus!
