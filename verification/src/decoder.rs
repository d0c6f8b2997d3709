//! The streaming response decoder.
//!
//! A response starts with an escaped payload that an unescaped delimiter
//! closes. A command response goes on with an info string, its delimiter and
//! the status byte. A query response goes on with the status byte and, when
//! the status says that the query failed, with an error string and its
//! delimiter. A plain string with its delimiter is read the same way. The
//! decoder reads the bytes as they arrive, in chunks of any size, hands the
//! payload out and keeps the rest. The marker state is part of the decoder,
//! so a marker that ends one chunk still covers the first byte of the next.

use vstd::prelude::*;
use crate::codec::{unescape_into, DELIMITER, ESCAPE};

verus! {

/// Which layout is being read.
#[derive(Clone, Copy, PartialEq, Eq, Debug, Structural)]
pub enum Shape {
    /// payload, delimiter, info, delimiter, status
    Command,
    /// payload, delimiter, status, and after a failure: error, delimiter
    Query,
    /// a string and its delimiter, nothing else
    Text,
}

/// What the status byte said.
#[derive(Clone, Copy, PartialEq, Eq, Debug, Structural)]
pub enum Status {
    /// `0`: the request succeeded.
    Success,
    /// `1`: the request failed.
    Failure,
    /// Any other byte: the peer broke the protocol.
    Invalid,
}

/// Where in the response the decoder stands.
#[derive(Clone, Copy, PartialEq, Eq, Debug, Structural)]
pub enum Phase {
    /// Reading escaped payload bytes.
    Payload,
    /// Reading the info string of a command response, or a plain string.
    Info,
    /// Expecting the status byte.
    Status,
    /// Reading the error string of a failed query.
    Error,
    /// The whole response was read, with this status.
    Done(Status),
}

/// The meaning of a status byte.
pub open spec fn status_of(b: u8) -> Status {
    if b == 0 {
        Status::Success
    } else if b == 1 {
        Status::Failure
    } else {
        Status::Invalid
    }
}

/// The decoder's state as a mathematical value.
pub struct DecoderState {
    pub shape: Shape,
    pub phase: Phase,
    /// Whether the last payload byte read was a marker.
    pub escape: bool,
    /// The info or error bytes read so far.
    pub info: Seq<u8>,
}

impl DecoderState {
    /// Whether the whole response was read.
    pub open spec fn complete(self) -> bool {
        self.phase is Done
    }

    /// The status, once its byte was read.
    pub open spec fn status(self) -> Option<Status> {
        match self.phase {
            Phase::Done(st) => Some(st),
            Phase::Error => Some(Status::Failure),
            _ => None,
        }
    }
}

/// The state before the first byte.
pub open spec fn start(shape: Shape) -> DecoderState {
    DecoderState {
        shape,
        phase: if shape == Shape::Text {
            Phase::Info
        } else {
            Phase::Payload
        },
        escape: false,
        info: Seq::empty(),
    }
}

/// Whether the decoder, reading `b` in state `s`, hands `b` out as payload.
pub open spec fn emits(s: DecoderState, b: u8) -> bool {
    s.phase == Phase::Payload && (s.escape || (b != ESCAPE && b != DELIMITER))
}

/// The state after reading `b` in state `s`.
pub open spec fn next_state(s: DecoderState, b: u8) -> DecoderState {
    match s.phase {
        Phase::Payload => {
            if !s.escape && b == ESCAPE {
                DecoderState { escape: true, ..s }
            } else if !s.escape && b == DELIMITER {
                DecoderState {
                    phase: if s.shape == Shape::Command {
                        Phase::Info
                    } else {
                        Phase::Status
                    },
                    ..s
                }
            } else {
                DecoderState { escape: false, ..s }
            }
        },
        Phase::Info => {
            if b == DELIMITER {
                DecoderState {
                    phase: if s.shape == Shape::Text {
                        Phase::Done(Status::Success)
                    } else {
                        Phase::Status
                    },
                    ..s
                }
            } else {
                DecoderState { info: s.info.push(b), ..s }
            }
        },
        Phase::Status => {
            DecoderState {
                phase: if s.shape == Shape::Query && status_of(b) == Status::Failure {
                    Phase::Error
                } else {
                    Phase::Done(status_of(b))
                },
                ..s
            }
        },
        Phase::Error => {
            if b == DELIMITER {
                DecoderState { phase: Phase::Done(Status::Failure), ..s }
            } else {
                DecoderState { info: s.info.push(b), ..s }
            }
        },
        Phase::Done(_) => s,
    }
}

/// What reading some bytes has come to.
pub struct Progress {
    /// The state reached.
    pub state: DecoderState,
    /// The payload bytes handed out on the way.
    pub out: Seq<u8>,
    /// How many bytes were read; none is read once the response is complete.
    pub used: nat,
}

/// Reads `wire` from the left in state `s`, and stops where the response ends.
pub open spec fn run(s: DecoderState, wire: Seq<u8>) -> Progress
    decreases wire.len(),
{
    if wire.len() == 0 {
        Progress { state: s, out: Seq::empty(), used: 0 }
    } else {
        let p = run(s, wire.drop_last());
        if p.state.complete() {
            p
        } else {
            Progress {
                state: next_state(p.state, wire.last()),
                out: if emits(p.state, wire.last()) {
                    p.out.push(wire.last())
                } else {
                    p.out
                },
                used: p.used + 1,
            }
        }
    }
}

/// Bytes behind the end of the response do not change what was read.
pub proof fn lemma_run_rest(s: DecoderState, wire: Seq<u8>, n: int)
    requires
        0 <= n <= wire.len(),
        run(s, wire.take(n)).state.complete() || n == wire.len(),
    ensures
        run(s, wire) == run(s, wire.take(n)),
    decreases wire.len() - n,
{
    if n == wire.len() {
        assert(wire.take(n) =~= wire);
    } else {
        assert(wire.drop_last().take(n) =~= wire.take(n));
        lemma_run_rest(s, wire.drop_last(), n);
    }
}

/// Once the response is complete, further bytes are not read and change
/// nothing.
pub proof fn lemma_run_complete(s: DecoderState, wire: Seq<u8>)
    requires
        s.complete(),
    ensures
        run(s, wire).state == s,
        run(s, wire).out == Seq::<u8>::empty(),
        run(s, wire).used == 0,
    decreases wire.len(),
{
    if wire.len() > 0 {
        lemma_run_complete(s, wire.drop_last());
    }
}

/// Reading two chunks in turn gives what reading them as one chunk gives: the
/// state reached, the payload handed out and the number of bytes read do not
/// depend on where the input was cut.
pub proof fn lemma_run_concat(s: DecoderState, a: Seq<u8>, b: Seq<u8>)
    ensures
        run(s, a + b).state == run(run(s, a).state, b).state,
        run(s, a + b).out == run(s, a).out + run(run(s, a).state, b).out,
        run(s, a + b).used == run(s, a).used + run(run(s, a).state, b).used,
    decreases b.len(),
{
    let first = run(s, a);
    if b.len() == 0 {
        assert(a + b =~= a);
        assert(first.out + Seq::<u8>::empty() =~= first.out);
    } else {
        lemma_run_concat(s, a, b.drop_last());
        assert((a + b).drop_last() =~= a + b.drop_last());
        assert((a + b).last() == b.last());
        let mid = run(first.state, b.drop_last());
        assert(first.out + mid.out.push(b.last()) =~= (first.out + mid.out).push(b.last()));
    }
}

/// The decoder's payload phase is the codec's scan: up to the delimiter it
/// hands out what the scan recovers, and the delimiter moves it on.
pub proof fn lemma_run_payload(s: DecoderState, wire: Seq<u8>)
    requires
        s.phase == Phase::Payload,
    ensures
        ({
            let sc = crate::codec::scan(s.escape, wire);
            let p = run(s, wire.take(sc.used as int));
            &&& sc.used <= wire.len()
            &&& p.out == sc.payload
            &&& p.used == sc.used
            &&& p.state.info == s.info
            &&& p.state.shape == s.shape
            &&& !sc.found ==> p.state.phase == Phase::Payload && p.state.escape == sc.escape
            &&& sc.found ==> !p.state.escape && p.state.phase == (if s.shape == Shape::Command {
                Phase::Info
            } else {
                Phase::Status
            })
        }),
    decreases wire.len(),
{
    let sc = crate::codec::scan(s.escape, wire);
    crate::codec::lemma_scan_used(s.escape, wire);
    if wire.len() == 0 {
        assert(wire.take(0) =~= wire);
    } else {
        let init = wire.drop_last();
        let before = crate::codec::scan(s.escape, init);
        lemma_run_payload(s, init);
        crate::codec::lemma_scan_used(s.escape, init);
        if before.found {
            assert(wire.take(sc.used as int) =~= init.take(before.used as int));
        } else {
            assert(init.take(before.used as int) =~= init);
            assert(wire.take(sc.used as int) =~= wire);
        }
    }
}

/// Whether a text can stand between two delimiters as it is.
pub open spec fn no_delimiter(text: Seq<u8>) -> bool {
    forall|i: int| 0 <= i < text.len() ==> text[i] != DELIMITER
}

/// While an info or error string is read, its bytes are collected unchanged.
pub proof fn lemma_run_text(s: DecoderState, text: Seq<u8>)
    requires
        s.phase == Phase::Info || s.phase == Phase::Error,
        no_delimiter(text),
    ensures
        run(s, text).state == (DecoderState { info: s.info + text, ..s }),
        run(s, text).out == Seq::<u8>::empty(),
        run(s, text).used == text.len(),
    decreases text.len(),
{
    if text.len() == 0 {
        assert(s.info + text =~= s.info);
    } else {
        lemma_run_text(s, text.drop_last());
        assert(text[text.len() - 1] != DELIMITER);
        assert((s.info + text.drop_last()).push(text.last()) =~= s.info + text);
    }
}

/// Reading exactly one byte.
pub proof fn lemma_run_one(s: DecoderState, b: u8)
    requires
        !s.complete(),
    ensures
        run(s, seq![b]).state == next_state(s, b),
        run(s, seq![b]).used == 1,
        run(s, seq![b]).out == (if emits(s, b) {
            seq![b]
        } else {
            Seq::empty()
        }),
{
    let w = seq![b];
    assert(w.drop_last() =~= Seq::<u8>::empty());
    assert(w.last() == b);
    assert(run(s, w.drop_last()).state == s);
    assert(Seq::<u8>::empty().push(b) =~= seq![b]);
}

/// A whole command response: escaped payload, delimiter, info, delimiter and
/// status byte decode to that payload, that info and that status, whatever
/// follows on the wire.
pub proof fn lemma_command_response(payload: Seq<u8>, info: Seq<u8>, status: u8, rest: Seq<u8>)
    requires
        no_delimiter(info),
    ensures
        ({
            let wire = crate::codec::escaped(payload) + seq![DELIMITER] + info + seq![DELIMITER]
                + seq![status] + rest;
            let p = run(start(Shape::Command), wire);
            &&& p.out == payload
            &&& p.state.info == info
            &&& p.state.phase == Phase::Done(status_of(status))
            &&& p.used == wire.len() - rest.len()
        }),
{
    let s0 = start(Shape::Command);
    let head = crate::codec::escaped(payload) + seq![DELIMITER];
    lemma_head(s0, payload);
    let s1 = run(s0, head).state;
    lemma_run_text(s1, info);
    let s2 = run(s1, info).state;
    lemma_run_one(s2, DELIMITER);
    let s3 = run(s2, seq![DELIMITER]).state;
    lemma_run_one(s3, status);
    let s4 = run(s3, seq![status]).state;
    lemma_run_complete(s4, rest);
    lemma_run_concat(s0, head, info);
    lemma_run_concat(s0, head + info, seq![DELIMITER]);
    lemma_run_concat(s0, head + info + seq![DELIMITER], seq![status]);
    lemma_run_concat(s0, head + info + seq![DELIMITER] + seq![status], rest);
    assert(Seq::<u8>::empty() + info =~= info);
    assert(payload + Seq::<u8>::empty() =~= payload);
}

/// A whole response of a query that did not fail: escaped payload, delimiter
/// and a status byte other than `1` decode to that payload and that status,
/// with no error text, whatever follows on the wire.
pub proof fn lemma_query_response(payload: Seq<u8>, status: u8, rest: Seq<u8>)
    requires
        status != 1,
    ensures
        ({
            let wire = crate::codec::escaped(payload) + seq![DELIMITER] + seq![status] + rest;
            let p = run(start(Shape::Query), wire);
            &&& p.out == payload
            &&& p.state.info == Seq::<u8>::empty()
            &&& p.state.phase == Phase::Done(status_of(status))
            &&& p.used == wire.len() - rest.len()
        }),
{
    let s0 = start(Shape::Query);
    let head = crate::codec::escaped(payload) + seq![DELIMITER];
    lemma_head(s0, payload);
    let s1 = run(s0, head).state;
    lemma_run_one(s1, status);
    let s2 = run(s1, seq![status]).state;
    lemma_run_complete(s2, rest);
    lemma_run_concat(s0, head, seq![status]);
    lemma_run_concat(s0, head + seq![status], rest);
    assert(payload + Seq::<u8>::empty() =~= payload);
}

/// A whole response of a failed query: escaped payload, delimiter, status
/// byte `1`, error text and delimiter decode to that payload and that error
/// text, whatever follows on the wire.
pub proof fn lemma_query_failure(payload: Seq<u8>, error: Seq<u8>, rest: Seq<u8>)
    requires
        no_delimiter(error),
    ensures
        ({
            let wire = crate::codec::escaped(payload) + seq![DELIMITER] + seq![1u8] + error
                + seq![DELIMITER] + rest;
            let p = run(start(Shape::Query), wire);
            &&& p.out == payload
            &&& p.state.info == error
            &&& p.state.phase == Phase::Done(Status::Failure)
            &&& p.used == wire.len() - rest.len()
        }),
{
    let s0 = start(Shape::Query);
    let head = crate::codec::escaped(payload) + seq![DELIMITER];
    lemma_head(s0, payload);
    let s1 = run(s0, head).state;
    lemma_run_one(s1, 1u8);
    let s2 = run(s1, seq![1u8]).state;
    lemma_run_text(s2, error);
    let s3 = run(s2, error).state;
    lemma_run_one(s3, DELIMITER);
    let s4 = run(s3, seq![DELIMITER]).state;
    lemma_run_complete(s4, rest);
    lemma_run_concat(s0, head, seq![1u8]);
    lemma_run_concat(s0, head + seq![1u8], error);
    lemma_run_concat(s0, head + seq![1u8] + error, seq![DELIMITER]);
    lemma_run_concat(s0, head + seq![1u8] + error + seq![DELIMITER], rest);
    assert(Seq::<u8>::empty() + error =~= error);
    assert(payload + Seq::<u8>::empty() =~= payload);
}

/// A whole string: the text and its delimiter decode to that text, whatever
/// follows on the wire.
pub proof fn lemma_text_response(text: Seq<u8>, rest: Seq<u8>)
    requires
        no_delimiter(text),
    ensures
        ({
            let wire = text + seq![DELIMITER] + rest;
            let p = run(start(Shape::Text), wire);
            &&& p.out == Seq::<u8>::empty()
            &&& p.state.info == text
            &&& p.state.phase == Phase::Done(Status::Success)
            &&& p.used == text.len() + 1
        }),
{
    let s0 = start(Shape::Text);
    lemma_run_text(s0, text);
    let s1 = run(s0, text).state;
    lemma_run_one(s1, DELIMITER);
    let s2 = run(s1, seq![DELIMITER]).state;
    lemma_run_complete(s2, rest);
    lemma_run_concat(s0, text, seq![DELIMITER]);
    lemma_run_concat(s0, text + seq![DELIMITER], rest);
    assert(Seq::<u8>::empty() + text =~= text);
}

/// The escaped payload with its delimiter, read from the start.
proof fn lemma_head(s0: DecoderState, payload: Seq<u8>)
    requires
        s0.phase == Phase::Payload,
        s0.shape != Shape::Text,
        !s0.escape,
    ensures
        ({
            let head = crate::codec::escaped(payload) + seq![DELIMITER];
            let p = run(s0, head);
            &&& p.out == payload
            &&& p.used == head.len()
            &&& p.state == (DecoderState {
                phase: if s0.shape == Shape::Command {
                    Phase::Info
                } else {
                    Phase::Status
                },
                ..s0
            })
        }),
{
    let head = crate::codec::escaped(payload) + seq![DELIMITER];
    crate::codec::lemma_round_trip(payload, Seq::empty());
    assert(head + Seq::<u8>::empty() =~= head);
    lemma_run_payload(s0, head);
    assert(head.take(head.len() as int) =~= head);
}

/// Decoder of one response.
#[derive(Debug)]
pub struct Decoder {
    shape: Shape,
    phase: Phase,
    escape: bool,
    info: Vec<u8>,
}

impl View for Decoder {
    type V = DecoderState;

    closed spec fn view(&self) -> DecoderState {
        DecoderState {
            shape: self.shape,
            phase: self.phase,
            escape: self.escape,
            info: self.info@,
        }
    }
}

impl Decoder {
    /// A decoder that has read nothing yet.
    pub fn new(shape: Shape) -> (d: Decoder)
        ensures
            d@ == start(shape),
    {
        let phase = match shape {
            Shape::Text => Phase::Info,
            _ => Phase::Payload,
        };
        Decoder { shape, phase, escape: false, info: Vec::new() }
    }

    /// Whether the whole response was read.
    pub fn is_complete(&self) -> (b: bool)
        ensures
            b == self@.complete(),
    {
        matches!(self.phase, Phase::Done(_))
    }

    /// Where in the response the decoder stands.
    pub fn phase(&self) -> (p: Phase)
        ensures
            p == self@.phase,
    {
        self.phase
    }

    /// The status, once its byte was read.
    pub fn status(&self) -> (st: Option<Status>)
        ensures
            st == self@.status(),
    {
        match self.phase {
            Phase::Done(st) => Some(st),
            Phase::Error => Some(Status::Failure),
            _ => None,
        }
    }

    /// The info or error bytes read so far.
    pub fn info(&self) -> (bytes: &Vec<u8>)
        ensures
            bytes@ == self@.info,
    {
        &self.info
    }

    /// Gives up the decoder for the info or error bytes it has read.
    pub fn into_info(self) -> (bytes: Vec<u8>)
        ensures
            bytes@ == self@.info,
    {
        self.info
    }

    /// Reads `chunk`, appends the payload bytes it holds to `out`, and tells
    /// how many bytes of the chunk belong to this response. Once the response
    /// is complete nothing more is read.
    pub fn feed(&mut self, chunk: &[u8], out: &mut Vec<u8>) -> (used: usize)
        ensures
            final(self)@ == run(old(self)@, chunk@).state,
            final(out)@ == old(out)@ + run(old(self)@, chunk@).out,
            used == run(old(self)@, chunk@).used,
            used <= chunk@.len(),
    {
        let mut i: usize = 0;
        if matches!(self.phase, Phase::Payload) {
            let scanned = unescape_into(&mut self.escape, chunk, out);
            if scanned.found {
                self.phase = match self.shape {
                    Shape::Command => Phase::Info,
                    _ => Phase::Status,
                };
            }
            i = scanned.used;
            proof {
                lemma_run_payload(old(self)@, chunk@);
                crate::codec::lemma_scan_used(old(self)@.escape, chunk@);
            }
        } else {
            assert(chunk@.take(0) =~= Seq::<u8>::empty());
            assert(old(out)@ + Seq::<u8>::empty() =~= old(out)@);
        }
        while i < chunk.len() && !matches!(self.phase, Phase::Done(_))
            invariant
                i <= chunk.len(),
                i < chunk.len() ==> self@.phase != Phase::Payload,
                self@ == run(old(self)@, chunk@.take(i as int)).state,
                out@ == old(out)@ + run(old(self)@, chunk@.take(i as int)).out,
                i == run(old(self)@, chunk@.take(i as int)).used,
            decreases chunk.len() - i,
        {
            let b = chunk[i];
            proof {
                assert(chunk@.take(i + 1).drop_last() =~= chunk@.take(i as int));
                assert(chunk@.take(i + 1).last() == b);
            }
            let ghost before = self@;
            match self.phase {
                Phase::Info => {
                    if b == DELIMITER {
                        self.phase = match self.shape {
                            Shape::Text => Phase::Done(Status::Success),
                            _ => Phase::Status,
                        };
                    } else {
                        self.info.push(b);
                    }
                },
                Phase::Status => {
                    let status = if b == 0 {
                        Status::Success
                    } else if b == 1 {
                        Status::Failure
                    } else {
                        Status::Invalid
                    };
                    self.phase = match (self.shape, status) {
                        (Shape::Query, Status::Failure) => Phase::Error,
                        _ => Phase::Done(status),
                    };
                },
                Phase::Error => {
                    if b == DELIMITER {
                        self.phase = Phase::Done(Status::Failure);
                    } else {
                        self.info.push(b);
                    }
                },
                _ => {},
            }
            i += 1;
            assert(self@ == next_state(before, b));
            assert(out@ =~= old(out)@ + run(old(self)@, chunk@.take(i as int)).out);
        }
        proof {
            lemma_run_rest(old(self)@, chunk@, i as int);
        }
        i
    }
}

} // verus!
