//! Escaping while relaying: the encoder takes what a source delivered, hands
//! out at most as many bytes as the caller's buffer holds and keeps the
//! overflow for the next call, so that no argument is ever held in full.

use vstd::prelude::*;
use crate::codec::{escape_into, escaped};

verus! {

/// Streaming encoder with the bytes that did not fit into the last output.
#[derive(Debug)]
pub struct EscapeReader {
    accumulator: Vec<u8>,
}

/// The first `n` bytes of `s`, or all of it where it is shorter.
pub open spec fn prefix(s: Seq<u8>, n: int) -> Seq<u8> {
    if n >= s.len() {
        s
    } else if n <= 0 {
        Seq::empty()
    } else {
        s.take(n)
    }
}

/// What follows the first `n` bytes of `s`.
pub open spec fn suffix(s: Seq<u8>, n: int) -> Seq<u8> {
    if n >= s.len() {
        Seq::empty()
    } else if n <= 0 {
        s
    } else {
        s.skip(n)
    }
}

impl EscapeReader {
    /// The escaped bytes that wait for the next call, in wire order.
    pub closed spec fn pending(&self) -> Seq<u8> {
        self.accumulator@
    }

    /// An encoder with nothing pending.
    pub fn new() -> (r: EscapeReader)
        ensures
            r.pending() == Seq::<u8>::empty(),
    {
        EscapeReader { accumulator: Vec::new() }
    }

    /// How many escaped bytes wait for the next call.
    pub fn pending_len(&self) -> (n: usize)
        ensures
            n == self.pending().len(),
    {
        self.accumulator.len()
    }

    /// How many bytes to ask of the source before the next call, for an
    /// output of `capacity` bytes: what the pending bytes leave free.
    pub fn room(&self, capacity: usize) -> (n: usize)
        ensures
            n == if self.pending().len() >= capacity {
                0
            } else {
                capacity - self.pending().len()
            },
    {
        if self.accumulator.len() >= capacity {
            0
        } else {
            capacity - self.accumulator.len()
        }
    }

    /// Takes `input`, the bytes that the source delivered, and returns the
    /// next bytes for the wire, at most `capacity` of them: first what was
    /// pending, then the escaped input. What does not fit stays pending.
    pub fn read(&mut self, input: &[u8], capacity: usize) -> (out: Vec<u8>)
        ensures
            out@ == prefix(old(self).pending() + escaped(input@), capacity as int),
            final(self).pending() == suffix(
                old(self).pending() + escaped(input@),
                capacity as int,
            ),
    {
        let mut all: Vec<u8> = Vec::new();
        core::mem::swap(&mut self.accumulator, &mut all);
        escape_into(input, &mut all);
        let mut out: Vec<u8> = Vec::new();
        let mut rest: Vec<u8> = Vec::new();
        let mut j: usize = 0;
        while j < all.len()
            invariant
                j <= all.len(),
                out@ == prefix(all@.take(j as int), capacity as int),
                rest@ == suffix(all@.take(j as int), capacity as int),
            decreases all.len() - j,
        {
            let b = all[j];
            proof {
                assert(all@.take(j + 1) =~= all@.take(j as int).push(b));
            }
            if j < capacity {
                out.push(b);
            } else {
                rest.push(b);
            }
            j += 1;
            assert(out@ =~= prefix(all@.take(j as int), capacity as int));
            assert(rest@ =~= suffix(all@.take(j as int), capacity as int));
        }
        assert(all@.take(j as int) =~= all@);
        self.accumulator = rest;
        out
    }
}

/// The bytes handed out by a run of calls, and what is pending after it:
/// call `i` is given `inputs[i]` and may hand out `capacities[i]` bytes.
pub open spec fn relay(inputs: Seq<Seq<u8>>, capacities: Seq<int>) -> (Seq<u8>, Seq<u8>)
    decreases inputs.len(),
{
    if inputs.len() == 0 {
        (Seq::empty(), Seq::empty())
    } else {
        let before = relay(inputs.drop_last(), capacities);
        let all = before.1 + escaped(inputs.last());
        let capacity = capacities[inputs.len() - 1];
        (before.0 + prefix(all, capacity), suffix(all, capacity))
    }
}

/// Nothing is lost, doubled or reordered between calls: however the source
/// is cut into inputs and whatever the capacities are, the bytes handed out
/// followed by the bytes still pending are the escaped source.
pub proof fn lemma_relay(inputs: Seq<Seq<u8>>, capacities: Seq<int>)
    ensures
        relay(inputs, capacities).0 + relay(inputs, capacities).1 == escaped(
            crate::codec::concat_all(inputs),
        ),
    decreases inputs.len(),
{
    if inputs.len() > 0 {
        let before = relay(inputs.drop_last(), capacities);
        let all = before.1 + escaped(inputs.last());
        let capacity = capacities[inputs.len() - 1];
        lemma_relay(inputs.drop_last(), capacities);
        crate::codec::lemma_escaped_concat(
            crate::codec::concat_all(inputs.drop_last()),
            inputs.last(),
        );
        assert(prefix(all, capacity) + suffix(all, capacity) =~= all);
        assert((before.0 + prefix(all, capacity)) + suffix(all, capacity) =~= (before.0 + before.1)
            + escaped(inputs.last()));
    } else {
        assert(Seq::<u8>::empty() + Seq::<u8>::empty() =~= Seq::<u8>::empty());
    }
}

} // verus!
