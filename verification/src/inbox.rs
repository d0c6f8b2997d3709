//! Bytes that have arrived and were not read yet. A read from a stream
//! brings what the stream has, which may be more than the answer that is
//! being read: the rest belongs to the next answer and waits here, so that
//! no byte is lost and none is read twice.

use vstd::prelude::*;
use crate::decoder::{run, Decoder};

verus! {

/// The bytes that have arrived and were not read yet, oldest first.
#[derive(Debug)]
pub struct Inbox {
    bytes: Vec<u8>,
}

impl View for Inbox {
    type V = Seq<u8>;

    closed spec fn view(&self) -> Seq<u8> {
        self.bytes@
    }
}

/// The first `limit` bytes of `bytes`, or all of them where there are fewer.
pub open spec fn first(bytes: Seq<u8>, limit: int) -> Seq<u8> {
    if limit <= bytes.len() {
        bytes.take(limit)
    } else {
        bytes
    }
}

impl Inbox {
    /// An inbox with no bytes.
    pub fn new() -> (inbox: Inbox)
        ensures
            inbox@ == Seq::<u8>::empty(),
    {
        Inbox { bytes: Vec::new() }
    }

    /// How many bytes wait.
    pub fn len(&self) -> (n: usize)
        ensures
            n == self@.len(),
    {
        self.bytes.len()
    }

    /// Whether no byte waits.
    pub fn is_empty(&self) -> (b: bool)
        ensures
            b == (self@.len() == 0),
    {
        self.bytes.len() == 0
    }

    /// Takes in what a read from the stream has brought.
    pub fn receive(&mut self, chunk: &[u8])
        ensures
            final(self)@ == old(self)@ + chunk@,
    {
        let mut i: usize = 0;
        while i < chunk.len()
            invariant
                i <= chunk.len(),
                self@ == old(self)@ + chunk@.take(i as int),
            decreases chunk.len() - i,
        {
            self.bytes.push(chunk[i]);
            i += 1;
            assert(self@ =~= old(self)@ + chunk@.take(i as int));
        }
        assert(chunk@.take(i as int) =~= chunk@);
    }

    /// Drops the first `n` bytes.
    fn skip(&mut self, n: usize)
        requires
            n <= old(self)@.len(),
        ensures
            final(self)@ == old(self)@.skip(n as int),
    {
        let rest = self.bytes.split_off(n);
        self.bytes = rest;
        assert(self@ =~= old(self)@.skip(n as int));
    }

    /// Lets `decoder` read the bytes that wait, at most `limit` of them:
    /// the payload among them goes to `out`, at most `limit` bytes of it,
    /// and what the decoder did not read stays in the inbox.
    pub fn feed(&mut self, decoder: &mut Decoder, limit: usize, out: &mut Vec<u8>) -> (used: usize)
        ensures
            final(decoder)@ == run(old(decoder)@, first(old(self)@, limit as int)).state,
            final(out)@ == old(out)@ + run(old(decoder)@, first(old(self)@, limit as int)).out,
            used == run(old(decoder)@, first(old(self)@, limit as int)).used,
            used <= old(self)@.len(),
            used <= limit,
            final(self)@ == old(self)@.skip(used as int),
    {
        let n = if limit <= self.bytes.len() {
            limit
        } else {
            self.bytes.len()
        };
        assert(self@.subrange(0, n as int) =~= first(self@, limit as int));
        let used = decoder.feed(vstd::slice::slice_subrange(self.bytes.as_slice(), 0, n), out);
        self.skip(used);
        used
    }

    /// Takes the first byte that waits, if there is one.
    pub fn take_byte(&mut self) -> (b: Option<u8>)
        ensures
            old(self)@.len() == 0 ==> b is None && final(self)@ == old(self)@,
            old(self)@.len() > 0 ==> b == Some(old(self)@[0]) && final(self)@ == old(self)@.skip(1),
    {
        if self.bytes.len() == 0 {
            return None;
        }
        let b = self.bytes[0];
        self.skip(1);
        Some(b)
    }

    /// Takes the first bytes that wait, at most `limit` of them.
    pub fn take(&mut self, limit: usize) -> (taken: Vec<u8>)
        ensures
            taken@ == first(old(self)@, limit as int),
            final(self)@ == old(self)@.skip(taken@.len() as int),
    {
        let n = if limit <= self.bytes.len() {
            limit
        } else {
            self.bytes.len()
        };
        let rest = self.bytes.split_off(n);
        let mut taken = rest;
        core::mem::swap(&mut self.bytes, &mut taken);
        assert(taken@ =~= first(old(self)@, limit as int));
        assert(self@ =~= old(self)@.skip(n as int));
        taken
    }
}

} // verus!
