//! The transport framer.  A message has no length prefix on the wire: the
//! receiver reads fixed-size chunks and accumulates them, and the first
//! chunk that comes back shorter than the chunk size marks the end of the
//! message.  A payload whose length is an exact multiple of the chunk size
//! therefore never produces the terminating short read: that stall is a
//! documented property of the wire format, preserved here, not patched.

use vstd::prelude::*;

verus! {

/// The fixed chunk size C of the wire convention.
pub const CHUNK_SIZE: usize = 4096;

/// The sequence of chunk reads that a sender's single write of `payload`
/// produces at the receiver: full chunks of size `c`, then one final short
/// chunk holding the remainder (absent when `c` divides the length).
pub open spec fn chunk_reads_of(payload: Seq<u8>, c: nat) -> Seq<Seq<u8>>
    decreases payload.len()
        when c > 0
{
    if payload.len() == 0 {
        Seq::empty()
    } else if payload.len() < c {
        seq![payload]
    } else {
        seq![payload.take(c as int)] + chunk_reads_of(payload.skip(c as int), c)
    }
}

/// The bytes a receiver holds after accumulating a sequence of chunks.
pub open spec fn assembled(chunks: Seq<Seq<u8>>) -> Seq<u8>
    decreases chunks.len(),
{
    if chunks.len() == 0 {
        Seq::empty()
    } else {
        chunks[0] + assembled(chunks.skip(1))
    }
}

/// Accumulates the chunks of one inbound message.  `complete` becomes true
/// on the first chunk shorter than `CHUNK_SIZE`: the boundary heuristic.
pub struct FrameAssembler {
    pub data: Vec<u8>,
    pub complete: bool,
}

impl FrameAssembler {
    pub fn new() -> (r: FrameAssembler)
        ensures
            r.data@ == Seq::<u8>::empty(),
            !r.complete,
    {
        FrameAssembler { data: Vec::new(), complete: false }
    }

    /// Feeds the bytes of one chunk read.  The message is complete exactly
    /// when the chunk was short.
    pub fn push_chunk(&mut self, chunk: &[u8])
        requires
            chunk@.len() <= CHUNK_SIZE,
            !old(self).complete,
        ensures
            final(self).data@ == old(self).data@ + chunk@,
            final(self).complete == (chunk@.len() < CHUNK_SIZE),
    {
        let mut i: usize = 0;
        while i < chunk.len()
            invariant
                i <= chunk@.len(),
                self.data@ == old(self).data@ + chunk@.take(i as int),
                self.complete == old(self).complete,
            decreases chunk@.len() - i,
        {
            self.data.push(chunk[i]);
            proof {
                assert(chunk@.take(i + 1) =~= chunk@.take(i as int).push(chunk@[i as int]));
            }
            i = i + 1;
        }
        proof {
            assert(chunk@.take(chunk@.len() as int) =~= chunk@);
        }
        if chunk.len() < CHUNK_SIZE {
            self.complete = true;
        }
    }
}

/// Accumulating the chunk reads of any payload reconstructs the payload.
pub proof fn lemma_chunks_reassemble(payload: Seq<u8>, c: nat)
    requires
        c > 0,
    ensures
        assembled(chunk_reads_of(payload, c)) == payload,
    decreases payload.len(),
{
    if payload.len() == 0 {
        assert(assembled(chunk_reads_of(payload, c)) =~= payload);
    } else if payload.len() < c {
        let chunks = chunk_reads_of(payload, c);
        assert(chunks == seq![payload]);
        assert(chunks.skip(1) =~= Seq::<Seq<u8>>::empty());
        assert(assembled(chunks.skip(1)) == Seq::<u8>::empty());
        assert(assembled(chunks) == payload + Seq::<u8>::empty());
        assert(payload + Seq::<u8>::empty() =~= payload);
    } else {
        lemma_chunks_reassemble(payload.skip(c as int), c);
        let chunks = chunk_reads_of(payload, c);
        assert(chunks.skip(1) =~= chunk_reads_of(payload.skip(c as int), c));
        assert(assembled(chunks) =~= payload.take(c as int) + payload.skip(c as int));
        assert(payload.take(c as int) + payload.skip(c as int) =~= payload);
    }
}

/// Boundary heuristic, terminating side: a payload of length `k*c - 1`
/// arrives in exactly `k` chunk reads, the last of which is short, so the
/// receiver stops after the `k`-th read with the whole payload in hand.
pub proof fn lemma_boundary_short(payload: Seq<u8>, c: nat, k: nat)
    requires
        c >= 2,
        k >= 1,
        payload.len() == k * c - 1,
    ensures
        chunk_reads_of(payload, c).len() == k,
        chunk_reads_of(payload, c).last().len() < c,
        assembled(chunk_reads_of(payload, c)) == payload,
    decreases k,
{
    lemma_chunks_reassemble(payload, c);
    if k == 1 {
        assert(payload.len() == c - 1) by (nonlinear_arith)
            requires payload.len() == k * c - 1, k == 1;
    } else {
        assert(payload.len() >= c) by (nonlinear_arith)
            requires payload.len() == k * c - 1, k >= 2, c >= 2;
        let rest = payload.skip(c as int);
        assert(rest.len() == (k - 1) * c - 1) by (nonlinear_arith)
            requires
                payload.len() == k * c - 1,
                k >= 2,
                c >= 2,
                rest.len() == payload.len() - c;
        lemma_boundary_short(rest, c, (k - 1) as nat);
        let chunks = chunk_reads_of(payload, c);
        assert(chunks.len() == 1 + chunk_reads_of(rest, c).len());
        assert(chunks.last() == chunk_reads_of(rest, c).last());
    }
}

/// Boundary heuristic, stalling side: a payload of length exactly `k*c`
/// arrives in `k` chunk reads, every one of them full, so the receiver
/// never sees the terminating short read and keeps waiting even though it
/// already holds the whole payload.
pub proof fn lemma_boundary_stall(payload: Seq<u8>, c: nat, k: nat)
    requires
        c > 0,
        payload.len() == k * c,
    ensures
        chunk_reads_of(payload, c).len() == k,
        forall|i: int| 0 <= i < k ==> (#[trigger] chunk_reads_of(payload, c)[i]).len() == c,
        assembled(chunk_reads_of(payload, c)) == payload,
    decreases k,
{
    lemma_chunks_reassemble(payload, c);
    if k == 0 {
        assert(payload.len() == 0) by (nonlinear_arith)
            requires payload.len() == k * c, k == 0;
    } else {
        assert(payload.len() >= c) by (nonlinear_arith)
            requires payload.len() == k * c, k >= 1, c > 0;
        let rest = payload.skip(c as int);
        assert(rest.len() == (k - 1) * c) by (nonlinear_arith)
            requires
                payload.len() == k * c,
                k >= 1,
                c > 0,
                rest.len() == payload.len() - c;
        lemma_boundary_stall(rest, c, (k - 1) as nat);
        let chunks = chunk_reads_of(payload, c);
        let rest_chunks = chunk_reads_of(rest, c);
        assert(chunks.len() == 1 + rest_chunks.len());
        assert(chunks[0].len() == c);
        assert forall|i: int| 0 <= i < k implies (#[trigger] chunks[i]).len() == c by {
            if i > 0 {
                assert(chunks[i] == rest_chunks[i - 1]);
            }
        }
    }
}

} // verus!
