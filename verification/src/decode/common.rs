//! Decoder modes, and the chunk-sequence accounting that tells a decoded
//! stream with holes from one without.

use vstd::prelude::*;

verus! {

/// What the decode worker does with the samples it is sent.
#[derive(Clone, Copy, PartialEq, Eq, Debug, Structural)]
pub enum DecodeMode {
    Off,
    Bpsk31,
    Qpsk31,
    AmDsb,
    TestTone,
    Cw,
    /// FT8 full-frame accumulate and decode.
    Ft8,
    /// FT4 full-frame accumulate and decode.
    Ft4,
    /// Wideband COFDM: spectral analysis only.
    Cofdm,
}

/// Chunks missing between sequence numbers `prev` and `seq`, counted modulo
/// 2^64 as the wrapping counter does: `seq - prev - 1`.
pub open spec fn chunks_missing(prev: u64, seq: u64) -> nat {
    ((seq - prev - 1) % 0x1_0000_0000_0000_0000) as nat
}

/// The chunk after `prev`, wrapping at the counter's top, is never a hole.
pub proof fn lemma_next_chunk_is_no_hole(prev: u64)
    ensures
        chunks_missing(prev, if prev == u64::MAX {
            0
        } else {
            (prev + 1) as u64
        }) == 0,
{
    if prev == u64::MAX {
        assert((0 - prev - 1) % 0x1_0000_0000_0000_0000 == 0int) by (nonlinear_arith)
            requires
                prev == u64::MAX,
        ;
    }
}

/// The chunk sequence a decoder has seen: the last sequence number and the
/// number of chunks the numbering says never arrived.
#[derive(Clone, Copy, Debug, Default, PartialEq, Eq)]
pub struct ChunkSequence {
    pub last_seq: Option<u64>,
    pub dropped: u64,
}

impl ChunkSequence {
    /// Nothing seen, nothing dropped.
    pub fn new() -> (s: Self)
        ensures
            s.last_seq.is_none(),
            s.dropped == 0,
    {
        ChunkSequence { last_seq: None, dropped: 0 }
    }

    /// Chunks the sequence counter says went missing.
    pub fn dropped(&self) -> (n: u64)
        ensures
            n == self.dropped,
    {
        self.dropped
    }

    /// Record chunk `seq`.  Returns whether it leaves a hole after the last
    /// one, in which case the hole's size is added to the dropped count.
    pub fn observe(&mut self, seq: u64) -> (hole: bool)
        requires
            old(self).last_seq matches Some(prev) ==> old(self).dropped + chunks_missing(prev, seq)
                <= u64::MAX,
        ensures
            final(self).last_seq == Some(seq),
            hole == match old(self).last_seq {
                Some(prev) => chunks_missing(prev, seq) != 0,
                None => false,
            },
            final(self).dropped == old(self).dropped + match old(self).last_seq {
                Some(prev) => chunks_missing(prev, seq),
                None => 0,
            },
    {
        let mut hole = false;
        if let Some(prev) = self.last_seq {
            if seq != prev.wrapping_add(1) {
                let gap = seq.wrapping_sub(prev).wrapping_sub(1);
                proof {
                    assert(gap == chunks_missing(prev, seq)) by (nonlinear_arith)
                        requires
                            gap == (if (seq - prev) < 0 {
                                (seq - prev + 0x1_0000_0000_0000_0000) as u64
                            } else {
                                (seq - prev) as u64
                            }).wrapping_sub(1),
                    ;
                }
                self.dropped = self.dropped + gap;
                hole = true;
            }
        }
        self.last_seq = Some(seq);
        hole
    }
}

} // verus!
