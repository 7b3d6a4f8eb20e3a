//! The integer side of the CW decoder: riding through keying gaps until
//! silence outlasts the holdoff, and emitting each scheduled character once
//! enough samples have been heard for it to have been keyed.

use vstd::prelude::*;

verus! {

/// What one block of samples meant for the transmission.
#[derive(Clone, Copy, PartialEq, Eq, Debug, Structural)]
pub enum CwBlock {
    /// No transmission under way: the block is ignored.
    Idle,
    /// Silence just outlasted the holdoff: the transmission has ended and the
    /// text state was cleared.
    GapDeclared,
    /// A transmission is under way (the block may be a keying gap).
    Active,
}

/// The characters of schedule entries `lo..hi`.
pub open spec fn chars_of(s: Seq<(char, usize)>, lo: int, hi: int) -> Seq<char> {
    Seq::new((hi - lo) as nat, |i: int| s[lo + i].0)
}

/// Successive emissions join up: the characters of `a..b` followed by those
/// of `b..c` are the characters of `a..c`, so advancing in several steps
/// emits each scheduled character once, in schedule order.
pub proof fn lemma_emissions_concatenate(s: Seq<(char, usize)>, a: int, b: int, c: int)
    requires
        0 <= a <= b <= c <= s.len(),
    ensures
        chars_of(s, a, b) + chars_of(s, b, c) == chars_of(s, a, c),
{
    assert(chars_of(s, a, b) + chars_of(s, b, c) =~= chars_of(s, a, c));
}

/// The schedule's thresholds never decrease.
pub open spec fn thresholds_sorted(s: Seq<(char, usize)>) -> bool {
    forall|i: int, j: int| 0 <= i <= j < s.len() ==> s[i].1 <= s[j].1
}

/// With a schedule in time order, stopping at the first character still due
/// leaves no reached character behind: every later one is still due too.
pub proof fn lemma_nothing_reached_is_left(s: Seq<(char, usize)>, next: int, accum: usize)
    requires
        thresholds_sorted(s),
        0 <= next <= s.len(),
        next < s.len() ==> s[next].1 > accum,
    ensures
        forall|j: int| next <= j < s.len() ==> #[trigger] s[j].1 > accum,
{
    assert forall|j: int| next <= j < s.len() implies #[trigger] s[j].1 > accum by {
        assert(s[next].1 <= s[j].1);
    }
}

/// Character-timed text state: the `(character, sample threshold)` schedule,
/// the samples heard since the onset and the next character to emit, with
/// the silence that has run since the last signal block.
pub struct CwText {
    pub char_schedule: Vec<(char, usize)>,
    pub accum_samples: usize,
    pub next_char_idx: usize,
    pub in_signal: bool,
    pub silence_samples: usize,
}

impl CwText {
    /// The next character to emit lies within the schedule.
    pub open spec fn wf(&self) -> bool {
        self.next_char_idx <= self.char_schedule@.len()
    }

    /// No transmission, no schedule, nothing heard.
    pub fn new() -> (s: Self)
        ensures
            s.wf(),
            s.char_schedule@.len() == 0,
            s.accum_samples == 0,
            s.next_char_idx == 0,
            !s.in_signal,
            s.silence_samples == 0,
    {
        CwText {
            char_schedule: Vec::new(),
            accum_samples: 0,
            next_char_idx: 0,
            in_signal: false,
            silence_samples: 0,
        }
    }

    /// Forget the transmission and its schedule.
    pub fn reset(&mut self)
        ensures
            final(self).wf(),
            final(self).char_schedule@.len() == 0,
            final(self).accum_samples == 0,
            final(self).next_char_idx == 0,
            !final(self).in_signal,
            final(self).silence_samples == 0,
    {
        self.char_schedule = Vec::new();
        self.accum_samples = 0;
        self.next_char_idx = 0;
        self.in_signal = false;
        self.silence_samples = 0;
    }

    /// Take one block of `block_len` samples, above the signal threshold or
    /// not.  A signal block starts or continues a transmission and clears
    /// the silence count; a silent block adds to it, and once it exceeds
    /// `holdoff` during a transmission the gap is declared and the schedule,
    /// the heard samples and the next character are cleared.
    pub fn observe_block(&mut self, is_signal: bool, block_len: usize, holdoff: usize) -> (g: CwBlock)
        requires
            !is_signal ==> old(self).silence_samples + block_len <= usize::MAX,
        ensures
            final(self).silence_samples == if is_signal {
                0
            } else {
                (old(self).silence_samples + block_len) as usize
            },
            g == if is_signal {
                CwBlock::Active
            } else if old(self).in_signal && old(self).silence_samples + block_len > holdoff {
                CwBlock::GapDeclared
            } else if old(self).in_signal {
                CwBlock::Active
            } else {
                CwBlock::Idle
            },
            final(self).in_signal == (g == CwBlock::Active),
            g == CwBlock::GapDeclared ==> final(self).char_schedule@.len() == 0
                && final(self).accum_samples == 0 && final(self).next_char_idx == 0,
            g != CwBlock::GapDeclared ==> final(self).char_schedule == old(self).char_schedule
                && final(self).accum_samples == old(self).accum_samples
                && final(self).next_char_idx == old(self).next_char_idx,
            old(self).wf() ==> final(self).wf(),
    {
        if is_signal {
            self.silence_samples = 0;
            self.in_signal = true;
            return CwBlock::Active;
        }
        self.silence_samples = self.silence_samples + block_len;
        if self.in_signal && self.silence_samples > holdoff {
            self.in_signal = false;
            self.accum_samples = 0;
            self.next_char_idx = 0;
            self.char_schedule = Vec::new();
            return CwBlock::GapDeclared;
        }
        if self.in_signal {
            CwBlock::Active
        } else {
            CwBlock::Idle
        }
    }

    /// Put a freshly built schedule in place and start again from its first
    /// character; after a change of the keying settings the heard samples
    /// start again from zero too.
    pub fn install_schedule(&mut self, schedule: Vec<(char, usize)>, settings_changed: bool)
        ensures
            final(self).wf(),
            final(self).char_schedule@ == schedule@,
            final(self).next_char_idx == 0,
            final(self).accum_samples == if settings_changed {
                0
            } else {
                old(self).accum_samples
            },
            final(self).in_signal == old(self).in_signal,
            final(self).silence_samples == old(self).silence_samples,
    {
        if settings_changed {
            self.accum_samples = 0;
        }
        self.char_schedule = schedule;
        self.next_char_idx = 0;
    }

    /// Count `block_len` more samples heard and emit, in schedule order,
    /// every character from the next one on whose threshold has been
    /// reached, stopping at the first that is still due.
    pub fn advance(&mut self, block_len: usize) -> (out: Vec<char>)
        requires
            old(self).wf(),
            old(self).accum_samples + block_len <= usize::MAX,
        ensures
            final(self).wf(),
            final(self).accum_samples == old(self).accum_samples + block_len,
            final(self).char_schedule == old(self).char_schedule,
            old(self).next_char_idx <= final(self).next_char_idx,
            forall|i: int|
                old(self).next_char_idx <= i < final(self).next_char_idx
                    ==> (#[trigger] final(self).char_schedule@[i]).1 <= final(self).accum_samples,
            final(self).next_char_idx < final(self).char_schedule@.len()
                ==> final(self).char_schedule@[final(self).next_char_idx as int].1
                > final(self).accum_samples,
            out@ == chars_of(
                old(self).char_schedule@,
                old(self).next_char_idx as int,
                final(self).next_char_idx as int,
            ),
            final(self).in_signal == old(self).in_signal,
            final(self).silence_samples == old(self).silence_samples,
    {
        self.accum_samples = self.accum_samples + block_len;
        let accum = self.accum_samples;
        let start = self.next_char_idx;
        let n = self.char_schedule.len();
        let mut i = start;
        let mut out: Vec<char> = Vec::new();
        while i < n && self.char_schedule[i].1 <= accum
            invariant
                n == self.char_schedule@.len(),
                accum == self.accum_samples,
                start <= i <= n,
                forall|k: int| start <= k < i ==> (#[trigger] self.char_schedule@[k]).1 <= accum,
                out@ == chars_of(self.char_schedule@, start as int, i as int),
            decreases n - i,
        {
            out.push(self.char_schedule[i].0);
            i = i + 1;
            assert(out@ =~= chars_of(self.char_schedule@, start as int, i as int));
        }
        self.next_char_idx = i;
        out
    }
}

} // verus!
