//! The CW source's per-frame synchronisation result.

use vstd::prelude::*;

verus! {

/// Per-frame sync result for the CW source's parameter update: whether the
/// speed or the word spacing changed, which refreshes the loop-timer
/// holdoff.
#[derive(Clone, Copy, Debug, PartialEq, Eq, Structural)]
pub struct CwSyncFlags {
    pub wpm_or_word_space_changed: bool,
}

impl CwSyncFlags {
    /// The flags for a change of speed and of word spacing.
    pub fn from_changes(wpm_changed: bool, word_space_changed: bool) -> (f: Self)
        ensures
            f.wpm_or_word_space_changed == (wpm_changed || word_space_changed),
    {
        CwSyncFlags { wpm_or_word_space_changed: wpm_changed || word_space_changed }
    }
}

} // verus!
