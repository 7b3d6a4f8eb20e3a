//! The AM-DSB source's built-in audio clips.

use vstd::prelude::*;

verus! {

/// A built-in audio clip the AM-DSB source can modulate.
#[derive(Clone, Copy, PartialEq, Eq, Debug, Structural)]
pub enum BuiltinAudio {
    Morse,
    Voice,
}

impl BuiltinAudio {
    /// The clip's name for the settings toggle.
    pub fn label(self) -> (s: &'static str)
        ensures
            s@ == (match self {
                BuiltinAudio::Morse => "Morse"@,
                BuiltinAudio::Voice => "Voice"@,
            }),
    {
        match self {
            BuiltinAudio::Morse => "Morse",
            BuiltinAudio::Voice => "Voice",
        }
    }
}

} // verus!
