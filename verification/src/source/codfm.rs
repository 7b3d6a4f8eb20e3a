//! The CODFM source's HUD text.

use vstd::prelude::*;

verus! {

/// CODFM has no sub-mode toggle; the HUD sub-mode string is empty.
pub fn hud_submode_str() -> (s: String)
    ensures
        s@ == Seq::<char>::empty(),
{
    String::new()
}

} // verus!
