//! The frequency viewport's panning policy.

use vstd::prelude::*;

verus! {

/// How far a pan may take the window past the band edges.
#[derive(Clone, Copy, PartialEq, Eq, Debug, Structural)]
pub enum PanLimit {
    /// Keep the whole window inside `0..nyquist`.
    Band,
    /// Allow up to half a span of empty beyond each edge.
    Overscan,
}

} // verus!
