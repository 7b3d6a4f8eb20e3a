//! Noise-injection domains and the noise generator's state step, shared by
//! the sources.

use vstd::prelude::*;

verus! {

/// Which domain a source injects its noise into.
#[derive(Clone, Copy, PartialEq, Eq, Debug, Structural)]
pub enum NoiseDomain {
    /// Real-valued output: white over `fs / 2`, one component.
    Real,
    /// Complex baseband: white over the full `fs`, two components.
    Complex,
}

impl NoiseDomain {
    /// Number of independent components the noise power is divided between.
    pub fn components(self) -> (n: u32)
        ensures
            n == (match self {
                NoiseDomain::Real => 1u32,
                NoiseDomain::Complex => 2u32,
            }),
    {
        match self {
            NoiseDomain::Real => 1,
            NoiseDomain::Complex => 2,
        }
    }
}

/// One step of the xorshift64 generator (shifts 13, 7, 17).
pub open spec fn xorshift64(x: u64) -> u64 {
    let a = x ^ (x << 13u64);
    let b = a ^ (a >> 7u64);
    b ^ (b << 17u64)
}

/// Advances the generator state `rng` by one step and returns the new state.
pub fn next_u64(rng: &mut u64) -> (r: u64)
    ensures
        r == xorshift64(*old(rng)),
        *final(rng) == r,
{
    let x0 = *rng;
    let a = x0 ^ (x0 << 13u64);
    let b = a ^ (a >> 7u64);
    let c = b ^ (b << 17u64);
    *rng = c;
    c
}

/// A generator seeded with a nonzero state never reaches the all-zero
/// state, from which it could not leave.
pub proof fn lemma_xorshift_nonzero(x: u64)
    requires
        x != 0,
    ensures
        xorshift64(x) != 0,
{
    let a = x ^ (x << 13u64);
    let b = a ^ (a >> 7u64);
    assert(x != 0 ==> x ^ (x << 13u64) != 0) by (bit_vector);
    assert(a != 0 ==> a ^ (a >> 7u64) != 0) by (bit_vector);
    assert(b != 0 ==> b ^ (b << 17u64) != 0) by (bit_vector);
}

/// Distinct states step to distinct states: the step is a permutation of
/// the states, so the generator's period is not cut short by a merge.
pub proof fn lemma_xorshift_injective(x: u64, y: u64)
    requires
        xorshift64(x) == xorshift64(y),
    ensures
        x == y,
{
    let ax = x ^ (x << 13u64);
    let ay = y ^ (y << 13u64);
    let bx = ax ^ (ax >> 7u64);
    let by_ = ay ^ (ay >> 7u64);
    assert(bx ^ (bx << 17u64) == by_ ^ (by_ << 17u64) ==> bx == by_) by (bit_vector);
    assert(ax ^ (ax >> 7u64) == ay ^ (ay >> 7u64) ==> ax == ay) by (bit_vector);
    assert(x ^ (x << 13u64) == y ^ (y << 13u64) ==> x == y) by (bit_vector);
}

} // verus!
