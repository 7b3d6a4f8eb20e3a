//! The test tone's amplitude cycle: ramp up, pause high, ramp down, pause
//! low, each phase counting its samples down to zero before the next.  The
//! amplitude each phase gives is the caller's; the sequence is this
//! module's.

use vstd::prelude::*;

verus! {

/// The phases of the amplitude cycle.
#[derive(Clone, Copy, PartialEq, Eq, Debug, Structural)]
pub enum CycleState {
    RampUp,
    PauseHigh,
    RampDown,
    PauseLow,
}

/// The phase after `s`: RampUp, PauseHigh, RampDown, PauseLow, RampUp, ...
pub open spec fn next_state(s: CycleState) -> CycleState {
    match s {
        CycleState::RampUp => CycleState::PauseHigh,
        CycleState::PauseHigh => CycleState::RampDown,
        CycleState::RampDown => CycleState::PauseLow,
        CycleState::PauseLow => CycleState::RampUp,
    }
}

/// Where the cycle stands: the phase, and the samples left in it.
#[derive(Clone, Copy, PartialEq, Eq, Debug, Structural)]
pub struct CyclePhase {
    pub state: CycleState,
    pub samples_remaining: u32,
}

/// The samples a phase starts with: a ramp's length for the ramps, a
/// pause's for the pauses.
pub open spec fn phase_length(s: CycleState, ramp_samples: u32, pause_samples: u32) -> u32 {
    match s {
        CycleState::RampUp | CycleState::RampDown => ramp_samples,
        CycleState::PauseHigh | CycleState::PauseLow => pause_samples,
    }
}

/// One sample's step of the cycle.
pub open spec fn cycle_step(p: CyclePhase, ramp_samples: u32, pause_samples: u32) -> CyclePhase {
    if p.samples_remaining == 0 {
        CyclePhase {
            state: next_state(p.state),
            samples_remaining: phase_length(next_state(p.state), ramp_samples, pause_samples),
        }
    } else {
        CyclePhase { state: p.state, samples_remaining: (p.samples_remaining - 1) as u32 }
    }
}

/// `n` steps of the cycle.
pub open spec fn cycle_steps(p: CyclePhase, ramp_samples: u32, pause_samples: u32, n: nat) -> CyclePhase
    decreases n,
{
    if n == 0 {
        p
    } else {
        cycle_steps(cycle_step(p, ramp_samples, pause_samples), ramp_samples, pause_samples, (n - 1) as nat)
    }
}

/// Advance the cycle by one sample.
pub fn advance_cycle(p: CyclePhase, ramp_samples: u32, pause_samples: u32) -> (q: CyclePhase)
    ensures
        q == cycle_step(p, ramp_samples, pause_samples),
{
    if p.samples_remaining == 0 {
        let next = match p.state {
            CycleState::RampUp => CycleState::PauseHigh,
            CycleState::PauseHigh => CycleState::RampDown,
            CycleState::RampDown => CycleState::PauseLow,
            CycleState::PauseLow => CycleState::RampUp,
        };
        let len = match next {
            CycleState::RampUp | CycleState::RampDown => ramp_samples,
            CycleState::PauseHigh | CycleState::PauseLow => pause_samples,
        };
        CyclePhase { state: next, samples_remaining: len }
    } else {
        CyclePhase { state: p.state, samples_remaining: p.samples_remaining - 1 }
    }
}

/// Where cycling starts: a ramp down from the peak.
pub fn start_phase(ramp_samples: u32) -> (p: CyclePhase)
    ensures
        p == (CyclePhase { state: CycleState::RampDown, samples_remaining: ramp_samples }),
{
    CyclePhase { state: CycleState::RampDown, samples_remaining: ramp_samples }
}

/// Where a stopped or restarted cycle rests: paused at the peak, so that the
/// next start begins with a ramp down again.
pub fn rest_phase(pause_samples: u32) -> (p: CyclePhase)
    ensures
        p == (CyclePhase { state: CycleState::PauseHigh, samples_remaining: pause_samples }),
{
    CyclePhase { state: CycleState::PauseHigh, samples_remaining: pause_samples }
}

proof fn lemma_count_down(p: CyclePhase, ramp_samples: u32, pause_samples: u32, k: nat)
    requires
        k <= p.samples_remaining,
    ensures
        cycle_steps(p, ramp_samples, pause_samples, k) == (CyclePhase {
            state: p.state,
            samples_remaining: (p.samples_remaining - k) as u32,
        }),
    decreases k,
{
    if k > 0 {
        let q = cycle_step(p, ramp_samples, pause_samples);
        lemma_count_down(q, ramp_samples, pause_samples, (k - 1) as nat);
    }
}

proof fn lemma_steps_add(p: CyclePhase, ramp_samples: u32, pause_samples: u32, a: nat, b: nat)
    ensures
        cycle_steps(p, ramp_samples, pause_samples, a + b) == cycle_steps(
            cycle_steps(p, ramp_samples, pause_samples, a),
            ramp_samples,
            pause_samples,
            b,
        ),
    decreases a,
{
    if a > 0 {
        lemma_steps_add(cycle_step(p, ramp_samples, pause_samples), ramp_samples, pause_samples, (a - 1) as nat, b);
        assert((a + b - 1) as nat == ((a - 1) as nat + b) as nat);
    }
}

/// A phase with `r` samples left moves on after exactly `r + 1` steps, to
/// the next phase at its full length.
pub proof fn lemma_phase_lasts(p: CyclePhase, ramp_samples: u32, pause_samples: u32)
    ensures
        cycle_steps(p, ramp_samples, pause_samples, (p.samples_remaining + 1) as nat) == (CyclePhase {
            state: next_state(p.state),
            samples_remaining: phase_length(next_state(p.state), ramp_samples, pause_samples),
        }),
        forall|k: nat| k <= p.samples_remaining ==> #[trigger] cycle_steps(p, ramp_samples, pause_samples, k).state == p.state,
{
    let r = p.samples_remaining as nat;
    lemma_count_down(p, ramp_samples, pause_samples, r);
    lemma_steps_add(p, ramp_samples, pause_samples, r, 1);
    let z = cycle_steps(p, ramp_samples, pause_samples, r);
    assert(cycle_steps(cycle_step(z, ramp_samples, pause_samples), ramp_samples, pause_samples, 0)
        == cycle_step(z, ramp_samples, pause_samples));
    assert(cycle_steps(z, ramp_samples, pause_samples, 1) == cycle_step(z, ramp_samples, pause_samples));
    assert forall|k: nat| k <= p.samples_remaining implies #[trigger] cycle_steps(p, ramp_samples, pause_samples, k).state == p.state by {
        lemma_count_down(p, ramp_samples, pause_samples, k);
    }
}

/// From the start of a ramp up, the cycle passes through the other three
/// phases in order and is back at the start of a ramp up after two ramps
/// and two pauses.
pub proof fn lemma_full_cycle(ramp_samples: u32, pause_samples: u32)
    ensures
        ({
            let start = CyclePhase { state: CycleState::RampUp, samples_remaining: ramp_samples };
            let r = ramp_samples + 1;
            let q = pause_samples + 1;
            &&& cycle_steps(start, ramp_samples, pause_samples, r as nat).state == CycleState::PauseHigh
            &&& cycle_steps(start, ramp_samples, pause_samples, (r + q) as nat).state == CycleState::RampDown
            &&& cycle_steps(start, ramp_samples, pause_samples, (r + q + r) as nat).state == CycleState::PauseLow
            &&& cycle_steps(start, ramp_samples, pause_samples, (r + q + r + q) as nat) == start
        }),
{
    let start = CyclePhase { state: CycleState::RampUp, samples_remaining: ramp_samples };
    let r = (ramp_samples + 1) as nat;
    let q = (pause_samples + 1) as nat;
    lemma_phase_lasts(start, ramp_samples, pause_samples);
    let a = cycle_steps(start, ramp_samples, pause_samples, r);
    lemma_phase_lasts(a, ramp_samples, pause_samples);
    lemma_steps_add(start, ramp_samples, pause_samples, r, q);
    let b = cycle_steps(a, ramp_samples, pause_samples, q);
    lemma_phase_lasts(b, ramp_samples, pause_samples);
    lemma_steps_add(start, ramp_samples, pause_samples, r + q, r);
    let c = cycle_steps(b, ramp_samples, pause_samples, r);
    lemma_phase_lasts(c, ramp_samples, pause_samples);
    lemma_steps_add(start, ramp_samples, pause_samples, r + q + r, q);
}

} // verus!
