//! The replay driver's step delivery, frame by frame: which script steps
//! fall due, which action is being delivered and for how many more frames,
//! and when a `source` directive has reached its source.  The driver runs
//! the frames and performs what each frame's plan says.

use vstd::prelude::*;

use crate::utils::script_parse::{time_key, time_key_of, Action, Step};

verus! {

/// The run's running totals: frames run, samples the source consumed, and
/// the source last recorded in the dump.
#[derive(Clone, Copy, PartialEq, Eq, Debug)]
pub struct RunTally {
    pub frames: u64,
    pub samples: u64,
    pub source: usize,
}

impl RunTally {
    /// Before the first frame, with `source` active.
    pub fn new(source: usize) -> (t: Self)
        ensures
            t.frames == 0 && t.samples == 0 && t.source == source,
    {
        RunTally { frames: 0, samples: 0, source }
    }

    /// Count a frame that consumed `consumed` samples and ended with
    /// `source_now` active.  Returns whether the source changed during it,
    /// in which case the dump gets a `source` record and the new source is
    /// remembered.
    pub fn after_frame(&mut self, consumed: u64, source_now: usize) -> (changed: bool)
        requires
            old(self).frames < u64::MAX,
            old(self).samples + consumed <= u64::MAX,
        ensures
            final(self).frames == old(self).frames + 1,
            final(self).samples == old(self).samples + consumed,
            final(self).source == source_now,
            changed == (source_now != old(self).source),
    {
        self.frames = self.frames + 1;
        self.samples = self.samples + consumed;
        let changed = source_now != self.source;
        self.source = source_now;
        changed
    }
}

/// Where delivery stands: the first step not yet picked up, and the step
/// being delivered with the frames it has left.
#[derive(Clone, Copy, PartialEq, Eq, Debug)]
pub struct Delivery {
    pub next: usize,
    pub pending: Option<(usize, usize)>,
}

/// What one frame does: the step whose action's input it carries, the
/// still it captures (by its label), and the pane steps it writes, in
/// order.
#[derive(Clone, Debug, PartialEq, Eq)]
pub struct FramePlan {
    pub deliver: Option<usize>,
    pub still: Option<Option<String>>,
    pub panes: Vec<usize>,
}

/// A frame's still, as plain values.
pub open spec fn still_view(s: Option<Option<String>>) -> Option<Option<Seq<char>>> {
    match s {
        Some(Some(l)) => Some(Some(l@)),
        Some(None) => Some(None),
        None => None,
    }
}

/// A plan as plain values.
pub open spec fn plan_view(p: FramePlan) -> (Option<usize>, Option<Option<Seq<char>>>, Seq<usize>) {
    (p.deliver, still_view(p.still), p.panes@)
}

/// Picking up due steps from `next`, while nothing is being delivered: an
/// `assert` is skipped, a `still` marks the frame for capture (the last one
/// wins), a `pane` is written at once, a `source` is delivered until its
/// source is active (at most once per source), and any other action for its
/// repeat count of frames.  Gives the new delivery state, the still and the
/// panes.
pub open spec fn pickup(
    steps: Seq<Step>,
    next: int,
    pending: Option<(usize, usize)>,
    t: u32,
    n_sources: usize,
    still: Option<Option<Seq<char>>>,
) -> (int, Option<(usize, usize)>, Option<Option<Seq<char>>>, Seq<usize>)
    decreases steps.len() - next,
{
    if pending.is_some() || next < 0 || next >= steps.len() || time_key(steps[next].t_bits) > time_key(t) {
        (next, pending, still, Seq::empty())
    } else {
        match steps[next].action {
            Action::Assert { .. } => pickup(steps, next + 1, pending, t, n_sources, still),
            Action::Source { .. } => (next + 1, Some((next as usize, n_sources)), still, Seq::empty()),
            Action::Still { label } => pickup(
                steps,
                next + 1,
                pending,
                t,
                n_sources,
                Some(match label {
                    Some(l) => Some(l@),
                    None => None,
                }),
            ),
            Action::Pane { .. } => {
                let r = pickup(steps, next + 1, pending, t, n_sources, still);
                (r.0, r.1, r.2, seq![next as usize] + r.3)
            },
            _ => (next + 1, Some((next as usize, if steps[next].repeat >= 1 {
                steps[next].repeat
            } else {
                1
            })), still, Seq::empty()),
        }
    }
}

/// A `source` step being delivered is done once its source is active.
pub open spec fn source_reached(steps: Seq<Step>, pending: Option<(usize, usize)>, source_now: usize) -> bool {
    match pending {
        Some((i, _)) => 0 <= i < steps.len() && (steps[i as int].action matches Action::Source { mode } && mode == source_now),
        None => false,
    }
}

/// One frame of delivery, at time `t` (by its bit pattern), with the source
/// `source_now` active: pick up what is due, drop a `source` step whose
/// source is active, and deliver one frame of what is pending.
pub open spec fn frame_result(
    d: Delivery,
    steps: Seq<Step>,
    t: u32,
    source_now: usize,
    n_sources: usize,
) -> (Delivery, (Option<usize>, Option<Option<Seq<char>>>, Seq<usize>)) {
    let r = pickup(steps, d.next as int, d.pending, t, n_sources, None);
    let pending = if source_reached(steps, r.1, source_now) {
        None
    } else {
        r.1
    };
    let (deliver, after) = match pending {
        Some((i, left)) => (Some(i), if left <= 1 {
            None
        } else {
            Some((i, (left - 1) as usize))
        }),
        None => (None, None),
    };
    (Delivery { next: r.0 as usize, pending: after }, (deliver, r.2, r.3))
}

/// A frame never presses toward a source that is already active: a
/// `source` step it delivers names a source other than the active one, so a
/// `source` directive whose source is active (already, or once the presses
/// have reached it) is done without another press.
pub proof fn lemma_active_source_not_pressed(
    d: Delivery,
    steps: Seq<Step>,
    t: u32,
    source_now: usize,
    n_sources: usize,
    i: usize,
)
    requires
        frame_result(d, steps, t, source_now, n_sources).1.0 == Some(i),
        i < steps.len(),
    ensures
        match steps[i as int].action {
            Action::Source { mode } => mode != source_now,
            _ => true,
        },
{
}

impl Delivery {
    /// Before the first frame.
    pub fn new() -> (d: Self)
        ensures
            d.next == 0 && d.pending.is_none(),
    {
        Delivery { next: 0, pending: None }
    }

    /// Whether every step has been picked up and delivered.
    pub fn finished(&self, steps: &[Step]) -> (b: bool)
        ensures
            b == (self.next >= steps@.len() && self.pending.is_none()),
    {
        self.next >= steps.len() && self.pending.is_none()
    }

    /// Whether the run stops before the frame starting at time `t_bits`: the
    /// end time `end_bits` has come and every step has been picked up and
    /// delivered.  A step still to come keeps the run going past the end, so
    /// a script is never cut short by its own last step.
    pub fn run_over(&self, steps: &[Step], t_bits: u32, end_bits: u32) -> (b: bool)
        ensures
            b == (time_key(t_bits) >= time_key(end_bits) && self.next >= steps@.len()
                && self.pending.is_none()),
    {
        time_key_of(t_bits) >= time_key_of(end_bits) && self.finished(steps)
    }

    /// Plan one frame at time `t_bits` (a non-negative time's bit pattern),
    /// the source at index `source_now` being active and `n_sources` sources
    /// cycling.
    pub fn frame(&mut self, steps: &[Step], t_bits: u32, source_now: usize, n_sources: usize) -> (p: FramePlan)
        requires
            old(self).next <= steps@.len(),
        ensures
            (*final(self), plan_view(p)) == frame_result(*old(self), steps@, t_bits, source_now, n_sources),
            final(self).next <= steps@.len(),
    {
        let ghost d0 = *self;
        let tk = time_key_u32(t_bits);
        let mut still: Option<Option<String>> = None;
        let mut panes: Vec<usize> = Vec::new();
        let mut next = self.next;
        let mut pending = self.pending;
        let ghost still_v: Option<Option<Seq<char>>> = None;
        while pending.is_none() && next < steps.len() && time_key_u32(steps[next].t_bits) <= tk
            invariant
                next <= steps@.len(),
                tk == time_key(t_bits),
                d0.next <= next,
                pickup(steps@, d0.next as int, d0.pending, t_bits, n_sources, None) == ({
                    let r = pickup(steps@, next as int, pending, t_bits, n_sources, still_view(still));
                    (r.0, r.1, r.2, panes@ + r.3)
                }),
            decreases steps.len() - next,
        {
            let ghost before_panes = panes@;
            match &steps[next].action {
                Action::Assert { .. } => {
                    next = next + 1;
                },
                Action::Source { .. } => {
                    pending = Some((next, n_sources));
                    next = next + 1;
                },
                Action::Still { label } => {
                    still = Some(label.clone());
                    next = next + 1;
                },
                Action::Pane { .. } => {
                    panes.push(next);
                    proof {
                        let r = pickup(steps@, next + 1, pending, t_bits, n_sources, still_view(still));
                        assert(before_panes + (seq![next] + r.3) =~= panes@ + r.3);
                    }
                    next = next + 1;
                },
                _ => {
                    let n = if steps[next].repeat >= 1 {
                        steps[next].repeat
                    } else {
                        1
                    };
                    pending = Some((next, n));
                    next = next + 1;
                },
            }
        }
        proof {
            let r = pickup(steps@, next as int, pending, t_bits, n_sources, still_view(still));
            assert(r.3 =~= Seq::<usize>::empty());
            assert(panes@ + r.3 =~= panes@);
        }
        if let Some((i, _)) = pending {
            if i < steps.len() {
                if let Action::Source { mode } = &steps[i].action {
                    if *mode == source_now {
                        pending = None;
                    }
                }
            }
        }
        let deliver = match pending {
            Some((i, left)) => {
                self.pending = if left <= 1 {
                    None
                } else {
                    Some((i, left - 1))
                };
                Some(i)
            },
            None => {
                self.pending = None;
                None
            },
        };
        self.next = next;
        FramePlan { deliver, still, panes }
    }
}

fn time_key_u32(bits: u32) -> (k: u32)
    ensures
        k == time_key(bits),
{
    if bits & 0x8000_0000u32 != 0 {
        !bits
    } else {
        bits | 0x8000_0000u32
    }
}

/// The step being delivered.
pub open spec fn pending_step(d: Delivery) -> usize {
    match d.pending {
        Some((i, _)) => i,
        None => 0,
    }
}

/// The frames it has left.
pub open spec fn pending_left(d: Delivery) -> usize {
    match d.pending {
        Some((_, left)) => left,
        None => 0,
    }
}

/// Delivery takes precedence over arrival, and a repeat count is frames:
/// while an action is pending no step is picked up, each frame delivers it
/// once more, and it is done after its last frame.
pub proof fn lemma_pending_counts_down(d: Delivery, steps: Seq<Step>, t: u32, source_now: usize, n_sources: usize)
    requires
        d.pending is Some,
        pending_left(d) >= 1,
        !(steps[pending_step(d) as int].action is Source),
    ensures
        ({
            let i = pending_step(d);
            let left = pending_left(d);
            let (d2, plan) = frame_result(d, steps, t, source_now, n_sources);
            &&& d2.next == d.next
            &&& plan.0 == Some(i)
            &&& plan.1.is_none()
            &&& plan.2 == Seq::<usize>::empty()
            &&& d2.pending == (if left == 1 {
                None
            } else {
                Some((i, (left - 1) as usize))
            })
        }),
{
}

/// A `source` step stops being delivered as soon as its source is active.
pub proof fn lemma_source_stops_when_reached(d: Delivery, steps: Seq<Step>, t: u32, source_now: usize, n_sources: usize)
    requires
        d.pending is Some,
        0 <= pending_step(d) < steps.len(),
        steps[pending_step(d) as int].action matches Action::Source { mode } && mode == source_now,
    ensures
        ({
            let (d2, plan) = frame_result(d, steps, t, source_now, n_sources);
            &&& d2.pending.is_none()
            &&& plan.0.is_none()
            &&& d2.next == d.next
        }),
{
}

} // verus!
