//! Deterministic choice of which logical actor runs next.

use crate::random::{rng_drawn, xoshiro_draw_range, xoshiro_trial, DeterministicRng, RngModel, PROBABILITY_SCALE};
use vstd::prelude::*;

verus! {

/// Largest number of actors a scheduler handles.
pub const THREADS_COUNT_MAX: usize = 64;

/// Yield probability (parts per million) of `Scheduler::with_defaults`.
pub const YIELD_PROBABILITY_DEFAULT: u32 = 100_000;

/// A scheduling decision.
#[derive(Debug, Clone, Copy, PartialEq, Eq, Structural)]
pub enum ScheduleDecision {
    /// Keep running the current actor.
    Continue,
    /// Yield to another actor.
    Yield,
    /// Switch to the given actor.
    SwitchTo(usize),
}

/// The observable state of a `Scheduler`.
pub struct SchedulerModel {
    pub rng: RngModel,
    pub threads: usize,
    pub current: usize,
    pub yield_probability: u32,
    pub decisions: u64,
}

impl SchedulerModel {
    /// At least one actor, at most `THREADS_COUNT_MAX`, the current one among
    /// them, and a probability in range.
    pub open spec fn wf(&self) -> bool {
        &&& 0 < self.threads <= THREADS_COUNT_MAX
        &&& self.current < self.threads
        &&& self.yield_probability <= PROBABILITY_SCALE
    }

    /// Room for one more decision without a counter overflowing.
    pub open spec fn has_room(&self) -> bool {
        &&& self.rng.calls < u64::MAX - 2
        &&& self.decisions < u64::MAX
    }
}

/// The actor picked from a uniform draw `r` in `[0, threads - 1)`: the draw
/// skips over `current`, so every other actor is equally likely.
pub open spec fn other_thread(r: u64, current: usize) -> usize {
    if r < current { r as usize } else { (r + 1) as usize }
}

/// `pick_other_thread`: the actor picked and the state after the draw.
pub open spec fn pick_step(m: SchedulerModel) -> (usize, SchedulerModel) {
    let hi = (m.threads - 1) as u64;
    let r = xoshiro_draw_range(m.rng.state, 0, hi).0;
    let other = other_thread(r, m.current);
    (other, SchedulerModel { rng: rng_drawn(m.rng, xoshiro_draw_range(m.rng.state, 0, hi).1), current: other, ..m })
}

/// `decide`: the decision and the state after it.
pub open spec fn decide_step(m: SchedulerModel) -> (ScheduleDecision, SchedulerModel) {
    let m1 = SchedulerModel { decisions: (m.decisions + 1) as u64, ..m };
    if m.threads == 1 {
        (ScheduleDecision::Continue, m1)
    } else {
        let p = m.yield_probability;
        let switch = xoshiro_trial(m.rng.state, p, PROBABILITY_SCALE).0;
        let m2 = SchedulerModel { rng: rng_drawn(m.rng, xoshiro_trial(m.rng.state, p, PROBABILITY_SCALE).1), ..m1 };
        if switch {
            let (other, m3) = pick_step(m2);
            (ScheduleDecision::SwitchTo(other), m3)
        } else {
            (ScheduleDecision::Continue, m2)
        }
    }
}

/// `force_switch`: the new actor and the state after it.
pub open spec fn force_switch_step(m: SchedulerModel) -> (usize, SchedulerModel) {
    let m1 = SchedulerModel { decisions: (m.decisions + 1) as u64, ..m };
    if m.threads == 1 {
        (0, m1)
    } else {
        pick_step(m1)
    }
}

/// The current actor after removing `thread`: the one before a removed
/// current actor (or 0), shifted down when the removed one was below it.
pub open spec fn current_after_remove(current: usize, thread: usize) -> usize {
    if current == thread {
        if thread > 0 { (thread - 1) as usize } else { 0 }
    } else if current > thread {
        (current - 1) as usize
    } else {
        current
    }
}

/// Deterministic scheduler of logical actors ("threads").
pub struct Scheduler {
    rng: DeterministicRng,
    threads_count: usize,
    current_thread: usize,
    yield_probability: u32,
    decisions_count: u64,
}

impl View for Scheduler {
    type V = SchedulerModel;

    closed spec fn view(&self) -> SchedulerModel {
        SchedulerModel {
            rng: self.rng@,
            threads: self.threads_count,
            current: self.current_thread,
            yield_probability: self.yield_probability,
            decisions: self.decisions_count,
        }
    }
}

impl Scheduler {
    /// A scheduler over `threads_count` actors, starting on actor 0, that
    /// yields with `yield_probability` parts per million.
    pub fn new(rng: DeterministicRng, threads_count: usize, yield_probability: u32) -> (r: Self)
        requires
            0 < threads_count <= THREADS_COUNT_MAX,
            yield_probability <= PROBABILITY_SCALE,
        ensures
            r@ == (SchedulerModel { rng: rng@, threads: threads_count, current: 0, yield_probability, decisions: 0 }),
            r@.wf(),
    {
        Scheduler { rng, threads_count, current_thread: 0, yield_probability, decisions_count: 0 }
    }

    /// A scheduler with the default yield probability of 10%.
    pub fn with_defaults(rng: DeterministicRng, threads_count: usize) -> (r: Self)
        requires
            0 < threads_count <= THREADS_COUNT_MAX,
        ensures
            r@ == (SchedulerModel {
                rng: rng@,
                threads: threads_count,
                current: 0,
                yield_probability: YIELD_PROBABILITY_DEFAULT,
                decisions: 0,
            }),
            r@.wf(),
    {
        Scheduler::new(rng, threads_count, YIELD_PROBABILITY_DEFAULT)
    }

    /// The current actor.
    pub fn current_thread(&self) -> (r: usize)
        ensures
            r == self@.current,
    {
        self.current_thread
    }

    /// The number of actors.
    pub fn threads_count(&self) -> (r: usize)
        ensures
            r == self@.threads,
    {
        self.threads_count
    }

    /// With one actor, always `Continue`; otherwise a Bernoulli trial with the
    /// yield probability decides between staying and switching to a uniformly
    /// chosen different actor.
    pub fn decide(&mut self) -> (r: ScheduleDecision)
        requires
            old(self)@.wf(),
            old(self)@.has_room(),
        ensures
            (r, final(self)@) == decide_step(old(self)@),
            final(self)@.wf(),
            old(self)@.threads == 1 ==> r == ScheduleDecision::Continue,
            r matches ScheduleDecision::SwitchTo(t) ==> t != old(self)@.current && t < old(self)@.threads,
    {
        self.decisions_count = self.decisions_count + 1;
        if self.threads_count == 1 {
            return ScheduleDecision::Continue;
        }
        if self.rng.gen_bool(self.yield_probability) {
            let other = self.pick_other_thread();
            self.current_thread = other;
            ScheduleDecision::SwitchTo(other)
        } else {
            ScheduleDecision::Continue
        }
    }

    /// Switch to a uniformly chosen different actor, without the probability
    /// gate; with one actor, stays on actor 0.
    pub fn force_switch(&mut self) -> (r: usize)
        requires
            old(self)@.wf(),
            old(self)@.has_room(),
        ensures
            (r, final(self)@) == force_switch_step(old(self)@),
            final(self)@.wf(),
            final(self)@.current == r,
            old(self)@.threads > 1 ==> r != old(self)@.current,
    {
        self.decisions_count = self.decisions_count + 1;
        if self.threads_count == 1 {
            return 0;
        }
        let other = self.pick_other_thread();
        self.current_thread = other;
        other
    }

    /// Draw an actor other than the current one and make it current.
    fn pick_other_thread(&mut self) -> (r: usize)
        requires
            old(self)@.wf(),
            old(self)@.threads > 1,
            old(self)@.rng.calls < u64::MAX,
        ensures
            (r, final(self)@) == pick_step(old(self)@),
            r != old(self)@.current,
            r < old(self)@.threads,
            final(self)@.wf(),
    {
        let r = self.rng.gen_range(0..(self.threads_count - 1) as u64);
        let other = if r < self.current_thread as u64 { r as usize } else { (r + 1) as usize };
        self.current_thread = other;
        other
    }

    /// Make `thread` the current actor, to replay an observed schedule.
    pub fn set_current_thread(&mut self, thread: usize)
        requires
            thread < old(self)@.threads,
        ensures
            final(self)@ == (SchedulerModel { current: thread, ..old(self)@ }),
    {
        self.current_thread = thread;
    }

    /// Whether the state is well formed and one more decision fits.
    pub fn ready(&self) -> (r: bool)
        ensures
            r == (self@.wf() && self@.has_room()),
    {
        0 < self.threads_count && self.threads_count <= THREADS_COUNT_MAX && self.current_thread < self.threads_count
            && self.yield_probability <= PROBABILITY_SCALE && self.rng.calls_count() < u64::MAX - 2
            && self.decisions_count < u64::MAX
    }

    /// The number of decisions made.
    pub fn decisions_count(&self) -> (r: u64)
        ensures
            r == self@.decisions,
    {
        self.decisions_count
    }

    /// Append an actor and return its index.
    pub fn add_thread(&mut self) -> (r: usize)
        requires
            old(self)@.threads < THREADS_COUNT_MAX,
        ensures
            r == old(self)@.threads,
            final(self)@ == (SchedulerModel { threads: (old(self)@.threads + 1) as usize, ..old(self)@ }),
    {
        let idx = self.threads_count;
        self.threads_count = self.threads_count + 1;
        idx
    }

    /// Remove actor `thread`, keeping at least one, and keep the current
    /// index on the same logical actor.
    pub fn remove_thread(&mut self, thread: usize)
        requires
            old(self)@.wf(),
            thread < old(self)@.threads,
            old(self)@.threads > 1,
        ensures
            final(self)@ == (SchedulerModel {
                threads: (old(self)@.threads - 1) as usize,
                current: current_after_remove(old(self)@.current, thread),
                ..old(self)@
            }),
            final(self)@.wf(),
    {
        self.threads_count = self.threads_count - 1;
        if self.current_thread == thread {
            self.current_thread = if thread > 0 { thread - 1 } else { 0 };
        } else if self.current_thread > thread {
            self.current_thread = self.current_thread - 1;
        }
    }
}

/// A yield point: where actors may interleave, ask the scheduler.
pub fn yield_point(scheduler: &mut Scheduler) -> (r: ScheduleDecision)
    requires
        old(scheduler)@.wf(),
        old(scheduler)@.has_room(),
    ensures
        (r, final(scheduler)@) == decide_step(old(scheduler)@),
        final(scheduler)@.wf(),
{
    scheduler.decide()
}

} // verus!
