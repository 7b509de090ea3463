//! The composition root: clock, generator, fault injector and an optional
//! scheduler, all derived from one master seed.

use crate::clock::{SimClock, NS_PER_MS, TIME_NS_MAX};
use crate::fault::{default_fault_config, fault_crash_step, fault_delay_step, fault_fail_step, FaultConfig, FaultInjector, FaultModel};
use crate::random::{rng_drawn, rng_init, xoshiro_next, xoshiro_seeded, DeterministicRng, RngModel};
use crate::scheduler::{decide_step, ScheduleDecision, Scheduler, SchedulerModel, THREADS_COUNT_MAX, YIELD_PROBABILITY_DEFAULT};
use crate::text::{decimal, push_str, u64_to_decimal};
use rand_xoshiro::Xoshiro256StarStar;
use vstd::prelude::*;

verus! {

/// The observable state of a `DstEnv`.
pub struct EnvModel {
    pub seed: u64,
    pub clock: u64,
    pub rng: RngModel,
    pub fault: FaultModel,
    pub scheduler: Option<SchedulerModel>,
}

/// The master generator's state after `k` sub-seeds were drawn from it.
pub open spec fn master_state(seed: u64, k: nat) -> Xoshiro256StarStar
    decreases k,
{
    if k == 0 {
        xoshiro_seeded(seed)
    } else {
        xoshiro_next(master_state(seed, (k - 1) as nat)).1
    }
}

/// The `k`-th sub-seed (from 0) drawn from the master generator: the
/// generator's seed first, then the fault injector's, then the scheduler's.
pub open spec fn sub_seed(seed: u64, k: nat) -> u64 {
    xoshiro_next(master_state(seed, k)).0
}

/// The environment built from `seed` with fault policy `config` and, when
/// `threads` is `Some(n)`, a default scheduler over `n` actors.
pub open spec fn env_init(seed: u64, config: FaultConfig, threads: Option<usize>) -> EnvModel {
    EnvModel {
        seed,
        clock: 0,
        rng: rng_init(sub_seed(seed, 0)),
        fault: FaultModel { rng: rng_init(sub_seed(seed, 1)), config, faults: 0, delays: 0, crashes: 0 },
        scheduler: match threads {
            Some(n) => Some(
                SchedulerModel {
                    rng: rng_init(sub_seed(seed, 2)),
                    threads: n,
                    current: 0,
                    yield_probability: YIELD_PROBABILITY_DEFAULT,
                    decisions: 0,
                },
            ),
            None => None,
        },
    }
}

/// The reproduction line for `seed`.
pub open spec fn seed_line(seed: u64) -> Seq<char> {
    "DST_SEED="@ + decimal(seed as nat)
}

/// Complete simulation environment: the same seed gives the same behaviour.
pub struct DstEnv {
    seed: u64,
    clock: SimClock,
    rng: DeterministicRng,
    fault: FaultInjector,
    scheduler: Option<Scheduler>,
}

impl View for DstEnv {
    type V = EnvModel;

    closed spec fn view(&self) -> EnvModel {
        EnvModel {
            seed: self.seed,
            clock: self.clock@,
            rng: self.rng@,
            fault: self.fault@,
            scheduler: match self.scheduler {
                Some(s) => Some(s@),
                None => None,
            },
        }
    }
}

/// Draw the rng and fault sub-seeds from a master generator seeded with `seed`.
fn derive_two(master: &mut DeterministicRng) -> (r: (u64, u64))
    requires
        old(master)@.calls == 0,
    ensures
        r.0 == xoshiro_next(old(master)@.state).0,
        r.1 == xoshiro_next(xoshiro_next(old(master)@.state).1).0,
        final(master)@.state == xoshiro_next(xoshiro_next(old(master)@.state).1).1,
        final(master)@.calls == 2,
{
    let a = master.gen();
    let b = master.gen();
    (a, b)
}

impl DstEnv {
    /// An environment from `seed` (not zero) with the default fault policy
    /// and no scheduler.
    pub fn new(seed: u64) -> (r: Self)
        requires
            seed != 0,
        ensures
            r@ == env_init(seed, default_fault_config(), None),
    {
        DstEnv::with_fault_config(seed, FaultConfig::default())
    }

    /// An environment from `seed` (not zero) with fault policy `fault_config`.
    pub fn with_fault_config(seed: u64, fault_config: FaultConfig) -> (r: Self)
        requires
            seed != 0,
            fault_config.wf(),
        ensures
            r@ == env_init(seed, fault_config, None),
    {
        let mut master = DeterministicRng::new(seed);
        let (rng_seed, fault_seed) = derive_two(&mut master);
        assert(master_state(seed, 1) == xoshiro_next(xoshiro_seeded(seed)).1);
        let rng = DeterministicRng::from_seed(rng_seed);
        let fault = FaultInjector::new(DeterministicRng::from_seed(fault_seed), fault_config);
        DstEnv { seed, clock: SimClock::new(), rng, fault, scheduler: None }
    }

    /// An environment from `seed` (not zero) with the default fault policy and
    /// a scheduler over `threads_count` actors.
    pub fn with_scheduler(seed: u64, threads_count: usize) -> (r: Self)
        requires
            seed != 0,
            0 < threads_count <= THREADS_COUNT_MAX,
        ensures
            r@ == env_init(seed, default_fault_config(), Some(threads_count)),
    {
        let mut master = DeterministicRng::new(seed);
        let (rng_seed, fault_seed) = derive_two(&mut master);
        let sched_seed = master.gen();
        assert(master_state(seed, 1) == xoshiro_next(xoshiro_seeded(seed)).1);
        assert(master_state(seed, 2) == xoshiro_next(master_state(seed, 1)).1);
        let rng = DeterministicRng::from_seed(rng_seed);
        let fault = FaultInjector::with_default_config(DeterministicRng::from_seed(fault_seed));
        let scheduler = Scheduler::with_defaults(DeterministicRng::from_seed(sched_seed), threads_count);
        DstEnv { seed, clock: SimClock::new(), rng, fault, scheduler: Some(scheduler) }
    }

    /// The master seed.
    pub fn seed(&self) -> (r: u64)
        ensures
            r == self@.seed,
    {
        self.seed
    }

    /// The simulated clock.
    pub fn clock(&mut self) -> (r: &mut SimClock)
        ensures
            r@ == old(self)@.clock,
            final(self)@ == (EnvModel { clock: final(r)@, ..old(self)@ }),
    {
        &mut self.clock
    }

    /// The environment's generator.
    pub fn rng(&mut self) -> (r: &mut DeterministicRng)
        ensures
            r@ == old(self)@.rng,
            final(self)@ == (EnvModel { rng: final(r)@, ..old(self)@ }),
    {
        &mut self.rng
    }

    /// The fault injector.
    pub fn fault(&mut self) -> (r: &mut FaultInjector)
        ensures
            r@ == old(self)@.fault,
            final(self)@ == (EnvModel { fault: final(r)@, ..old(self)@ }),
    {
        &mut self.fault
    }

    /// The scheduler, when one was configured.
    pub fn scheduler(&mut self) -> (r: Option<&mut Scheduler>)
        ensures
            r.is_some() == old(self)@.scheduler.is_some(),
            r matches Some(s) ==> Some(s@) == old(self)@.scheduler && final(self)@ == (EnvModel {
                scheduler: Some(final(s)@),
                ..old(self)@
            }),
            r is None ==> final(self)@ == old(self)@,
    {
        match &mut self.scheduler {
            Some(s) => Some(s),
            None => None,
        }
    }

    /// A new generator seeded by one draw from the environment's generator.
    pub fn fork_rng(&mut self) -> (r: DeterministicRng)
        requires
            old(self)@.rng.calls < u64::MAX,
        ensures
            r@ == rng_init(xoshiro_next(old(self)@.rng.state).0),
            final(self)@ == (EnvModel {
                rng: rng_drawn(old(self)@.rng, xoshiro_next(old(self)@.rng.state).1),
                ..old(self)@
            }),
    {
        self.rng.fork()
    }

    /// Ask the fault injector for a delay and, if one comes, advance the clock by it.
    pub fn maybe_delay(&mut self)
        requires
            old(self)@.fault.config.wf(),
            old(self)@.fault.has_room(),
            old(self)@.clock + old(self)@.fault.config.delay_ns_max <= TIME_NS_MAX,
        ensures
            ({
                let (d, f) = fault_delay_step(old(self)@.fault);
                final(self)@ == (EnvModel {
                    fault: f,
                    clock: match d {
                        Some(d) => (old(self)@.clock + d) as u64,
                        None => old(self)@.clock,
                    },
                    ..old(self)@
                })
            }),
    {
        if let Some(delay_ns) = self.fault.maybe_delay_ns() {
            self.clock.advance_ns(delay_ns);
        }
    }

    /// Advance the clock by `duration_ns > 0`, then ask the fault injector
    /// whether this step fails.
    pub fn step(&mut self, duration_ns: u64) -> (r: bool)
        requires
            duration_ns > 0,
            old(self)@.clock + duration_ns <= TIME_NS_MAX,
            old(self)@.fault.config.wf(),
            old(self)@.fault.has_room(),
        ensures
            (r, final(self)@.fault) == fault_fail_step(old(self)@.fault),
            final(self)@ == (EnvModel {
                clock: (old(self)@.clock + duration_ns) as u64,
                fault: final(self)@.fault,
                ..old(self)@
            }),
    {
        self.clock.advance_ns(duration_ns);
        self.fault.should_fail()
    }

    /// The seed as a line to paste back in: `DST_SEED=<seed>`.
    pub fn format_seed(&self) -> (r: String)
        ensures
            r@ == seed_line(self@.seed),
    {
        let mut s = String::from_str("DST_SEED=");
        let d = u64_to_decimal(self.seed);
        push_str(&mut s, d.as_str());
        proof {
            reveal_strlit("DST_SEED=");
        }
        s
    }

    /// A snapshot of the run's counters.
    pub fn stats(&self) -> (r: DstStats)
        ensures
            r == (DstStats {
                seed: self@.seed,
                elapsed_ns: self@.clock,
                rng_calls: self@.rng.calls,
                faults_injected: self@.fault.faults,
                delays_injected: self@.fault.delays,
                scheduler_decisions: match self@.scheduler {
                    Some(s) => s.decisions,
                    None => 0,
                },
            }),
    {
        let fault_stats = self.fault.stats();
        let scheduler_decisions = match &self.scheduler {
            Some(s) => s.decisions_count(),
            None => 0,
        };
        DstStats {
            seed: self.seed,
            elapsed_ns: self.clock.now_ns(),
            rng_calls: self.rng.calls_count(),
            faults_injected: fault_stats.faults_count,
            delays_injected: fault_stats.delays_count,
            scheduler_decisions,
        }
    }
}

/// One call a harness makes on an environment.
#[derive(Debug, Clone, Copy, PartialEq, Eq, Structural)]
pub enum EnvCall {
    /// Draw a `u64` from the environment's generator.
    Draw,
    /// Ask the fault injector whether to fail.
    Fail,
    /// Ask the fault injector whether to crash.
    Crash,
    /// Ask for a delay and advance the clock by it.
    Delay,
    /// Advance the clock by the given nanoseconds, then ask whether to fail.
    Step(u64),
    /// Ask the scheduler for a decision.
    Decide,
}

/// What a call returned.
#[derive(Debug, Clone, Copy, PartialEq, Eq, Structural)]
pub enum EnvOutcome {
    /// A drawn value.
    Value(u64),
    /// A fault decision.
    Flag(bool),
    /// The clock moved (or not) by an injected delay.
    Delayed,
    /// A scheduling decision.
    Decision(ScheduleDecision),
}

/// Whether `call` may be made on an environment in state `m`.
pub open spec fn call_allowed(m: EnvModel, call: EnvCall) -> bool {
    match call {
        EnvCall::Draw => m.rng.calls < u64::MAX,
        EnvCall::Fail => m.fault.config.wf() && m.fault.has_room(),
        EnvCall::Crash => m.fault.config.wf() && m.fault.has_room(),
        EnvCall::Delay => m.fault.config.wf() && m.fault.has_room() && m.clock + m.fault.config.delay_ns_max
            <= TIME_NS_MAX,
        EnvCall::Step(d) => d > 0 && m.clock + d <= TIME_NS_MAX && m.fault.config.wf() && m.fault.has_room(),
        EnvCall::Decide => match m.scheduler {
            Some(s) => s.wf() && s.has_room(),
            None => false,
        },
    }
}

/// The outcome of `call` in state `m`, and the state after it.
pub open spec fn env_step(m: EnvModel, call: EnvCall) -> (EnvOutcome, EnvModel) {
    match call {
        EnvCall::Draw => (
            EnvOutcome::Value(xoshiro_next(m.rng.state).0),
            EnvModel { rng: rng_drawn(m.rng, xoshiro_next(m.rng.state).1), ..m },
        ),
        EnvCall::Fail => {
            let (r, f) = fault_fail_step(m.fault);
            (EnvOutcome::Flag(r), EnvModel { fault: f, ..m })
        },
        EnvCall::Crash => {
            let (r, f) = fault_crash_step(m.fault);
            (EnvOutcome::Flag(r), EnvModel { fault: f, ..m })
        },
        EnvCall::Delay => {
            let (d, f) = fault_delay_step(m.fault);
            (
                EnvOutcome::Delayed,
                EnvModel {
                    fault: f,
                    clock: match d {
                        Some(d) => (m.clock + d) as u64,
                        None => m.clock,
                    },
                    ..m
                },
            )
        },
        EnvCall::Step(d) => {
            let (r, f) = fault_fail_step(m.fault);
            (EnvOutcome::Flag(r), EnvModel { clock: (m.clock + d) as u64, fault: f, ..m })
        },
        EnvCall::Decide => match m.scheduler {
            Some(s) => {
                let (r, s2) = decide_step(s);
                (EnvOutcome::Decision(r), EnvModel { scheduler: Some(s2), ..m })
            },
            None => (EnvOutcome::Flag(false), m),
        },
    }
}

/// Replaying `calls` from state `m`: the outcomes, stopping before the
/// first call that may not be made, and the state reached.
pub open spec fn env_run(m: EnvModel, calls: Seq<EnvCall>) -> (Seq<EnvOutcome>, EnvModel)
    decreases calls.len(),
{
    if calls.len() == 0 || !call_allowed(m, calls[0]) {
        (seq![], m)
    } else {
        let (o, m2) = env_step(m, calls[0]);
        let (rest, last) = env_run(m2, calls.drop_first());
        (seq![o] + rest, last)
    }
}

/// Determinism: two environments built from the same seed and
/// configuration, replaying the same calls, give the same outcomes and end
/// in the same state; each outcome is fixed by the seed, the configuration
/// and the calls before it.
pub proof fn lemma_determinism(
    a: EnvModel,
    b: EnvModel,
    seed: u64,
    config: FaultConfig,
    threads: Option<usize>,
    calls: Seq<EnvCall>,
)
    requires
        a == env_init(seed, config, threads),
        b == env_init(seed, config, threads),
    ensures
        env_run(a, calls) == env_run(b, calls),
        forall|k: int|
            0 <= k <= calls.len() ==> (#[trigger] env_run(a, calls.take(k))).0 == env_run(
                b,
                calls.take(k),
            ).0,
{
}

impl DstEnv {
    /// Make `call` when it may be made; `None` (and no change) otherwise.
    pub fn apply(&mut self, call: EnvCall) -> (r: Option<EnvOutcome>)
        ensures
            call_allowed(old(self)@, call) ==> r == Some(env_step(old(self)@, call).0) && final(self)@
                == env_step(old(self)@, call).1,
            !call_allowed(old(self)@, call) ==> r.is_none() && final(self)@ == old(self)@,
    {
        match call {
            EnvCall::Draw => {
                if self.rng.calls_count() == u64::MAX {
                    return None;
                }
                Some(EnvOutcome::Value(self.rng.gen()))
            },
            EnvCall::Fail => {
                if !self.fault.config().is_valid() || !self.fault.has_room() {
                    return None;
                }
                Some(EnvOutcome::Flag(self.fault.should_fail()))
            },
            EnvCall::Crash => {
                if !self.fault.config().is_valid() || !self.fault.has_room() {
                    return None;
                }
                Some(EnvOutcome::Flag(self.fault.should_crash()))
            },
            EnvCall::Delay => {
                if !self.fault.config().is_valid() || !self.fault.has_room() || self.clock.now_ns() > TIME_NS_MAX
                    || self.fault.config().delay_ns_max > TIME_NS_MAX - self.clock.now_ns() {
                    return None;
                }
                self.maybe_delay();
                Some(EnvOutcome::Delayed)
            },
            EnvCall::Step(d) => {
                if d == 0 || self.clock.now_ns() > TIME_NS_MAX || d > TIME_NS_MAX - self.clock.now_ns()
                    || !self.fault.config().is_valid()
                    || !self.fault.has_room() {
                    return None;
                }
                Some(EnvOutcome::Flag(self.step(d)))
            },
            EnvCall::Decide => {
                match &mut self.scheduler {
                    Some(s) => {
                        if !s.ready() {
                            return None;
                        }
                        Some(EnvOutcome::Decision(s.decide()))
                    },
                    None => None,
                }
            },
        }
    }

    /// Replay `calls` in order, stopping before the first that may not be
    /// made; returns the outcomes.
    pub fn replay(&mut self, calls: &Vec<EnvCall>) -> (r: Vec<EnvOutcome>)
        ensures
            (r@, final(self)@) == env_run(old(self)@, calls@),
    {
        let mut out: Vec<EnvOutcome> = Vec::new();
        let mut i: usize = 0;
        assert(calls@.skip(0) =~= calls@);
        assert(out@ + env_run(self@, calls@).0 =~= env_run(self@, calls@).0);
        while i < calls.len()
            invariant
                i <= calls.len(),
                env_run(old(self)@, calls@) == ({
                    let (rest, last) = env_run(self@, calls@.skip(i as int));
                    (out@ + rest, last)
                }),
            decreases calls.len() - i,
        {
            let ghost before = self@;
            assert(calls@.skip(i as int)[0] == calls@[i as int]);
            assert(calls@.skip(i as int).drop_first() =~= calls@.skip(i + 1));
            match self.apply(calls[i]) {
                Some(o) => {
                    let ghost (rest, last) = env_run(self@, calls@.skip(i + 1));
                    assert(out@.push(o) + rest =~= out@ + (seq![o] + rest));
                    out.push(o);
                },
                None => {
                    assert(out@ + Seq::<EnvOutcome>::empty() =~= out@);
                    return out;
                },
            }
            i = i + 1;
        }
        assert(calls@.skip(i as int).len() == 0);
        assert(out@ + Seq::<EnvOutcome>::empty() =~= out@);
        out
    }
}

/// Counters of a simulation run.
#[derive(Debug, Clone, Copy, PartialEq, Eq, Structural)]
pub struct DstStats {
    /// Seed for reproduction.
    pub seed: u64,
    /// Simulated time elapsed, in nanoseconds.
    pub elapsed_ns: u64,
    /// Draws from the environment's generator.
    pub rng_calls: u64,
    /// Failures injected.
    pub faults_injected: u64,
    /// Delays injected.
    pub delays_injected: u64,
    /// Scheduler decisions, zero without a scheduler.
    pub scheduler_decisions: u64,
}

/// The one-line rendering of `s`.
pub open spec fn stats_line(s: DstStats) -> Seq<char> {
    "DST_SEED="@ + decimal(s.seed as nat) + " elapsed="@ + decimal((s.elapsed_ns / NS_PER_MS) as nat)
        + "ms rng_calls="@ + decimal(s.rng_calls as nat) + " faults="@ + decimal(
        s.faults_injected as nat,
    ) + " delays="@ + decimal(s.delays_injected as nat) + " sched_decisions="@ + decimal(
        s.scheduler_decisions as nat,
    )
}

impl DstStats {
    /// `DST_SEED=<seed> elapsed=<ms>ms rng_calls=<n> faults=<n> delays=<n> sched_decisions=<n>`.
    pub fn to_string(&self) -> (r: String)
        ensures
            r@ == stats_line(*self),
    {
        proof {
            reveal_strlit("DST_SEED=");
            reveal_strlit(" elapsed=");
            reveal_strlit("ms rng_calls=");
            reveal_strlit(" faults=");
            reveal_strlit(" delays=");
            reveal_strlit(" sched_decisions=");
        }
        let mut s = String::from_str("DST_SEED=");
        push_str(&mut s, u64_to_decimal(self.seed).as_str());
        push_str(&mut s, " elapsed=");
        push_str(&mut s, u64_to_decimal(self.elapsed_ns / NS_PER_MS).as_str());
        push_str(&mut s, "ms rng_calls=");
        push_str(&mut s, u64_to_decimal(self.rng_calls).as_str());
        push_str(&mut s, " faults=");
        push_str(&mut s, u64_to_decimal(self.faults_injected).as_str());
        push_str(&mut s, " delays=");
        push_str(&mut s, u64_to_decimal(self.delays_injected).as_str());
        push_str(&mut s, " sched_decisions=");
        push_str(&mut s, u64_to_decimal(self.scheduler_decisions).as_str());
        s
    }
}

} // verus!
