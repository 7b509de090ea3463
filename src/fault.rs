//! Deterministic fault injection: failures, delays, crashes and bit flips,
//! each decided by draws from a private seeded generator.

use crate::random::{rng_drawn, xoshiro_draw_range, xoshiro_draw_range_incl, xoshiro_trial, DeterministicRng, RngModel, PROBABILITY_SCALE};
use vstd::prelude::*;

verus! {

/// Probability (parts per million) that `maybe_corrupt` flips a bit.
pub const CORRUPTION_PROBABILITY: u32 = 100;

/// Fault-injection policy. Probabilities are parts per million.
#[derive(Debug, Clone, Copy, PartialEq, Eq, Structural)]
pub struct FaultConfig {
    /// Probability of a random failure.
    pub failure_probability: u32,
    /// Probability of injecting a delay.
    pub delay_probability: u32,
    /// Largest delay in nanoseconds.
    pub delay_ns_max: u64,
    /// Probability of a crash.
    pub crash_probability: u32,
    /// Whether fault injection is on.
    pub enabled: bool,
}

impl FaultConfig {
    /// Every probability lies in `[0, PROBABILITY_SCALE]`.
    pub open spec fn wf(&self) -> bool {
        &&& self.failure_probability <= PROBABILITY_SCALE
        &&& self.delay_probability <= PROBABILITY_SCALE
        &&& self.crash_probability <= PROBABILITY_SCALE
    }

    /// Whether every probability lies in range.
    pub fn is_valid(&self) -> (r: bool)
        ensures
            r == self.wf(),
    {
        self.failure_probability <= PROBABILITY_SCALE && self.delay_probability <= PROBABILITY_SCALE
            && self.crash_probability <= PROBABILITY_SCALE
    }

    /// No faults at all, and injection switched off.
    pub fn none() -> (r: Self)
        ensures
            r == (FaultConfig {
                failure_probability: 0,
                delay_probability: 0,
                delay_ns_max: 0,
                crash_probability: 0,
                enabled: false,
            }),
    {
        FaultConfig {
            failure_probability: 0,
            delay_probability: 0,
            delay_ns_max: 0,
            crash_probability: 0,
            enabled: false,
        }
    }

    /// 10% failures, 20% delays up to 100 ms, 1% crashes.
    pub fn aggressive() -> (r: Self)
        ensures
            r == (FaultConfig {
                failure_probability: 100_000,
                delay_probability: 200_000,
                delay_ns_max: 100_000_000,
                crash_probability: 10_000,
                enabled: true,
            }),
    {
        FaultConfig {
            failure_probability: 100_000,
            delay_probability: 200_000,
            delay_ns_max: 100_000_000,
            crash_probability: 10_000,
            enabled: true,
        }
    }

    /// 20% delays up to 50 ms, and neither failures nor crashes.
    pub fn delays_only() -> (r: Self)
        ensures
            r == (FaultConfig {
                failure_probability: 0,
                delay_probability: 200_000,
                delay_ns_max: 50_000_000,
                crash_probability: 0,
                enabled: true,
            }),
    {
        FaultConfig {
            failure_probability: 0,
            delay_probability: 200_000,
            delay_ns_max: 50_000_000,
            crash_probability: 0,
            enabled: true,
        }
    }
}

/// 1% failures, 5% delays up to 10 ms, 0.1% crashes.
pub open spec fn default_fault_config() -> FaultConfig {
    FaultConfig {
        failure_probability: 10_000,
        delay_probability: 50_000,
        delay_ns_max: 10_000_000,
        crash_probability: 1_000,
        enabled: true,
    }
}

impl Default for FaultConfig {
    fn default() -> (r: Self)
        ensures
            r == default_fault_config(),
    {
        FaultConfig {
            failure_probability: 10_000,
            delay_probability: 50_000,
            delay_ns_max: 10_000_000,
            crash_probability: 1_000,
            enabled: true,
        }
    }
}

/// Counts of injected events.
#[derive(Debug, Clone, Copy, PartialEq, Eq, Structural)]
pub struct FaultStats {
    /// Failures injected.
    pub faults_count: u64,
    /// Delays injected.
    pub delays_count: u64,
    /// Crashes injected.
    pub crashes_count: u64,
}

/// The observable state of a `FaultInjector`.
pub struct FaultModel {
    pub rng: RngModel,
    pub config: FaultConfig,
    pub faults: u64,
    pub delays: u64,
    pub crashes: u64,
}

impl FaultModel {
    /// Room for one more decision without a counter overflowing.
    pub open spec fn has_room(&self) -> bool {
        &&& self.rng.calls < u64::MAX - 3
        &&& self.faults < u64::MAX
        &&& self.delays < u64::MAX
        &&& self.crashes < u64::MAX
    }
}

/// `should_fail`: the answer and the state after it.
pub open spec fn fault_fail_step(m: FaultModel) -> (bool, FaultModel) {
    if !m.config.enabled {
        (false, m)
    } else {
        let p = m.config.failure_probability;
        let r = xoshiro_trial(m.rng.state, p, PROBABILITY_SCALE).0;
        let rng = rng_drawn(m.rng, xoshiro_trial(m.rng.state, p, PROBABILITY_SCALE).1);
        (r, FaultModel { rng, faults: if r { (m.faults + 1) as u64 } else { m.faults }, ..m })
    }
}

/// `should_crash`: the answer and the state after it.
pub open spec fn fault_crash_step(m: FaultModel) -> (bool, FaultModel) {
    if !m.config.enabled {
        (false, m)
    } else {
        let p = m.config.crash_probability;
        let r = xoshiro_trial(m.rng.state, p, PROBABILITY_SCALE).0;
        let rng = rng_drawn(m.rng, xoshiro_trial(m.rng.state, p, PROBABILITY_SCALE).1);
        (r, FaultModel { rng, crashes: if r { (m.crashes + 1) as u64 } else { m.crashes }, ..m })
    }
}

/// `maybe_delay_ns`: the delay, if any, and the state after it.
pub open spec fn fault_delay_step(m: FaultModel) -> (Option<u64>, FaultModel) {
    if !m.config.enabled || m.config.delay_ns_max == 0 {
        (None, m)
    } else {
        let p = m.config.delay_probability;
        let hit = xoshiro_trial(m.rng.state, p, PROBABILITY_SCALE).0;
        let g1 = xoshiro_trial(m.rng.state, p, PROBABILITY_SCALE).1;
        let rng1 = rng_drawn(m.rng, g1);
        if hit {
            let d = xoshiro_draw_range_incl(g1, 1, m.config.delay_ns_max).0;
            let rng2 = rng_drawn(rng1, xoshiro_draw_range_incl(g1, 1, m.config.delay_ns_max).1);
            (Some(d), FaultModel { rng: rng2, delays: (m.delays + 1) as u64, ..m })
        } else {
            (None, FaultModel { rng: rng1, ..m })
        }
    }
}

/// Byte `i` of `data` with bit `b` flipped.
pub open spec fn flip_bit(data: Seq<u8>, i: int, b: u64) -> Seq<u8> {
    data.update(i, data[i] ^ ((1u8 << (b as u8)) as u8))
}

/// `maybe_corrupt`: whether a bit was flipped, the data after, and the state after.
pub open spec fn fault_corrupt_step(m: FaultModel, data: Seq<u8>) -> (bool, Seq<u8>, FaultModel) {
    if !m.config.enabled || data.len() == 0 {
        (false, data, m)
    } else {
        let hit = xoshiro_trial(m.rng.state, CORRUPTION_PROBABILITY, PROBABILITY_SCALE).0;
        let g1 = xoshiro_trial(m.rng.state, CORRUPTION_PROBABILITY, PROBABILITY_SCALE).1;
        let rng1 = rng_drawn(m.rng, g1);
        if hit {
            let i = xoshiro_draw_range(g1, 0, data.len() as u64).0;
            let g2 = xoshiro_draw_range(g1, 0, data.len() as u64).1;
            let b = xoshiro_draw_range(g2, 0, 8).0;
            let g3 = xoshiro_draw_range(g2, 0, 8).1;
            (true, flip_bit(data, i as int, b), FaultModel { rng: rng_drawn(rng_drawn(rng1, g2), g3), ..m })
        } else {
            (false, data, FaultModel { rng: rng1, ..m })
        }
    }
}

/// Deterministic fault injector: the same seed gives the same fault sequence.
pub struct FaultInjector {
    rng: DeterministicRng,
    config: FaultConfig,
    faults_injected_count: u64,
    delays_injected_count: u64,
    crashes_injected_count: u64,
}

impl View for FaultInjector {
    type V = FaultModel;

    closed spec fn view(&self) -> FaultModel {
        FaultModel {
            rng: self.rng@,
            config: self.config,
            faults: self.faults_injected_count,
            delays: self.delays_injected_count,
            crashes: self.crashes_injected_count,
        }
    }
}

impl FaultInjector {
    /// An injector driven by `rng` under `config`, with zero counts.
    pub fn new(rng: DeterministicRng, config: FaultConfig) -> (r: Self)
        requires
            config.wf(),
        ensures
            r@ == (FaultModel { rng: rng@, config, faults: 0, delays: 0, crashes: 0 }),
    {
        FaultInjector {
            rng,
            config,
            faults_injected_count: 0,
            delays_injected_count: 0,
            crashes_injected_count: 0,
        }
    }

    /// An injector under the default configuration.
    pub fn with_default_config(rng: DeterministicRng) -> (r: Self)
        ensures
            r@ == (FaultModel {
                rng: rng@,
                config: default_fault_config(),
                faults: 0,
                delays: 0,
                crashes: 0,
            }),
    {
        FaultInjector::new(rng, FaultConfig::default())
    }

    /// A Bernoulli trial with the failure probability; always `false` when
    /// injection is off. Counts each failure.
    pub fn should_fail(&mut self) -> (r: bool)
        requires
            old(self)@.config.wf(),
            old(self)@.has_room(),
        ensures
            (r, final(self)@) == fault_fail_step(old(self)@),
    {
        if !self.config.enabled {
            return false;
        }
        let result = self.rng.gen_bool(self.config.failure_probability);
        if result {
            self.faults_injected_count = self.faults_injected_count + 1;
        }
        result
    }

    /// When injection is on and `delay_ns_max > 0`, a Bernoulli trial with the
    /// delay probability decides whether to return a delay drawn uniformly
    /// from `[1, delay_ns_max]`.
    pub fn maybe_delay_ns(&mut self) -> (r: Option<u64>)
        requires
            old(self)@.config.wf(),
            old(self)@.has_room(),
        ensures
            (r, final(self)@) == fault_delay_step(old(self)@),
            r matches Some(d) ==> 1 <= d <= old(self)@.config.delay_ns_max,
    {
        if !self.config.enabled || self.config.delay_ns_max == 0 {
            return None;
        }
        if self.rng.gen_bool(self.config.delay_probability) {
            self.delays_injected_count = self.delays_injected_count + 1;
            Some(self.rng.gen_range_inclusive(1, self.config.delay_ns_max))
        } else {
            None
        }
    }

    /// A Bernoulli trial with the crash probability, independent of `should_fail`.
    pub fn should_crash(&mut self) -> (r: bool)
        requires
            old(self)@.config.wf(),
            old(self)@.has_room(),
        ensures
            (r, final(self)@) == fault_crash_step(old(self)@),
    {
        if !self.config.enabled {
            return false;
        }
        let result = self.rng.gen_bool(self.config.crash_probability);
        if result {
            self.crashes_injected_count = self.crashes_injected_count + 1;
        }
        result
    }

    /// With probability `CORRUPTION_PROBABILITY`, flip one bit of one byte of
    /// a non-empty `data`; returns whether it flipped anything.
    pub fn maybe_corrupt(&mut self, data: &mut [u8]) -> (r: bool)
        requires
            old(self)@.has_room(),
        ensures
            (r, final(data)@, final(self)@) == fault_corrupt_step(old(self)@, old(data)@),
    {
        if !self.config.enabled || data.len() == 0 {
            return false;
        }
        if self.rng.gen_bool(CORRUPTION_PROBABILITY) {
            let byte_idx = self.rng.gen_range(0..data.len() as u64);
            let bit_idx = self.rng.gen_range(0..8);
            let i = byte_idx as usize;
            let old_byte = data[i];
            data[i] = old_byte ^ (1u8 << (bit_idx as u8));
            true
        } else {
            false
        }
    }

    /// Whether one more decision fits without a counter overflowing.
    pub fn has_room(&self) -> (r: bool)
        ensures
            r == self@.has_room(),
    {
        self.rng.calls_count() < u64::MAX - 3 && self.faults_injected_count < u64::MAX
            && self.delays_injected_count < u64::MAX && self.crashes_injected_count < u64::MAX
    }

    /// The event counts so far.
    pub fn stats(&self) -> (r: FaultStats)
        ensures
            r == (FaultStats {
                faults_count: self@.faults,
                delays_count: self@.delays,
                crashes_count: self@.crashes,
            }),
    {
        FaultStats {
            faults_count: self.faults_injected_count,
            delays_count: self.delays_injected_count,
            crashes_count: self.crashes_injected_count,
        }
    }

    /// The current configuration.
    pub fn config(&self) -> (r: &FaultConfig)
        ensures
            *r == self@.config,
    {
        &self.config
    }

    /// Replace the configuration; counts and generator are kept.
    pub fn set_config(&mut self, config: FaultConfig)
        requires
            config.wf(),
        ensures
            final(self)@ == (FaultModel { config, ..old(self)@ }),
    {
        self.config = config;
    }

    /// Switch injection on or off.
    pub fn set_enabled(&mut self, enabled: bool)
        ensures
            final(self)@ == (FaultModel { config: FaultConfig { enabled, ..old(self)@.config }, ..old(self)@ }),
    {
        self.config.enabled = enabled;
    }
}

} // verus!
