//! The evaluator cascade: levels of checking run from fastest to slowest,
//! stopping at the first failure when asked to.

use crate::text::{lower_of, lowercase};
use std::time::Duration;
use vstd::prelude::*;

verus! {

/// Evaluator levels, in the order the cascade runs them.
#[derive(Debug, Clone, Copy, PartialEq, Eq, PartialOrd, Ord, Structural)]
pub enum EvaluatorLevel {
    /// Type checking and lifetimes.
    Rustc,
    /// Undefined-behaviour detection.
    Miri,
    /// Thread-interleaving exploration.
    Loom,
    /// Deterministic simulation testing.
    Dst,
    /// Model checking against the formal specification.
    Stateright,
    /// Bounded model checking and proofs.
    Kani,
}

/// Position of a level in the cascade.
pub open spec fn level_rank(l: EvaluatorLevel) -> nat {
    match l {
        EvaluatorLevel::Rustc => 0,
        EvaluatorLevel::Miri => 1,
        EvaluatorLevel::Loom => 2,
        EvaluatorLevel::Dst => 3,
        EvaluatorLevel::Stateright => 4,
        EvaluatorLevel::Kani => 5,
    }
}

/// The level at position `i < 6`.
pub open spec fn level_at(i: nat) -> EvaluatorLevel {
    if i == 0 {
        EvaluatorLevel::Rustc
    } else if i == 1 {
        EvaluatorLevel::Miri
    } else if i == 2 {
        EvaluatorLevel::Loom
    } else if i == 3 {
        EvaluatorLevel::Dst
    } else if i == 4 {
        EvaluatorLevel::Stateright
    } else {
        EvaluatorLevel::Kani
    }
}

fn level_from_rank(i: u8) -> (r: EvaluatorLevel)
    requires
        i < 6,
    ensures
        r == level_at(i as nat),
        level_rank(r) == i,
{
    if i == 0 {
        EvaluatorLevel::Rustc
    } else if i == 1 {
        EvaluatorLevel::Miri
    } else if i == 2 {
        EvaluatorLevel::Loom
    } else if i == 3 {
        EvaluatorLevel::Dst
    } else if i == 4 {
        EvaluatorLevel::Stateright
    } else {
        EvaluatorLevel::Kani
    }
}

impl EvaluatorLevel {
    fn rank(self) -> (r: u8)
        ensures
            r == level_rank(self),
    {
        match self {
            EvaluatorLevel::Rustc => 0,
            EvaluatorLevel::Miri => 1,
            EvaluatorLevel::Loom => 2,
            EvaluatorLevel::Dst => 3,
            EvaluatorLevel::Stateright => 4,
            EvaluatorLevel::Kani => 5,
        }
    }

    /// Every level up to and including this one, in cascade order.
    pub fn levels_up_to(self) -> (r: Vec<EvaluatorLevel>)
        ensures
            r@.len() == level_rank(self) + 1,
            forall|i: int| 0 <= i < r@.len() ==> r@[i] == level_at(i as nat),
    {
        let max = self.rank();
        let mut levels: Vec<EvaluatorLevel> = Vec::new();
        let mut i: u8 = 0;
        while i <= max
            invariant
                max == level_rank(self),
                i <= max + 1,
                levels@.len() == i,
                forall|j: int| 0 <= j < i ==> levels@[j] == level_at(j as nat),
            decreases max + 1 - i,
        {
            levels.push(level_from_rank(i));
            i = i + 1;
        }
        levels
    }

    /// The tool's name.
    pub fn name(&self) -> (r: &'static str)
        ensures
            r@ == match *self {
                EvaluatorLevel::Rustc => "rustc"@,
                EvaluatorLevel::Miri => "miri"@,
                EvaluatorLevel::Loom => "loom"@,
                EvaluatorLevel::Dst => "DST"@,
                EvaluatorLevel::Stateright => "stateright"@,
                EvaluatorLevel::Kani => "kani"@,
            },
    {
        proof {
            reveal_strlit("rustc");
            reveal_strlit("miri");
            reveal_strlit("loom");
            reveal_strlit("DST");
            reveal_strlit("stateright");
            reveal_strlit("kani");
        }
        match self {
            EvaluatorLevel::Rustc => "rustc",
            EvaluatorLevel::Miri => "miri",
            EvaluatorLevel::Loom => "loom",
            EvaluatorLevel::Dst => "DST",
            EvaluatorLevel::Stateright => "stateright",
            EvaluatorLevel::Kani => "kani",
        }
    }
}

/// The level a lowercase name or number denotes; anything else is `Dst`.
pub open spec fn level_named(name: Seq<char>) -> EvaluatorLevel {
    if name == "rustc"@ || name == "0"@ {
        EvaluatorLevel::Rustc
    } else if name == "miri"@ || name == "1"@ {
        EvaluatorLevel::Miri
    } else if name == "loom"@ || name == "2"@ {
        EvaluatorLevel::Loom
    } else if name == "dst"@ || name == "3"@ {
        EvaluatorLevel::Dst
    } else if name == "stateright"@ || name == "4"@ {
        EvaluatorLevel::Stateright
    } else if name == "kani"@ || name == "5"@ {
        EvaluatorLevel::Kani
    } else {
        EvaluatorLevel::Dst
    }
}

/// Whether `a` and `b` hold the same characters.
pub(crate) fn same_text(a: &str, b: &str) -> (r: bool)
    ensures
        r == (a@ == b@),
{
    let n = a.unicode_len();
    if n != b.unicode_len() {
        return false;
    }
    let mut i: usize = 0;
    while i < n
        invariant
            n == a@.len(),
            n == b@.len(),
            i <= n,
            forall|j: int| 0 <= j < i ==> a@[j] == b@[j],
        decreases n - i,
    {
        if a.get_char(i) != b.get_char(i) {
            return false;
        }
        i = i + 1;
    }
    assert(a@ =~= b@);
    true
}

/// The evaluator level named by `s`, in any letter case, or by its number;
/// anything else selects simulation testing.
pub fn parse_level(s: &str) -> (r: EvaluatorLevel)
    ensures
        r == level_named(lower_of(s@)),
{
    let lower = lowercase(s);
    level_from_lowercase(lower.as_str())
}

/// The value named by `l`, already in lowercase: see `level_named`.
pub fn level_from_lowercase(l: &str) -> (r: EvaluatorLevel)
    ensures
        r == level_named(l@),
{
    proof {
        reveal_strlit("rustc");
        reveal_strlit("0");
        reveal_strlit("miri");
        reveal_strlit("1");
        reveal_strlit("loom");
        reveal_strlit("2");
        reveal_strlit("dst");
        reveal_strlit("3");
        reveal_strlit("stateright");
        reveal_strlit("4");
        reveal_strlit("kani");
        reveal_strlit("5");
    }
    if same_text(l, "rustc") || same_text(l, "0") {
        EvaluatorLevel::Rustc
    } else if same_text(l, "miri") || same_text(l, "1") {
        EvaluatorLevel::Miri
    } else if same_text(l, "loom") || same_text(l, "2") {
        EvaluatorLevel::Loom
    } else if same_text(l, "dst") || same_text(l, "3") {
        EvaluatorLevel::Dst
    } else if same_text(l, "stateright") || same_text(l, "4") {
        EvaluatorLevel::Stateright
    } else if same_text(l, "kani") || same_text(l, "5") {
        EvaluatorLevel::Kani
    } else {
        EvaluatorLevel::Dst
    }
}

/// The `Duration` of `secs` whole seconds.
pub uninterp spec fn duration_from_secs(secs: u64) -> Duration;

/// Relies on `Duration::from_secs`: the duration depends on the seconds alone.
#[verifier::external_body]
fn seconds(secs: u64) -> (r: Duration)
    ensures
        r == duration_from_secs(secs),
{
    Duration::from_secs(secs)
}

/// Relies on `Duration` being `Copy`: its clone is the same duration.
pub assume_specification[ <Duration as Clone>::clone ](d: &Duration) -> (r: Duration)
    ensures
        r == *d,
;

/// Configuration of a cascade run.
#[derive(Debug, Clone)]
pub struct CascadeConfig {
    /// Highest level to run, inclusive.
    pub max_level: EvaluatorLevel,
    /// Stop at the first failure.
    pub fail_fast: bool,
    /// Time limit per evaluator.
    pub timeout: Duration,
    /// Loom preemption bound.
    pub loom_preemption_bound: usize,
    /// Model-checking depth bound.
    pub stateright_depth_max: usize,
    /// Kani unwind bound.
    pub kani_unwind: usize,
    /// Seed for simulation testing; `None` lets the run pick one.
    pub dst_seed: Option<u64>,
    /// Simulation iterations.
    pub dst_iterations: u64,
}

/// The default configuration: up to simulation testing, fail fast, five minutes.
pub open spec fn default_cascade_config() -> CascadeConfig {
    CascadeConfig {
        max_level: EvaluatorLevel::Dst,
        fail_fast: true,
        timeout: duration_from_secs(300),
        loom_preemption_bound: 3,
        stateright_depth_max: 100,
        kani_unwind: 10,
        dst_seed: None,
        dst_iterations: 1000,
    }
}

impl Default for CascadeConfig {
    fn default() -> (r: Self)
        ensures
            r == default_cascade_config(),
    {
        CascadeConfig {
            max_level: EvaluatorLevel::Dst,
            fail_fast: true,
            timeout: seconds(300),
            loom_preemption_bound: 3,
            stateright_depth_max: 100,
            kani_unwind: 10,
            dst_seed: None,
            dst_iterations: 1000,
        }
    }
}

impl CascadeConfig {
    /// Quick iteration: up to Miri, 30 s, 100 simulation iterations.
    pub fn fast() -> (r: Self)
        ensures
            r == (CascadeConfig {
                max_level: EvaluatorLevel::Miri,
                timeout: duration_from_secs(30),
                dst_iterations: 100,
                ..default_cascade_config()
            }),
    {
        let mut c = CascadeConfig::default();
        c.max_level = EvaluatorLevel::Miri;
        c.timeout = seconds(30);
        c.dst_iterations = 100;
        c
    }

    /// Continuous integration: up to model checking, 10 minutes.
    pub fn thorough() -> (r: Self)
        ensures
            r == (CascadeConfig {
                max_level: EvaluatorLevel::Stateright,
                timeout: duration_from_secs(600),
                loom_preemption_bound: 4,
                stateright_depth_max: 200,
                dst_iterations: 10000,
                ..default_cascade_config()
            }),
    {
        let mut c = CascadeConfig::default();
        c.max_level = EvaluatorLevel::Stateright;
        c.timeout = seconds(600);
        c.loom_preemption_bound = 4;
        c.stateright_depth_max = 200;
        c.dst_iterations = 10000;
        c
    }

    /// Everything, Kani included: 30 minutes.
    pub fn maximum() -> (r: Self)
        ensures
            r == (CascadeConfig {
                max_level: EvaluatorLevel::Kani,
                timeout: duration_from_secs(1800),
                loom_preemption_bound: 5,
                stateright_depth_max: 500,
                kani_unwind: 20,
                dst_iterations: 100000,
                ..default_cascade_config()
            }),
    {
        let mut c = CascadeConfig::default();
        c.max_level = EvaluatorLevel::Kani;
        c.timeout = seconds(1800);
        c.loom_preemption_bound = 5;
        c.stateright_depth_max = 500;
        c.kani_unwind = 20;
        c.dst_iterations = 100000;
        c
    }
}

/// The level to run after `completed` levels, the last of which passed
/// when `last_passed`: none after a failure under fail-fast, none past the
/// highest level, else the next one in order.
pub open spec fn cascade_next(config: CascadeConfig, completed: nat, last_passed: bool) -> Option<EvaluatorLevel> {
    if completed > 0 && !last_passed && config.fail_fast {
        None
    } else if completed > level_rank(config.max_level) {
        None
    } else {
        Some(level_at(completed))
    }
}

/// Runs evaluators from fastest to slowest. The runs themselves happen
/// outside the library; this type decides which level comes next.
pub struct EvaluatorCascade {
    config: CascadeConfig,
}

impl EvaluatorCascade {
    /// The configuration this cascade runs under.
    pub closed spec fn spec_config(&self) -> CascadeConfig {
        self.config
    }

    /// A cascade with `config`.
    pub fn new(config: CascadeConfig) -> (r: Self)
        ensures
            r.spec_config() == config,
    {
        EvaluatorCascade { config }
    }

    /// A cascade with the default configuration.
    pub fn with_defaults() -> (r: Self)
        ensures
            r.spec_config() == default_cascade_config(),
    {
        EvaluatorCascade::new(CascadeConfig::default())
    }

    /// The configuration.
    pub fn config(&self) -> (r: &CascadeConfig)
        ensures
            *r == self.spec_config(),
    {
        &self.config
    }

    /// The level to run after `completed` levels, given whether the last one
    /// passed; `None` when the cascade is over.
    pub fn next_level(&self, completed: usize, last_passed: bool) -> (r: Option<EvaluatorLevel>)
        ensures
            r == cascade_next(self.spec_config(), completed as nat, last_passed),
    {
        if completed > 0 && !last_passed && self.config.fail_fast {
            return None;
        }
        let max = self.config.max_level.rank();
        if completed > max as usize {
            return None;
        }
        Some(level_from_rank(completed as u8))
    }
}

} // verus!
