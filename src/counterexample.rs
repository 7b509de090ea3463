//! Reproducible failure evidence: an optional seed and a trace of snapshots.

use crate::text::{decimal, push_str, u64_to_decimal};
use vstd::prelude::*;

verus! {

/// One step of a trace: its number, what happened, and named variable values.
#[derive(Debug, Clone)]
pub struct StateSnapshot {
    /// Step number.
    pub step: u64,
    /// What happened at this step.
    pub description: String,
    /// Variable names and rendered values.
    pub variables: Vec<(String, String)>,
}

/// Evidence of an invariant violation: the seed that reproduces it, when
/// known, and the states that led to it, in order.
#[derive(Debug, Clone)]
pub struct Counterexample {
    /// Seed of the simulation run, if the violation came from one.
    pub dst_seed: Option<u64>,
    /// The states, in order.
    pub states: Vec<StateSnapshot>,
}

/// One line per variable: `  name = value`.
pub open spec fn variables_text(vars: Seq<(String, String)>) -> Seq<char>
    decreases vars.len(),
{
    if vars.len() == 0 {
        seq![]
    } else {
        variables_text(vars.drop_last()) + "  "@ + vars.last().0@ + " = "@ + vars.last().1@ + "\n"@
    }
}

/// `Step n: description` and the variable lines.
pub open spec fn snapshot_text(s: StateSnapshot) -> Seq<char> {
    "Step "@ + decimal(s.step as nat) + ": "@ + s.description@ + "\n"@ + variables_text(s.variables@)
}

/// The snapshots' text, in order.
pub open spec fn snapshots_text(states: Seq<StateSnapshot>) -> Seq<char>
    decreases states.len(),
{
    if states.len() == 0 {
        seq![]
    } else {
        snapshots_text(states.drop_last()) + snapshot_text(states.last())
    }
}

/// The seed line, when there is a seed.
pub open spec fn seed_header(seed: Option<u64>) -> Seq<char> {
    match seed {
        Some(s) => "Seed: DST_SEED="@ + decimal(s as nat) + "\n"@,
        None => seq![],
    }
}

/// The full step-by-step diagram.
pub open spec fn diagram_text(seed: Option<u64>, states: Seq<StateSnapshot>) -> Seq<char> {
    seed_header(seed) + snapshots_text(states)
}

impl StateSnapshot {
    /// Render this step.
    pub fn render(&self) -> (r: String)
        ensures
            r@ == snapshot_text(*self),
    {
        proof {
            reveal_strlit("Step ");
            reveal_strlit(": ");
            reveal_strlit("\n");
            reveal_strlit("  ");
            reveal_strlit(" = ");
        }
        let mut r = String::from_str("Step ");
        push_str(&mut r, u64_to_decimal(self.step).as_str());
        push_str(&mut r, ": ");
        push_str(&mut r, self.description.as_str());
        push_str(&mut r, "\n");
        let ghost head = r@;
        let mut i: usize = 0;
        while i < self.variables.len()
            invariant
                i <= self.variables.len(),
                r@ == head + variables_text(self.variables@.take(i as int)),
            decreases self.variables.len() - i,
        {
            assert(self.variables@.take(i + 1).drop_last() =~= self.variables@.take(i as int));
            let (name, value) = &self.variables[i];
            push_str(&mut r, "  ");
            push_str(&mut r, name.as_str());
            push_str(&mut r, " = ");
            push_str(&mut r, value.as_str());
            push_str(&mut r, "\n");
            i = i + 1;
        }
        assert(self.variables@.take(self.variables.len() as int) =~= self.variables@);
        r
    }
}

impl Counterexample {
    /// A counterexample without a seed and with no states.
    pub fn new() -> (r: Self)
        ensures
            r.dst_seed.is_none(),
            r.states@.len() == 0,
    {
        Counterexample { dst_seed: None, states: Vec::new() }
    }

    /// A counterexample from the simulation run seeded with `seed` (not zero).
    pub fn with_seed(seed: u64) -> (r: Self)
        requires
            seed != 0,
        ensures
            r.dst_seed == Some(seed),
            r.states@.len() == 0,
    {
        Counterexample { dst_seed: Some(seed), states: Vec::new() }
    }

    /// Append a state to the trace.
    pub fn add_state(&mut self, state: StateSnapshot)
        ensures
            final(self).dst_seed == old(self).dst_seed,
            final(self).states@ == old(self).states@.push(state),
    {
        self.states.push(state);
    }

    /// The step-by-step diagram: a seed line when there is a seed, then each
    /// step with its variables.
    pub fn render_diagram(&self) -> (r: String)
        ensures
            r@ == diagram_text(self.dst_seed, self.states@),
    {
        proof {
            reveal_strlit("Seed: DST_SEED=");
            reveal_strlit("\n");
        }
        let mut r = String::new();
        if let Some(s) = self.dst_seed {
            push_str(&mut r, "Seed: DST_SEED=");
            push_str(&mut r, u64_to_decimal(s).as_str());
            push_str(&mut r, "\n");
        }
        let mut i: usize = 0;
        while i < self.states.len()
            invariant
                i <= self.states.len(),
                r@ == seed_header(self.dst_seed) + snapshots_text(self.states@.take(i as int)),
            decreases self.states.len() - i,
        {
            assert(self.states@.take(i + 1).drop_last() =~= self.states@.take(i as int));
            let text = self.states[i].render();
            push_str(&mut r, text.as_str());
            i = i + 1;
        }
        assert(self.states@.take(self.states.len() as int) =~= self.states@);
        r
    }
}

} // verus!
