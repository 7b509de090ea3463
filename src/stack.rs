//! The stack invariant family, checked from a structure's observable state:
//! no element lost, no duplicates, last-in/first-out history, plus the
//! linearizability and ABA notes.

use crate::counterexample::{Counterexample, StateSnapshot};
use crate::property::{PropertyChecker, PropertyResult};
use crate::text::{decimal, list_text, push_str, render_list, u64_to_decimal};
use std::collections::HashSet;
use vstd::prelude::*;

verus! {

broadcast use vstd::std_specs::hash::group_hash_axioms;

/// Specification file of the stack invariants.
pub const TLA_SPEC: &'static str = "treiber_stack.tla";

/// What a stack under test exposes to the checker. Implemented by the
/// structures under test; the checker's verdicts are exact for whatever these
/// methods return.
pub trait StackProperties {
    /// The set of all pushed values.
    fn pushed_elements(&self) -> HashSet<u64>;

    /// The set of all popped values.
    fn popped_elements(&self) -> HashSet<u64>;

    /// The current contents, top to bottom.
    fn current_contents(&self) -> Vec<u64>;

    /// The operation history.
    fn history(&self) -> &StackHistory;
}

/// Kind of a stack operation.
#[derive(Debug, Clone, Copy, PartialEq, Eq, Structural)]
pub enum StackOpType {
    Push,
    Pop,
    PopEmpty,
}

/// One recorded stack operation.
#[derive(Debug, Clone, Copy, PartialEq, Eq, Structural)]
pub struct StackOperation {
    /// Actor that performed it.
    pub thread_id: u64,
    /// What it did.
    pub op_type: StackOpType,
    /// The value pushed, or the value a pop returned.
    pub element: Option<u64>,
    /// Step number, for ordering.
    pub step: u64,
}

/// History of stack operations in linearization order.
#[derive(Debug, Clone)]
pub struct StackHistory {
    pub operations: Vec<StackOperation>,
}

impl StackHistory {
    /// An empty history.
    pub fn new() -> (r: Self)
        ensures
            r.operations@ == Seq::<StackOperation>::empty(),
    {
        StackHistory { operations: Vec::new() }
    }

    /// Record that `thread_id` pushed `element` at `step > 0`.
    pub fn record_push(&mut self, thread_id: u64, element: u64, step: u64)
        requires
            step > 0,
        ensures
            final(self).operations@ == old(self).operations@.push(
                StackOperation { thread_id, op_type: StackOpType::Push, element: Some(element), step },
            ),
    {
        self.operations.push(StackOperation { thread_id, op_type: StackOpType::Push, element: Some(element), step });
    }

    /// Record that `thread_id` popped `element` (`None`: the stack was empty) at `step > 0`.
    pub fn record_pop(&mut self, thread_id: u64, element: Option<u64>, step: u64)
        requires
            step > 0,
        ensures
            final(self).operations@ == old(self).operations@.push(
                StackOperation {
                    thread_id,
                    op_type: if element.is_some() { StackOpType::Pop } else { StackOpType::PopEmpty },
                    element,
                    step,
                },
            ),
    {
        let op_type = if element.is_some() { StackOpType::Pop } else { StackOpType::PopEmpty };
        self.operations.push(StackOperation { thread_id, op_type, element, step });
    }
}

impl Default for StackHistory {
    fn default() -> (r: Self)
        ensures
            r.operations@ == Seq::<StackOperation>::empty(),
    {
        StackHistory::new()
    }
}

/// `e` was pushed, yet is neither present nor popped.
pub open spec fn is_lost(pushed: Set<u64>, popped: Set<u64>, contents: Seq<u64>, e: u64) -> bool {
    pushed.contains(e) && !contents.contains(e) && !popped.contains(e)
}

/// The message naming lost element `e`.
pub open spec fn lost_message(e: u64) -> Seq<char> {
    "Element "@ + decimal(e as nat) + " was pushed but is neither in stack nor popped"@
}

/// Index `j` holds the first value that repeats an earlier one.
pub open spec fn first_repeat(s: Seq<u64>, j: int) -> bool {
    &&& 0 <= j < s.len()
    &&& s.take(j).contains(s[j])
    &&& forall|k: int| 0 <= k < j ==> !s.take(k).contains(#[trigger] s[k])
}

/// The message naming duplicated element `e`.
pub open spec fn duplicate_message(e: u64) -> Seq<char> {
    "Element "@ + decimal(e as nat) + " appears multiple times in stack"@
}

/// Replaying `ops` against a model stack that starts as `model`: the first
/// pop whose value differs from the model's top, as `(returned, expected)`.
pub open spec fn lifo_violation(model: Seq<u64>, ops: Seq<StackOperation>) -> Option<(u64, u64)>
    decreases ops.len(),
{
    if ops.len() == 0 {
        None
    } else {
        let op = ops[0];
        let rest = ops.drop_first();
        match op.op_type {
            StackOpType::Push => match op.element {
                Some(e) => lifo_violation(model.push(e), rest),
                None => lifo_violation(model, rest),
            },
            StackOpType::Pop => match op.element {
                Some(returned) => if model.len() == 0 {
                    lifo_violation(model, rest)
                } else if model.last() != returned {
                    Some((returned, model.last()))
                } else {
                    lifo_violation(model.drop_last(), rest)
                },
                None => lifo_violation(model, rest),
            },
            StackOpType::PopEmpty => lifo_violation(model, rest),
        }
    }
}

/// The message for a pop that returned `returned` where `expected` was on top.
pub open spec fn lifo_message(returned: u64, expected: u64) -> Seq<char> {
    "Pop returned "@ + decimal(returned as nat) + " but LIFO expected "@ + decimal(expected as nat)
}

/// Whether `v` holds `x`.
pub(crate) fn vec_contains(v: &Vec<u64>, x: u64) -> (r: bool)
    ensures
        r == v@.contains(x),
{
    let mut i: usize = 0;
    while i < v.len()
        invariant
            i <= v.len(),
            forall|j: int| 0 <= j < i ==> v@[j] != x,
        decreases v.len() - i,
    {
        if v[i] == x {
            return true;
        }
        i = i + 1;
    }
    false
}

/// Whether the first `n` values of `v` hold `x`.
pub(crate) fn prefix_contains(v: &Vec<u64>, n: usize, x: u64) -> (r: bool)
    requires
        n <= v@.len(),
    ensures
        r == v@.take(n as int).contains(x),
{
    let mut i: usize = 0;
    while i < n
        invariant
            i <= n,
            n <= v@.len(),
            forall|j: int| 0 <= j < i ==> v@[j] != x,
        decreases n - i,
    {
        if v[i] == x {
            assert(v@.take(n as int)[i as int] == x);
            return true;
        }
        i = i + 1;
    }
    false
}

/// The elements of `s`, each once, in iteration order.
fn set_elements(s: &HashSet<u64>) -> (r: Vec<u64>)
    ensures
        r@.to_set() == s@,
        r@.no_duplicates(),
{
    let mut v: Vec<u64> = Vec::new();
    for x in iter: s.iter()
        invariant
            v@ == iter.seq().unref().take(iter.index() as int),
            iter.seq().unref().to_set() == s@,
            iter.seq().unref().no_duplicates(),
            iter.seq().unref().take(iter.seq().len() as int) =~= iter.seq().unref(),
            iter.index() == iter.seq().len() ==> v@ == iter.seq().unref(),
            iter.index() == iter.seq().len() ==> v@.no_duplicates(),
    {
        v.push(*x);
    }
    v
}

/// `r` is the NoLostElements verdict (line 45) on the observed sets and
/// contents: it fails exactly when some pushed value is neither present nor
/// popped, names such a value, and carries a one-step counterexample with `seed`.
pub open spec fn no_lost_verdict(
    r: PropertyResult,
    pushed: Set<u64>,
    popped: Set<u64>,
    contents: Seq<u64>,
    seed: Option<u64>,
) -> bool {
    &&& r.name@ == "NoLostElements"@
    &&& r.tla_spec@ == TLA_SPEC@
    &&& r.tla_line == 45
    &&& r.holds == !(exists|e: u64| is_lost(pushed, popped, contents, e))
    &&& r.holds ==> r.violation.is_none() && r.counterexample.is_none()
    &&& !r.holds ==> exists|e: u64|
        is_lost(pushed, popped, contents, e) && (r.violation matches Some(v) && v@ == lost_message(e))
    &&& !r.holds ==> (r.counterexample matches Some(ce) && ce.dst_seed == seed && ce.states@.len() == 1)
}

/// `r` is the NoDuplicates verdict (line 58) on `contents`: it fails exactly
/// when a value repeats, naming the first value that repeats an earlier one.
pub open spec fn no_duplicates_verdict(r: PropertyResult, contents: Seq<u64>) -> bool {
    &&& r.name@ == "NoDuplicates"@
    &&& r.tla_spec@ == TLA_SPEC@
    &&& r.tla_line == 58
    &&& r.holds == contents.no_duplicates()
    &&& r.holds ==> r.violation.is_none()
    &&& !r.holds ==> exists|j: int|
        first_repeat(contents, j) && (r.violation matches Some(v) && v@ == duplicate_message(contents[j]))
    &&& r.counterexample.is_none()
}

/// `r` is the LIFO_Order verdict (line 72) on the history `ops`.
pub open spec fn lifo_verdict(r: PropertyResult, ops: Seq<StackOperation>) -> bool {
    &&& r.name@ == "LIFO_Order"@
    &&& r.tla_spec@ == TLA_SPEC@
    &&& r.tla_line == 72
    &&& r.holds == lifo_violation(seq![], ops).is_none()
    &&& r.holds ==> r.violation.is_none()
    &&& lifo_violation(seq![], ops) matches Some((returned, expected)) ==> (r.violation matches Some(v)
        && v@ == lifo_message(returned, expected))
    &&& r.counterexample.is_none()
}

/// The NoLostElements verdict on observed values; counterexamples carry `dst_seed`.
pub fn judge_no_lost_elements(
    pushed: &HashSet<u64>,
    popped: &HashSet<u64>,
    contents: &Vec<u64>,
    dst_seed: Option<u64>,
) -> (r: PropertyResult)
    ensures
        no_lost_verdict(r, pushed@, popped@, contents@, dst_seed),
{
    proof {
        reveal_strlit("NoLostElements");
        reveal_strlit("treiber_stack.tla");
    }
    let pushed_list = set_elements(pushed);
    let mut i: usize = 0;
    while i < pushed_list.len()
        invariant
            i <= pushed_list.len(),
            pushed_list@.to_set() == pushed@,
            forall|j: int|
                0 <= j < i ==> contents@.contains(#[trigger] pushed_list@[j]) || popped@.contains(
                    pushed_list@[j],
                ),
        decreases pushed_list.len() - i,
    {
        let e = pushed_list[i];
        if !vec_contains(contents, e) && !popped.contains(&e) {
            proof {
                reveal_strlit("NoLostElements");
                reveal_strlit("treiber_stack.tla");
                reveal_strlit("Element ");
                reveal_strlit(" was pushed but is neither in stack nor popped");
            }
            assert(pushed_list@.to_set().contains(e));
            assert(is_lost(pushed@, popped@, contents@, e));
            let mut ce = Counterexample { dst_seed, states: Vec::new() };
            let mut description = String::from_str("Element ");
            push_str(&mut description, u64_to_decimal(e).as_str());
            push_str(&mut description, " lost");
            let popped_list = set_elements(popped);
            let variables = vec![
                (String::from_str("pushed"), render_list(&pushed_list)),
                (String::from_str("popped"), render_list(&popped_list)),
                (String::from_str("contents"), render_list(contents)),
            ];
            ce.add_state(StateSnapshot { step: 1, description, variables });
            let mut message = String::from_str("Element ");
            push_str(&mut message, u64_to_decimal(e).as_str());
            push_str(&mut message, " was pushed but is neither in stack nor popped");
            return PropertyResult::fail("NoLostElements", TLA_SPEC, 45, message, Some(ce));
        }
        i = i + 1;
    }
    assert forall|e: u64| !is_lost(pushed@, popped@, contents@, e) by {
        if pushed@.contains(e) {
            assert(pushed_list@.to_set().contains(e));
            let j = choose|j: int| 0 <= j < pushed_list@.len() && pushed_list@[j] == e;
            assert(contents@.contains(pushed_list@[j]) || popped@.contains(pushed_list@[j]));
        }
    }
    PropertyResult::pass("NoLostElements", TLA_SPEC, 45)
}

/// The NoDuplicates verdict on observed contents.
pub fn judge_no_duplicates(contents: &Vec<u64>) -> (r: PropertyResult)
    ensures
        no_duplicates_verdict(r, contents@),
{
    let mut i: usize = 0;
    while i < contents.len()
        invariant
            i <= contents.len(),
            forall|k: int| 0 <= k < i ==> !contents@.take(k).contains(#[trigger] contents@[k]),
        decreases contents.len() - i,
    {
        let e = contents[i];
        if prefix_contains(contents, i, e) {
            proof {
                reveal_strlit("NoDuplicates");
                reveal_strlit("treiber_stack.tla");
                reveal_strlit("Element ");
                reveal_strlit(" appears multiple times in stack");
                assert(first_repeat(contents@, i as int));
                let k = choose|k: int| 0 <= k < i && contents@.take(i as int)[k] == e;
                assert(contents@[k] == contents@[i as int]);
            }
            let mut message = String::from_str("Element ");
            push_str(&mut message, u64_to_decimal(e).as_str());
            push_str(&mut message, " appears multiple times in stack");
            return PropertyResult::fail("NoDuplicates", TLA_SPEC, 58, message, None);
        }
        i = i + 1;
    }
    proof {
        reveal_strlit("NoDuplicates");
        reveal_strlit("treiber_stack.tla");
        assert forall|a: int, b: int|
            0 <= a < contents@.len() && 0 <= b < contents@.len() && a != b implies contents@[a]
            != contents@[b] by {
            if a < b {
                assert(contents@.take(b)[a] == contents@[a]);
                assert(!contents@.take(b).contains(contents@[b]));
            } else {
                assert(contents@.take(a)[b] == contents@[b]);
                assert(!contents@.take(a).contains(contents@[a]));
            }
        }
    }
    PropertyResult::pass("NoDuplicates", TLA_SPEC, 58)
}

/// The LIFO_Order verdict on an observed history: replay it against a
/// model stack and report the first pop that did not return the top.
pub fn judge_lifo_order(ops: &Vec<StackOperation>) -> (r: PropertyResult)
    ensures
        lifo_verdict(r, ops@),
{
    let mut model: Vec<u64> = Vec::new();
    let mut i: usize = 0;
    assert(ops@.skip(0) =~= ops@);
    while i < ops.len()
        invariant
            i <= ops.len(),
            lifo_violation(seq![], ops@) == lifo_violation(model@, ops@.skip(i as int)),
        decreases ops.len() - i,
    {
        let op = ops[i];
        assert(ops@.skip(i as int)[0] == op);
        assert(ops@.skip(i as int).drop_first() =~= ops@.skip(i + 1));
        match op.op_type {
            StackOpType::Push => {
                if let Some(e) = op.element {
                    model.push(e);
                }
            },
            StackOpType::Pop => {
                if let Some(returned) = op.element {
                    if model.len() > 0 {
                        let expected = model.pop().unwrap();
                        if expected != returned {
                            proof {
                                reveal_strlit("LIFO_Order");
                                reveal_strlit("treiber_stack.tla");
                                reveal_strlit("Pop returned ");
                                reveal_strlit(" but LIFO expected ");
                            }
                            let mut message = String::from_str("Pop returned ");
                            push_str(&mut message, u64_to_decimal(returned).as_str());
                            push_str(&mut message, " but LIFO expected ");
                            push_str(&mut message, u64_to_decimal(expected).as_str());
                            return PropertyResult::fail("LIFO_Order", TLA_SPEC, 72, message, None);
                        }
                    }
                }
            },
            StackOpType::PopEmpty => {},
        }
        i = i + 1;
    }
    proof {
        reveal_strlit("LIFO_Order");
        reveal_strlit("treiber_stack.tla");
    }
    PropertyResult::pass("LIFO_Order", TLA_SPEC, 72)
}

/// Checker of the stack invariants against a structure's observable state.
pub struct StackPropertyChecker<'a, T: StackProperties> {
    stack: &'a T,
    dst_seed: Option<u64>,
}

impl<'a, T: StackProperties> StackPropertyChecker<'a, T> {
    /// The seed attached to counterexamples.
    pub closed spec fn seed(&self) -> Option<u64> {
        self.dst_seed
    }

    /// A checker for `stack`, without a seed.
    pub fn new(stack: &'a T) -> (r: Self)
        ensures
            r.seed().is_none(),
    {
        StackPropertyChecker { stack, dst_seed: None }
    }

    /// Attach the seed (not zero) of the simulation run, for counterexamples.
    pub fn with_seed(self, seed: u64) -> (r: Self)
        requires
            seed != 0,
        ensures
            r.seed() == Some(seed),
    {
        let mut s = self;
        s.dst_seed = Some(seed);
        s
    }

    /// NoLostElements (line 45), on what the stack reports.
    pub fn check_no_lost_elements(&self) -> (r: PropertyResult)
        ensures
            exists|pushed: Set<u64>, popped: Set<u64>, contents: Seq<u64>|
                no_lost_verdict(r, pushed, popped, contents, self.seed()),
    {
        let pushed = self.stack.pushed_elements();
        let popped = self.stack.popped_elements();
        let contents = self.stack.current_contents();
        judge_no_lost_elements(&pushed, &popped, &contents, self.dst_seed)
    }

    /// NoDuplicates (line 58), on what the stack reports.
    pub fn check_no_duplicates(&self) -> (r: PropertyResult)
        ensures
            exists|contents: Seq<u64>| no_duplicates_verdict(r, contents),
    {
        let contents = self.stack.current_contents();
        judge_no_duplicates(&contents)
    }

    /// LIFO_Order (line 72), on what the stack reports.
    pub fn check_lifo_order(&self) -> (r: PropertyResult)
        ensures
            exists|ops: Seq<StackOperation>| lifo_verdict(r, ops),
    {
        let history = self.stack.history();
        judge_lifo_order(&history.operations)
    }

    /// Linearizability (line 89): a weak, history-based note. Full
    /// linearizability needs every ordering explored, which lies outside
    /// this checker; the verdict always holds.
    pub fn check_linearizability(&self) -> (r: PropertyResult)
        ensures
            r.name@ == "Linearizability"@,
            r.tla_spec@ == TLA_SPEC@,
            r.tla_line == 89,
            r.holds,
            r.violation.is_none() && r.counterexample.is_none(),
    {
        proof {
            reveal_strlit("Linearizability");
            reveal_strlit("treiber_stack.tla");
        }
        PropertyResult::pass("Linearizability", TLA_SPEC, 89)
    }

    /// ABA_Safety (line 103): ABA hazards are excluded by the memory
    /// reclamation scheme rather than detected here; the verdict always holds.
    pub fn check_aba_safety(&self) -> (r: PropertyResult)
        ensures
            r.name@ == "ABA_Safety"@,
            r.tla_spec@ == TLA_SPEC@,
            r.tla_line == 103,
            r.holds,
            r.violation.is_none() && r.counterexample.is_none(),
    {
        proof {
            reveal_strlit("ABA_Safety");
            reveal_strlit("treiber_stack.tla");
        }
        PropertyResult::pass("ABA_Safety", TLA_SPEC, 103)
    }
}

/// The stack invariants, in the order `check_all` reports them.
pub open spec fn stack_invariant_names() -> Seq<Seq<char>> {
    seq!["NoLostElements"@, "NoDuplicates"@, "LIFO_Order"@, "Linearizability"@, "ABA_Safety"@]
}

impl<'a, T: StackProperties> PropertyChecker for StackPropertyChecker<'a, T> {
    open spec fn invariant_names(&self) -> Seq<Seq<char>> {
        stack_invariant_names()
    }

    fn check_all(&self) -> (r: Vec<PropertyResult>) {
        let a = self.check_no_lost_elements();
        let b = self.check_no_duplicates();
        let c = self.check_lifo_order();
        let d = self.check_linearizability();
        let e = self.check_aba_safety();
        let r = vec![a, b, c, d, e];
        assert(r@[0] == a && r@[1] == b && r@[2] == c && r@[3] == d && r@[4] == e);
        r
    }
}

} // verus!
