//! State of a Treiber-stack model for exhaustive exploration: nodes, the
//! head pointer, per-thread progress, and the pushed and popped sets.

use crate::stack::{prefix_contains, vec_contains};
use std::collections::{BTreeMap, BTreeSet};
use vstd::prelude::*;

verus! {

broadcast use vstd::std_specs::btree::group_btree_axioms;

/// Node identifier.
pub type NodeId = u64;

/// Thread identifier.
pub type ThreadId = u64;

/// A node of the stack.
#[derive(Debug, Clone, Copy, PartialEq, Eq, Hash, Structural)]
pub struct Node {
    pub value: u64,
    pub next: Option<NodeId>,
}

/// Where a thread is in its current operation.
#[derive(Debug, Clone, Copy, PartialEq, Eq, Hash, Structural)]
pub enum ThreadState {
    Idle,
    PushAllocated { node_id: NodeId, value: u64 },
    PushReadHead { node_id: NodeId, value: u64, observed_head: Option<NodeId> },
    PopReadHead { observed_head: NodeId, value: u64, next: Option<NodeId> },
}

/// State of the model.
#[derive(Debug, Clone, PartialEq, Eq, Hash)]
pub struct StackState {
    /// Top node.
    pub head: Option<NodeId>,
    /// Every node allocated.
    pub nodes: BTreeMap<NodeId, Node>,
    /// Next node identifier to allocate.
    pub node_id_next: NodeId,
    /// Values pushed.
    pub pushed: BTreeSet<u64>,
    /// Values popped.
    pub popped: BTreeSet<u64>,
    /// Per-thread progress.
    pub threads: BTreeMap<ThreadId, ThreadState>,
}

/// The values reached from `cur` by following `next`, taking at most `fuel` steps.
pub open spec fn chain(nodes: Map<NodeId, Node>, cur: Option<NodeId>, fuel: nat) -> Seq<u64>
    decreases fuel,
{
    if fuel == 0 {
        seq![]
    } else {
        match cur {
            Some(id) => if nodes.contains_key(id) {
                seq![nodes[id].value] + chain(nodes, nodes[id].next, (fuel - 1) as nat)
            } else {
                seq![]
            },
            None => seq![],
        }
    }
}

/// The contents, top to bottom: the chain from the head, at most one value per node.
pub open spec fn contents_of(s: StackState) -> Seq<u64> {
    chain(s.nodes@, s.head, s.nodes@.len())
}

/// Every pushed value is present or was popped.
pub open spec fn no_lost(s: StackState) -> bool {
    forall|e: u64| s.pushed@.contains(e) ==> contents_of(s).contains(e) || s.popped@.contains(e)
}

/// The elements of `s`, in order.
fn btree_set_elements(s: &BTreeSet<u64>) -> (r: Vec<u64>)
    ensures
        r@.to_set() == s@,
{
    let mut v: Vec<u64> = Vec::new();
    for x in iter: s.iter()
        invariant
            v@ == iter.seq().unref().take(iter.index() as int),
            iter.seq().unref().to_set() == s@,
            iter.seq().unref().take(iter.seq().len() as int) =~= iter.seq().unref(),
            iter.index() == iter.seq().len() ==> v@ == iter.seq().unref(),
    {
        v.push(*x);
    }
    v
}

impl StackState {
    /// The initial state: empty stack, threads `0..threads_count` idle.
    pub fn new(threads_count: u64) -> (r: Self)
        requires
            0 < threads_count <= 8,
        ensures
            r.head.is_none(),
            r.nodes@ == Map::<NodeId, Node>::empty(),
            r.node_id_next == 0,
            r.pushed@ == Set::<u64>::empty(),
            r.popped@ == Set::<u64>::empty(),
            r.threads@ == Map::new(|t: ThreadId| t < threads_count, |t: ThreadId| ThreadState::Idle),
    {
        let mut threads: BTreeMap<ThreadId, ThreadState> = BTreeMap::new();
        let mut tid: u64 = 0;
        while tid < threads_count
            invariant
                tid <= threads_count,
                threads@ == Map::new(|t: ThreadId| t < tid, |t: ThreadId| ThreadState::Idle),
            decreases threads_count - tid,
        {
            threads.insert(tid, ThreadState::Idle);
            tid = tid + 1;
            assert(threads@ =~= Map::new(|t: ThreadId| t < tid, |t: ThreadId| ThreadState::Idle));
        }
        StackState {
            head: None,
            nodes: BTreeMap::new(),
            node_id_next: 0,
            pushed: BTreeSet::new(),
            popped: BTreeSet::new(),
            threads,
        }
    }

    /// The contents, top to bottom, following `next` from the head; a walk
    /// takes at most one step per node, so a cyclic state ends.
    pub fn contents(&self) -> (r: Vec<u64>)
        ensures
            r@ == contents_of(*self),
    {
        let mut result: Vec<u64> = Vec::new();
        let mut current = self.head;
        let fuel_all = self.nodes.len() as u64;
        let mut fuel: u64 = fuel_all;
        while fuel > 0
            invariant
                fuel <= fuel_all,
                fuel_all == self.nodes@.len(),
                result@ + chain(self.nodes@, current, fuel as nat) == contents_of(*self),
            decreases fuel,
        {
            match current {
                Some(node_id) => {
                    match self.nodes.get(&node_id) {
                        Some(node) => {
                            let ghost before = result@;
                            result.push(node.value);
                            assert(result@ + chain(self.nodes@, node.next, (fuel - 1) as nat) =~= before
                                + chain(self.nodes@, current, fuel as nat));
                            current = node.next;
                            fuel = fuel - 1;
                        },
                        None => {
                            assert(result@ =~= result@ + chain(self.nodes@, current, fuel as nat));
                            return result;
                        },
                    }
                },
                None => {
                    assert(result@ =~= result@ + chain(self.nodes@, current, fuel as nat));
                    return result;
                },
            }
        }
        assert(result@ =~= result@ + chain(self.nodes@, current, 0));
        result
    }

    /// NoLostElements: every pushed value is in the stack or was popped.
    pub fn no_lost_elements(&self) -> (r: bool)
        ensures
            r == no_lost(*self),
    {
        let contents = self.contents();
        let pushed = btree_set_elements(&self.pushed);
        let mut i: usize = 0;
        while i < pushed.len()
            invariant
                i <= pushed.len(),
                pushed@.to_set() == self.pushed@,
                contents@ == contents_of(*self),
                forall|j: int|
                    0 <= j < i ==> contents@.contains(#[trigger] pushed@[j]) || self.popped@.contains(
                        pushed@[j],
                    ),
            decreases pushed.len() - i,
        {
            let e = pushed[i];
            if !vec_contains(&contents, e) && !self.popped.contains(&e) {
                assert(pushed@.to_set().contains(e));
                return false;
            }
            i = i + 1;
        }
        assert forall|e: u64| self.pushed@.contains(e) implies contents_of(*self).contains(e)
            || self.popped@.contains(e) by {
            assert(pushed@.to_set().contains(e));
            let j = choose|j: int| 0 <= j < pushed@.len() && pushed@[j] == e;
            assert(contents@.contains(pushed@[j]) || self.popped@.contains(pushed@[j]));
        }
        true
    }

    /// NoDuplicates: no value appears twice in the stack.
    pub fn no_duplicates(&self) -> (r: bool)
        ensures
            r == contents_of(*self).no_duplicates(),
    {
        let contents = self.contents();
        let mut i: usize = 0;
        while i < contents.len()
            invariant
                i <= contents.len(),
                contents@ == contents_of(*self),
                forall|a: int, b: int| 0 <= a < b < i ==> contents@[a] != contents@[b],
            decreases contents.len() - i,
        {
            if prefix_contains(&contents, i, contents[i]) {
                proof {
                    let k = choose|k: int| 0 <= k < i && contents@.take(i as int)[k] == contents@[i as int];
                    assert(contents@[k] == contents@[i as int]);
                }
                return false;
            }
            proof {
                assert forall|a: int| 0 <= a < i implies contents@[a] != contents@[i as int] by {
                    assert(contents@.take(i as int)[a] == contents@[a]);
                }
            }
            i = i + 1;
        }
        true
    }

    /// Both invariants.
    pub fn invariants_hold(&self) -> (r: bool)
        ensures
            r == (no_lost(*self) && contents_of(*self).no_duplicates()),
    {
        self.no_lost_elements() && self.no_duplicates()
    }
}

/// A step a thread can take.
#[derive(Debug, Clone, Copy, PartialEq, Eq, Hash, Structural)]
pub enum StackAction {
    /// Allocate a node for a push.
    PushAlloc { thread: ThreadId, value: u64 },
    /// Read the head for a push.
    PushReadHead { thread: ThreadId },
    /// Compare-and-swap to finish a push.
    PushCas { thread: ThreadId },
    /// Read the head and its value for a pop.
    PopReadHead { thread: ThreadId },
    /// Compare-and-swap to finish a pop.
    PopCas { thread: ThreadId },
}

/// Parameters of a bounded exploration.
#[derive(Debug, Clone)]
pub struct StackModel {
    pub threads_count: u64,
    pub values: Vec<u64>,
    pub operations_per_thread_max: u64,
}

impl StackModel {
    /// A model with `threads_count > 0` threads pushing from `values` (not empty).
    pub fn new(threads_count: u64, values: Vec<u64>) -> (r: Self)
        requires
            threads_count > 0,
            values@.len() > 0,
        ensures
            r.threads_count == threads_count,
            r.values@ == values@,
            r.operations_per_thread_max == 4,
    {
        StackModel { threads_count, values, operations_per_thread_max: 4 }
    }
}

/// The thread acting in `a`.
pub open spec fn actor(a: StackAction) -> ThreadId {
    match a {
        StackAction::PushAlloc { thread, .. } => thread,
        StackAction::PushReadHead { thread } => thread,
        StackAction::PushCas { thread } => thread,
        StackAction::PopReadHead { thread } => thread,
        StackAction::PopCas { thread } => thread,
    }
}

/// The value a thread in state `ts` is pushing, if any.
pub open spec fn pushed_value_of(ts: ThreadState) -> Option<u64> {
    match ts {
        ThreadState::PushAllocated { value, .. } => Some(value),
        ThreadState::PushReadHead { value, .. } => Some(value),
        _ => None,
    }
}

/// Some thread is pushing `v`: it allocated a node for it or read the head.
pub open spec fn in_flight(threads: Map<ThreadId, ThreadState>, v: u64) -> bool {
    exists|t: ThreadId| threads.contains_key(t) && #[trigger] pushed_value_of(threads[t]) == Some(v)
}

/// Whether `a` is a step the model offers in state `s`: an idle thread may
/// start pushing a value not yet pushed nor in flight, or start a pop when
/// the stack is not empty; a thread in the middle of an operation takes its
/// next step.
pub open spec fn enabled(values: Seq<u64>, s: StackState, a: StackAction) -> bool {
    let t = actor(a);
    s.threads@.contains_key(t) && match (s.threads@[t], a) {
        (ThreadState::Idle, StackAction::PushAlloc { value, .. }) => values.contains(value)
            && !s.pushed@.contains(value) && !in_flight(s.threads@, value),
        (ThreadState::Idle, StackAction::PopReadHead { .. }) => s.head.is_some(),
        (ThreadState::PushAllocated { .. }, StackAction::PushReadHead { .. }) => true,
        (ThreadState::PushReadHead { .. }, StackAction::PushCas { .. }) => true,
        (ThreadState::PopReadHead { .. }, StackAction::PopCas { .. }) => true,
        _ => false,
    }
}

/// `a` starts a push by `tid` of one of the first `n` values, and is enabled.
pub open spec fn alloc_listed(values: Seq<u64>, n: int, tid: ThreadId, s: StackState, a: StackAction) -> bool {
    match a {
        StackAction::PushAlloc { thread, value } => thread == tid && values.take(n).contains(value) && enabled(
            values,
            s,
            a,
        ),
        _ => false,
    }
}

/// The value thread state `ts` is pushing, if any.
fn pushing_value(ts: ThreadState) -> (r: Option<u64>)
    ensures
        r == pushed_value_of(ts),
{
    match ts {
        ThreadState::PushAllocated { value, .. } => Some(value),
        ThreadState::PushReadHead { value, .. } => Some(value),
        _ => None,
    }
}

/// The entries of `threads`, each once.
fn thread_entries(threads: &BTreeMap<ThreadId, ThreadState>) -> (r: Vec<(ThreadId, ThreadState)>)
    ensures
        forall|j: int|
            0 <= j < r@.len() ==> threads@.contains_key((#[trigger] r@[j]).0) && threads@[r@[j].0] == r@[j].1,
        forall|t: ThreadId| #[trigger] threads@.contains_key(t) ==> exists|j: int| 0 <= j < r@.len() && r@[j].0 == t,
{
    let mut v: Vec<(ThreadId, ThreadState)> = Vec::new();
    for kv in iter: threads.iter()
        invariant
            v@.len() == iter.index(),
            forall|j: int| 0 <= j < v@.len() ==> v@[j] == (*iter.seq()[j].0, *iter.seq()[j].1),
            forall|j: int|
                0 <= j < iter.seq().len() ==> threads@.contains_key(*(#[trigger] iter.seq()[j]).0)
                    && threads@[*iter.seq()[j].0] == *iter.seq()[j].1,
            forall|t: ThreadId| #[trigger] threads@.contains_key(t) ==> iter.seq().contains((&t, &threads@[t])),
            forall|j: int|
                0 <= j < v@.len() ==> threads@.contains_key((#[trigger] v@[j]).0) && threads@[v@[j].0] == v@[j].1,
            iter.index() == iter.seq().len() ==> forall|t: ThreadId| #[trigger]
                threads@.contains_key(t) ==> exists|j: int| 0 <= j < v@.len() && v@[j].0 == t,
    {
        let (t, ts) = kv;
        v.push((*t, *ts));
        proof {
            assert forall|k: ThreadId|
                #[trigger] threads@.contains_key(k) && iter.index() + 1 == iter.seq().len() implies exists|j: int|
                0 <= j < v@.len() && v@[j].0 == k by {
                let i = choose|i: int| 0 <= i < iter.seq().len() && iter.seq()[i] == (&k, &threads@[k]);
                assert(v@[i].0 == k);
            }
        }
    }
    v
}

/// The values that some thread is pushing.
fn values_in_flight(entries: &Vec<(ThreadId, ThreadState)>, threads: &BTreeMap<ThreadId, ThreadState>) -> (r: Vec<u64>)
    requires
        forall|j: int|
            0 <= j < entries@.len() ==> threads@.contains_key((#[trigger] entries@[j]).0) && threads@[entries@[j].0]
                == entries@[j].1,
        forall|t: ThreadId| #[trigger] threads@.contains_key(t) ==> exists|j: int| 0 <= j < entries@.len() && entries@[j].0 == t,
    ensures
        forall|v: u64| r@.contains(v) <==> in_flight(threads@, v),
{
    let mut out: Vec<u64> = Vec::new();
    let mut i: usize = 0;
    while i < entries.len()
        invariant
            i <= entries@.len(),
            forall|v: u64|
                out@.contains(v) <==> exists|j: int| 0 <= j < i && #[trigger] pushed_value_of(entries@[j].1) == Some(v),
        decreases entries@.len() - i,
    {
        let ghost before = out@;
        if let Some(v) = pushing_value(entries[i].1) {
            out.push(v);
        }
        proof {
            assert forall|w: u64|
                out@.contains(w) <==> exists|j: int| 0 <= j < i + 1 && #[trigger] pushed_value_of(entries@[j].1) == Some(w) by {
                if out@.contains(w) {
                    let k = choose|k: int| 0 <= k < out@.len() && out@[k] == w;
                    if k < before.len() {
                        assert(before[k] == w);
                        assert(before.contains(w));
                    } else {
                        assert(pushed_value_of(entries@[i as int].1) == Some(w));
                    }
                }
                if exists|j: int| 0 <= j < i + 1 && #[trigger] pushed_value_of(entries@[j].1) == Some(w) {
                    let j = choose|j: int| 0 <= j < i + 1 && #[trigger] pushed_value_of(entries@[j].1) == Some(w);
                    if j < i {
                        assert(before.contains(w));
                        let k = choose|k: int| 0 <= k < before.len() && before[k] == w;
                        assert(out@[k] == w);
                    } else {
                        assert(out@[out@.len() - 1] == w);
                    }
                }
            }
        }
        i = i + 1;
    }
    assert forall|w: u64| out@.contains(w) <==> in_flight(threads@, w) by {
        if in_flight(threads@, w) {
            let t = choose|t: ThreadId| threads@.contains_key(t) && #[trigger] pushed_value_of(threads@[t]) == Some(w);
            let j = choose|j: int| 0 <= j < entries@.len() && entries@[j].0 == t;
            assert(pushed_value_of(entries@[j].1) == Some(w));
        }
        if out@.contains(w) {
            let j = choose|j: int| 0 <= j < entries@.len() && #[trigger] pushed_value_of(entries@[j].1) == Some(w);
            assert(threads@.contains_key(entries@[j].0));
        }
    }
    out
}

/// What `next_state` reads and writes of a state: head, nodes, next node
/// identifier, pushed and popped sets, and thread progress.
pub type StateView = (Option<NodeId>, Map<NodeId, Node>, NodeId, Set<u64>, Set<u64>, Map<ThreadId, ThreadState>);

/// The view of `s`.
pub open spec fn state_view(s: StackState) -> StateView {
    (s.head, s.nodes@, s.node_id_next, s.pushed@, s.popped@, s.threads@)
}

/// The state after action `a` from `v`; an action whose thread is not in
/// the expected phase changes nothing.
pub open spec fn next_view(v: StateView, a: StackAction) -> StateView {
    let (head, nodes, id_next, pushed, popped, threads) = v;
    match a {
        StackAction::PushAlloc { thread, value } => (
            head,
            nodes.insert(id_next, Node { value, next: None }),
            (id_next + 1) as u64,
            pushed,
            popped,
            threads.insert(thread, ThreadState::PushAllocated { node_id: id_next, value }),
        ),
        StackAction::PushReadHead { thread } => if threads.contains_key(thread) {
            match threads[thread] {
                ThreadState::PushAllocated { node_id, value } => (
                    head,
                    if nodes.contains_key(node_id) {
                        nodes.insert(node_id, Node { value: nodes[node_id].value, next: head })
                    } else {
                        nodes
                    },
                    id_next,
                    pushed,
                    popped,
                    threads.insert(thread, ThreadState::PushReadHead { node_id, value, observed_head: head }),
                ),
                _ => v,
            }
        } else {
            v
        },
        StackAction::PushCas { thread } => if threads.contains_key(thread) {
            match threads[thread] {
                ThreadState::PushReadHead { node_id, value, observed_head } => if head == observed_head {
                    (Some(node_id), nodes, id_next, pushed.insert(value), popped, threads.insert(thread, ThreadState::Idle))
                } else {
                    (head, nodes, id_next, pushed, popped, threads.insert(thread, ThreadState::PushAllocated { node_id, value }))
                },
                _ => v,
            }
        } else {
            v
        },
        StackAction::PopReadHead { thread } => match head {
            Some(h) => if nodes.contains_key(h) {
                (
                    head,
                    nodes,
                    id_next,
                    pushed,
                    popped,
                    threads.insert(
                        thread,
                        ThreadState::PopReadHead { observed_head: h, value: nodes[h].value, next: nodes[h].next },
                    ),
                )
            } else {
                v
            },
            None => v,
        },
        StackAction::PopCas { thread } => if threads.contains_key(thread) {
            match threads[thread] {
                ThreadState::PopReadHead { observed_head, value, next } => if head == Some(observed_head) {
                    (next, nodes, id_next, pushed, popped.insert(value), threads.insert(thread, ThreadState::Idle))
                } else {
                    (head, nodes, id_next, pushed, popped, threads.insert(thread, ThreadState::Idle))
                },
                _ => v,
            }
        } else {
            v
        },
    }
}

/// The phase of thread `t`, if it exists.
fn thread_at(threads: &BTreeMap<ThreadId, ThreadState>, t: ThreadId) -> (r: Option<ThreadState>)
    ensures
        r == if threads@.contains_key(t) { Some(threads@[t]) } else { None },
{
    match threads.get(&t) {
        Some(ts) => Some(*ts),
        None => None,
    }
}

/// Node `id`, if it exists.
fn node_at(nodes: &BTreeMap<NodeId, Node>, id: NodeId) -> (r: Option<Node>)
    ensures
        r == if nodes@.contains_key(id) { Some(nodes@[id]) } else { None },
{
    match nodes.get(&id) {
        Some(n) => Some(*n),
        None => None,
    }
}

impl StackState {
    /// A copy of this state.
    pub fn duplicate(&self) -> (r: Self)
        ensures
            state_view(r) == state_view(*self),
    {
        StackState {
            head: self.head,
            nodes: self.nodes.clone(),
            node_id_next: self.node_id_next,
            pushed: self.pushed.clone(),
            popped: self.popped.clone(),
            threads: self.threads.clone(),
        }
    }
}

impl StackModel {
    /// The initial states: just the one with every thread idle.
    pub fn init_states(&self) -> (r: Vec<StackState>)
        requires
            0 < self.threads_count <= 8,
        ensures
            r@.len() == 1,
            r@[0].head.is_none() && r@[0].nodes@ == Map::<NodeId, Node>::empty(),
            r@[0].threads@ == Map::new(|t: ThreadId| t < self.threads_count, |t: ThreadId| ThreadState::Idle),
            r@[0].pushed@ == Set::<u64>::empty() && r@[0].popped@ == Set::<u64>::empty(),
            r@[0].node_id_next == 0,
    {
        vec![StackState::new(self.threads_count)]
    }

    /// Actions of thread `tid`, in phase `ts`, appended to `out`.
    fn thread_actions(
        &self,
        state: &StackState,
        tid: ThreadId,
        ts: ThreadState,
        in_flight_values: &Vec<u64>,
    ) -> (out: Vec<StackAction>)
        requires
            state.threads@.contains_key(tid),
            state.threads@[tid] == ts,
            forall|v: u64| in_flight_values@.contains(v) <==> in_flight(state.threads@, v),
        ensures
            forall|a: StackAction| out@.contains(a) <==> actor(a) == tid && enabled(self.values@, *state, a),
    {
        let mut out: Vec<StackAction> = Vec::new();
        let ghost start = out@;
        match ts {
            ThreadState::Idle => {
                let mut k: usize = 0;
                while k < self.values.len()
                    invariant
                        k <= self.values@.len(),
                        state.threads@.contains_key(tid),
                        state.threads@[tid] == ts,
                        ts == ThreadState::Idle,
                        start == Seq::<StackAction>::empty(),
                        forall|v: u64| in_flight_values@.contains(v) <==> in_flight(state.threads@, v),
                        forall|a: StackAction|
                            #![trigger out@.contains(a)]
                            #![trigger alloc_listed(self.values@, k as int, tid, *state, a)]
                            out@.contains(a) <==> start.contains(a) || alloc_listed(self.values@, k as int, tid, *state, a),
                    decreases self.values@.len() - k,
                {
                    let v = self.values[k];
                    let ghost before = out@;
                    let fresh = !state.pushed.contains(&v) && !vec_contains(in_flight_values, v);
                    if fresh {
                        out.push(StackAction::PushAlloc { thread: tid, value: v });
                    }
                    let ghost k0: int = k as int;
                    k = k + 1;
                    proof {
                        let new_a = StackAction::PushAlloc { thread: tid, value: v };
                        assert(self.values@.take(k as int) =~= self.values@.take(k0).push(v));
                        assert(self.values@.take(k as int)[k0] == v);
                        assert(self.values@[k0] == v);
                        assert(fresh == enabled(self.values@, *state, new_a));
                        assert forall|a: StackAction|
                            out@.contains(a) <==> start.contains(a) || alloc_listed(self.values@, k as int, tid, *state, a) by {
                            assert(start.contains(a) ==> before.contains(a));
                            assert(before.contains(a) ==> out@.contains(a)) by {
                                if before.contains(a) {
                                    let j = choose|j: int| 0 <= j < before.len() && before[j] == a;
                                    assert(out@[j] == a);
                                }
                            }
                            if fresh {
                                assert(out@ == before.push(new_a));
                                assert(out@[out@.len() - 1] == new_a);
                                if out@.contains(a) && !before.contains(a) {
                                    let j = choose|j: int| 0 <= j < out@.len() && out@[j] == a;
                                    assert(j == out@.len() - 1);
                                    assert(a == new_a);
                                }
                            }
                            if let StackAction::PushAlloc { thread, value } = a {
                                if self.values@.take(k0).contains(value) {
                                    let j = choose|j: int| 0 <= j < k0 && #[trigger] self.values@.take(k0)[j] == value;
                                    assert(self.values@.take(k as int)[j] == value);
                                }
                                if thread == tid && self.values@.take(k as int).contains(value) && !self.values@.take(
                                    k0,
                                ).contains(value) && enabled(self.values@, *state, a) {
                                    let j = choose|j: int| 0 <= j < k as int && #[trigger] self.values@.take(k as int)[j] == value;
                                    if j < k0 {
                                        assert(self.values@.take(k0)[j] == value);
                                    }
                                    assert(value == v);
                                    assert(a == new_a);
                                    assert(fresh);
                                    assert(out@.contains(a));
                                }
                                if out@.contains(a) {
                                    if before.contains(a) {
                                        assert(start.contains(a) || (thread == tid && self.values@.take(k0).contains(value) && enabled(self.values@, *state, a)));
                                    } else {
                                        assert(a == new_a);
                                        assert(self.values@.take(k as int).contains(value));
                                    }
                                }
                            } else {
                                if out@.contains(a) {
                                    assert(before.contains(a));
                                    assert(start.contains(a));
                                }
                            }
                        }
                    }
                }
                assert(self.values@.take(self.values@.len() as int) =~= self.values@);
                let ghost before = out@;
                if state.head.is_some() {
                    out.push(StackAction::PopReadHead { thread: tid });
                }
                proof {
                    let pop_a = StackAction::PopReadHead { thread: tid };
                    assert forall|a: StackAction|
                        #![trigger out@.contains(a)]
                        #![trigger start.contains(a)]
                        out@.contains(a) <==> start.contains(a) || (actor(a) == tid && enabled(self.values@, *state, a)) by {
                        assert(before.contains(a) ==> out@.contains(a)) by {
                            if before.contains(a) {
                                let j = choose|j: int| 0 <= j < before.len() && before[j] == a;
                                assert(out@[j] == a);
                            }
                        }
                        if state.head.is_some() {
                            assert(out@ == before.push(pop_a));
                            assert(out@[out@.len() - 1] == pop_a);
                            if out@.contains(a) && !before.contains(a) {
                                let j = choose|j: int| 0 <= j < out@.len() && out@[j] == a;
                                assert(j == out@.len() - 1);
                            }
                        } else {
                            assert(out@ == before);
                        }
                        match a {
                            StackAction::PushAlloc { thread, value } => {
                                if actor(a) == tid && enabled(self.values@, *state, a) {
                                    assert(self.values@.take(self.values@.len() as int).contains(value));
                                    assert(alloc_listed(self.values@, self.values@.len() as int, tid, *state, a));
                                    assert(k as int == self.values@.len());
                                    assert(alloc_listed(self.values@, k as int, tid, *state, a));
                                    assert(before.contains(a));
                                }
                                if before.contains(a) && !start.contains(a) {
                                    assert(alloc_listed(self.values@, self.values@.len() as int, tid, *state, a));
                                }
                            },
                            StackAction::PopReadHead { thread } => {
                                if before.contains(a) {
                                    assert(start.contains(a));
                                }
                            },
                            _ => {
                                if before.contains(a) {
                                    assert(start.contains(a));
                                }
                            },
                        }
                    }
                }
            },
            ThreadState::PushAllocated { .. } => {
                out.push(StackAction::PushReadHead { thread: tid });
                proof {
                    assert forall|a: StackAction|
                        out@.contains(a) <==> start.contains(a) || (actor(a) == tid && enabled(self.values@, *state, a)) by {
                        if start.contains(a) {
                            let j = choose|j: int| 0 <= j < start.len() && start[j] == a;
                            assert(out@[j] == a);
                        }
                        if actor(a) == tid && enabled(self.values@, *state, a) {
                            assert(out@[out@.len() - 1] == a);
                        }
                    }
                }
            },
            ThreadState::PushReadHead { .. } => {
                out.push(StackAction::PushCas { thread: tid });
                proof {
                    assert forall|a: StackAction|
                        out@.contains(a) <==> start.contains(a) || (actor(a) == tid && enabled(self.values@, *state, a)) by {
                        if start.contains(a) {
                            let j = choose|j: int| 0 <= j < start.len() && start[j] == a;
                            assert(out@[j] == a);
                        }
                        if actor(a) == tid && enabled(self.values@, *state, a) {
                            assert(out@[out@.len() - 1] == a);
                        }
                    }
                }
            },
            ThreadState::PopReadHead { .. } => {
                out.push(StackAction::PopCas { thread: tid });
                proof {
                    assert forall|a: StackAction|
                        out@.contains(a) <==> start.contains(a) || (actor(a) == tid && enabled(self.values@, *state, a)) by {
                        if start.contains(a) {
                            let j = choose|j: int| 0 <= j < start.len() && start[j] == a;
                            assert(out@[j] == a);
                        }
                        if actor(a) == tid && enabled(self.values@, *state, a) {
                            assert(out@[out@.len() - 1] == a);
                        }
                    }
                }
            },
        }
        out
    }

    /// Every action enabled in `state`, each thread's in turn.
    pub fn actions(&self, state: &StackState) -> (r: Vec<StackAction>)
        ensures
            forall|a: StackAction| r@.contains(a) <==> enabled(self.values@, *state, a),
    {
        let entries = thread_entries(&state.threads);
        let in_flight_values = values_in_flight(&entries, &state.threads);
        let mut out: Vec<StackAction> = Vec::new();
        let mut i: usize = 0;
        while i < entries.len()
            invariant
                i <= entries@.len(),
                forall|j: int|
                    0 <= j < entries@.len() ==> state.threads@.contains_key((#[trigger] entries@[j]).0)
                        && state.threads@[entries@[j].0] == entries@[j].1,
                forall|v: u64| in_flight_values@.contains(v) <==> in_flight(state.threads@, v),
                forall|a: StackAction|
                    out@.contains(a) <==> enabled(self.values@, *state, a) && exists|j: int|
                        0 <= j < i && (#[trigger] entries@[j]).0 == actor(a),
            decreases entries@.len() - i,
        {
            let (tid, ts) = entries[i];
            let ghost before = out@;
            let mut more = self.thread_actions(state, tid, ts, &in_flight_values);
            let ghost added = more@;
            out.append(&mut more);
            proof {
                assert forall|a: StackAction| #[trigger] out@.contains(a) <==> before.contains(a) || added.contains(a) by {
                    if out@.contains(a) {
                        let j = choose|j: int| 0 <= j < out@.len() && out@[j] == a;
                        if j < before.len() {
                            assert(before[j] == a);
                        } else {
                            assert(added[j - before.len()] == a);
                        }
                    }
                    if before.contains(a) {
                        let j = choose|j: int| 0 <= j < before.len() && before[j] == a;
                        assert(out@[j] == a);
                    }
                    if added.contains(a) {
                        let j = choose|j: int| 0 <= j < added.len() && added[j] == a;
                        assert(out@[before.len() + j] == a);
                    }
                }
                assert forall|a: StackAction|
                    out@.contains(a) <==> enabled(self.values@, *state, a) && exists|j: int|
                        0 <= j < i + 1 && (#[trigger] entries@[j]).0 == actor(a) by {
                    if enabled(self.values@, *state, a) && actor(a) == tid {
                        assert(entries@[i as int].0 == actor(a));
                    }
                    if exists|j: int| 0 <= j < i + 1 && (#[trigger] entries@[j]).0 == actor(a) {
                        let j = choose|j: int| 0 <= j < i + 1 && (#[trigger] entries@[j]).0 == actor(a);
                        if j == i {
                            assert(actor(a) == tid);
                        }
                    }
                }
            }
            i = i + 1;
        }
        proof {
            assert forall|a: StackAction| enabled(self.values@, *state, a) implies exists|j: int|
                0 <= j < i && (#[trigger] entries@[j]).0 == actor(a) by {
                assert(state.threads@.contains_key(actor(a)));
            }
        }
        out
    }

    /// The state after `action`; an action whose thread is not in the
    /// expected phase leaves the state as it was.
    pub fn next_state(&self, state: &StackState, action: StackAction) -> (r: Option<StackState>)
        requires
            state.node_id_next < u64::MAX,
        ensures
            r matches Some(n) && state_view(n) == next_view(state_view(*state), action),
    {
        let mut next = state.duplicate();
        match action {
            StackAction::PushAlloc { thread, value } => {
                let node_id = next.node_id_next;
                next.node_id_next = next.node_id_next + 1;
                next.nodes.insert(node_id, Node { value, next: None });
                next.threads.insert(thread, ThreadState::PushAllocated { node_id, value });
            },
            StackAction::PushReadHead { thread } => {
                if let Some(ThreadState::PushAllocated { node_id, value }) = thread_at(&next.threads, thread) {
                    if let Some(node) = node_at(&next.nodes, node_id) {
                        next.nodes.insert(node_id, Node { value: node.value, next: next.head });
                    }
                    next.threads.insert(
                        thread,
                        ThreadState::PushReadHead { node_id, value, observed_head: next.head },
                    );
                }
            },
            StackAction::PushCas { thread } => {
                if let Some(ThreadState::PushReadHead { node_id, value, observed_head }) = thread_at(&next.threads, thread) {
                    if next.head == observed_head {
                        next.head = Some(node_id);
                        next.pushed.insert(value);
                        next.threads.insert(thread, ThreadState::Idle);
                    } else {
                        next.threads.insert(thread, ThreadState::PushAllocated { node_id, value });
                    }
                }
            },
            StackAction::PopReadHead { thread } => {
                if let Some(head_id) = next.head {
                    if let Some(node) = node_at(&next.nodes, head_id) {
                        next.threads.insert(
                            thread,
                            ThreadState::PopReadHead { observed_head: head_id, value: node.value, next: node.next },
                        );
                    }
                }
            },
            StackAction::PopCas { thread } => {
                if let Some(ThreadState::PopReadHead { observed_head, value, next: next_ptr }) = thread_at(&next.threads, thread) {
                    if next.head == Some(observed_head) {
                        next.head = next_ptr;
                        next.popped.insert(value);
                        next.threads.insert(thread, ThreadState::Idle);
                    } else {
                        next.threads.insert(thread, ThreadState::Idle);
                    }
                }
            },
        }
        Some(next)
    }
}

} // verus!
