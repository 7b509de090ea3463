//! Progress guarantees and memory overhead of concurrent structures.

use crate::cascade::same_text;
use crate::text::{contains_seq, contains_str, lower_of, lowercase};
use vstd::prelude::*;

verus! {

/// Progress guarantee levels, from weakest (`Blocking`) to strongest (`WaitFree`).
#[derive(Debug, Clone, Copy, PartialEq, Eq, PartialOrd, Ord, Hash, Structural)]
pub enum ProgressGuarantee {
    /// May block indefinitely waiting for another thread.
    Blocking,
    /// Makes progress when run in isolation.
    ObstructionFree,
    /// At least one thread makes progress in any execution.
    LockFree,
    /// Every thread completes in bounded steps.
    WaitFree,
}

/// Strength of a guarantee: its position from weakest to strongest.
pub open spec fn strength(g: ProgressGuarantee) -> nat {
    match g {
        ProgressGuarantee::Blocking => 0,
        ProgressGuarantee::ObstructionFree => 1,
        ProgressGuarantee::LockFree => 2,
        ProgressGuarantee::WaitFree => 3,
    }
}

impl ProgressGuarantee {
    fn rank(&self) -> (r: u8)
        ensures
            r == strength(*self),
    {
        match self {
            ProgressGuarantee::Blocking => 0,
            ProgressGuarantee::ObstructionFree => 1,
            ProgressGuarantee::LockFree => 2,
            ProgressGuarantee::WaitFree => 3,
        }
    }

    /// A description of this guarantee.
    pub fn description(&self) -> (r: &'static str)
        ensures
            r@ == match *self {
                ProgressGuarantee::Blocking => "May block indefinitely"@,
                ProgressGuarantee::ObstructionFree => "Progress if run in isolation"@,
                ProgressGuarantee::LockFree => "At least one thread makes progress"@,
                ProgressGuarantee::WaitFree => "Every thread completes in bounded steps"@,
            },
    {
        proof {
            reveal_strlit("May block indefinitely");
            reveal_strlit("Progress if run in isolation");
            reveal_strlit("At least one thread makes progress");
            reveal_strlit("Every thread completes in bounded steps");
        }
        match self {
            ProgressGuarantee::Blocking => "May block indefinitely",
            ProgressGuarantee::ObstructionFree => "Progress if run in isolation",
            ProgressGuarantee::LockFree => "At least one thread makes progress",
            ProgressGuarantee::WaitFree => "Every thread completes in bounded steps",
        }
    }

    /// Whether this guarantee is at least as strong as `other`.
    pub fn at_least(&self, other: ProgressGuarantee) -> (r: bool)
        ensures
            r == (strength(*self) >= strength(other)),
    {
        self.rank() >= other.rank()
    }
}

/// Performance profile of an implementation.
#[derive(Debug, Clone)]
pub struct PerfProfile {
    /// Progress guarantee.
    pub progress: ProgressGuarantee,
    /// Memory overhead per element, in bytes.
    pub memory_overhead_bytes: u64,
    /// Whether it uses helping (as wait-free designs do).
    pub uses_helping: bool,
    /// Bound on retries, for lock-free designs with bounded retries.
    pub retry_count_max: Option<u64>,
    /// Notes on performance.
    pub notes: Vec<String>,
}

impl PerfProfile {
    /// A profile with the given guarantee and nothing else recorded.
    pub fn new(progress: ProgressGuarantee) -> (r: Self)
        ensures
            r.progress == progress,
            r.memory_overhead_bytes == 0,
            !r.uses_helping,
            r.retry_count_max.is_none(),
            r.notes@.len() == 0,
    {
        PerfProfile { progress, memory_overhead_bytes: 0, uses_helping: false, retry_count_max: None, notes: Vec::new() }
    }

    /// Set the memory overhead per element.
    pub fn with_memory_overhead(self, bytes: u64) -> (r: Self)
        ensures
            r == (PerfProfile { memory_overhead_bytes: bytes, ..self }),
    {
        let mut p = self;
        p.memory_overhead_bytes = bytes;
        p
    }

    /// Mark the profile as using helping.
    pub fn with_helping(self) -> (r: Self)
        ensures
            r == (PerfProfile { uses_helping: true, ..self }),
    {
        let mut p = self;
        p.uses_helping = true;
        p
    }

    /// Set the bound on retries.
    pub fn with_retry_count_max(self, count: u64) -> (r: Self)
        ensures
            r == (PerfProfile { retry_count_max: Some(count), ..self }),
    {
        let mut p = self;
        p.retry_count_max = Some(count);
        p
    }

    /// Add a note.
    pub fn with_note(self, note: &str) -> (r: Self)
        ensures
            r.progress == self.progress,
            r.memory_overhead_bytes == self.memory_overhead_bytes,
            r.uses_helping == self.uses_helping,
            r.retry_count_max == self.retry_count_max,
            r.notes@.len() == self.notes@.len() + 1,
            forall|i: int| 0 <= i < self.notes@.len() ==> r.notes@[i] == self.notes@[i],
            r.notes@.last()@ == note@,
    {
        let mut p = self;
        p.notes.push(note.to_owned());
        p
    }
}

/// The guarantee that `analyze_progress_guarantee` reads off `code`.
pub open spec fn progress_of(code: Seq<char>) -> ProgressGuarantee {
    if contains_seq(code, "helping"@) || contains_seq(code, "announce"@) {
        ProgressGuarantee::WaitFree
    } else if contains_seq(code, "compare_exchange"@) || contains_seq(code, "compare_and_swap"@) {
        ProgressGuarantee::LockFree
    } else if contains_seq(code, "Mutex"@) || contains_seq(code, "RwLock"@) || contains_seq(code, ".lock()"@) {
        ProgressGuarantee::Blocking
    } else {
        ProgressGuarantee::ObstructionFree
    }
}

/// Heuristic reading of a progress guarantee from source text: helping or
/// announcement means wait-free, a compare-and-swap loop lock-free, a lock
/// blocking, and anything else obstruction-free. Not a proof.
pub fn analyze_progress_guarantee(code: &str) -> (r: ProgressGuarantee)
    ensures
        r == progress_of(code@),
{
    if contains_str(code, "helping") || contains_str(code, "announce") {
        return ProgressGuarantee::WaitFree;
    }
    if contains_str(code, "compare_exchange") || contains_str(code, "compare_and_swap") {
        return ProgressGuarantee::LockFree;
    }
    if contains_str(code, "Mutex") || contains_str(code, "RwLock") || contains_str(code, ".lock()") {
        return ProgressGuarantee::Blocking;
    }
    ProgressGuarantee::ObstructionFree
}

/// The guarantee a lowercase name or number denotes; anything else is lock-freedom.
pub open spec fn progress_named(name: Seq<char>) -> ProgressGuarantee {
    if name == "blocking"@ || name == "0"@ {
        ProgressGuarantee::Blocking
    } else if name == "obstruction-free"@ || name == "obstruction"@ || name == "1"@ {
        ProgressGuarantee::ObstructionFree
    } else if name == "lock-free"@ || name == "lockfree"@ || name == "2"@ {
        ProgressGuarantee::LockFree
    } else if name == "wait-free"@ || name == "waitfree"@ || name == "3"@ {
        ProgressGuarantee::WaitFree
    } else {
        ProgressGuarantee::LockFree
    }
}

/// The progress guarantee named by `s`, in any letter case, or by its
/// number; anything else selects lock-freedom.
pub fn parse_progress(s: &str) -> (r: ProgressGuarantee)
    ensures
        r == progress_named(lower_of(s@)),
{
    let lower = lowercase(s);
    progress_from_lowercase(lower.as_str())
}

/// The value named by `l`, already in lowercase: see `progress_named`.
pub fn progress_from_lowercase(l: &str) -> (r: ProgressGuarantee)
    ensures
        r == progress_named(l@),
{
    proof {
        reveal_strlit("blocking");
        reveal_strlit("0");
        reveal_strlit("obstruction-free");
        reveal_strlit("obstruction");
        reveal_strlit("1");
        reveal_strlit("lock-free");
        reveal_strlit("lockfree");
        reveal_strlit("2");
        reveal_strlit("wait-free");
        reveal_strlit("waitfree");
        reveal_strlit("3");
    }
    if same_text(l, "blocking") || same_text(l, "0") {
        ProgressGuarantee::Blocking
    } else if same_text(l, "obstruction-free") || same_text(l, "obstruction") || same_text(l, "1") {
        ProgressGuarantee::ObstructionFree
    } else if same_text(l, "lock-free") || same_text(l, "lockfree") || same_text(l, "2") {
        ProgressGuarantee::LockFree
    } else if same_text(l, "wait-free") || same_text(l, "waitfree") || same_text(l, "3") {
        ProgressGuarantee::WaitFree
    } else {
        ProgressGuarantee::LockFree
    }
}

/// Memory overhead of a structure.
#[derive(Debug, Clone)]
pub struct MemoryOverhead {
    /// Bytes per element.
    pub per_element_bytes: u64,
    /// Fixed bytes.
    pub fixed_bytes: u64,
    /// What contributes to the overhead, and how much.
    pub breakdown: Vec<(String, u64)>,
}

impl MemoryOverhead {
    /// Total bytes for `elements_count` elements; the total must fit in a `u64`.
    pub fn total_bytes(&self, elements_count: u64) -> (r: u64)
        requires
            self.fixed_bytes + self.per_element_bytes * elements_count <= u64::MAX,
        ensures
            r == self.fixed_bytes + self.per_element_bytes * elements_count,
    {
        proof {
            assert(self.per_element_bytes * elements_count <= u64::MAX) by (nonlinear_arith)
                requires
                    self.fixed_bytes + self.per_element_bytes * elements_count <= u64::MAX,
            ;
        }
        self.fixed_bytes + self.per_element_bytes * elements_count
    }
}

} // verus!
