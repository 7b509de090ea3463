//! Verdicts on named invariants, each traceable to its place in a formal
//! specification, and the generic checker contract.

use crate::counterexample::{diagram_text, Counterexample};
use crate::text::{decimal, push_str, u64_to_decimal};
use vstd::prelude::*;

verus! {

/// The verdict on one invariant.
#[derive(Debug, Clone)]
pub struct PropertyResult {
    /// Invariant name, e.g. `NoLostElements`.
    pub name: &'static str,
    /// Whether the invariant holds.
    pub holds: bool,
    /// What went wrong, when it does not hold.
    pub violation: Option<String>,
    /// Specification file that states the invariant.
    pub tla_spec: &'static str,
    /// Line of the invariant in that file.
    pub tla_line: u32,
    /// Evidence that reproduces the violation, when captured.
    pub counterexample: Option<Counterexample>,
}

/// `[PASS] name (spec:line)` or `[FAIL] name (spec:line): violation`.
pub open spec fn status_text(r: PropertyResult) -> Seq<char> {
    let locator = " ("@ + r.tla_spec@ + ":"@ + decimal(r.tla_line as nat) + ")"@;
    if r.holds {
        "[PASS] "@ + r.name@ + locator
    } else {
        "[FAIL] "@ + r.name@ + locator + ": "@ + match r.violation {
            Some(v) => v@,
            None => "unknown"@,
        }
    }
}

impl PropertyResult {
    /// A passing verdict; name and file must be non-empty and the line positive.
    pub fn pass(name: &'static str, tla_spec: &'static str, tla_line: u32) -> (r: Self)
        requires
            name@.len() > 0,
            tla_spec@.len() > 0,
            tla_line > 0,
        ensures
            r == (PropertyResult { name, holds: true, violation: None, tla_spec, tla_line, counterexample: None }),
    {
        PropertyResult { name, holds: true, violation: None, tla_spec, tla_line, counterexample: None }
    }

    /// A failing verdict; as for `pass`, and the violation must be non-empty.
    pub fn fail(
        name: &'static str,
        tla_spec: &'static str,
        tla_line: u32,
        violation: String,
        counterexample: Option<Counterexample>,
    ) -> (r: Self)
        requires
            name@.len() > 0,
            tla_spec@.len() > 0,
            tla_line > 0,
            violation@.len() > 0,
        ensures
            r == (PropertyResult {
                name,
                holds: false,
                violation: Some(violation),
                tla_spec,
                tla_line,
                counterexample,
            }),
    {
        PropertyResult { name, holds: false, violation: Some(violation), tla_spec, tla_line, counterexample }
    }

    /// One line for logs.
    pub fn format_status(&self) -> (r: String)
        ensures
            r@ == status_text(*self),
    {
        proof {
            reveal_strlit(" (");
            reveal_strlit(":");
            reveal_strlit(")");
            reveal_strlit("[PASS] ");
            reveal_strlit("[FAIL] ");
            reveal_strlit(": ");
            reveal_strlit("unknown");
        }
        let mut r = if self.holds {
            String::from_str("[PASS] ")
        } else {
            String::from_str("[FAIL] ")
        };
        push_str(&mut r, self.name);
        push_str(&mut r, " (");
        push_str(&mut r, self.tla_spec);
        push_str(&mut r, ":");
        push_str(&mut r, u64_to_decimal(self.tla_line as u64).as_str());
        push_str(&mut r, ")");
        if !self.holds {
            push_str(&mut r, ": ");
            match &self.violation {
                Some(v) => push_str(&mut r, v.as_str()),
                None => push_str(&mut r, "unknown"),
            }
        }
        r
    }
}

/// The first failing verdict of `rs`, or `Ok` when all hold.
pub open spec fn first_failure(rs: Seq<PropertyResult>) -> Result<(), PropertyResult>
    decreases rs.len(),
{
    if rs.len() == 0 {
        Ok(())
    } else if !rs[0].holds {
        Err(rs[0])
    } else {
        first_failure(rs.drop_first())
    }
}

/// How many verdicts of `rs` hold.
pub open spec fn passed_count(rs: Seq<PropertyResult>) -> nat
    decreases rs.len(),
{
    if rs.len() == 0 {
        0
    } else {
        passed_count(rs.drop_last()) + if rs.last().holds { 1nat } else { 0nat }
    }
}

/// `rs` holds one verdict per name of `names`, in order.
pub open spec fn results_match(rs: Seq<PropertyResult>, names: Seq<Seq<char>>) -> bool {
    &&& rs.len() == names.len()
    &&& forall|i: int| 0 <= i < rs.len() ==> (#[trigger] rs[i]).name@ == names[i]
}

/// The summary of `rs`.
pub open spec fn summary_of(rs: Seq<PropertyResult>) -> (u64, u64, u64) {
    (passed_count(rs) as u64, (rs.len() - passed_count(rs)) as u64, rs.len() as u64)
}

proof fn lemma_passed_count_bound(rs: Seq<PropertyResult>)
    ensures
        passed_count(rs) <= rs.len(),
    decreases rs.len(),
{
    if rs.len() > 0 {
        lemma_passed_count_bound(rs.drop_last());
    }
}

/// The first failing verdict of `results`, or `Ok(())` when every one holds.
pub fn first_failure_of(results: Vec<PropertyResult>) -> (r: Result<(), PropertyResult>)
    ensures
        r == first_failure(results@),
{
    match first_failing_position(&results) {
        None => Ok(()),
        Some(i) => {
            let ghost all = results@;
            let mut rs = results;
            assert(rs@ == all);
            let failed = take_at(&mut rs, i);
            Err(failed)
        },
    }
}

/// Move element `i` out of `rs`.
fn take_at(rs: &mut Vec<PropertyResult>, i: usize) -> (r: PropertyResult)
    requires
        i < old(rs)@.len(),
    ensures
        r == old(rs)@[i as int],
{
    rs.remove(i)
}

/// The position of the first failing verdict, if any.
fn first_failing_position(results: &Vec<PropertyResult>) -> (r: Option<usize>)
    ensures
        r matches Some(i) ==> i < results@.len() && first_failure(results@) == Err::<(), PropertyResult>(
            results@[i as int],
        ),
        r is None ==> first_failure(results@) == Ok::<(), PropertyResult>(()),
{
    let mut i: usize = 0;
    while i < results.len()
        invariant
            i <= results.len(),
            forall|j: int| 0 <= j < i ==> (#[trigger] results@[j]).holds,
        decreases results.len() - i,
    {
        if !results[i].holds {
            proof {
                lemma_first_failure(results@, i as int);
                lemma_first_failure_at(results@, i as int);
            }
            return Some(i);
        }
        i = i + 1;
    }
    proof {
        lemma_first_failure(results@, i as int);
    }
    assert(results@.skip(i as int).len() == 0);
    None
}

/// Whether every verdict of `results` holds.
pub fn all_hold_of(results: &Vec<PropertyResult>) -> (r: bool)
    ensures
        r == (forall|i: int| 0 <= i < results@.len() ==> (#[trigger] results@[i]).holds),
{
    let mut i: usize = 0;
    while i < results.len()
        invariant
            i <= results.len(),
            forall|j: int| 0 <= j < i ==> (#[trigger] results@[j]).holds,
        decreases results.len() - i,
    {
        if !results[i].holds {
            return false;
        }
        i = i + 1;
    }
    true
}

/// Count the verdicts and keep them.
pub fn summarize(results: Vec<PropertyResult>) -> (r: PropertySummary)
    ensures
        r.results@ == results@,
        (r.passed, r.failed, r.total) == summary_of(results@),
        r.passed + r.failed == r.total,
{
    let mut passed: u64 = 0;
    let mut i: usize = 0;
    while i < results.len()
        invariant
            i <= results.len(),
            passed == passed_count(results@.take(i as int)),
            passed <= i,
        decreases results.len() - i,
    {
        assert(results@.take(i + 1).drop_last() =~= results@.take(i as int));
        if results[i].holds {
            passed = passed + 1;
        }
        i = i + 1;
    }
    assert(results@.take(results.len() as int) =~= results@);
    proof {
        lemma_passed_count_bound(results@);
    }
    let total = results.len() as u64;
    PropertySummary { passed, failed: total - passed, total, results }
}

/// The verdicts of a checker, counted.
#[derive(Debug, Clone)]
pub struct PropertySummary {
    /// Verdicts that hold.
    pub passed: u64,
    /// Verdicts that do not.
    pub failed: u64,
    /// All verdicts.
    pub total: u64,
    /// The verdicts themselves.
    pub results: Vec<PropertyResult>,
}

/// The status lines of `rs`, each followed by a newline.
pub open spec fn status_lines(rs: Seq<PropertyResult>) -> Seq<char>
    decreases rs.len(),
{
    if rs.len() == 0 {
        seq![]
    } else {
        status_lines(rs.drop_last()) + status_text(rs.last()) + "\n"@
    }
}

/// The counterexample section: present when the first failure carries one.
pub open spec fn counterexample_section(rs: Seq<PropertyResult>) -> Seq<char> {
    match first_failure(rs) {
        Err(f) => match f.counterexample {
            Some(ce) => "\nCounterexample:\n"@ + diagram_text(ce.dst_seed, ce.states@),
            None => seq![],
        },
        Ok(_) => seq![],
    }
}

/// The full report.
pub open spec fn report_text(s: PropertySummary) -> Seq<char> {
    "Property Check Summary: "@ + decimal(s.passed as nat) + "/"@ + decimal(s.total as nat) + " passed\n"@
        + status_lines(s.results@) + counterexample_section(s.results@)
}

/// Position of the first failing verdict.
pub open spec fn first_failing_index(rs: Seq<PropertyResult>, i: int) -> bool {
    &&& 0 <= i < rs.len()
    &&& !rs[i].holds
    &&& forall|j: int| 0 <= j < i ==> (#[trigger] rs[j]).holds
}

proof fn lemma_first_failure(rs: Seq<PropertyResult>, i: int)
    requires
        0 <= i <= rs.len(),
        forall|j: int| 0 <= j < i ==> (#[trigger] rs[j]).holds,
    ensures
        first_failure(rs) == first_failure(rs.skip(i)),
    decreases i,
{
    if i == 0 {
        assert(rs.skip(0) =~= rs);
    } else {
        assert(rs[0].holds);
        let tail = rs.drop_first();
        assert forall|j: int| 0 <= j < i - 1 implies (#[trigger] tail[j]).holds by {
            assert(tail[j] == rs[j + 1]);
        }
        lemma_first_failure(tail, i - 1);
        assert(tail.skip(i - 1) =~= rs.skip(i));
    }
}

/// When verdict `i` fails, the failure from `i` on is verdict `i` itself.
proof fn lemma_first_failure_at(rs: Seq<PropertyResult>, i: int)
    requires
        0 <= i < rs.len(),
        !rs[i].holds,
    ensures
        first_failure(rs.skip(i)) == Err::<(), PropertyResult>(rs[i]),
{
    assert(rs.skip(i)[0] == rs[i]);
}

impl PropertySummary {
    /// `Property Check Summary: p/t passed`, one status line per verdict,
    /// then the first failure's counterexample diagram when it has one.
    pub fn format_report(&self) -> (r: String)
        ensures
            r@ == report_text(*self),
    {
        proof {
            reveal_strlit("Property Check Summary: ");
            reveal_strlit("/");
            reveal_strlit(" passed\n");
            reveal_strlit("\n");
            reveal_strlit("\nCounterexample:\n");
        }
        let mut r = String::from_str("Property Check Summary: ");
        push_str(&mut r, u64_to_decimal(self.passed).as_str());
        push_str(&mut r, "/");
        push_str(&mut r, u64_to_decimal(self.total).as_str());
        push_str(&mut r, " passed\n");
        let ghost head = r@;
        let mut i: usize = 0;
        while i < self.results.len()
            invariant
                i <= self.results.len(),
                r@ == head + status_lines(self.results@.take(i as int)),
            decreases self.results.len() - i,
        {
            assert(self.results@.take(i + 1).drop_last() =~= self.results@.take(i as int));
            push_str(&mut r, self.results[i].format_status().as_str());
            push_str(&mut r, "\n");
            i = i + 1;
        }
        assert(self.results@.take(self.results.len() as int) =~= self.results@);
        let ghost lines = r@;
        assert(lines + counterexample_section(self.results@) == report_text(*self));
        let mut k: usize = 0;
        while k < self.results.len()
            invariant
                r@ == lines,
                lines + counterexample_section(self.results@) == report_text(*self),
                k <= self.results.len(),
                forall|j: int| 0 <= j < k ==> (#[trigger] self.results@[j]).holds,
            decreases self.results.len() - k,
        {
            if !self.results[k].holds {
                proof {
                    lemma_first_failure(self.results@, k as int);
                    lemma_first_failure_at(self.results@, k as int);
                }
                assert(first_failure(self.results@) == Err::<(), PropertyResult>(self.results@[k as int]));
                if let Some(ce) = &self.results[k].counterexample {
                    push_str(&mut r, "\nCounterexample:\n");
                    push_str(&mut r, ce.render_diagram().as_str());
                    assert(r@ == lines + counterexample_section(self.results@));
                } else {
                    assert(counterexample_section(self.results@) == Seq::<char>::empty());
                    assert(r@ == lines + counterexample_section(self.results@));
                }
                return r;
            }
            k = k + 1;
        }
        proof {
            lemma_first_failure(self.results@, self.results@.len() as int);
        }
        assert(self.results@.skip(self.results@.len() as int).len() == 0);
        r
    }
}

/// A checker of named invariants against some structure's observable state.
pub trait PropertyChecker {
    /// The registered invariants, in order.
    spec fn invariant_names(&self) -> Seq<Seq<char>>;

    /// One verdict per registered invariant, passing ones included.
    fn check_all(&self) -> (r: Vec<PropertyResult>)
        ensures
            results_match(r@, self.invariant_names()),
    ;

    /// The first failing verdict of `check_all`, or `Ok(())`.
    fn verify_all(&self) -> (r: Result<(), PropertyResult>)
        ensures
            exists|rs: Seq<PropertyResult>| results_match(rs, self.invariant_names()) && r == first_failure(rs),
    {
        let results = self.check_all();
        first_failure_of(results)
    }

    /// Whether every verdict of `check_all` holds.
    fn all_hold(&self) -> (r: bool)
        ensures
            exists|rs: Seq<PropertyResult>|
                results_match(rs, self.invariant_names()) && r == (forall|i: int|
                    0 <= i < rs.len() ==> (#[trigger] rs[i]).holds),
    {
        let results = self.check_all();
        all_hold_of(&results)
    }

    /// The verdicts of `check_all`, counted.
    fn summary(&self) -> (r: PropertySummary)
        ensures
            results_match(r.results@, self.invariant_names()),
            (r.passed, r.failed, r.total) == summary_of(r.results@),
    {
        let results = self.check_all();
        summarize(results)
    }
}

} // verus!
