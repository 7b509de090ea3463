//! Code-quality violations and their report.

use crate::naming::{over_lines, violation_views, big_endian_line, snake_case_line, NamingChecker};
use crate::safety::{limits_prefix, missing_max, scan, usize_line, SafetyChecker};
use crate::text::{decimal, lines_of, push_str, u64_to_decimal};
use vstd::prelude::*;

verus! {

/// How serious a violation is.
#[derive(Debug, Clone, Copy, PartialEq, Eq, Structural)]
pub enum Severity {
    /// Must be fixed before passing.
    Error,
    /// Should be fixed, not blocking.
    Warning,
    /// A suggestion.
    Info,
}

/// A code-quality violation.
#[derive(Debug, Clone)]
pub struct Violation {
    /// The rule violated.
    pub rule: &'static str,
    /// What is wrong.
    pub message: String,
    /// Line number, when known.
    pub line: Option<usize>,
    /// Severity.
    pub severity: Severity,
}

/// `[SEVERITY]:line rule: message`, the `:line` part only when known.
pub open spec fn violation_text(v: Violation) -> Seq<char> {
    let severity = match v.severity {
        Severity::Error => "ERROR"@,
        Severity::Warning => "WARN"@,
        Severity::Info => "INFO"@,
    };
    let line = match v.line {
        Some(l) => ":"@ + decimal(l as nat),
        None => seq![],
    };
    "["@ + severity + "]"@ + line + " "@ + v.rule@ + ": "@ + v.message@
}

impl Violation {
    /// An error-level violation of `rule`, without a line.
    pub fn error(rule: &'static str, message: &str) -> (r: Self)
        ensures
            r.rule == rule,
            r.message@ == message@,
            r.line.is_none(),
            r.severity == Severity::Error,
    {
        Violation { rule, message: message.to_owned(), line: None, severity: Severity::Error }
    }

    /// A warning-level violation of `rule`, without a line.
    pub fn warning(rule: &'static str, message: &str) -> (r: Self)
        ensures
            r.rule == rule,
            r.message@ == message@,
            r.line.is_none(),
            r.severity == Severity::Warning,
    {
        Violation { rule, message: message.to_owned(), line: None, severity: Severity::Warning }
    }

    /// The same violation at `line`.
    pub fn at_line(self, line: usize) -> (r: Self)
        ensures
            r == (Violation { line: Some(line), ..self }),
    {
        let mut v = self;
        v.line = Some(line);
        v
    }

    /// One line for display.
    pub fn format(&self) -> (r: String)
        ensures
            r@ == violation_text(*self),
    {
        proof {
            reveal_strlit("ERROR");
            reveal_strlit("WARN");
            reveal_strlit("INFO");
            reveal_strlit("[");
            reveal_strlit("]");
            reveal_strlit(":");
            reveal_strlit(" ");
            reveal_strlit(": ");
        }
        let severity = match self.severity {
            Severity::Error => "ERROR",
            Severity::Warning => "WARN",
            Severity::Info => "INFO",
        };
        let mut r = String::from_str("[");
        push_str(&mut r, severity);
        push_str(&mut r, "]");
        if let Some(l) = self.line {
            push_str(&mut r, ":");
            push_str(&mut r, u64_to_decimal(l as u64).as_str());
        }
        push_str(&mut r, " ");
        push_str(&mut r, self.rule);
        push_str(&mut r, ": ");
        push_str(&mut r, self.message.as_str());
        r
    }
}

/// How many violations of `vs` have severity `s`.
pub open spec fn severity_count(vs: Seq<Violation>, s: Severity) -> nat
    decreases vs.len(),
{
    if vs.len() == 0 {
        0
    } else {
        severity_count(vs.drop_last(), s) + if vs.last().severity == s { 1nat } else { 0nat }
    }
}

/// Whether no violation of `vs` is an error.
pub open spec fn no_errors(vs: Seq<Violation>) -> bool {
    forall|i: int| 0 <= i < vs.len() ==> (#[trigger] vs[i]).severity != Severity::Error
}

/// The outcome of a quality check.
#[derive(Debug, Clone)]
pub struct TigerStyleResult {
    /// Every violation found.
    pub violations: Vec<Violation>,
    /// Whether every required rule passed.
    pub passes: bool,
}

/// The report: a header, one line per violation, the counts and the verdict.
pub open spec fn report_text(r: TigerStyleResult) -> Seq<char> {
    "TigerStyle Check Results\n========================\n\n"@ + violation_lines(r.violations@)
        + "\nSummary: "@ + decimal(severity_count(r.violations@, Severity::Error)) + " errors, "@
        + decimal(severity_count(r.violations@, Severity::Warning)) + " warnings\n"@ + if r.passes {
        "Result: PASS\n"@
    } else {
        "Result: FAIL\n"@
    }
}

/// One formatted line per violation.
pub open spec fn violation_lines(vs: Seq<Violation>) -> Seq<char>
    decreases vs.len(),
{
    if vs.len() == 0 {
        seq![]
    } else {
        violation_lines(vs.drop_last()) + violation_text(vs.last()) + "\n"@
    }
}

impl TigerStyleResult {
    /// A result that passes exactly when no violation is an error.
    pub fn from_violations(violations: Vec<Violation>) -> (r: Self)
        ensures
            r.violations@ == violations@,
            r.passes == no_errors(violations@),
    {
        let mut passes = true;
        let mut i: usize = 0;
        while i < violations.len()
            invariant
                i <= violations.len(),
                passes == (forall|j: int| 0 <= j < i ==> (#[trigger] violations@[j]).severity != Severity::Error),
            decreases violations.len() - i,
        {
            if violations[i].severity == Severity::Error {
                passes = false;
            }
            i = i + 1;
        }
        TigerStyleResult { violations, passes }
    }

    fn count_of(&self, s: Severity) -> (r: usize)
        ensures
            r == severity_count(self.violations@, s),
    {
        let mut n: usize = 0;
        let mut i: usize = 0;
        while i < self.violations.len()
            invariant
                i <= self.violations.len(),
                n == severity_count(self.violations@.take(i as int), s),
                n <= i,
            decreases self.violations.len() - i,
        {
            assert(self.violations@.take(i + 1).drop_last() =~= self.violations@.take(i as int));
            if self.violations[i].severity == s {
                n = n + 1;
            }
            i = i + 1;
        }
        assert(self.violations@.take(self.violations.len() as int) =~= self.violations@);
        n
    }

    /// Number of error-level violations.
    pub fn errors_count(&self) -> (r: usize)
        ensures
            r == severity_count(self.violations@, Severity::Error),
    {
        self.count_of(Severity::Error)
    }

    /// Number of warning-level violations.
    pub fn warnings_count(&self) -> (r: usize)
        ensures
            r == severity_count(self.violations@, Severity::Warning),
    {
        self.count_of(Severity::Warning)
    }

    /// The full report.
    pub fn format_report(&self) -> (r: String)
        ensures
            r@ == report_text(*self),
    {
        proof {
            reveal_strlit("TigerStyle Check Results\n========================\n\n");
            reveal_strlit("\n");
            reveal_strlit("\nSummary: ");
            reveal_strlit(" errors, ");
            reveal_strlit(" warnings\n");
            reveal_strlit("Result: PASS\n");
            reveal_strlit("Result: FAIL\n");
        }
        let mut r = String::from_str("TigerStyle Check Results\n========================\n\n");
        let ghost head = r@;
        let mut i: usize = 0;
        while i < self.violations.len()
            invariant
                i <= self.violations.len(),
                r@ == head + violation_lines(self.violations@.take(i as int)),
            decreases self.violations.len() - i,
        {
            assert(self.violations@.take(i + 1).drop_last() =~= self.violations@.take(i as int));
            push_str(&mut r, self.violations[i].format().as_str());
            push_str(&mut r, "\n");
            i = i + 1;
        }
        assert(self.violations@.take(self.violations.len() as int) =~= self.violations@);
        push_str(&mut r, "\nSummary: ");
        push_str(&mut r, u64_to_decimal(self.errors_count() as u64).as_str());
        push_str(&mut r, " errors, ");
        push_str(&mut r, u64_to_decimal(self.warnings_count() as u64).as_str());
        push_str(&mut r, " warnings\n");
        if self.passes {
            push_str(&mut r, "Result: PASS\n");
        } else {
            push_str(&mut r, "Result: FAIL\n");
        }
        r
    }
}

/// The full code-quality checker: safety rules, then naming rules.
pub struct TigerStyleChecker {
    safety: SafetyChecker,
    naming: NamingChecker,
}

impl TigerStyleChecker {
    /// A checker.
    pub fn new() -> (r: Self) {
        TigerStyleChecker { safety: SafetyChecker::new(), naming: NamingChecker::new() }
    }

    /// Every violation, in rule order (assertions, explicit limits, `usize`
    /// usage, big-endian naming, abbreviations), and whether no error is among them.
    pub fn check(&self, code: &str) -> (r: TigerStyleResult)
        requires
            code@.len() <= i32::MAX,
        ensures
            violation_views(r.violations@) == scan(lines_of(code@), lines_of(code@).len() as int).0 + (
            limits_prefix(lines_of(code@), lines_of(code@).len() as int) + if missing_max(code@) {
                seq![("ExplicitLimits"@, "Code has size/count fields but no _MAX constants defined"@, None::<usize>, Severity::Warning)]
            } else {
                seq![]
            }) + over_lines(code@, |t: Seq<char>, n: usize| usize_line(t, n)) + over_lines(
                code@,
                |t: Seq<char>, n: usize| big_endian_line(t, n),
            ) + over_lines(code@, |t: Seq<char>, n: usize| snake_case_line(t, n)),
            r.passes == no_errors(r.violations@),
    {
        let mut violations = self.safety.check_assertions(code);
        let mut more = self.safety.check_explicit_limits(code);
        let ghost v0 = violations@;
        let ghost m0 = more@;
        violations.append(&mut more);
        assert(violation_views(violations@) =~= violation_views(v0) + violation_views(m0));
        let mut more = self.safety.check_usize_usage(code);
        let ghost v1 = violations@;
        let ghost m1 = more@;
        violations.append(&mut more);
        assert(violation_views(violations@) =~= violation_views(v1) + violation_views(m1));
        let mut more = self.naming.check_big_endian_naming(code);
        let ghost v2 = violations@;
        let ghost m2 = more@;
        violations.append(&mut more);
        assert(violation_views(violations@) =~= violation_views(v2) + violation_views(m2));
        let mut more = self.naming.check_snake_case(code);
        let ghost v3 = violations@;
        let ghost m3 = more@;
        violations.append(&mut more);
        assert(violation_views(violations@) =~= violation_views(v3) + violation_views(m3));
        TigerStyleResult::from_violations(violations)
    }
}

impl Default for TigerStyleChecker {
    fn default() -> (r: Self) {
        TigerStyleChecker::new()
    }
}

} // verus!
