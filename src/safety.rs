//! Safety rules: assertions in every function, explicit limits, and `u64`
//! rather than `usize` for data.

use crate::evaluators::{find_from, find_from_exec};
use crate::naming::{over_lines, violation_views, warn_if, warning_at, warning_if, ViolationView};
use crate::quality::{Severity, Violation};
use crate::text::{
    lines_from, contains_seq, contains_str, decimal, lines_of, push_str, split_lines, starts_with, starts_with_seq,
    trim_chars, trimmed, u64_to_decimal,
};
use vstd::prelude::*;
use vstd::string::*;

verus! {

/// Checker of the safety rules.
pub struct SafetyChecker;

/// How many times `c` occurs in `s`.
pub open spec fn char_count(s: Seq<char>, c: char) -> nat
    decreases s.len(),
{
    if s.len() == 0 {
        0
    } else {
        char_count(s.drop_last(), c) + if s.last() == c { 1nat } else { 0nat }
    }
}

fn count_char(s: &str, c: char) -> (r: usize)
    ensures
        r == char_count(s@, c),
{
    let n = s.unicode_len();
    let mut k: usize = 0;
    let mut i: usize = 0;
    while i < n
        invariant
            n == s@.len(),
            i <= n,
            k == char_count(s@.take(i as int), c),
            k <= i,
        decreases n - i,
    {
        assert(s@.take(i + 1).drop_last() =~= s@.take(i as int));
        if s.get_char(i) == c {
            k = k + 1;
        }
        i = i + 1;
    }
    assert(s@.take(n as int) =~= s@);
    k
}

/// The name in a function header: after `pub fn ` (or else `fn `), up to
/// the first `(`, trimmed.
pub open spec fn function_name(line: Seq<char>) -> Seq<char> {
    let start = match find_from(line, "pub fn "@, 0) {
        Some(i) => i + 7,
        None => match find_from(line, "fn "@, 0) {
            Some(i) => i + 3,
            None => 0,
        },
    };
    let end = match find_from(line, "("@, start) {
        Some(j) => j,
        None => line.len() as int,
    };
    trimmed(line.subrange(start, end))
}

/// The function name in a header line `line`, which must contain `fn `.
pub fn extract_function_name(line: &str) -> (r: String)
    requires
        exists|i: int| crate::text::occurs_at(line@, "fn "@, i),
    ensures
        r@ == function_name(line@),
{
    proof {
        reveal_strlit("pub fn ");
        reveal_strlit("fn ");
        reveal_strlit("(");
    }
    let n = line.unicode_len();
    let start = match find_from_exec(line, "pub fn ", 0) {
        Some(i) => i + 7,
        None => match find_from_exec(line, "fn ", 0) {
            Some(i) => i + 3,
            None => {
                proof {
                    let i = choose|i: int| crate::text::occurs_at(line@, "fn "@, i);
                    lemma_find_from_complete(line@, "fn "@, 0, i);
                }
                0
            },
        },
    };
    let end = match find_from_exec(line, "(", start) {
        Some(j) => j,
        None => line.unicode_len(),
    };
    trim_chars(line.substring_char(start, end))
}

/// An occurrence at or after `from` means the search finds one.
proof fn lemma_find_from_complete(hay: Seq<char>, needle: Seq<char>, from: int, i: int)
    requires
        0 <= from <= i,
        crate::text::occurs_at(hay, needle, i),
    ensures
        find_from(hay, needle, from) is Some,
    decreases i - from,
{
    if !crate::text::occurs_at(hay, needle, from) {
        lemma_find_from_complete(hay, needle, from + 1, i);
    }
}

/// Lines are no longer than the text, and there is at most one more line
/// than characters.
proof fn lemma_lines_bounds(s: Seq<char>, cur: Seq<char>)
    ensures
        lines_from(s, cur).len() <= s.len() + 1,
        forall|i: int|
            0 <= i < lines_from(s, cur).len() ==> (#[trigger] lines_from(s, cur)[i]).len() <= cur.len() + s.len(),
    decreases s.len(),
{
    if s.len() > 0 {
        if s[0] == '\n' {
            lemma_lines_bounds(s.drop_first(), seq![]);
            let rest = lines_from(s.drop_first(), seq![]);
            assert forall|i: int| 0 <= i < lines_from(s, cur).len() implies (#[trigger] lines_from(s, cur)[i]).len()
                <= cur.len() + s.len() by {
                if i > 0 {
                    assert(lines_from(s, cur)[i] == rest[i - 1]);
                }
            }
        } else {
            lemma_lines_bounds(s.drop_first(), cur.push(s[0]));
        }
    }
}

/// Two different characters occur no more often together than the length.
proof fn lemma_char_counts(s: Seq<char>, a: char, b: char)
    requires
        a != b,
    ensures
        char_count(s, a) + char_count(s, b) <= s.len(),
    decreases s.len(),
{
    if s.len() > 0 {
        lemma_char_counts(s.drop_last(), a, b);
    }
}

/// Names that mark trivial functions, which need no assertions.
pub open spec fn trivial_name(name: Seq<char>) -> bool {
    starts_with_seq(name, "new"@) || starts_with_seq(name, "default"@) || starts_with_seq(name, "get_"@)
        || starts_with_seq(name, "is_"@) || starts_with_seq(name, "as_"@) || starts_with_seq(name, "into_"@)
        || starts_with_seq(name, "from_"@)
}

/// The message for function `name` with `count` assertions.
pub open spec fn assertions_message(name: Seq<char>, count: nat) -> Seq<char> {
    "Function '"@ + name + "' has "@ + decimal(count) + " assertion(s), recommend 2+"@
}

/// The warning for a finished function, if it is not trivial and has
/// fewer than two assertions.
pub open spec fn function_warning(name: Seq<char>, line: usize, count: nat) -> Seq<ViolationView> {
    warning_if(!trivial_name(name) && count < 2, "Assertions"@, assertions_message(name, count), line)
}

fn check_function_assertions(name: &str, line: usize, count: usize, violations: &mut Vec<Violation>)
    ensures
        violation_views(final(violations)@) == violation_views(old(violations)@) + function_warning(
            name@,
            line,
            count as nat,
        ),
{
    proof {
        reveal_strlit("new");
        reveal_strlit("default");
        reveal_strlit("get_");
        reveal_strlit("is_");
        reveal_strlit("as_");
        reveal_strlit("into_");
        reveal_strlit("from_");
        reveal_strlit("Function '");
        reveal_strlit("' has ");
        reveal_strlit(" assertion(s), recommend 2+");
    }
    let trivial = starts_with(name, "new") || starts_with(name, "default") || starts_with(name, "get_")
        || starts_with(name, "is_") || starts_with(name, "as_") || starts_with(name, "into_")
        || starts_with(name, "from_");
    let mut message = String::from_str("Function '");
    push_str(&mut message, name);
    push_str(&mut message, "' has ");
    push_str(&mut message, u64_to_decimal(count as u64).as_str());
    push_str(&mut message, " assertion(s), recommend 2+");
    warn_if(violations, !trivial && count < 2, "Assertions", message.as_str(), line);
}

/// Where the assertion scan is: inside a function or not, its name, header
/// line, assertions so far, and brace depth.
pub struct ScanState {
    pub in_function: bool,
    pub name: Seq<char>,
    pub start: usize,
    pub count: nat,
    pub depth: int,
}

/// A trimmed line that opens a function.
pub open spec fn opens_function(t: Seq<char>) -> bool {
    (starts_with_seq(t, "pub fn "@) || starts_with_seq(t, "fn "@)) && contains_seq(t, "("@)
}

/// A trimmed line with an assertion.
pub open spec fn has_assertion(t: Seq<char>) -> bool {
    contains_seq(t, "debug_assert!"@) || contains_seq(t, "debug_assert_eq!"@) || contains_seq(t, "debug_assert_ne!"@)
        || contains_seq(t, "assert!"@) || contains_seq(t, "assert_eq!"@) || contains_seq(t, "assert_ne!"@)
}

/// One line of the scan: the warnings it adds and the state after it.
pub open spec fn scan_step(st: ScanState, line: Seq<char>, n: usize) -> (Seq<ViolationView>, ScanState) {
    let t = trimmed(line);
    let (w1, st1) = if opens_function(t) {
        (
            if st.in_function && st.depth == 0 { function_warning(st.name, st.start, st.count) } else { seq![] },
            ScanState { in_function: true, name: function_name(t), start: n, count: 0, depth: 0 },
        )
    } else {
        (seq![], st)
    };
    if st1.in_function {
        let depth = st1.depth + char_count(line, '{') - char_count(line, '}');
        let count = st1.count + if has_assertion(t) { 1nat } else { 0nat };
        if depth == 0 && contains_seq(line, "}"@) {
            (w1 + function_warning(st1.name, st1.start, count), ScanState { in_function: false, depth, count, ..st1 })
        } else {
            (w1, ScanState { depth, count, ..st1 })
        }
    } else {
        (w1, st1)
    }
}

/// The scan over the first `k` lines: warnings and final state.
pub open spec fn scan(lines: Seq<Seq<char>>, k: int) -> (Seq<ViolationView>, ScanState)
    decreases k,
{
    if k <= 0 || k > lines.len() {
        (seq![], ScanState { in_function: false, name: seq![], start: 0, count: 0, depth: 0 })
    } else {
        let (w, st) = scan(lines, k - 1);
        let (w2, st2) = scan_step(st, lines[k - 1], k as usize);
        (w + w2, st2)
    }
}

/// Warnings of `line` for the explicit-limits rule.
pub open spec fn limits_line(line: Seq<char>, n: usize) -> Seq<ViolationView> {
    warning_if(contains_seq(line, "Vec::new()"@), "ExplicitLimits"@, "Consider using Vec::with_capacity() and a MAX constant"@, n)
        + warning_if(contains_seq(line, "VecDeque::new()"@), "ExplicitLimits"@, "Consider using VecDeque::with_capacity() and a MAX constant"@, n)
        + warning_if(contains_seq(line, "HashMap::new()"@), "ExplicitLimits"@, "Consider using HashMap::with_capacity() and a MAX constant"@, n)
        + warning_if(contains_seq(line, "loop {"@), "ExplicitLimits"@, "Ensure loop has explicit bounds or termination"@, n)
}

/// The explicit-limits warnings over the first `k` raw lines.
pub open spec fn limits_prefix(lines: Seq<Seq<char>>, k: int) -> Seq<ViolationView>
    decreases k,
{
    if k <= 0 || k > lines.len() {
        seq![]
    } else {
        limits_prefix(lines, k - 1) + limits_line(lines[k - 1], k as usize)
    }
}

/// The code names size or count fields but no `_MAX`/`_max` constant.
pub open spec fn missing_max(code: Seq<char>) -> bool {
    (contains_seq(code, "size:"@) || contains_seq(code, "count:"@)) && !(contains_seq(code, "_MAX"@) || contains_seq(
        code,
        "_max"@,
    ))
}

/// Warnings of trimmed line `t` for the `usize` rule.
pub open spec fn usize_line(t: Seq<char>, n: usize) -> Seq<ViolationView> {
    if starts_with_seq(t, "//"@) {
        seq![]
    } else {
        warning_if(
            contains_seq(t, ": usize"@) && !contains_seq(t, "// allow usize"@) && !(contains_seq(t, "index"@)
                || contains_seq(t, "len"@) || contains_seq(t, "idx"@) || contains_seq(t, "offset"@) || contains_seq(
                t,
                "capacity"@,
            )),
            "UsizeUsage"@,
            "Consider using u64 instead of usize for cross-platform consistency"@,
            n,
        )
    }
}

fn usize_line_exec(t: &str, n: usize) -> (r: Vec<Violation>)
    ensures
        violation_views(r@) == usize_line(t@, n),
{
    proof {
        reveal_strlit("//");
        reveal_strlit(": usize");
        reveal_strlit("// allow usize");
        reveal_strlit("index");
        reveal_strlit("len");
        reveal_strlit("idx");
        reveal_strlit("offset");
        reveal_strlit("capacity");
        reveal_strlit("UsizeUsage");
        reveal_strlit("Consider using u64 instead of usize for cross-platform consistency");
    }
    let mut out: Vec<Violation> = Vec::new();
    assert(violation_views(out@) =~= Seq::<ViolationView>::empty());
    if starts_with(t, "//") {
        return out;
    }
    let hit = contains_str(t, ": usize") && !contains_str(t, "// allow usize") && !(contains_str(t, "index")
        || contains_str(t, "len") || contains_str(t, "idx") || contains_str(t, "offset") || contains_str(
        t,
        "capacity",
    ));
    warn_if(&mut out, hit, "UsizeUsage", "Consider using u64 instead of usize for cross-platform consistency", n);
    assert(violation_views(out@) =~= usize_line(t@, n));
    out
}

fn limits_line_exec(line: &str, n: usize) -> (r: Vec<Violation>)
    ensures
        violation_views(r@) == limits_line(line@, n),
{
    proof {
        reveal_strlit("Vec::new()");
        reveal_strlit("VecDeque::new()");
        reveal_strlit("HashMap::new()");
        reveal_strlit("loop {");
        reveal_strlit("ExplicitLimits");
        reveal_strlit("Consider using Vec::with_capacity() and a MAX constant");
        reveal_strlit("Consider using VecDeque::with_capacity() and a MAX constant");
        reveal_strlit("Consider using HashMap::with_capacity() and a MAX constant");
        reveal_strlit("Ensure loop has explicit bounds or termination");
    }
    let mut out: Vec<Violation> = Vec::new();
    assert(violation_views(out@) =~= Seq::<ViolationView>::empty());
    let hit = contains_str(line, "Vec::new()");
    warn_if(&mut out, hit, "ExplicitLimits", "Consider using Vec::with_capacity() and a MAX constant", n);
    let hit = contains_str(line, "VecDeque::new()");
    warn_if(&mut out, hit, "ExplicitLimits", "Consider using VecDeque::with_capacity() and a MAX constant", n);
    let hit = contains_str(line, "HashMap::new()");
    warn_if(&mut out, hit, "ExplicitLimits", "Consider using HashMap::with_capacity() and a MAX constant", n);
    let hit = contains_str(line, "loop {");
    warn_if(&mut out, hit, "ExplicitLimits", "Ensure loop has explicit bounds or termination", n);
    assert(violation_views(out@) =~= limits_line(line@, n));
    out
}

impl SafetyChecker {
    /// A checker.
    pub fn new() -> (r: Self) {
        SafetyChecker
    }

    /// Two or more assertions per function: scanning line by line, a
    /// function runs from its header until its braces balance; each
    /// non-trivial function with fewer than two assertion lines draws a warning.
    pub fn check_assertions(&self, code: &str) -> (r: Vec<Violation>)
        requires
            code@.len() <= i32::MAX,
        ensures
            violation_views(r@) == scan(lines_of(code@), lines_of(code@).len() as int).0,
    {
        proof {
            reveal_strlit("pub fn ");
            reveal_strlit("fn ");
            reveal_strlit("(");
            reveal_strlit("}");
            reveal_strlit("debug_assert!");
            reveal_strlit("debug_assert_eq!");
            reveal_strlit("debug_assert_ne!");
            reveal_strlit("assert!");
            reveal_strlit("assert_eq!");
            reveal_strlit("assert_ne!");
        }
        let lines = split_lines(code);
        let ghost ls = lines_of(code@);
        proof {
            lemma_lines_bounds(code@, seq![]);
        }
        let mut violations: Vec<Violation> = Vec::new();
        let mut in_function = false;
        let mut function_name = String::new();
        let mut function_start_line: usize = 0;
        let mut assertion_count: usize = 0;
        let mut brace_depth: i64 = 0;
        let mut i: usize = 0;
        assert(violation_views(violations@) =~= Seq::<ViolationView>::empty());
        assert(function_name@ =~= Seq::<char>::empty());
        while i < lines.len()
            invariant
                i <= lines@.len(),
                lines@.len() == ls.len(),
                ls == lines_of(code@),
                code@.len() <= i32::MAX,
                ls.len() <= code@.len() + 1,
                forall|j: int| 0 <= j < ls.len() ==> (#[trigger] ls[j]).len() <= code@.len(),
                forall|j: int| 0 <= j < lines@.len() ==> (#[trigger] lines@[j])@ == ls[j],
                violation_views(violations@) == scan(ls, i as int).0,
                scan(ls, i as int).1.in_function == in_function,
                scan(ls, i as int).1.name == function_name@,
                scan(ls, i as int).1.start == function_start_line,
                scan(ls, i as int).1.count == assertion_count,
                scan(ls, i as int).1.depth == brace_depth,
                assertion_count <= i,
                -(i as int) * 2147483648 <= brace_depth <= (i as int) * 2147483648,
            decreases lines@.len() - i,
        {
            let line = lines[i].as_str();
            let t = trim_chars(line);
            let ghost st0 = scan(ls, i as int).1;
            let ghost w0 = scan(ls, i as int).0;
            let opens = (starts_with(t.as_str(), "pub fn ") || starts_with(t.as_str(), "fn ")) && contains_str(
                t.as_str(),
                "(",
            );
            if opens {
                if in_function && brace_depth == 0 {
                    check_function_assertions(
                        function_name.as_str(),
                        function_start_line,
                        assertion_count,
                        &mut violations,
                    );
                }
                proof {
                    reveal_strlit("pub fn ");
                    reveal_strlit("fn ");
                    if starts_with_seq(t@, "pub fn "@) {
                        assert(t@.take(7) == "pub fn "@);
                        assert(t@.subrange(4, 7) =~= "pub fn "@.subrange(4, 7));
                        assert("pub fn "@.subrange(4, 7) =~= "fn "@);
                        assert(crate::text::occurs_at(t@, "fn "@, 4));
                    } else {
                        assert(t@.take(3) == "fn "@);
                        assert(t@.subrange(0, 3) =~= t@.take(3));
                        assert(crate::text::occurs_at(t@, "fn "@, 0));
                    }
                }
                in_function = true;
                function_name = extract_function_name(t.as_str());
                function_start_line = i + 1;
                assertion_count = 0;
                brace_depth = 0;
            }
            if in_function {
                let o = count_char(line, '{');
                let c = count_char(line, '}');
                proof {
                    lemma_char_counts(ls[i as int], '{', '}');
                    assert(o + c <= 2147483647);
                    assert(-(i as int) * 2147483648 - 2147483648 <= brace_depth - c) by (nonlinear_arith)
                        requires
                            -(i as int) * 2147483648 <= brace_depth,
                            c <= 2147483647,
                    ;
                    assert(brace_depth + o <= (i as int) * 2147483648 + 2147483648) by (nonlinear_arith)
                        requires
                            brace_depth <= (i as int) * 2147483648,
                            o <= 2147483647,
                    ;
                    assert((i as int) * 2147483648 + 2147483648 <= 4611686018427387904) by (nonlinear_arith)
                        requires
                            i < ls.len(),
                            ls.len() <= 2147483648,
                    ;
                }
                brace_depth = brace_depth + o as i64 - c as i64;
                let assertion = contains_str(t.as_str(), "debug_assert!") || contains_str(t.as_str(), "debug_assert_eq!")
                    || contains_str(t.as_str(), "debug_assert_ne!") || contains_str(t.as_str(), "assert!")
                    || contains_str(t.as_str(), "assert_eq!") || contains_str(t.as_str(), "assert_ne!");
                if assertion {
                    assertion_count = assertion_count + 1;
                }
                if brace_depth == 0 && contains_str(line, "}") {
                    check_function_assertions(
                        function_name.as_str(),
                        function_start_line,
                        assertion_count,
                        &mut violations,
                    );
                    in_function = false;
                }
            }
            proof {
                assert(brace_depth <= (i + 1) * 2147483648 && -(i + 1) * 2147483648 <= brace_depth) by (nonlinear_arith)
                    requires
                        -(i as int) * 2147483648 - 2147483648 <= brace_depth <= (i as int) * 2147483648 + 2147483648 || brace_depth == 0 || (
                        -(i as int) * 2147483648 <= brace_depth <= (i as int) * 2147483648),
                ;
            }
            i = i + 1;
        }
        violations
    }

    /// Explicit limits: unbounded constructors and bare loops draw a warning
    /// per line and form; size or count fields without any `_MAX`/`_max`
    /// constant draw one more, without a line.
    pub fn check_explicit_limits(&self, code: &str) -> (r: Vec<Violation>)
        ensures
            violation_views(r@) == limits_prefix(lines_of(code@), lines_of(code@).len() as int) + if missing_max(
                code@,
            ) {
                seq![("ExplicitLimits"@, "Code has size/count fields but no _MAX constants defined"@, None::<usize>, Severity::Warning)]
            } else {
                seq![]
            },
    {
        proof {
            reveal_strlit("size:");
            reveal_strlit("count:");
            reveal_strlit("_MAX");
            reveal_strlit("_max");
            reveal_strlit("ExplicitLimits");
            reveal_strlit("Code has size/count fields but no _MAX constants defined");
        }
        let lines = split_lines(code);
        let ghost ls = lines_of(code@);
        let mut out: Vec<Violation> = Vec::new();
        let mut i: usize = 0;
        assert(violation_views(out@) =~= limits_prefix(ls, 0));
        while i < lines.len()
            invariant
                i <= lines@.len(),
                lines@.len() == ls.len(),
                ls == lines_of(code@),
                forall|j: int| 0 <= j < lines@.len() ==> (#[trigger] lines@[j])@ == ls[j],
                violation_views(out@) == limits_prefix(ls, i as int),
            decreases lines@.len() - i,
        {
            let mut more = limits_line_exec(lines[i].as_str(), i + 1);
            let ghost a = out@;
            let ghost b = more@;
            out.append(&mut more);
            assert(violation_views(out@) =~= violation_views(a) + violation_views(b));
            i = i + 1;
        }
        let has_size_field = contains_str(code, "size:") || contains_str(code, "count:");
        let has_max_constant = contains_str(code, "_MAX") || contains_str(code, "_max");
        let ghost before = out@;
        if has_size_field && !has_max_constant {
            out.push(Violation::warning("ExplicitLimits", "Code has size/count fields but no _MAX constants defined"));
        }
        assert(violation_views(out@) =~= violation_views(before) + if missing_max(code@) {
            seq![("ExplicitLimits"@, "Code has size/count fields but no _MAX constants defined"@, None::<usize>, Severity::Warning)]
        } else {
            seq![]
        });
        out
    }

    /// `u64` for data: a `: usize` field whose line names no index, length,
    /// offset or capacity, and is not marked `// allow usize`, draws a warning.
    pub fn check_usize_usage(&self, code: &str) -> (r: Vec<Violation>)
        ensures
            violation_views(r@) == over_lines(code@, |t: Seq<char>, n: usize| usize_line(t, n)),
    {
        let lines = split_lines(code);
        let ghost ls = lines_of(code@);
        let ghost rule = |t: Seq<char>, n: usize| usize_line(t, n);
        let mut out: Vec<Violation> = Vec::new();
        let mut i: usize = 0;
        assert(violation_views(out@) =~= crate::naming::over_prefix(ls, 0, rule));
        while i < lines.len()
            invariant
                i <= lines@.len(),
                lines@.len() == ls.len(),
                ls == lines_of(code@),
                rule == (|t: Seq<char>, n: usize| usize_line(t, n)),
                forall|j: int| 0 <= j < lines@.len() ==> (#[trigger] lines@[j])@ == ls[j],
                violation_views(out@) == crate::naming::over_prefix(ls, i as int, rule),
            decreases lines@.len() - i,
        {
            let t = trim_chars(lines[i].as_str());
            let mut more = usize_line_exec(t.as_str(), i + 1);
            let ghost a = out@;
            let ghost b = more@;
            out.append(&mut more);
            assert(violation_views(out@) =~= violation_views(a) + violation_views(b));
            i = i + 1;
        }
        out
    }
}

impl Default for SafetyChecker {
    fn default() -> (r: Self) {
        SafetyChecker
    }
}

} // verus!
