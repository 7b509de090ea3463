//! Naming rules: most significant part first, qualifiers last, no abbreviations.

use crate::quality::{Severity, Violation};
use crate::text::{contains_seq, contains_str, lines_of, split_lines, starts_with, starts_with_seq, trim_chars, trimmed};
use vstd::prelude::*;

verus! {

/// What a violation says: rule, message, line and severity.
pub type ViolationView = (Seq<char>, Seq<char>, Option<usize>, Severity);

/// The view of `v`.
pub open spec fn violation_view(v: Violation) -> ViolationView {
    (v.rule@, v.message@, v.line, v.severity)
}

/// The views of `vs`.
pub open spec fn violation_views(vs: Seq<Violation>) -> Seq<ViolationView> {
    vs.map_values(|v: Violation| violation_view(v))
}

/// A warning of `rule` saying `message` at `line`.
pub open spec fn warning_at(rule: Seq<char>, message: Seq<char>, line: usize) -> ViolationView {
    (rule, message, Some(line), Severity::Warning)
}

/// One warning when `hit`, none otherwise.
pub open spec fn warning_if(hit: bool, rule: Seq<char>, message: Seq<char>, line: usize) -> Seq<ViolationView> {
    if hit { seq![warning_at(rule, message, line)] } else { seq![] }
}

/// Append a warning of `rule` saying `message` at `line` when `hit`.
pub(crate) fn warn_if(out: &mut Vec<Violation>, hit: bool, rule: &'static str, message: &str, line: usize)
    ensures
        violation_views(final(out)@) == violation_views(old(out)@) + warning_if(hit, rule@, message@, line),
{
    let ghost before = out@;
    if hit {
        out.push(Violation::warning(rule, message).at_line(line));
        assert(violation_views(out@) =~= violation_views(before) + warning_if(hit, rule@, message@, line));
    } else {
        assert(violation_views(out@) =~= violation_views(before) + warning_if(hit, rule@, message@, line));
    }
}

/// Checker of the naming rules.
pub struct NamingChecker;

/// The lines of a text, trimmed, each with its number from 1.
pub open spec fn numbered(lines: Seq<Seq<char>>, i: int) -> (Seq<char>, usize) {
    (trimmed(lines[i]), (i + 1) as usize)
}
/// Big-endian naming warnings for trimmed line `t`, numbered `n`.
pub open spec fn big_endian_line(t: Seq<char>, n: usize) -> Seq<ViolationView> {
    if starts_with_seq(t, "//"@) {
        seq![]
    } else {
        warning_if(contains_seq(t, "fn max_"@), "BigEndianNaming"@, "Use _max suffix instead (e.g., count_max)"@, n)
            + warning_if(contains_seq(t, "const MAX_"@) || contains_seq(t, "let max_"@), "BigEndianNaming"@, "Use _max suffix instead (e.g., count_max)"@, n)
            + warning_if(contains_seq(t, "fn min_"@), "BigEndianNaming"@, "Use _min suffix instead (e.g., delay_min)"@, n)
            + warning_if(contains_seq(t, "const MIN_"@) || contains_seq(t, "let min_"@), "BigEndianNaming"@, "Use _min suffix instead (e.g., delay_min)"@, n)
            + warning_if(contains_seq(t, "fn num_"@), "BigEndianNaming"@, "Use _count suffix instead (e.g., items_count)"@, n)
            + warning_if(contains_seq(t, "const NUM_"@) || contains_seq(t, "let num_"@), "BigEndianNaming"@, "Use _count suffix instead (e.g., items_count)"@, n)
            + warning_if(contains_seq(t, "fn get_"@), "BigEndianNaming"@, "Consider removing get_ prefix (e.g., foo() not get_foo())"@, n)
            + warning_if(contains_seq(t, "const GET_"@) || contains_seq(t, "let get_"@), "BigEndianNaming"@, "Consider removing get_ prefix (e.g., foo() not get_foo())"@, n)
            + warning_if(contains_seq(t, "fn is_empty"@), "BigEndianNaming"@, "Consider empty() instead of is_empty()"@, n)
            + warning_if(contains_seq(t, "const IS_EMPTY"@) || contains_seq(t, "let is_empty"@), "BigEndianNaming"@, "Consider empty() instead of is_empty()"@, n)
    }
}

/// Whether trimmed line `t` uses abbreviation `a` as an identifier part,
/// and not as the end of a braced word.
pub open spec fn abbreviation_used(t: Seq<char>, a: Seq<char>) -> bool {
    (contains_seq(t, "let "@ + a) || contains_seq(t, "let mut "@ + a) || contains_seq(t, "fn "@ + a)
        || contains_seq(t, ": "@ + a) || contains_seq(t, "_"@ + a) || contains_seq(t, a + "_"@))
        && !contains_seq(t, a + "}"@)
}

/// Abbreviation warnings for trimmed line `t`, numbered `n`.
pub open spec fn snake_case_line(t: Seq<char>, n: usize) -> Seq<ViolationView> {
    if starts_with_seq(t, "//"@) {
        seq![]
    } else {
        warning_if(abbreviation_used(t, "cnt"@), "NoAbbreviations"@, "Consider using 'count' instead of 'cnt'"@, n)
            + warning_if(abbreviation_used(t, "idx"@), "NoAbbreviations"@, "Consider using 'index' instead of 'idx'"@, n)
            + warning_if(abbreviation_used(t, "ptr"@), "NoAbbreviations"@, "Consider using 'pointer' instead of 'ptr'"@, n)
            + warning_if(abbreviation_used(t, "buf"@), "NoAbbreviations"@, "Consider using 'buffer' instead of 'buf'"@, n)
            + warning_if(abbreviation_used(t, "len"@), "NoAbbreviations"@, "Consider using 'length' instead of 'len'"@, n)
            + warning_if(abbreviation_used(t, "num"@), "NoAbbreviations"@, "Consider using 'count or number' instead of 'num'"@, n)
            + warning_if(abbreviation_used(t, "sz"@), "NoAbbreviations"@, "Consider using 'size' instead of 'sz'"@, n)
            + warning_if(abbreviation_used(t, "val"@), "NoAbbreviations"@, "Consider using 'value' instead of 'val'"@, n)
            + warning_if(abbreviation_used(t, "tmp"@), "NoAbbreviations"@, "Consider using 'temporary or descriptive name' instead of 'tmp'"@, n)
            + warning_if(abbreviation_used(t, "ret"@), "NoAbbreviations"@, "Consider using 'result or descriptive name' instead of 'ret'"@, n)
            + warning_if(abbreviation_used(t, "err"@), "NoAbbreviations"@, "Consider using 'error' instead of 'err'"@, n)
            + warning_if(abbreviation_used(t, "msg"@), "NoAbbreviations"@, "Consider using 'message' instead of 'msg'"@, n)
            + warning_if(abbreviation_used(t, "cfg"@), "NoAbbreviations"@, "Consider using 'config' instead of 'cfg'"@, n)
            + warning_if(abbreviation_used(t, "ctx"@), "NoAbbreviations"@, "Consider using 'context' instead of 'ctx'"@, n)
    }
}

/// Qualifier-position warnings for trimmed line `t`, numbered `n`.
pub open spec fn qualifiers_line(t: Seq<char>, n: usize) -> Seq<ViolationView> {
    if starts_with_seq(t, "//"@) {
        seq![]
    } else {
        warning_if(contains_seq(t, "byte_"@), "QualifiersAtEnd"@, "Consider suffix '_bytes' instead of prefix"@, n)
            + warning_if(contains_seq(t, "bytes_"@), "QualifiersAtEnd"@, "Consider suffix '_bytes' instead of prefix"@, n)
            + warning_if(contains_seq(t, "ms_"@), "QualifiersAtEnd"@, "Consider suffix '_ms' instead of prefix"@, n)
            + warning_if(contains_seq(t, "sec_"@), "QualifiersAtEnd"@, "Consider suffix '_seconds' instead of prefix"@, n)
            + warning_if(contains_seq(t, "us_"@), "QualifiersAtEnd"@, "Consider suffix '_us' instead of prefix"@, n)
            + warning_if(contains_seq(t, "ns_"@), "QualifiersAtEnd"@, "Consider suffix '_ns' instead of prefix"@, n)
    }
}

/// The warnings of a per-line rule over every line of `code`.
pub open spec fn over_lines(code: Seq<char>, rule: spec_fn(Seq<char>, usize) -> Seq<ViolationView>) -> Seq<ViolationView> {
    over_prefix(lines_of(code), lines_of(code).len() as int, rule)
}

/// The warnings of `rule` over the first `k` of `lines`.
pub open spec fn over_prefix(lines: Seq<Seq<char>>, k: int, rule: spec_fn(Seq<char>, usize) -> Seq<ViolationView>) -> Seq<ViolationView>
    decreases k,
{
    if k <= 0 || k > lines.len() {
        seq![]
    } else {
        over_prefix(lines, k - 1, rule) + rule(trimmed(lines[k - 1]), k as usize)
    }
}

fn big_endian_line_exec(t: &str, n: usize) -> (r: Vec<Violation>)
    ensures
        violation_views(r@) == big_endian_line(t@, n),
{
    let mut out: Vec<Violation> = Vec::new();
    proof {
        reveal_strlit("//");
    }
    if starts_with(t, "//") {
        assert(violation_views(out@) =~= Seq::<ViolationView>::empty());
        return out;
    }
    let ghost start = violation_views(out@);
    assert(start =~= Seq::<ViolationView>::empty());
    proof {
        reveal_strlit("fn max_");
        reveal_strlit("const MAX_");
        reveal_strlit("let max_");
        reveal_strlit("Use _max suffix instead (e.g., count_max)");
        reveal_strlit("BigEndianNaming");
    }
    let hit = contains_str(t, "fn max_");
    warn_if(&mut out, hit, "BigEndianNaming", "Use _max suffix instead (e.g., count_max)", n);
    let hit = contains_str(t, "const MAX_") || contains_str(t, "let max_");
    warn_if(&mut out, hit, "BigEndianNaming", "Use _max suffix instead (e.g., count_max)", n);
    proof {
        reveal_strlit("fn min_");
        reveal_strlit("const MIN_");
        reveal_strlit("let min_");
        reveal_strlit("Use _min suffix instead (e.g., delay_min)");
        reveal_strlit("BigEndianNaming");
    }
    let hit = contains_str(t, "fn min_");
    warn_if(&mut out, hit, "BigEndianNaming", "Use _min suffix instead (e.g., delay_min)", n);
    let hit = contains_str(t, "const MIN_") || contains_str(t, "let min_");
    warn_if(&mut out, hit, "BigEndianNaming", "Use _min suffix instead (e.g., delay_min)", n);
    proof {
        reveal_strlit("fn num_");
        reveal_strlit("const NUM_");
        reveal_strlit("let num_");
        reveal_strlit("Use _count suffix instead (e.g., items_count)");
        reveal_strlit("BigEndianNaming");
    }
    let hit = contains_str(t, "fn num_");
    warn_if(&mut out, hit, "BigEndianNaming", "Use _count suffix instead (e.g., items_count)", n);
    let hit = contains_str(t, "const NUM_") || contains_str(t, "let num_");
    warn_if(&mut out, hit, "BigEndianNaming", "Use _count suffix instead (e.g., items_count)", n);
    proof {
        reveal_strlit("fn get_");
        reveal_strlit("const GET_");
        reveal_strlit("let get_");
        reveal_strlit("Consider removing get_ prefix (e.g., foo() not get_foo())");
        reveal_strlit("BigEndianNaming");
    }
    let hit = contains_str(t, "fn get_");
    warn_if(&mut out, hit, "BigEndianNaming", "Consider removing get_ prefix (e.g., foo() not get_foo())", n);
    let hit = contains_str(t, "const GET_") || contains_str(t, "let get_");
    warn_if(&mut out, hit, "BigEndianNaming", "Consider removing get_ prefix (e.g., foo() not get_foo())", n);
    proof {
        reveal_strlit("fn is_empty");
        reveal_strlit("const IS_EMPTY");
        reveal_strlit("let is_empty");
        reveal_strlit("Consider empty() instead of is_empty()");
        reveal_strlit("BigEndianNaming");
    }
    let hit = contains_str(t, "fn is_empty");
    warn_if(&mut out, hit, "BigEndianNaming", "Consider empty() instead of is_empty()", n);
    let hit = contains_str(t, "const IS_EMPTY") || contains_str(t, "let is_empty");
    warn_if(&mut out, hit, "BigEndianNaming", "Consider empty() instead of is_empty()", n);
    assert(violation_views(out@) =~= big_endian_line(t@, n));
    out
}

/// Text `a` followed by `b`.
fn joined(a: &str, b: &str) -> (r: String)
    ensures
        r@ == a@ + b@,
{
    let mut s = a.to_owned();
    crate::text::push_str(&mut s, b);
    s
}

/// Append the warning for abbreviation `a` when trimmed line `t` uses it.
fn warn_abbreviation(out: &mut Vec<Violation>, t: &str, a: &str, message: &str, n: usize)
    ensures
        violation_views(final(out)@) == violation_views(old(out)@) + warning_if(
            abbreviation_used(t@, a@),
            "NoAbbreviations"@,
            message@,
            n,
        ),
{
    proof {
        reveal_strlit("let ");
        reveal_strlit("let mut ");
        reveal_strlit("fn ");
        reveal_strlit(": ");
        reveal_strlit("_");
        reveal_strlit("}");
        reveal_strlit("NoAbbreviations");
    }
    let let_form = joined("let ", a);
    let let_mut_form = joined("let mut ", a);
    let fn_form = joined("fn ", a);
    let typed_form = joined(": ", a);
    let suffix_form = joined("_", a);
    let prefix_form = joined(a, "_");
    let braced_form = joined(a, "}");
    let hit = (contains_str(t, let_form.as_str()) || contains_str(t, let_mut_form.as_str()) || contains_str(t, fn_form.as_str())
        || contains_str(t, typed_form.as_str()) || contains_str(t, suffix_form.as_str()) || contains_str(t, prefix_form.as_str()))
        && !contains_str(t, braced_form.as_str());
    warn_if(out, hit, "NoAbbreviations", message, n);
}

fn snake_case_line_exec(t: &str, n: usize) -> (r: Vec<Violation>)
    ensures
        violation_views(r@) == snake_case_line(t@, n),
{
    let mut out: Vec<Violation> = Vec::new();
    proof {
        reveal_strlit("//");
    }
    if starts_with(t, "//") {
        assert(violation_views(out@) =~= Seq::<ViolationView>::empty());
        return out;
    }
    assert(violation_views(out@) =~= Seq::<ViolationView>::empty());
    proof {
        reveal_strlit("cnt");
        reveal_strlit("Consider using 'count' instead of 'cnt'");
    }
    warn_abbreviation(&mut out, t, "cnt", "Consider using 'count' instead of 'cnt'", n);
    proof {
        reveal_strlit("idx");
        reveal_strlit("Consider using 'index' instead of 'idx'");
    }
    warn_abbreviation(&mut out, t, "idx", "Consider using 'index' instead of 'idx'", n);
    proof {
        reveal_strlit("ptr");
        reveal_strlit("Consider using 'pointer' instead of 'ptr'");
    }
    warn_abbreviation(&mut out, t, "ptr", "Consider using 'pointer' instead of 'ptr'", n);
    proof {
        reveal_strlit("buf");
        reveal_strlit("Consider using 'buffer' instead of 'buf'");
    }
    warn_abbreviation(&mut out, t, "buf", "Consider using 'buffer' instead of 'buf'", n);
    proof {
        reveal_strlit("len");
        reveal_strlit("Consider using 'length' instead of 'len'");
    }
    warn_abbreviation(&mut out, t, "len", "Consider using 'length' instead of 'len'", n);
    proof {
        reveal_strlit("num");
        reveal_strlit("Consider using 'count or number' instead of 'num'");
    }
    warn_abbreviation(&mut out, t, "num", "Consider using 'count or number' instead of 'num'", n);
    proof {
        reveal_strlit("sz");
        reveal_strlit("Consider using 'size' instead of 'sz'");
    }
    warn_abbreviation(&mut out, t, "sz", "Consider using 'size' instead of 'sz'", n);
    proof {
        reveal_strlit("val");
        reveal_strlit("Consider using 'value' instead of 'val'");
    }
    warn_abbreviation(&mut out, t, "val", "Consider using 'value' instead of 'val'", n);
    proof {
        reveal_strlit("tmp");
        reveal_strlit("Consider using 'temporary or descriptive name' instead of 'tmp'");
    }
    warn_abbreviation(&mut out, t, "tmp", "Consider using 'temporary or descriptive name' instead of 'tmp'", n);
    proof {
        reveal_strlit("ret");
        reveal_strlit("Consider using 'result or descriptive name' instead of 'ret'");
    }
    warn_abbreviation(&mut out, t, "ret", "Consider using 'result or descriptive name' instead of 'ret'", n);
    proof {
        reveal_strlit("err");
        reveal_strlit("Consider using 'error' instead of 'err'");
    }
    warn_abbreviation(&mut out, t, "err", "Consider using 'error' instead of 'err'", n);
    proof {
        reveal_strlit("msg");
        reveal_strlit("Consider using 'message' instead of 'msg'");
    }
    warn_abbreviation(&mut out, t, "msg", "Consider using 'message' instead of 'msg'", n);
    proof {
        reveal_strlit("cfg");
        reveal_strlit("Consider using 'config' instead of 'cfg'");
    }
    warn_abbreviation(&mut out, t, "cfg", "Consider using 'config' instead of 'cfg'", n);
    proof {
        reveal_strlit("ctx");
        reveal_strlit("Consider using 'context' instead of 'ctx'");
    }
    warn_abbreviation(&mut out, t, "ctx", "Consider using 'context' instead of 'ctx'", n);
    assert(violation_views(out@) =~= snake_case_line(t@, n));
    out
}

fn qualifiers_line_exec(t: &str, n: usize) -> (r: Vec<Violation>)
    ensures
        violation_views(r@) == qualifiers_line(t@, n),
{
    let mut out: Vec<Violation> = Vec::new();
    proof {
        reveal_strlit("//");
    }
    if starts_with(t, "//") {
        assert(violation_views(out@) =~= Seq::<ViolationView>::empty());
        return out;
    }
    let ghost start = violation_views(out@);
    assert(start =~= Seq::<ViolationView>::empty());
    proof {
        reveal_strlit("byte_");
        reveal_strlit("Consider suffix '_bytes' instead of prefix");
        reveal_strlit("QualifiersAtEnd");
    }
    let hit = contains_str(t, "byte_");
    warn_if(&mut out, hit, "QualifiersAtEnd", "Consider suffix '_bytes' instead of prefix", n);
    proof {
        reveal_strlit("bytes_");
        reveal_strlit("Consider suffix '_bytes' instead of prefix");
        reveal_strlit("QualifiersAtEnd");
    }
    let hit = contains_str(t, "bytes_");
    warn_if(&mut out, hit, "QualifiersAtEnd", "Consider suffix '_bytes' instead of prefix", n);
    proof {
        reveal_strlit("ms_");
        reveal_strlit("Consider suffix '_ms' instead of prefix");
        reveal_strlit("QualifiersAtEnd");
    }
    let hit = contains_str(t, "ms_");
    warn_if(&mut out, hit, "QualifiersAtEnd", "Consider suffix '_ms' instead of prefix", n);
    proof {
        reveal_strlit("sec_");
        reveal_strlit("Consider suffix '_seconds' instead of prefix");
        reveal_strlit("QualifiersAtEnd");
    }
    let hit = contains_str(t, "sec_");
    warn_if(&mut out, hit, "QualifiersAtEnd", "Consider suffix '_seconds' instead of prefix", n);
    proof {
        reveal_strlit("us_");
        reveal_strlit("Consider suffix '_us' instead of prefix");
        reveal_strlit("QualifiersAtEnd");
    }
    let hit = contains_str(t, "us_");
    warn_if(&mut out, hit, "QualifiersAtEnd", "Consider suffix '_us' instead of prefix", n);
    proof {
        reveal_strlit("ns_");
        reveal_strlit("Consider suffix '_ns' instead of prefix");
        reveal_strlit("QualifiersAtEnd");
    }
    let hit = contains_str(t, "ns_");
    warn_if(&mut out, hit, "QualifiersAtEnd", "Consider suffix '_ns' instead of prefix", n);
    assert(violation_views(out@) =~= qualifiers_line(t@, n));
    out
}

/// Which per-line naming rule to apply.
#[derive(Clone, Copy)]
enum NamingRule {
    BigEndian,
    SnakeCase,
    Qualifiers,
}

spec fn rule_spec(r: NamingRule) -> spec_fn(Seq<char>, usize) -> Seq<ViolationView> {
    match r {
        NamingRule::BigEndian => |t: Seq<char>, n: usize| big_endian_line(t, n),
        NamingRule::SnakeCase => |t: Seq<char>, n: usize| snake_case_line(t, n),
        NamingRule::Qualifiers => |t: Seq<char>, n: usize| qualifiers_line(t, n),
    }
}

fn run_rule(rule: NamingRule, code: &str) -> (r: Vec<Violation>)
    ensures
        violation_views(r@) == over_lines(code@, rule_spec(rule)),
{
    let lines = split_lines(code);
    let ghost ls = lines_of(code@);
    let mut out: Vec<Violation> = Vec::new();
    let mut i: usize = 0;
    assert(violation_views(out@) =~= over_prefix(ls, 0, rule_spec(rule)));
    while i < lines.len()
        invariant
            i <= lines@.len(),
            lines@.len() == ls.len(),
            ls == lines_of(code@),
            forall|j: int| 0 <= j < lines@.len() ==> (#[trigger] lines@[j])@ == ls[j],
            violation_views(out@) == over_prefix(ls, i as int, rule_spec(rule)),
        decreases lines@.len() - i,
    {
        let t = trim_chars(lines[i].as_str());
        let n = i + 1;
        let mut more = match rule {
            NamingRule::BigEndian => big_endian_line_exec(t.as_str(), n),
            NamingRule::SnakeCase => snake_case_line_exec(t.as_str(), n),
            NamingRule::Qualifiers => qualifiers_line_exec(t.as_str(), n),
        };
        let ghost a = out@;
        let ghost b = more@;
        out.append(&mut more);
        assert(violation_views(out@) =~= violation_views(a) + violation_views(b));
        i = i + 1;
    }
    out
}

impl NamingChecker {
    /// A checker.
    pub fn new() -> (r: Self) {
        NamingChecker
    }

    /// Big-endian naming: `max_`, `min_`, `num_`, `get_` and `is_empty` in
    /// function, constant or binding names draw a warning per line and form.
    pub fn check_big_endian_naming(&self, code: &str) -> (r: Vec<Violation>)
        ensures
            violation_views(r@) == over_lines(code@, |t: Seq<char>, n: usize| big_endian_line(t, n)),
    {
        run_rule(NamingRule::BigEndian, code)
    }

    /// No abbreviations: each common abbreviation used as an identifier part
    /// draws one warning per line.
    pub fn check_snake_case(&self, code: &str) -> (r: Vec<Violation>)
        ensures
            violation_views(r@) == over_lines(code@, |t: Seq<char>, n: usize| snake_case_line(t, n)),
    {
        run_rule(NamingRule::SnakeCase, code)
    }

    /// Qualifiers at the end: unit prefixes such as `ms_` draw a warning per line.
    pub fn check_qualifiers(&self, code: &str) -> (r: Vec<Violation>)
        ensures
            violation_views(r@) == over_lines(code@, |t: Seq<char>, n: usize| qualifiers_line(t, n)),
    {
        run_rule(NamingRule::Qualifiers, code)
    }
}

impl Default for NamingChecker {
    fn default() -> (r: Self) {
        NamingChecker
    }
}

} // verus!
