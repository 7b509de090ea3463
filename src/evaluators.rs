//! Reading evaluator output: the line that explains a failure, and the
//! seed that reproduces a failing simulation run.

use crate::counterexample::Counterexample;
use crate::text::{
    contains_seq, contains_str, is_space, lines_of, occurs_at, space, split_lines, starts_with,
    starts_with_seq,
};
use vstd::prelude::*;
use vstd::string::*;

verus! {

/// Which lines a search looks for.
#[derive(Debug, Clone, Copy, PartialEq, Eq, Structural)]
pub enum LineTest {
    /// A compiler error: starts with `error[E` or `error:`.
    CompilerError,
    /// Any non-empty line.
    NonEmpty,
    /// Miri's report of undefined behaviour.
    UndefinedBehavior,
    /// Starts with `error:`.
    ErrorPrefix,
    /// A panic or failed assertion, as loom reports them.
    LoomPanic,
    /// A failed test.
    Failed,
    /// A panic or failed assertion.
    Panic,
}

/// Whether `line` is what `t` looks for.
pub open spec fn line_passes(t: LineTest, line: Seq<char>) -> bool {
    match t {
        LineTest::CompilerError => starts_with_seq(line, "error[E"@) || starts_with_seq(line, "error:"@),
        LineTest::NonEmpty => line.len() > 0,
        LineTest::UndefinedBehavior => contains_seq(line, "Undefined Behavior:"@) || contains_seq(
            line,
            "error: Undefined Behavior"@,
        ),
        LineTest::ErrorPrefix => starts_with_seq(line, "error:"@),
        LineTest::LoomPanic => contains_seq(line, "panicked at"@) || contains_seq(line, "assertion failed"@)
            || (contains_seq(line, "thread '"@) && contains_seq(line, "panicked"@)),
        LineTest::Failed => contains_seq(line, "FAILED"@),
        LineTest::Panic => contains_seq(line, "panicked at"@) || contains_seq(line, "assertion failed"@),
    }
}

fn passes(t: LineTest, line: &str) -> (r: bool)
    ensures
        r == line_passes(t, line@),
{
    match t {
        LineTest::CompilerError => starts_with(line, "error[E") || starts_with(line, "error:"),
        LineTest::NonEmpty => line.unicode_len() > 0,
        LineTest::UndefinedBehavior => contains_str(line, "Undefined Behavior:") || contains_str(
            line,
            "error: Undefined Behavior",
        ),
        LineTest::ErrorPrefix => starts_with(line, "error:"),
        LineTest::LoomPanic => contains_str(line, "panicked at") || contains_str(line, "assertion failed") || (
        contains_str(line, "thread '") && contains_str(line, "panicked")),
        LineTest::Failed => contains_str(line, "FAILED"),
        LineTest::Panic => contains_str(line, "panicked at") || contains_str(line, "assertion failed"),
    }
}

/// The first line of `lines` that `t` looks for.
pub open spec fn first_line(lines: Seq<Seq<char>>, t: LineTest) -> Option<Seq<char>>
    decreases lines.len(),
{
    if lines.len() == 0 {
        None
    } else if line_passes(t, lines[0]) {
        Some(lines[0])
    } else {
        first_line(lines.drop_first(), t)
    }
}

/// The last line of `lines` that `t` looks for.
pub open spec fn last_line(lines: Seq<Seq<char>>, t: LineTest) -> Option<Seq<char>>
    decreases lines.len(),
{
    if lines.len() == 0 {
        None
    } else if line_passes(t, lines.last()) {
        Some(lines.last())
    } else {
        last_line(lines.drop_last(), t)
    }
}

/// The views of `v`.
pub open spec fn views(v: Seq<String>) -> Seq<Seq<char>> {
    v.map_values(|s: String| s@)
}

/// The first line of `lines` that `t` looks for.
fn find_first(lines: &Vec<String>, t: LineTest) -> (r: Option<String>)
    ensures
        match r {
            Some(s) => first_line(views(lines@), t) == Some(s@),
            None => first_line(views(lines@), t) is None,
        },
{
    let ghost all = views(lines@);
    let mut i: usize = 0;
    assert(all.skip(0) =~= all);
    while i < lines.len()
        invariant
            i <= lines@.len(),
            all == views(lines@),
            first_line(all, t) == first_line(all.skip(i as int), t),
        decreases lines@.len() - i,
    {
        assert(all.skip(i as int)[0] == lines@[i as int]@);
        assert(all.skip(i as int).drop_first() =~= all.skip(i + 1));
        if passes(t, lines[i].as_str()) {
            return Some(lines[i].clone());
        }
        i = i + 1;
    }
    assert(all.skip(i as int).len() == 0);
    None
}

/// The last line of `lines` that `t` looks for.
fn find_last(lines: &Vec<String>, t: LineTest) -> (r: Option<String>)
    ensures
        match r {
            Some(s) => last_line(views(lines@), t) == Some(s@),
            None => last_line(views(lines@), t) is None,
        },
{
    let ghost all = views(lines@);
    let mut i: usize = lines.len();
    assert(all.take(i as int) =~= all);
    while i > 0
        invariant
            i <= lines@.len(),
            all == views(lines@),
            last_line(all, t) == last_line(all.take(i as int), t),
        decreases i,
    {
        assert(all.take(i as int).last() == lines@[i - 1]@);
        assert(all.take(i as int).drop_last() =~= all.take(i - 1));
        if passes(t, lines[i - 1].as_str()) {
            return Some(lines[i - 1].clone());
        }
        i = i - 1;
    }
    None
}

/// The first line that `t` looks for, else the first non-empty line, else `fallback`.
pub open spec fn line_or(lines: Seq<Seq<char>>, t: LineTest, fallback: Seq<char>) -> Seq<char> {
    match first_line(lines, t) {
        Some(l) => l,
        None => match first_line(lines, LineTest::NonEmpty) {
            Some(l) => l,
            None => fallback,
        },
    }
}

/// What `extract_rustc_error` reports.
pub open spec fn rustc_error_of(stderr: Seq<char>) -> Seq<char> {
    line_or(lines_of(stderr), LineTest::CompilerError, "unknown error"@)
}

/// The first compiler error line, else the first non-empty line, else
/// `unknown error`.
pub fn extract_rustc_error(stderr: &str) -> (r: String)
    ensures
        r@ == rustc_error_of(stderr@),
{
    proof {
        reveal_strlit("unknown error");
    }
    let lines = split_lines(stderr);
    assert(views(lines@) =~= lines_of(stderr@));
    match find_first(&lines, LineTest::CompilerError) {
        Some(l) => l,
        None => match find_first(&lines, LineTest::NonEmpty) {
            Some(l) => l,
            None => String::from_str("unknown error"),
        },
    }
}

/// What `extract_miri_error` reports.
pub open spec fn miri_error_of(stderr: Seq<char>) -> Seq<char> {
    match first_line(lines_of(stderr), LineTest::UndefinedBehavior) {
        Some(l) => l,
        None => line_or(lines_of(stderr), LineTest::ErrorPrefix, "undefined behavior detected"@),
    }
}

/// Miri's undefined-behaviour line, else the first `error:` line, else the
/// first non-empty line, else `undefined behavior detected`.
pub fn extract_miri_error(stderr: &str) -> (r: String)
    ensures
        r@ == miri_error_of(stderr@),
{
    proof {
        reveal_strlit("undefined behavior detected");
    }
    let lines = split_lines(stderr);
    assert(views(lines@) =~= lines_of(stderr@));
    if let Some(l) = find_first(&lines, LineTest::UndefinedBehavior) {
        return l;
    }
    match find_first(&lines, LineTest::ErrorPrefix) {
        Some(l) => l,
        None => match find_first(&lines, LineTest::NonEmpty) {
            Some(l) => l,
            None => String::from_str("undefined behavior detected"),
        },
    }
}

/// What `extract_loom_error` reports.
pub open spec fn loom_error_of(stderr: Seq<char>, stdout: Seq<char>) -> Seq<char> {
    match first_line(lines_of(stderr) + lines_of(stdout), LineTest::LoomPanic) {
        Some(l) => l,
        None => match first_line(lines_of(stdout), LineTest::Failed) {
            Some(l) => l,
            None => "loom test failed"@,
        },
    }
}

/// The first panic or failed assertion over error then standard output,
/// else the first `FAILED` line of standard output, else `loom test failed`.
pub fn extract_loom_error(stderr: &str, stdout: &str) -> (r: String)
    ensures
        r@ == loom_error_of(stderr@, stdout@),
{
    proof {
        reveal_strlit("loom test failed");
    }
    let mut all = split_lines(stderr);
    let mut out_lines = split_lines(stdout);
    let out_copy = split_lines(stdout);
    let ghost a = all@;
    let ghost b = out_lines@;
    all.append(&mut out_lines);
    assert(views(all@) =~= lines_of(stderr@) + lines_of(stdout@)) by {
        assert(all@ =~= a + b);
    }
    assert(views(out_copy@) =~= lines_of(stdout@));
    if let Some(l) = find_first(&all, LineTest::LoomPanic) {
        return l;
    }
    match find_first(&out_copy, LineTest::Failed) {
        Some(l) => l,
        None => String::from_str("loom test failed"),
    }
}

/// The first occurrence of `needle` in `hay` at or after `from`.
pub open spec fn find_from(hay: Seq<char>, needle: Seq<char>, from: int) -> Option<int>
    decreases hay.len() + 1 - from,
{
    if from < 0 || from > hay.len() {
        None
    } else if occurs_at(hay, needle, from) {
        Some(from)
    } else {
        find_from(hay, needle, from + 1)
    }
}

pub(crate) fn find_from_exec(hay: &str, needle: &str, from: usize) -> (r: Option<usize>)
    ensures
        match r {
            Some(i) => find_from(hay@, needle@, from as int) == Some(i as int) && from <= i && occurs_at(
                hay@,
                needle@,
                i as int,
            ),
            None => find_from(hay@, needle@, from as int) is None,
        },
{
    let h = hay.unicode_len();
    if from > h {
        return None;
    }
    let mut i: usize = from;
    while i <= h
        invariant
            from <= i,
            h == hay@.len(),
            i <= h + 1,
            find_from(hay@, needle@, from as int) == find_from(hay@, needle@, i as int),
        decreases h + 1 - i,
    {
        if crate::text::matches_at(hay, needle, i) {
            return Some(i);
        }
        if i == h {
            assert(find_from(hay@, needle@, (i + 1) as int) is None);
            return None;
        }
        i = i + 1;
    }
    None
}

/// The first position at or after `i` that is not white space.
pub open spec fn skip_spaces(s: Seq<char>, i: int) -> int
    decreases s.len() - i,
{
    if 0 <= i < s.len() && is_space(s[i]) {
        skip_spaces(s, i + 1)
    } else {
        i
    }
}

/// The end of the run of non-space characters starting at `i`.
pub open spec fn word_end(s: Seq<char>, i: int) -> int
    decreases s.len() - i,
{
    if 0 <= i < s.len() && !is_space(s[i]) {
        word_end(s, i + 1)
    } else {
        i
    }
}

/// The seed token of a line: after the first `DST_SEED=`, up to the next
/// one, the first whitespace-separated word.
pub open spec fn seed_token(line: Seq<char>) -> Option<Seq<char>> {
    match find_from(line, "DST_SEED="@, 0) {
        None => None,
        Some(i) => {
            let start = i + 9;
            let end = match find_from(line, "DST_SEED="@, start) {
                Some(j) => j,
                None => line.len() as int,
            };
            let piece = line.subrange(start, end);
            let a = skip_spaces(piece, 0);
            if a >= piece.len() {
                None
            } else {
                Some(piece.subrange(a, word_end(piece, a)))
            }
        },
    }
}

/// The value of the decimal digits `d`.
pub open spec fn digits_value(d: Seq<char>) -> nat
    decreases d.len(),
{
    if d.len() == 0 {
        0
    } else {
        digits_value(d.drop_last()) * 10 + (d.last() as nat - '0' as nat) as nat
    }
}

/// Every character of `d` is a decimal digit.
pub open spec fn all_digits(d: Seq<char>) -> bool {
    forall|i: int| 0 <= i < d.len() ==> '0' <= #[trigger] d[i] <= '9'
}

/// `u64` parsing of `t`: an optional `+`, then at least one decimal digit,
/// with a value that fits.
pub open spec fn parse_u64(t: Seq<char>) -> Option<u64> {
    let d = if t.len() > 0 && t[0] == '+' { t.drop_first() } else { t };
    if d.len() > 0 && all_digits(d) && digits_value(d) <= u64::MAX {
        Some(digits_value(d) as u64)
    } else {
        None
    }
}

/// The seed a line reports, if it reports one that parses.
pub open spec fn line_seed(line: Seq<char>) -> Option<u64> {
    match seed_token(line) {
        Some(t) => parse_u64(t),
        None => None,
    }
}

/// The seed reported last over `lines`.
pub open spec fn last_seed(lines: Seq<Seq<char>>) -> Option<u64>
    decreases lines.len(),
{
    if lines.len() == 0 {
        None
    } else {
        match line_seed(lines.last()) {
            Some(s) => Some(s),
            None => last_seed(lines.drop_last()),
        }
    }
}

fn parse_seed(t: &str, a: usize, b: usize) -> (r: Option<u64>)
    requires
        a <= b <= t@.len(),
    ensures
        r == parse_u64(t@.subrange(a as int, b as int)),
{
    let ghost tok = t@.subrange(a as int, b as int);
    let mut i: usize = a;
    if a < b && t.get_char(a) == '+' {
        i = a + 1;
    }
    let ghost d = t@.subrange(i as int, b as int);
    assert(d =~= if tok.len() > 0 && tok[0] == '+' { tok.drop_first() } else { tok });
    if i == b {
        assert(d.len() == 0);
        assert(parse_u64(tok) is None);
        return None;
    }
    let start = i;
    let mut value: u64 = 0;
    assert(t@.subrange(start as int, start as int) =~= Seq::<char>::empty());
    while i < b
        invariant
            start <= i <= b,
            b <= t@.len(),
            d == t@.subrange(start as int, b as int),
            tok == t@.subrange(a as int, b as int),
            d =~= if tok.len() > 0 && tok[0] == '+' { tok.drop_first() } else { tok },
            forall|k: int| start <= k < i ==> '0' <= #[trigger] t@[k] <= '9',
            value == digits_value(t@.subrange(start as int, i as int)),
        decreases b - i,
    {
        let c = t.get_char(i);
        if c < '0' || c > '9' {
            proof {
                let dd = if tok.len() > 0 && tok[0] == '+' { tok.drop_first() } else { tok };
                assert(dd == d);
                assert(dd[i - start] == c);
                assert(!('0' <= dd[i - start] <= '9'));
                assert(!all_digits(dd));
            }
            return None;
        }
        let digit = (c as u32 - '0' as u32) as u64;
        assert(t@.subrange(start as int, i + 1).drop_last() =~= t@.subrange(start as int, i as int));
        if value > (u64::MAX - digit) / 10 {
            proof {
                assert(digits_value(t@.subrange(start as int, i + 1)) == value * 10 + digit);
                assert(value * 10 + digit > u64::MAX) by (nonlinear_arith)
                    requires
                        value > (u64::MAX - digit) / 10,
                        digit <= 9,
                ;
                assert(d.take(i + 1 - start) =~= t@.subrange(start as int, i + 1));
                let dd = if tok.len() > 0 && tok[0] == '+' { tok.drop_first() } else { tok };
                assert(dd == d);
                if all_digits(d) {
                    lemma_digits_monotone(d, (i + 1 - start) as int);
                    assert(digits_value(dd) > u64::MAX);
                }
            }
            return None;
        }
        proof {
            assert(value * 10 + digit <= u64::MAX) by (nonlinear_arith)
                requires
                    value <= (u64::MAX - digit) / 10,
                    digit <= 9,
            ;
        }
        value = value * 10 + digit;
        i = i + 1;
    }
    assert(t@.subrange(start as int, b as int) =~= d);
    Some(value)
}

/// A prefix's value never exceeds the whole's, for all-digit sequences.
proof fn lemma_digits_monotone(d: Seq<char>, k: int)
    requires
        0 <= k <= d.len(),
    ensures
        all_digits(d) ==> digits_value(d.take(k)) <= digits_value(d),
    decreases d.len() - k,
{
    if k < d.len() {
        lemma_digits_monotone(d, k + 1);
        assert(d.take(k + 1).drop_last() =~= d.take(k));
        assert(d.take(d.len() as int) =~= d);
    } else {
        assert(d.take(k) =~= d);
    }
}

/// The seed that `line` reports, if any.
fn seed_of_line(line: &str) -> (r: Option<u64>)
    ensures
        r == line_seed(line@),
{
    proof {
        reveal_strlit("DST_SEED=");
    }
    let n = line.unicode_len();
    let i = match find_from_exec(line, "DST_SEED=", 0) {
        Some(i) => i,
        None => {
            return None;
        },
    };
    assert(i + 9 <= n);
    let start = i + 9;
    let end = match find_from_exec(line, "DST_SEED=", start) {
        Some(j) => j,
        None => line.unicode_len(),
    };
    assert(start <= end <= line@.len());
    let ghost piece = line@.subrange(start as int, end as int);
    let mut a: usize = start;
    while a < end && space(line.get_char(a))
        invariant
            start <= a <= end,
            end <= line@.len(),
            piece == line@.subrange(start as int, end as int),
            skip_spaces(piece, 0) == skip_spaces(piece, a - start),
        decreases end - a,
    {
        assert(piece[a - start] == line@[a as int]);
        a = a + 1;
    }
    if a >= end {
        return None;
    }
    let mut b: usize = a;
    while b < end && !space(line.get_char(b))
        invariant
            start <= a <= b <= end,
            end <= line@.len(),
            piece == line@.subrange(start as int, end as int),
            word_end(piece, a - start) == word_end(piece, b - start),
        decreases end - b,
    {
        assert(piece[b - start] == line@[b as int]);
        b = b + 1;
    }
    assert(piece.subrange(a - start, b - start) =~= line@.subrange(a as int, b as int));
    parse_seed(line, a, b)
}

/// What `extract_dst_error` reports: the last panic or failed-assertion
/// line (or `DST test failed`), and the last reported non-zero seed.
pub open spec fn dst_error_of(stderr: Seq<char>, stdout: Seq<char>) -> (Seq<char>, Option<u64>) {
    let lines = lines_of(stderr) + lines_of(stdout);
    (
        match last_line(lines, LineTest::Panic) {
            Some(l) => l,
            None => "DST test failed"@,
        },
        match last_seed(lines) {
            Some(s) => if s != 0 { Some(s) } else { None },
            None => None,
        },
    )
}

/// The failure line of a simulation run and, when the output names a
/// non-zero seed, a counterexample carrying it for reproduction.
pub fn extract_dst_error(stderr: &str, stdout: &str) -> (r: (String, Option<Counterexample>))
    ensures
        r.0@ == dst_error_of(stderr@, stdout@).0,
        match dst_error_of(stderr@, stdout@).1 {
            Some(s) => r.1 matches Some(ce) && ce.dst_seed == Some(s) && ce.states@.len() == 0,
            None => r.1 is None,
        },
{
    proof {
        reveal_strlit("DST test failed");
    }
    let mut all = split_lines(stderr);
    let mut out_lines = split_lines(stdout);
    let ghost a = all@;
    let ghost b = out_lines@;
    all.append(&mut out_lines);
    assert(views(all@) =~= lines_of(stderr@) + lines_of(stdout@)) by {
        assert(all@ =~= a + b);
    }
    let error = match find_last(&all, LineTest::Panic) {
        Some(l) => l,
        None => String::from_str("DST test failed"),
    };
    let ghost lines = views(all@);
    let mut i: usize = all.len();
    let mut seed: Option<u64> = None;
    assert(lines.take(i as int) =~= lines);
    while i > 0 && seed.is_none()
        invariant
            i <= all@.len(),
            lines == views(all@),
            seed.is_none() ==> last_seed(lines) == last_seed(lines.take(i as int)),
            seed.is_some() ==> seed == last_seed(lines),
        decreases i,
    {
        assert(lines.take(i as int).last() == all@[i - 1]@);
        assert(lines.take(i as int).drop_last() =~= lines.take(i - 1));
        seed = seed_of_line(all[i - 1].as_str());
        i = i - 1;
    }
    let counterexample = match seed {
        Some(s) => if s != 0 {
            Some(Counterexample::with_seed(s))
        } else {
            None
        },
        None => None,
    };
    (error, counterexample)
}

} // verus!
