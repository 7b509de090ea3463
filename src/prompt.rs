//! Prompt text and code extraction from model responses.

use crate::text::{is_space, matches_at, occurs_at, space, trim_chars, trimmed};
use vstd::prelude::*;
use vstd::string::*;

verus! {

/// Builds prompts from specifications alone, without implementation hints.
pub struct PromptBuilder;

/// The first position at or after `from` where `needle` occurs in `hay`.
pub open spec fn first_occurrence(hay: Seq<char>, needle: Seq<char>, from: int, i: int) -> bool {
    &&& from <= i
    &&& occurs_at(hay, needle, i)
    &&& forall|j: int| from <= j < i ==> !occurs_at(hay, needle, j)
}

/// The first position at or after `from` that is not white space other
/// than a newline, or `hay.len()` when there is none.
pub open spec fn code_start(hay: Seq<char>, from: int, i: int) -> bool {
    &&& from <= i <= hay.len()
    &&& i < hay.len() ==> !is_space(hay[i]) || hay[i] == '\n'
    &&& forall|j: int| from <= j < i ==> is_space(hay[j]) && hay[j] != '\n'
}

/// What `extract_code_block` returns: the trimmed text between the first
/// "```rust" (with the blanks after it skipped, up to a newline) and the
/// next "```"; `None` when either marker is missing.
pub open spec fn code_block(response: Seq<char>, r: Option<Seq<char>>) -> bool {
    match r {
        None => (forall|i: int| !occurs_at(response, "```rust"@, i)) || exists|open: int, start: int|
            #[trigger] first_occurrence(response, "```rust"@, 0, open) && #[trigger] code_start(response, open + 7, start) && forall|
                j: int,
            | start <= j ==> !occurs_at(response, "```"@, j),
        Some(code) => exists|open: int, start: int, close: int|
            #[trigger] first_occurrence(response, "```rust"@, 0, open) && #[trigger] code_start(response, open + 7, start)
                && #[trigger] first_occurrence(response, "```"@, start, close) && code == trimmed(
                response.subrange(start, close),
            ),
    }
}

/// The first occurrence of `needle` in `hay` at or after `from`.
fn find_marker(hay: &str, needle: &str, from: usize) -> (r: Option<usize>)
    requires
        from <= hay@.len(),
    ensures
        r matches Some(i) ==> first_occurrence(hay@, needle@, from as int, i as int),
        r is None ==> forall|j: int| from <= j ==> !occurs_at(hay@, needle@, j),
{
    let h = hay.unicode_len();
    let mut i: usize = from;
    while i <= h
        invariant
            from <= i,
            h == hay@.len(),
            i <= h + 1,
            forall|j: int| from <= j < i ==> !occurs_at(hay@, needle@, j),
        decreases h + 1 - i,
    {
        if matches_at(hay, needle, i) {
            return Some(i);
        }
        if i == h {
            return None;
        }
        i = i + 1;
    }
    None
}

/// The code inside the first "```rust" block of a model response, trimmed;
/// `None` when there is no such block.
pub fn extract_code_block(response: &str) -> (r: Option<String>)
    ensures
        code_block(
            response@,
            match r {
                Some(s) => Some(s@),
                None => None,
            },
        ),
{
    proof {
        reveal_strlit("```rust");
        reveal_strlit("```");
    }
    let open = match find_marker(response, "```rust", 0) {
        Some(i) => i,
        None => {
            return None;
        },
    };
    let n = response.unicode_len();
    let mut start: usize = open + 7;
    while start < n && space(response.get_char(start)) && response.get_char(start) != '\n'
        invariant
            n == response@.len(),
            open + 7 <= start <= n,
            forall|j: int| open + 7 <= j < start ==> is_space(response@[j]) && response@[j] != '\n',
        decreases n - start,
    {
        start = start + 1;
    }
    assert(code_start(response@, open + 7, start as int));
    let close = match find_marker(response, "```", start) {
        Some(i) => i,
        None => {
            return None;
        },
    };
    let code = trim_chars(response.substring_char(start, close));
    Some(code)
}

impl PromptBuilder {
    /// The system prompt: minimal, with no implementation hints.
    pub fn system_prompt() -> (r: &'static str)
        ensures
            r@ == SYSTEM_PROMPT@,
    {
        SYSTEM_PROMPT
    }
}

/// Text of the system prompt.
pub const SYSTEM_PROMPT: &'static str = "You are a Rust systems programmer.

Your task: implement modules that satisfy TLA+ specifications.

The TLA+ spec defines invariants. Your implementation must preserve them.
The evaluator cascade will verify correctness automatically.

Style:
- Use u64 for IDs and counts
- Include assertions (at least 2 per public function)
- Code must be self-contained

Any implementation that satisfies the invariants is correct.
Among correct implementations, prefer better performing ones:
- WaitFree > LockFree > ObstructionFree > Blocking

Return ONLY Rust code in a ```rust code block.";

} // verus!
