//! Cleaning texts that come from tools and models.

use crate::text;
use crate::text::{find_from, find_last};
use vstd::prelude::*;

verus! {

/// The end of a control sequence: the position after the first character from `@` to `~`, from `i` on.
pub open spec fn sequence_end(s: Seq<char>, i: int) -> int
    decreases s.len() - i,
{
    if i >= s.len() {
        s.len() as int
    } else if '@' <= s[i] <= '~' {
        i + 1
    } else {
        sequence_end(s, i + 1)
    }
}

/// The text from `i` on without terminal control sequences, which begin with an escape character and
/// a bracket.
pub open spec fn without_ansi(s: Seq<char>, i: int) -> Seq<char>
    decreases s.len() - i,
    when 0 <= i
    via without_ansi_decreases
{
    if i >= s.len() {
        Seq::empty()
    } else if s[i] == '\u{1b}' && i + 1 < s.len() && s[i + 1] == '[' {
        without_ansi(s, sequence_end(s, i + 2))
    } else {
        seq![s[i]] + without_ansi(s, i + 1)
    }
}

#[via_fn]
proof fn without_ansi_decreases(s: Seq<char>, i: int) {
    if i + 1 < s.len() {
        sequence_bounds(s, i + 2);
    }
}

proof fn sequence_bounds(s: Seq<char>, i: int)
    requires
        i <= s.len(),
    ensures
        i <= sequence_end(s, i) <= s.len(),
    decreases s.len() - i,
{
    if i < s.len() && !('@' <= s[i] <= '~') {
        sequence_bounds(s, i + 1);
    }
}

/// The text without terminal control sequences.
pub fn strip_ansi(s: &[char]) -> (r: Vec<char>)
    ensures
        r@ == without_ansi(s@, 0),
{
    let mut out: Vec<char> = Vec::new();
    let mut i: usize = 0;
    let ghost whole = without_ansi(s@, 0);
    assert(out@ + whole =~= whole);
    while i < s.len()
        invariant
            i <= s.len(),
            whole == out@ + without_ansi(s@, i as int),
        decreases s.len() - i,
    {
        if s[i] == '\u{1b}' && i + 1 < s.len() && s[i + 1] == '[' {
            let start: usize = i + 2;
            let mut end: usize = start;
            while end < s.len() && !('@' <= s[end] && s[end] <= '~')
                invariant
                    start <= end <= s.len(),
                    sequence_end(s@, start as int) == sequence_end(s@, end as int),
                decreases s.len() - end,
            {
                end += 1;
            }
            if end < s.len() {
                end += 1;
            }
            i = end;
        } else {
            let ghost before = out@;
            out.push(s[i]);
            proof {
                let rest = without_ansi(s@, i + 1);
                assert(before + (seq![s@[i as int]] + rest) =~= out@ + rest);
            }
            i += 1;
        }
    }
    assert(out@ + without_ansi(s@, i as int) =~= out@);
    out
}

/// The part of a text from its first opening to its last closing brace.
pub open spec fn object_in(s: Seq<char>) -> Option<Seq<char>> {
    match (find_from(s, "{"@, 0), find_last(s, "}"@, s.len() - 1)) {
        (Some(start), Some(end)) => if start <= end {
            Some(s.subrange(start, end + 1))
        } else {
            None
        },
        _ => None,
    }
}

/// The part of a text from its first opening to its last closing brace, where a JSON object may
/// stand.
pub fn extract_json_object(s: &str) -> (r: Option<String>)
    ensures
        text::opt_text(r) == object_in(s@),
{
    proof {
        reveal_strlit("{");
        reveal_strlit("}");
    }
    let chars = text::chars_of(s);
    let total: usize = chars.len();
    match (
        text::find(chars.as_slice(), text::chars_of("{").as_slice(), 0),
        text::rfind(chars.as_slice(), text::chars_of("}").as_slice()),
    ) {
        (Some(start), Some(end)) => if start <= end {
            assert(end < total);
            Some(text::string_of(text::part(chars.as_slice(), start, end + 1).as_slice()))
        } else {
            None
        },
        _ => None,
    }
}

/// `fastrand::usize` draws a number from a range, here one below `n`. Which one it is rests on chance;
/// an empty range makes it panic.
#[verifier::external_body]
pub(crate) fn random_below(n: usize) -> (r: usize)
    requires
        n > 0,
    ensures
        r < n,
{
    fastrand::usize(..n)
}

} // verus!
