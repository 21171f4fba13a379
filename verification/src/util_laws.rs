//! Laws of cleaning texts.

use crate::text::{find_from, find_is_first, find_last, occurs_at};
use crate::text_laws::find_last_is_last;
use crate::util::{object_in, sequence_end, without_ansi};
use vstd::prelude::*;

verus! {

/// The object in a text begins with the first opening brace of the text and ends with the last closing
/// one: nothing before it opens, and nothing behind it closes.
pub proof fn objects_reach_from_brace_to_brace(s: Seq<char>)
    ensures
        object_in(s) matches Some(object) ==> {
            &&& object.len() >= 2
            &&& object[0] == '{'
            &&& object.last() == '}'
            &&& exists|before: Seq<char>, behind: Seq<char>|
                #[trigger] (before + object + behind) == s && !before.contains('{')
                    && !behind.contains('}')
        },
        object_in(s) is None ==> forall|i: int, j: int|
            0 <= i < j < s.len() && #[trigger] s[i] == '{' ==> #[trigger] s[j] != '}',
{
    reveal_strlit("{");
    reveal_strlit("}");
    find_is_first(s, "{"@, 0);
    find_last_is_last(s, "}"@, s.len() - 1);
    assert forall|i: int| 0 <= i < s.len() implies (s[i] == '{') == #[trigger] occurs_at(s, "{"@, i) by {
        assert(s.subrange(i, i + 1)[0] == s[i]);
        if s[i] == '{' {
            assert(s.subrange(i, i + 1) =~= "{"@);
        }
    }
    assert forall|i: int| 0 <= i < s.len() implies (s[i] == '}') == #[trigger] occurs_at(s, "}"@, i) by {
        assert(s.subrange(i, i + 1)[0] == s[i]);
        if s[i] == '}' {
            assert(s.subrange(i, i + 1) =~= "}"@);
        }
    }
    match object_in(s) {
        Some(object) => {
            let start = find_from(s, "{"@, 0)->0;
            let end = find_last(s, "}"@, s.len() - 1)->0;
            assert(occurs_at(s, "{"@, start) && occurs_at(s, "}"@, end));
            assert(s[start] == '{' && s[end] == '}');
            let before = s.take(start);
            let behind = s.skip(end + 1);
            assert(before + object + behind =~= s);
            if before.contains('{') {
                let i = choose|i: int| 0 <= i < before.len() && before[i] == '{';
                assert(s[i] == '{');
                assert(occurs_at(s, "{"@, i));
            }
            if behind.contains('}') {
                let i = choose|i: int| 0 <= i < behind.len() && behind[i] == '}';
                assert(s[end + 1 + i] == '}');
                assert(occurs_at(s, "}"@, end + 1 + i));
            }
        },
        None => {
            assert forall|i: int, j: int|
                0 <= i < j < s.len() && #[trigger] s[i] == '{' implies #[trigger] s[j] != '}' by {
                assert(occurs_at(s, "{"@, i));
                if s[j] == '}' {
                    assert(occurs_at(s, "}"@, j));
                }
            }
        },
    }
}

/// A text without escape characters stays as it is, and so does what stands before the first one.
pub proof fn plain_beginnings_stay(s: Seq<char>, i: int, n: int)
    requires
        0 <= i <= n <= s.len(),
        forall|k: int| i <= k < n ==> #[trigger] s[k] != '\u{1b}',
    ensures
        without_ansi(s, i) == s.subrange(i, n) + without_ansi(s, n),
    decreases n - i,
{
    if i < n {
        assert(s[i] != '\u{1b}');
        plain_beginnings_stay(s, i + 1, n);
        assert(s.subrange(i, n) =~= seq![s[i]] + s.subrange(i + 1, n));
        assert(without_ansi(s, i) =~= s.subrange(i, n) + without_ansi(s, n));
    } else {
        assert(s.subrange(i, n) + without_ansi(s, n) =~= without_ansi(s, n));
    }
}

proof fn ends_at_final(s: Seq<char>, i: int, end: int)
    requires
        0 <= i <= end < s.len(),
        '@' <= s[end] <= '~',
        forall|k: int| i <= k < end ==> !('@' <= #[trigger] s[k] <= '~'),
    ensures
        sequence_end(s, i) == end + 1,
    decreases end - i,
{
    if i < end {
        assert(!('@' <= s[i] <= '~'));
        ends_at_final(s, i + 1, end);
    }
}

/// A control sequence is left out: from its escape character and its bracket to the first character
/// from `@` to `~` behind them. What follows is read on.
pub proof fn control_sequences_are_left_out(s: Seq<char>, i: int, end: int)
    requires
        0 <= i,
        i + 2 <= end < s.len(),
        s[i] == '\u{1b}',
        s[i + 1] == '[',
        '@' <= s[end] <= '~',
        forall|k: int| i + 2 <= k < end ==> !('@' <= #[trigger] s[k] <= '~'),
    ensures
        without_ansi(s, i) == without_ansi(s, end + 1),
{
    ends_at_final(s, i + 2, end);
}

/// A text without escape characters stays as it is.
pub proof fn plain_texts_stay(s: Seq<char>)
    requires
        !s.contains('\u{1b}'),
    ensures
        without_ansi(s, 0) == s,
{
    assert forall|k: int| 0 <= k < s.len() implies #[trigger] s[k] != '\u{1b}' by {
        assert(s.contains(s[k]));
    }
    plain_beginnings_stay(s, 0, s.len() as int);
    assert(s.subrange(0, s.len() as int) + without_ansi(s, s.len() as int) =~= s);
}

} // verus!
