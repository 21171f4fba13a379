//! Laws of showing marked-up text: nothing is lost but the marks, and what is marked is shown so.

use crate::frontend::markdown;
use crate::frontend::markdown::{
    blocks, code_block, code_end, code_end_bounds, flushed, is_fence, toggled, SpanKind,
    SpanView,
};
use crate::text::join;
use crate::text_laws::{joined_rows, run_together};
use vstd::prelude::*;

verus! {

/// Whether a character is no mark.
pub open spec fn is_unmarked(c: char) -> bool {
    c != '`' && c != '*' && c != '~'
}

/// The characters of a text that are no marks.
pub open spec fn unmarked(s: Seq<char>) -> Seq<char> {
    s.filter(|c: char| is_unmarked(c))
}

/// The texts of spans, one after the other.
pub open spec fn text_of(spans: Seq<SpanView>) -> Seq<char> {
    run_together(spans.map_values(|span: SpanView| span.text))
}

proof fn unmarked_parts(a: Seq<char>, b: Seq<char>)
    ensures
        unmarked(a + b) == unmarked(a) + unmarked(b),
{
    Seq::filter_distributes_over_add(a, b, |c: char| is_unmarked(c));
}

proof fn unmarked_char(c: char)
    ensures
        unmarked(seq![c]) == if is_unmarked(c) {
            seq![c]
        } else {
            Seq::empty()
        },
{
    reveal(Seq::filter);
    let none = Seq::<char>::empty();
    assert(seq![c].drop_last() =~= none);
    assert(none.filter(|c: char| is_unmarked(c)) =~= none);
    if is_unmarked(c) {
        assert(unmarked(seq![c]) =~= seq![c]);
    } else {
        assert(unmarked(seq![c]) =~= none);
    }
}

proof fn unmarked_nothing()
    ensures
        unmarked(Seq::empty()) == Seq::<char>::empty(),
{
    reveal(Seq::filter);
}

proof fn text_of_parts(a: Seq<SpanView>, b: Seq<SpanView>)
    ensures
        text_of(a + b) == text_of(a) + text_of(b),
{
    let text = |span: SpanView| span.text;
    assert((a + b).map_values(text) =~= a.map_values(text) + b.map_values(text));
    if a.len() == 0 {
        assert(a + b =~= b);
        assert(text_of(a) + text_of(b) =~= text_of(b));
    } else if b.len() == 0 {
        assert(a + b =~= a);
        assert(text_of(a) + text_of(b) =~= text_of(a));
    } else {
        joined_rows(a.map_values(text), b.map_values(text), Seq::empty());
        assert(text_of(a) + Seq::<char>::empty() + text_of(b) =~= text_of(a) + text_of(b));
    }
}

proof fn text_of_flushed(current: Seq<char>, kind: SpanKind)
    ensures
        text_of(flushed(current, kind)) == current,
{
    if current.len() == 0 {
        assert(text_of(flushed(current, kind)) =~= current);
    } else {
        let text = |span: SpanView| span.text;
        assert(flushed(current, kind).map_values(text) =~= seq![current]);
    }
}

proof fn one_on(s: Seq<char>, i: int)
    requires
        0 <= i < s.len(),
    ensures
        unmarked(s.skip(i)) == unmarked(seq![s[i]]) + unmarked(s.skip(i + 1)),
{
    assert(s.skip(i) =~= seq![s[i]] + s.skip(i + 1));
    unmarked_parts(seq![s[i]], s.skip(i + 1));
}

proof fn only_marks_from(s: Seq<char>, i: int, current: Seq<char>, kind: SpanKind)
    requires
        0 <= i <= s.len(),
    ensures
        unmarked(text_of(markdown::inline(s, i, current, kind))) == unmarked(current) + unmarked(s.skip(i)),
    decreases s.len() - i,
{
    let none = Seq::<char>::empty();
    text_of_flushed(current, kind);
    unmarked_nothing();
    if i >= s.len() {
        assert(s.skip(i) =~= none);
        assert(unmarked(current) + none =~= unmarked(current));
    } else if s[i] == '`' {
        let end = code_end(s, i + 1);
        code_end_bounds(s, i + 1);
        let code = SpanView { text: s.subrange(i + 1, end), kind: SpanKind::Code };
        let head = flushed(current, kind).push(code);
        let from = if end < s.len() {
            end + 1
        } else {
            end
        };
        let rest = markdown::inline(s, end + 1, none, SpanKind::Normal);
        assert(rest == markdown::inline(s, from, none, SpanKind::Normal));
        only_marks_from(s, from, none, SpanKind::Normal);
        assert(head =~= flushed(current, kind) + seq![code]);
        text_of_parts(flushed(current, kind), seq![code]);
        assert(seq![code].map_values(|span: SpanView| span.text) =~= seq![code.text]);
        text_of_parts(head, rest);
        unmarked_parts(current + code.text, text_of(rest));
        unmarked_parts(current, code.text);
        one_on(s, i);
        unmarked_char('`');
        assert(s.skip(i + 1) =~= code.text + s.skip(end));
        unmarked_parts(code.text, s.skip(end));
        if end < s.len() {
            code_end_is_mark(s, i + 1);
            one_on(s, end);
        }
        assert(unmarked(text_of(markdown::inline(s, i, current, kind))) =~= unmarked(current) + unmarked(
            s.skip(i),
        ));
    } else if s[i] == '*' || (s[i] == '~' && i + 1 < s.len() && s[i + 1] == '~') {
        let (next, now) = if s[i] == '*' {
            if i + 1 < s.len() && s[i + 1] == '*' {
                (i + 2, toggled(kind, SpanKind::Bold))
            } else {
                (i + 1, toggled(kind, SpanKind::Italic))
            }
        } else {
            (i + 2, toggled(kind, SpanKind::Strike))
        };
        let rest = markdown::inline(s, next, none, now);
        only_marks_from(s, next, none, now);
        text_of_parts(flushed(current, kind), rest);
        unmarked_parts(current, text_of(rest));
        unmarked_char(s[i]);
        one_on(s, i);
        if next == i + 2 {
            one_on(s, i + 1);
        }
        assert(unmarked(text_of(markdown::inline(s, i, current, kind))) =~= unmarked(current) + unmarked(
            s.skip(i),
        ));
    } else {
        only_marks_from(s, i + 1, current.push(s[i]), kind);
        assert(current.push(s[i]) =~= current + seq![s[i]]);
        unmarked_parts(current, seq![s[i]]);
        one_on(s, i);
        assert(unmarked(text_of(markdown::inline(s, i, current, kind))) =~= unmarked(current) + unmarked(
            s.skip(i),
        ));
    }
}

proof fn code_end_is_mark(s: Seq<char>, i: int)
    requires
        0 <= i,
        code_end(s, i) < s.len(),
    ensures
        s[code_end(s, i)] == '`',
        forall|k: int| i <= k < code_end(s, i) ==> #[trigger] s[k] != '`',
    decreases s.len() - i,
{
    if i < s.len() && s[i] != '`' {
        code_end_is_mark(s, i + 1);
    }
}

/// A line of text loses nothing but marks when it is shown: all its other characters are there, in
/// order.
pub proof fn only_marks_are_lost(s: Seq<char>)
    ensures
        unmarked(text_of(markdown::inline(s, 0, Seq::empty(), SpanKind::Normal))) == unmarked(s),
{
    only_marks_from(s, 0, Seq::empty(), SpanKind::Normal);
    unmarked_nothing();
    assert(s.skip(0) =~= s);
    assert(Seq::<char>::empty() + unmarked(s) =~= unmarked(s));
}

/// Whether a text holds no marks.
pub open spec fn has_no_marks(s: Seq<char>) -> bool {
    forall|i: int| 0 <= i < s.len() ==> is_unmarked(#[trigger] s[i])
}

proof fn words_run_on(s: Seq<char>, i: int, n: int, current: Seq<char>, kind: SpanKind)
    requires
        0 <= i <= n <= s.len(),
        forall|k: int| i <= k < n ==> is_unmarked(#[trigger] s[k]),
    ensures
        markdown::inline(s, i, current, kind) == markdown::inline(s, n, current + s.subrange(i, n), kind),
    decreases n - i,
{
    if i < n {
        assert(is_unmarked(s[i]));
        words_run_on(s, i + 1, n, current.push(s[i]), kind);
        assert(current.push(s[i]) + s.subrange(i + 1, n) =~= current + s.subrange(i, n));
    } else {
        assert(current + s.subrange(i, n) =~= current);
    }
}

/// A text without marks is shown as it is, in one piece.
pub proof fn unmarked_texts_are_plain(s: Seq<char>)
    requires
        has_no_marks(s),
        s.len() > 0,
    ensures
        markdown::inline(s, 0, Seq::empty(), SpanKind::Normal) == seq![
            SpanView { text: s, kind: SpanKind::Normal },
        ],
{
    words_run_on(s, 0, s.len() as int, Seq::empty(), SpanKind::Normal);
    assert(Seq::<char>::empty() + s.subrange(0, s.len() as int) =~= s);
}

/// A text between marks is shown in their way, without the marks: bold between two stars on each side,
/// struck through between two tildes, italic between single stars.
pub proof fn marked_texts_are_shown_so(s: Seq<char>, mark: Seq<char>, kind: SpanKind)
    requires
        has_no_marks(s),
        s.len() > 0,
        mark == seq!['*', '*'] && kind == SpanKind::Bold || mark == seq!['~', '~'] && kind
            == SpanKind::Strike || mark == seq!['*'] && kind == SpanKind::Italic,
    ensures
        markdown::inline(mark + s + mark, 0, Seq::empty(), SpanKind::Normal) == seq![
            SpanView { text: s, kind },
        ],
{
    let all = mark + s + mark;
    let none = Seq::<char>::empty();
    let m = mark.len() as int;
    let n = m + s.len();
    assert(is_unmarked(s[0]));
    assert(all[0] == mark[0]);
    assert(all[m] == s[0]);
    if m == 2 {
        assert(all[1] == mark[1]);
        assert(all[n + 1] == mark[1]);
    }
    assert(all[n] == mark[0]);
    assert forall|k: int| m <= k < n implies is_unmarked(#[trigger] all[k]) by {
        assert(all[k] == s[k - m]);
    }
    words_run_on(all, m, n, none, kind);
    assert(none + all.subrange(m, n) =~= s);
    let ended = markdown::inline(all, n + m, none, SpanKind::Normal);
    assert(ended =~= Seq::empty());
    assert(markdown::inline(all, n, s, kind) =~= seq![SpanView { text: s, kind }]);
    assert(flushed(none, SpanKind::Normal) =~= Seq::empty());
    assert(markdown::inline(all, 0, none, SpanKind::Normal) =~= seq![SpanView { text: s, kind }]);
}

proof fn code_ends_at(s: Seq<char>, i: int, n: int)
    requires
        0 <= i <= n < s.len(),
        s[n] == '`',
        forall|k: int| i <= k < n ==> #[trigger] s[k] != '`',
    ensures
        code_end(s, i) == n,
    decreases n - i,
{
    if i < n {
        code_ends_at(s, i + 1, n);
    }
}

/// A text between backticks is shown as code, letter for letter, whatever marks it holds.
pub proof fn code_is_shown_as_it_is(s: Seq<char>)
    requires
        !s.contains('`'),
    ensures
        markdown::inline(seq!['`'] + s + seq!['`'], 0, Seq::empty(), SpanKind::Normal) == seq![
            SpanView { text: s, kind: SpanKind::Code },
        ],
{
    let all = seq!['`'] + s + seq!['`'];
    let n = s.len() + 1int;
    assert(all[0] == '`');
    assert(all[n] == '`');
    assert forall|k: int| 1 <= k < n implies #[trigger] all[k] != '`' by {
        assert(all[k] == s[k - 1]);
        assert(s.contains(s[k - 1]));
    }
    code_ends_at(all, 1, n);
    assert(all.subrange(1, n) =~= s);
    assert(markdown::inline(all, n + 1, Seq::empty(), SpanKind::Normal) =~= Seq::empty());
    assert(markdown::inline(all, 0, Seq::empty(), SpanKind::Normal) =~= seq![
        SpanView { text: s, kind: SpanKind::Code },
    ]);
}

proof fn code_runs_on(ls: Seq<Seq<char>>, i: int, end: int, buf: Seq<Seq<char>>)
    requires
        0 <= i <= end < ls.len(),
        forall|k: int| i <= k < end ==> !is_fence(#[trigger] ls[k]),
    ensures
        blocks(ls, i, Some(buf)) == blocks(ls, end, Some(buf + ls.subrange(i, end))),
    decreases end - i,
{
    if i < end {
        assert(!is_fence(ls[i]));
        code_runs_on(ls, i + 1, end, buf.push(ls[i]));
        assert(buf.push(ls[i]) + ls.subrange(i + 1, end) =~= buf + ls.subrange(i, end));
    } else {
        assert(buf + ls.subrange(i, end) =~= buf);
    }
}

/// The lines between two fences are one block of code that holds them as they are, and what follows is
/// read on.
pub proof fn fenced_lines_stay_as_they_are(ls: Seq<Seq<char>>, i: int, end: int)
    requires
        0 <= i,
        i + 1 < end < ls.len(),
        is_fence(ls[i]),
        is_fence(ls[end]),
        forall|k: int| i < k < end ==> !is_fence(#[trigger] ls[k]),
    ensures
        ({
            let all = blocks(ls, i, None);
            &&& all.len() > 0
            &&& all[0].code_block
            &&& all[0].spans == seq![
                SpanView {
                    text: join(ls.subrange(i + 1, end), seq!['\n']),
                    kind: SpanKind::Code,
                },
            ]
            &&& all.skip(1) == blocks(ls, end + 1, None)
        }),
{
    let none = Seq::<Seq<char>>::empty();
    code_runs_on(ls, i + 1, end, none);
    assert(none + ls.subrange(i + 1, end) =~= ls.subrange(i + 1, end));
    let buf = ls.subrange(i + 1, end);
    let rest = blocks(ls, end + 1, None);
    assert((code_block(buf) + rest).skip(1) =~= rest);
}

} // verus!
