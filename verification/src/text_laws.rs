//! Laws of texts: trimming, joining, replacing, lines and words.

use crate::text::{
    contains, count_of, find_from, find_is_first, find_last, join, join_of_split, lines, nonempty,
    occurs_at, replaced, split, split_has_no_sep, split_not_empty, split_white, trim, trim_end,
    trim_start, white, without_cr, words,
};
use vstd::prelude::*;

verus! {

/// Whether a text holds white space only.
pub open spec fn all_white(s: Seq<char>) -> bool {
    forall|i: int| 0 <= i < s.len() ==> white(#[trigger] s[i])
}

/// Trimming the end takes white space away, and all of it.
pub proof fn trimmed_ends(s: Seq<char>)
    ensures
        trim_end(s).len() <= s.len(),
        trim_end(s) == s.take(trim_end(s).len() as int),
        all_white(s.skip(trim_end(s).len() as int)),
        trim_end(s).len() > 0 ==> !white(trim_end(s).last()),
    decreases s.len(),
{
    if s.len() > 0 && white(s.last()) {
        let head = s.drop_last();
        trimmed_ends(head);
        let n = trim_end(s).len() as int;
        assert(head.take(n) =~= s.take(n));
        assert forall|i: int| 0 <= i < s.skip(n).len() implies white(#[trigger] s.skip(n)[i]) by {
            if i < head.skip(n).len() {
                assert(head.skip(n)[i] == s.skip(n)[i]);
            }
        }
    } else {
        assert(s.take(s.len() as int) =~= s);
    }
}

/// Trimming the beginning takes white space away, and all of it.
pub proof fn trimmed_starts(s: Seq<char>)
    ensures
        trim_start(s).len() <= s.len(),
        trim_start(s) == s.skip(s.len() - trim_start(s).len()),
        all_white(s.take(s.len() - trim_start(s).len())),
        trim_start(s).len() > 0 ==> !white(trim_start(s)[0]),
    decreases s.len(),
{
    if s.len() > 0 && white(s[0]) {
        let tail = s.drop_first();
        trimmed_starts(tail);
        let n = s.len() - trim_start(s).len();
        assert(tail.skip(n - 1) =~= s.skip(n));
        assert forall|i: int| 0 <= i < s.take(n).len() implies white(#[trigger] s.take(n)[i]) by {
            if i > 0 {
                assert(tail.take(n - 1)[i - 1] == s.take(n)[i]);
            }
        }
    } else {
        assert(s.skip(0) =~= s);
    }
}

/// A trimmed text is what is left of the text between white space, and neither begins nor ends with
/// any.
pub proof fn trimmed_texts(s: Seq<char>)
    ensures
        exists|before: Seq<char>, behind: Seq<char>|
            #[trigger] (before + trim(s) + behind) == s && all_white(before) && all_white(behind),
        trim(s).len() > 0 ==> !white(trim(s)[0]) && !white(trim(s).last()),
{
    trimmed_starts(s);
    let rest = trim_start(s);
    trimmed_ends(rest);
    let before = s.take(s.len() - rest.len());
    let behind = rest.skip(trim(s).len() as int);
    assert(before + trim(s) + behind =~= s);
    if trim(s).len() > 0 {
        assert(trim(s)[0] == rest[0]);
    }
}

/// The text that is found last is an occurrence, and there is none behind it.
pub proof fn find_last_is_last(s: Seq<char>, p: Seq<char>, i: int)
    ensures
        match find_last(s, p, i) {
            Some(k) => 0 <= k <= i && occurs_at(s, p, k) && forall|j: int|
                k < j <= i ==> !#[trigger] occurs_at(s, p, j),
            None => forall|j: int| 0 <= j <= i ==> !#[trigger] occurs_at(s, p, j),
        },
    decreases i + 1,
{
    if i >= 0 && !occurs_at(s, p, i) {
        find_last_is_last(s, p, i - 1);
    }
}

/// Rows of parts that follow each other are joined as one row.
pub proof fn joined_rows(a: Seq<Seq<char>>, b: Seq<Seq<char>>, sep: Seq<char>)
    requires
        a.len() > 0,
        b.len() > 0,
    ensures
        join(a + b, sep) == join(a, sep) + sep + join(b, sep),
    decreases b.len(),
{
    let all = a + b;
    assert(all.drop_last() =~= a + b.drop_last());
    assert(all.last() == b.last());
    if b.len() == 1 {
        assert(a + b.drop_last() =~= a);
    } else {
        joined_rows(a, b.drop_last(), sep);
        assert(join(all, sep) =~= join(a, sep) + sep + join(b, sep));
    }
}

/// A part of a row stands between what is joined of those before it and of those behind it.
pub proof fn parts_stand_in_order(parts: Seq<Seq<char>>, sep: Seq<char>, i: int)
    requires
        0 <= i < parts.len(),
    ensures
        join(parts, sep) == (if i > 0 {
            join(parts.take(i), sep) + sep
        } else {
            Seq::empty()
        }) + parts[i] + (if i + 1 < parts.len() {
            sep + join(parts.skip(i + 1), sep)
        } else {
            Seq::empty()
        }),
{
    let one = seq![parts[i]];
    let before = parts.take(i);
    let behind = parts.skip(i + 1);
    assert(parts =~= before + (one + behind));
    if i + 1 < parts.len() {
        joined_rows(one, behind, sep);
    } else {
        assert(one + behind =~= one);
    }
    if i > 0 {
        joined_rows(before, one + behind, sep);
    } else {
        assert(before + (one + behind) =~= one + behind);
    }
    assert(join(parts, sep) =~= (if i > 0 {
        join(before, sep) + sep
    } else {
        Seq::empty()
    }) + parts[i] + (if i + 1 < parts.len() {
        sep + join(behind, sep)
    } else {
        Seq::empty()
    }));
}

/// One part is joined as itself.
pub proof fn joined_part(part: Seq<char>, sep: Seq<char>)
    ensures
        join(seq![part], sep) == part,
{
}

/// Replacing a text in another cuts that one at every place where the text stands and joins the pieces
/// with what is put in. No piece holds the text any more, and there is one piece more than the text
/// stands there.
pub proof fn replacing_joins_the_pieces(s: Seq<char>, p: Seq<char>, w: Seq<char>)
    requires
        p.len() > 0,
    ensures
        exists|pieces: Seq<Seq<char>>|
            {
                &&& pieces.len() == count_of(s, p) + 1
                &&& #[trigger] join(pieces, p) == s
                &&& join(pieces, w) == replaced(s, p, w)
                &&& forall|k: int|
                    0 <= k < pieces.len() ==> !contains(#[trigger] pieces[k], p)
            },
{
    let pieces = cut(s, p, w);
    assert(join(pieces, p) == s);
}

proof fn cut(s: Seq<char>, p: Seq<char>, w: Seq<char>) -> (pieces: Seq<Seq<char>>)
    requires
        p.len() > 0,
    ensures
        pieces.len() == count_of(s, p) + 1,
        join(pieces, p) == s,
        join(pieces, w) == replaced(s, p, w),
        forall|k: int| 0 <= k < pieces.len() ==> !contains(#[trigger] pieces[k], p),
    decreases s.len(),
{
    find_is_first(s, p, 0);
    match find_from(s, p, 0) {
        Some(i) => {
            let head = s.take(i);
            let tail = s.skip(i + p.len());
            let rest = cut(tail, p, w);
            let pieces = seq![head] + rest;
            joined_rows(seq![head], rest, p);
            joined_rows(seq![head], rest, w);
            assert(s.subrange(i, i + p.len()) == p);
            assert(head + p + tail =~= s);
            find_is_first(head, p, 0);
            if contains(head, p) {
                let j = find_from(head, p, 0)->0;
                assert(head.subrange(j, j + p.len()) =~= s.subrange(j, j + p.len()));
                assert(occurs_at(s, p, j));
            }
            assert forall|k: int| 0 <= k < pieces.len() implies !contains(#[trigger] pieces[k], p) by {
                if k > 0 {
                    assert(pieces[k] == rest[k - 1]);
                }
            }
            pieces
        },
        None => {
            let pieces = seq![s];
            pieces
        },
    }
}

/// No line holds a line feed.
pub proof fn lines_have_no_line_feed(s: Seq<char>, k: int)
    requires
        0 <= k < lines(s).len(),
    ensures
        !lines(s)[k].contains('\n'),
{
    let pieces = split(s, '\n');
    split_not_empty(s, '\n');
    split_has_no_sep(s, '\n', k);
    assert(!pieces[k].contains('\n'));
    if lines(s)[k].contains('\n') {
        let i = choose|i: int| 0 <= i < lines(s)[k].len() && lines(s)[k][i] == '\n';
        assert(pieces[k][i] == '\n');
    }
}

/// The characters of texts, one text after the other.
pub open spec fn run_together(parts: Seq<Seq<char>>) -> Seq<char> {
    join(parts, Seq::empty())
}

proof fn pieces_of_white(s: Seq<char>)
    ensures
        split_white(s).len() > 0,
        run_together(nonempty(split_white(s))) == s.filter(|c: char| !white(c)),
        forall|k: int, i: int|
            0 <= k < split_white(s).len() && 0 <= i < split_white(s)[k].len() ==> !white(
                #[trigger] split_white(s)[k][i],
            ),
    decreases s.len(),
{
    reveal(Seq::filter);
    let parts = split_white(s);
    if s.len() == 0 {
        assert(nonempty(parts.drop_last()) =~= Seq::empty());
        assert(nonempty(parts) =~= Seq::empty());
        assert(s.filter(|c: char| !white(c)) =~= Seq::empty());
    } else {
        let head = s.drop_last();
        pieces_of_white(head);
        let before = split_white(head);
        if white(s.last()) {
            assert(parts.drop_last() =~= before);
            assert forall|k: int, i: int|
                0 <= k < parts.len() && 0 <= i < parts[k].len() implies !white(
                #[trigger] parts[k][i],
            ) by {
                if k < before.len() {
                    assert(before[k][i] == parts[k][i]);
                }
            }
        } else {
            let open = before.drop_last();
            let last = before.last();
            let grown = last.push(s.last());
            assert(parts.drop_last() =~= open);
            assert(parts.last() == grown);
            assert(nonempty(parts) == nonempty(open).push(grown));
            ends_with_part(nonempty(open), grown);
            if last.len() == 0 {
                assert(nonempty(before) == nonempty(open));
                assert(run_together(nonempty(open)) + grown =~= run_together(nonempty(open)).push(
                    s.last(),
                ));
            } else {
                assert(nonempty(before) == nonempty(open).push(last));
                ends_with_part(nonempty(open), last);
                assert(run_together(nonempty(open)) + grown =~= (run_together(nonempty(open))
                    + last).push(s.last()));
            }
            assert forall|k: int, i: int|
                0 <= k < parts.len() && 0 <= i < parts[k].len() implies !white(
                #[trigger] parts[k][i],
            ) by {
                if k < open.len() {
                    assert(before[k][i] == parts[k][i]);
                } else if i < last.len() {
                    assert(before[k][i] == parts[k][i]);
                }
            }
        }
    }
}

/// One more text goes behind the others.
pub proof fn ends_with_part(parts: Seq<Seq<char>>, part: Seq<char>)
    ensures
        run_together(parts.push(part)) == run_together(parts) + part,
{
    assert(parts.push(part).drop_last() =~= parts);
    if parts.len() == 0 {
        assert(run_together(parts) + part =~= part);
    } else {
        assert(run_together(parts) + Seq::<char>::empty() + part =~= run_together(parts) + part);
    }
}

proof fn nonempty_parts(parts: Seq<Seq<char>>)
    ensures
        forall|k: int|
            0 <= k < nonempty(parts).len() ==> (#[trigger] nonempty(parts)[k]).len() > 0
                && parts.contains(nonempty(parts)[k]),
    decreases parts.len(),
{
    if parts.len() > 0 {
        let head = parts.drop_last();
        nonempty_parts(head);
        let all = nonempty(parts);
        assert forall|k: int| 0 <= k < all.len() implies (#[trigger] all[k]).len() > 0
            && parts.contains(all[k]) by {
            if k < nonempty(head).len() {
                assert(all[k] == nonempty(head)[k]);
                let j = choose|j: int| 0 <= j < head.len() && head[j] == all[k];
                assert(parts[j] == all[k]);
            } else {
                assert(parts[parts.len() - 1] == all[k]);
            }
        }
    }
}

/// The words of a text are not empty and hold no white space, and together they are all the characters
/// of the text but white space, in order.
pub proof fn words_are_the_rest_of_white_space(s: Seq<char>)
    ensures
        run_together(words(s)) == s.filter(|c: char| !white(c)),
        forall|k: int| 0 <= k < words(s).len() ==> (#[trigger] words(s)[k]).len() > 0,
        forall|k: int, i: int|
            0 <= k < words(s).len() && 0 <= i < words(s)[k].len() ==> !white(
                #[trigger] words(s)[k][i],
            ),
{
    pieces_of_white(s);
    let parts = split_white(s);
    nonempty_parts(parts);
    assert forall|k: int, i: int| 0 <= k < words(s).len() && 0 <= i < words(s)[k].len() implies !white(
        #[trigger] words(s)[k][i],
    ) by {
        assert(parts.contains(words(s)[k]));
        let j = choose|j: int| 0 <= j < parts.len() && parts[j] == words(s)[k];
        assert(parts[j][i] == words(s)[k][i]);
    }
}

/// A text whose lines end with line feeds alone is its lines joined with line feeds, but for a line
/// feed at the very end.
pub proof fn lines_make_the_text(s: Seq<char>)
    requires
        !s.contains('\r'),
    ensures
        s == join(lines(s), seq!['\n']) || s == join(lines(s), seq!['\n']).push('\n'),
{
    let pieces = split(s, '\n');
    join_of_split(s, '\n');
    split_not_empty(s, '\n');
    let all = lines(s);
    assert forall|k: int| 0 <= k < pieces.len() implies without_cr(#[trigger] pieces[k])
        == pieces[k] by {
        if pieces[k].len() > 0 && pieces[k].last() == '\r' {
            piece_stands_in(s, k, pieces[k].len() - 1);
        }
    }
    if pieces.last().len() == 0 {
        assert(all =~= pieces.drop_last());
        if pieces.len() == 1 {
            assert(join(all, seq!['\n']) =~= s);
        } else {
            assert(s =~= join(all, seq!['\n']).push('\n'));
        }
    } else {
        assert(all =~= pieces);
    }
}

proof fn piece_stands_in(s: Seq<char>, k: int, i: int)
    requires
        0 <= k < split(s, '\n').len(),
        0 <= i < split(s, '\n')[k].len(),
    ensures
        s.contains(split(s, '\n')[k][i]),
    decreases s.len(),
{
    if s.len() > 0 {
        let head = s.drop_last();
        let before = split(head, '\n');
        split_not_empty(head, '\n');
        let c = split(s, '\n')[k][i];
        if s.last() == '\n' {
            assert(k < before.len());
            piece_stands_in(head, k, i);
            let j = choose|j: int| 0 <= j < head.len() && head[j] == c;
            assert(s[j] == c);
        } else if k == before.len() - 1 && i == before.last().len() {
            assert(s[s.len() - 1] == c);
        } else {
            piece_stands_in(head, k, i);
            let j = choose|j: int| 0 <= j < head.len() && head[j] == c;
            assert(s[j] == c);
        }
    }
}

} // verus!
