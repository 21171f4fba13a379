//! Laws of searching: which lines and which files are shown.

use crate::app::search::{
    base_name, context_end, context_start, dir_names, first_hits, glob_found, glob_pattern,
    glob_search_text, glob_target, grep_hit, grep_lines, is_walked, path_below, shown_lines, walked,
    DirView, GrepView,
};
use crate::order::{is_arrangement, order_is_sorted, order_of};
use crate::pattern::{pattern_fault, pattern_found};
use crate::text::{find_last, join, occurs_at, precedes, trim};
use crate::text_laws::find_last_is_last;
use vstd::prelude::*;
use vstd::utf8::encode_utf8;

verus! {

/// Whether line `k` of a file stands at most two lines away from one of the first `n` lines that
/// matches.
pub open spec fn is_near(found: Seq<bool>, n: int, k: int) -> bool {
    exists|i: int| 0 <= i < n && #[trigger] found[i] && i - 2 <= k <= i + 2
}

/// Of the first `upto` lines those that stand near a match, each in a line of its own with two spaces
/// before it.
pub open spec fn excerpt(ls: Seq<Seq<char>>, found: Seq<bool>, n: int, upto: int) -> Seq<char>
    decreases upto,
{
    if upto <= 0 {
        Seq::empty()
    } else if is_near(found, n, upto - 1) {
        excerpt(ls, found, n, upto - 1) + ("\n  "@ + ls[upto - 1])
    } else {
        excerpt(ls, found, n, upto - 1)
    }
}

/// What is shown after a file was looked through up to line `n`: what was shown before, and, if a line
/// matches, the name of the file and the lines near a match.
pub open spec fn shown_after(
    before: Seq<char>,
    name: Seq<char>,
    ls: Seq<Seq<char>>,
    found: Seq<bool>,
    n: int,
) -> Seq<char> {
    if exists|i: int| 0 <= i < n && #[trigger] found[i] {
        let head = if before.len() == 0 {
            "./"@ + name
        } else {
            before + "\n--\n"@ + "./"@ + name
        };
        head + excerpt(ls, found, n, ls.len() as int)
    } else {
        before
    }
}

/// The number of lines that match among the first `n`.
pub open spec fn matches_in(found: Seq<bool>, n: int) -> nat {
    found.take(n).filter(|hit: bool| hit).len()
}

/// What is known of a search within a file, as long as it goes on.
spec fn on_the_way(
    start: GrepView,
    now: GrepView,
    name: Seq<char>,
    ls: Seq<Seq<char>>,
    found: Seq<bool>,
    n: int,
) -> bool {
    &&& now.out == shown_after(start.out, name, ls, found, n)
    &&& now.hits == start.hits + matches_in(found, n)
    &&& now.opened == exists|i: int| 0 <= i < n && #[trigger] found[i]
    &&& !now.opened ==> now.next == 0
    &&& now.opened ==> exists|last: int|
        0 <= last < n && #[trigger] found[last] && now.next == context_end(ls.len(), last)
            && forall|i: int| last < i < n ==> !#[trigger] found[i]
}

proof fn same_excerpt(ls: Seq<Seq<char>>, found: Seq<bool>, n: int, upto: int)
    requires
        forall|k: int| 0 <= k < upto ==> is_near(found, n, k) == #[trigger] is_near(found, n + 1, k),
    ensures
        excerpt(ls, found, n + 1, upto) == excerpt(ls, found, n, upto),
    decreases upto,
{
    if upto > 0 {
        assert(is_near(found, n, upto - 1) == is_near(found, n + 1, upto - 1));
        same_excerpt(ls, found, n, upto - 1);
    }
}

proof fn nothing_more(ls: Seq<Seq<char>>, found: Seq<bool>, n: int, from: int, upto: int)
    requires
        0 <= from <= upto,
        forall|k: int| from <= k < upto ==> !#[trigger] is_near(found, n, k),
    ensures
        excerpt(ls, found, n, upto) == excerpt(ls, found, n, from),
    decreases upto,
{
    if from < upto {
        assert(!is_near(found, n, upto - 1));
        nothing_more(ls, found, n, from, upto - 1);
    }
}

proof fn all_of_them(ls: Seq<Seq<char>>, found: Seq<bool>, n: int, from: int, upto: int)
    requires
        0 <= from <= upto,
        forall|k: int| from <= k < upto ==> #[trigger] is_near(found, n, k),
    ensures
        excerpt(ls, found, n, upto) == excerpt(ls, found, n, from) + shown_lines(ls, from, upto),
    decreases upto,
{
    if from < upto {
        assert(is_near(found, n, upto - 1));
        all_of_them(ls, found, n, from, upto - 1);
        assert(excerpt(ls, found, n, upto) =~= excerpt(ls, found, n, from) + shown_lines(
            ls,
            from,
            upto,
        ));
    } else {
        assert(excerpt(ls, found, n, from) + shown_lines(ls, from, upto) =~= excerpt(
            ls,
            found,
            n,
            from,
        ));
    }
}

proof fn one_more_match(found: Seq<bool>, n: int)
    requires
        0 <= n < found.len(),
    ensures
        matches_in(found, n + 1) == matches_in(found, n) + if found[n] {
            1int
        } else {
            0
        },
{
    reveal(Seq::filter);
    assert(found.take(n + 1).drop_last() =~= found.take(n));
    assert(found.take(n + 1).last() == found[n]);
}

proof fn one_line_further(
    start: GrepView,
    now: GrepView,
    name: Seq<char>,
    ls: Seq<Seq<char>>,
    found: Seq<bool>,
    n: int,
)
    requires
        found.len() == ls.len(),
        0 <= n < ls.len(),
        on_the_way(start, now, name, ls, found, n),
    ensures
        on_the_way(
            start,
            if found[n] {
                grep_hit(now, name, ls, n)
            } else {
                now
            },
            name,
            ls,
            found,
            n + 1,
        ),
{
    one_more_match(found, n);
    let len = ls.len() as int;
    if found[n] {
        let after = grep_hit(now, name, ls, n);
        let next = if now.opened {
            now.next
        } else {
            0
        };
        let from = context_start(next, n);
        let to = context_end(ls.len(), n);
        let near_before = excerpt(ls, found, n, len);
        if now.opened {
            let last = choose|last: int|
                0 <= last < n && #[trigger] found[last] && now.next == context_end(ls.len(), last)
                    && forall|i: int| last < i < n ==> !#[trigger] found[i];
            assert forall|k: int| from <= k < len implies !#[trigger] is_near(found, n, k) by {
                if is_near(found, n, k) {
                    let i = choose|i: int| 0 <= i < n && #[trigger] found[i] && i - 2 <= k <= i + 2;
                    assert(i <= last);
                }
            }
            assert forall|k: int| 0 <= k < from implies is_near(found, n, k) == #[trigger] is_near(
                found,
                n + 1,
                k,
            ) by {
                if is_near(found, n, k) {
                    let i = choose|i: int| 0 <= i < n && #[trigger] found[i] && i - 2 <= k <= i + 2;
                    assert(found[i] && i < n + 1);
                }
                if is_near(found, n + 1, k) {
                    let i = choose|i: int|
                        0 <= i < n + 1 && #[trigger] found[i] && i - 2 <= k <= i + 2;
                    if i == n {
                        assert(found[last] && last - 2 <= k <= last + 2);
                    }
                }
            }
        } else {
            assert forall|k: int| 0 <= k < len implies !#[trigger] is_near(found, n, k) by {}
            assert forall|k: int| 0 <= k < from implies is_near(found, n, k) == #[trigger] is_near(
                found,
                n + 1,
                k,
            ) by {}
        }
        nothing_more(ls, found, n, from, len);
        same_excerpt(ls, found, n, from);
        assert forall|k: int| from <= k < to implies #[trigger] is_near(found, n + 1, k) by {
            assert(found[n] && n - 2 <= k <= n + 2);
        }
        all_of_them(ls, found, n + 1, from, to);
        assert forall|k: int| to <= k < len implies !#[trigger] is_near(found, n + 1, k) by {
            if is_near(found, n + 1, k) {
                let i = choose|i: int|
                    0 <= i < n + 1 && #[trigger] found[i] && i - 2 <= k <= i + 2;
                assert(i <= n);
            }
        }
        nothing_more(ls, found, n + 1, to, len);
        assert(excerpt(ls, found, n + 1, len) == near_before + shown_lines(ls, from, to));
        assert(found[n]);
        if !now.opened {
            nothing_more(ls, found, n, 0, len);
            assert(near_before =~= Seq::empty());
            assert(near_before + shown_lines(ls, from, to) =~= shown_lines(ls, from, to));
        } else {
            let head = if start.out.len() == 0 {
                "./"@ + name
            } else {
                start.out + "\n--\n"@ + "./"@ + name
            };
            assert(now.out == head + near_before);
            assert((head + near_before) + shown_lines(ls, from, to) =~= head + (near_before
                + shown_lines(ls, from, to)));
        }
        assert(after.out == shown_after(start.out, name, ls, found, n + 1));
        assert(found[n] && after.next == context_end(ls.len(), n));
    } else {
        assert forall|k: int| 0 <= k < len implies is_near(found, n, k) == #[trigger] is_near(
            found,
            n + 1,
            k,
        ) by {
            if is_near(found, n, k) {
                let i = choose|i: int| 0 <= i < n && #[trigger] found[i] && i - 2 <= k <= i + 2;
                assert(found[i] && i < n + 1);
            }
            if is_near(found, n + 1, k) {
                let i = choose|i: int|
                    0 <= i < n + 1 && #[trigger] found[i] && i - 2 <= k <= i + 2;
                assert(i < n);
            }
        }
        same_excerpt(ls, found, n, len);
        if exists|i: int| 0 <= i < n && #[trigger] found[i] {
            let i = choose|i: int| 0 <= i < n && #[trigger] found[i];
            assert(found[i] && i < n + 1);
        }
        if exists|i: int| 0 <= i < n + 1 && #[trigger] found[i] {
            let i = choose|i: int| 0 <= i < n + 1 && #[trigger] found[i];
            assert(found[i] && i < n);
        }
        if now.opened {
            let last = choose|last: int|
                0 <= last < n && #[trigger] found[last] && now.next == context_end(ls.len(), last)
                    && forall|i: int| last < i < n ==> !#[trigger] found[i];
            assert(found[last] && forall|i: int| last < i < n + 1 ==> !#[trigger] found[i]);
        }
    }
}

/// Whether a search has reached one of its limits: a hundred lines that match, or seven thousand five
/// hundred bytes that are shown.
pub open spec fn at_limit(out: Seq<char>, hits: nat) -> bool {
    hits >= 100 || encode_utf8(out).len() >= 7500
}

/// A search shows, of each file with a match, its name and every line that matches together with the
/// two lines before and the two lines after it, each line once and in the order of the file. It counts
/// the lines that match. It goes on to the end of the file, unless it reaches a limit with a match:
/// then it stops there.
pub proof fn matches_are_shown_with_context(
    start: GrepView,
    name: Seq<char>,
    ls: Seq<Seq<char>>,
    found: Seq<bool>,
)
    requires
        found.len() == ls.len(),
        !start.stopped,
    ensures
        ({
            let after = grep_lines(start, name, ls, found, ls.len() as int);
            exists|n: int|
                {
                    &&& 0 <= n <= ls.len()
                    &&& after.out == #[trigger] shown_after(start.out, name, ls, found, n)
                    &&& after.hits == start.hits + matches_in(found, n)
                    &&& !after.stopped ==> n == ls.len()
                    &&& after.stopped ==> n > 0 && found[n - 1] && at_limit(after.out, after.hits)
                    &&& forall|m: int|
                        0 < m <= n && found[m - 1] && (m < n || !after.stopped) ==> !at_limit(
                            #[trigger] shown_after(start.out, name, ls, found, m),
                            start.hits + matches_in(found, m),
                        )
                }
        }),
{
    looked_through(start, name, ls, found, ls.len() as int);
}

proof fn looked_through(
    start: GrepView,
    name: Seq<char>,
    ls: Seq<Seq<char>>,
    found: Seq<bool>,
    upto: int,
)
    requires
        found.len() == ls.len(),
        0 <= upto <= ls.len(),
        !start.stopped,
    ensures
        ({
            let after = grep_lines(start, name, ls, found, upto);
            &&& !after.stopped ==> on_the_way(start, after, name, ls, found, upto)
            &&& exists|n: int|
                {
                    &&& 0 <= n <= upto
                    &&& after.out == #[trigger] shown_after(start.out, name, ls, found, n)
                    &&& after.hits == start.hits + matches_in(found, n)
                    &&& !after.stopped ==> n == upto
                    &&& after.stopped ==> n > 0 && found[n - 1] && at_limit(after.out, after.hits)
                    &&& forall|m: int|
                        0 < m <= n && found[m - 1] && (m < n || !after.stopped) ==> !at_limit(
                            #[trigger] shown_after(start.out, name, ls, found, m),
                            start.hits + matches_in(found, m),
                        )
                }
        }),
    decreases upto,
{
    let after = grep_lines(start, name, ls, found, upto);
    if upto == 0 {
        reveal(Seq::filter);
        assert(found.take(0).len() == 0);
        assert(after.out == shown_after(start.out, name, ls, found, 0));
    } else {
        looked_through(start, name, ls, found, upto - 1);
        let before = grep_lines(start, name, ls, found, upto - 1);
        if !before.stopped {
            one_line_further(start, before, name, ls, found, upto - 1);
            assert(after.out == shown_after(start.out, name, ls, found, upto));
        }
    }
}

/// Whether a text holds another at some place.
pub open spec fn holds(s: Seq<char>, part: Seq<char>) -> bool {
    exists|at: int|
        0 <= at && at + part.len() <= s.len() && #[trigger] s.subrange(at, at + part.len()) == part
}

proof fn near_lines_stand_in(ls: Seq<Seq<char>>, found: Seq<bool>, n: int, upto: int, k: int)
    requires
        0 <= k < upto <= ls.len(),
        is_near(found, n, k),
    ensures
        holds(excerpt(ls, found, n, upto), "\n  "@ + ls[k]),
    decreases upto,
{
    let whole = excerpt(ls, found, n, upto);
    let before = excerpt(ls, found, n, upto - 1);
    let piece = "\n  "@ + ls[k];
    if k == upto - 1 {
        let at = before.len() as int;
        assert(whole.subrange(at, at + piece.len()) =~= piece);
    } else {
        near_lines_stand_in(ls, found, n, upto - 1, k);
        let at = choose|at: int|
            0 <= at && at + piece.len() <= before.len() && #[trigger] before.subrange(
                at,
                at + piece.len(),
            ) == piece;
        assert(whole.subrange(at, at + piece.len()) =~= before.subrange(at, at + piece.len()));
    }
}

/// As long as a search goes on, every line that matches is shown, and so is every line at most two
/// lines away from it.
pub proof fn every_match_is_shown(
    start: GrepView,
    name: Seq<char>,
    ls: Seq<Seq<char>>,
    found: Seq<bool>,
    i: int,
    k: int,
)
    requires
        found.len() == ls.len(),
        !start.stopped,
        !grep_lines(start, name, ls, found, ls.len() as int).stopped,
        0 <= i < ls.len(),
        found[i],
        0 <= k < ls.len(),
        i - 2 <= k <= i + 2,
    ensures
        holds(grep_lines(start, name, ls, found, ls.len() as int).out, "\n  "@ + ls[k]),
{
    looked_through(start, name, ls, found, ls.len() as int);
    let out = grep_lines(start, name, ls, found, ls.len() as int).out;
    let len = ls.len() as int;
    assert(found[i] && i < len);
    assert(is_near(found, len, k));
    near_lines_stand_in(ls, found, len, len, k);
    let part = excerpt(ls, found, len, len);
    let piece = "\n  "@ + ls[k];
    let at = choose|at: int|
        0 <= at && at + piece.len() <= part.len() && #[trigger] part.subrange(at, at + piece.len())
            == piece;
    let head = out.len() - part.len();
    assert(out.subrange(head + at, head + at + piece.len()) =~= piece);
}

// ---------------------------------------------------------------------------------------------
// Files
// ---------------------------------------------------------------------------------------------
/// Whether a path matches a glob.
pub open spec fn is_found(glob: Seq<char>, path: Seq<char>) -> bool {
    pattern_found(glob_pattern(glob), false, glob_target(glob, path))
}

/// The first so many of some paths.
pub open spec fn at_most(paths: Seq<Seq<char>>, n: int) -> Seq<Seq<char>> {
    if paths.len() <= n {
        paths
    } else {
        paths.take(n)
    }
}

proof fn hits_so_far(glob: Seq<char>, paths: Seq<Seq<char>>, n: int)
    requires
        0 <= n <= paths.len(),
    ensures
        first_hits(paths, glob_found(glob, paths), n) == at_most(
            paths.take(n).filter(|path: Seq<char>| is_found(glob, path)),
            100,
        ),
    decreases n,
{
    reveal(Seq::filter);
    let hit = |path: Seq<char>| is_found(glob, path);
    if n > 0 {
        hits_so_far(glob, paths, n - 1);
        assert(paths.take(n).drop_last() =~= paths.take(n - 1));
        assert(paths.take(n).last() == paths[n - 1]);
        let before = paths.take(n - 1).filter(hit);
        assert(glob_found(glob, paths)[n - 1] == is_found(glob, paths[n - 1]));
        if is_found(glob, paths[n - 1]) {
            assert(paths.take(n).filter(hit) == before.push(paths[n - 1]));
            if before.len() > 100 {
                assert(before.push(paths[n - 1]).take(100) =~= before.take(100));
            } else if before.len() == 100 {
                assert(before.push(paths[n - 1]).take(100) =~= before);
            }
        } else {
            assert(paths.take(n).filter(hit) == before);
        }
    } else {
        assert(paths.take(0).filter(hit) =~= Seq::empty());
    }
}

/// A search for files lists all paths that match, each in a line, in the order in which they were
/// walked. From a hundred on it lists the first hundred and says so.
pub proof fn matching_files_are_listed(glob: Seq<char>, paths: Seq<Seq<char>>)
    requires
        trim(glob).len() > 0,
        pattern_fault(glob_pattern(glob), false) is None,
    ensures
        ({
            let hits = paths.filter(|path: Seq<char>| is_found(glob, path));
            let said = glob_search_text(glob, paths);
            &&& hits.len() == 0 ==> said == "The glob search returned no results."@
            &&& 0 < hits.len() < 100 ==> said == join(hits, "\n"@)
            &&& hits.len() >= 100 ==> said == join(hits.take(100), "\n"@)
                + "\n\nWarning: the results above were truncated to the first 100 files. If the results are not satisfactory, refine your search pattern"@
        }),
{
    hits_so_far(glob, paths, paths.len() as int);
    assert(paths.take(paths.len() as int) =~= paths);
    let hits = paths.filter(|path: Seq<char>| is_found(glob, path));
    if hits.len() == 100 {
        assert(hits.take(100) =~= hits);
    }
}

/// The name of a file is the part of its path behind the last slash.
pub proof fn names_stand_behind_the_last_slash(path: Seq<char>)
    ensures
        !base_name(path).contains('/'),
        base_name(path) == path || exists|before: Seq<char>|
            #[trigger] (before.push('/') + base_name(path)) == path,
{
    find_last_is_last(path, seq!['/'], path.len() - 1);
    let name = base_name(path);
    match find_last(path, seq!['/'], path.len() - 1) {
        Some(at) => {
            assert(path.subrange(at, at + 1)[0] == '/');
            assert(path.take(at).push('/') + name =~= path);
            if name.contains('/') {
                let k = choose|k: int| 0 <= k < name.len() && name[k] == '/';
                assert(path.subrange(at + 1 + k, at + 2 + k) =~= seq!['/']);
                assert(occurs_at(path, seq!['/'], at + 1 + k));
            }
        },
        None => {
            if name.contains('/') {
                let k = choose|k: int| 0 <= k < name.len() && name[k] == '/';
                assert(path.subrange(k, k + 1) =~= seq!['/']);
                assert(occurs_at(path, seq!['/'], k));
            }
        },
    }
}

/// The entries of a directory in the order of their names.
pub open spec fn in_name_order(entries: Seq<DirView>) -> Seq<DirView> {
    let order = order_of(dir_names(entries), entries.len() as int);
    Seq::new(entries.len(), |k: int| entries[order[k]])
}

/// Entries in the order of their names are the same entries, and none comes before one whose name
/// precedes its own.
pub proof fn entries_are_sorted(entries: Seq<DirView>)
    ensures
        in_name_order(entries).to_multiset() == entries.to_multiset(),
        forall|j: int, k: int|
            0 <= j < k < entries.len() ==> !precedes(
                (#[trigger] in_name_order(entries)[k]).name,
                (#[trigger] in_name_order(entries)[j]).name,
            ),
{
    let names = dir_names(entries);
    let n = entries.len() as int;
    order_is_sorted(names, n);
    let order = order_of(names, n);
    let sorted = in_name_order(entries);
    assert forall|j: int, k: int| 0 <= j < k < entries.len() implies !precedes(
        (#[trigger] sorted[k]).name,
        (#[trigger] sorted[j]).name,
    ) by {
        assert(names[order[k]] == sorted[k].name);
        assert(names[order[j]] == sorted[j].name);
    }
    arranged(entries, order);
    assert(sorted =~= Seq::new(order.len(), |k: int| entries[order[k]]));
}

proof fn arranged(entries: Seq<DirView>, order: Seq<int>)
    requires
        is_arrangement(order, entries.len() as int),
    ensures
        Seq::new(order.len(), |k: int| entries[order[k]]).to_multiset() == entries.to_multiset(),
    decreases entries.len(),
{
    let picked = Seq::new(order.len(), |k: int| entries[order[k]]);
    if entries.len() == 0 {
        assert(picked =~= entries);
    } else {
        let n = entries.len() as int;
        assert(order.contains(n - 1));
        let at = choose|at: int| 0 <= at < order.len() && order[at] == n - 1;
        let rest = order.remove(at);
        let fewer = entries.drop_last();
        assert forall|k: int| 0 <= k < rest.len() implies 0 <= #[trigger] rest[k] < n - 1 by {
            let from = if k < at {
                k
            } else {
                k + 1
            };
            assert(rest[k] == order[from]);
            assert(order[from] != order[at]);
        }
        assert forall|i: int| 0 <= i < n - 1 implies #[trigger] rest.contains(i) by {
            assert(order.contains(i));
            let k = choose|k: int| 0 <= k < order.len() && order[k] == i;
            if k < at {
                assert(rest[k] == i);
            } else {
                assert(rest[k - 1] == i);
            }
        }
        assert forall|j: int, k: int| 0 <= j < k < rest.len() implies #[trigger] rest[j]
            != #[trigger] rest[k] by {
            let a = if j < at {
                j
            } else {
                j + 1
            };
            let b = if k < at {
                k
            } else {
                k + 1
            };
            assert(rest[j] == order[a] && rest[k] == order[b]);
        }
        arranged(fewer, rest);
        let left = Seq::new(rest.len(), |k: int| fewer[rest[k]]);
        assert(picked.remove(at) =~= left);
        assert(picked[at] == entries.last());
        picked.to_multiset_ensures();
        assert(picked.remove(at).to_multiset() == picked.to_multiset().remove(entries.last()));
        assert(picked.contains(entries.last()));
        assert(picked.to_multiset().count(entries.last()) > 0);
        assert(picked.to_multiset() =~= left.to_multiset().insert(entries.last()));
        fewer.to_multiset_ensures();
        assert(fewer.push(entries.last()) =~= entries);
    }
}

/// Walking a directory shows its entries in the order of their names, each by its path, without those
/// that are passed over.
pub proof fn directories_are_walked_in_order(
    entries: Seq<DirView>,
    prefix: Seq<char>,
    everything: bool,
)
    ensures
        walked(entries, prefix, everything, entries.len() as int) == in_name_order(entries).filter(
            |entry: DirView| everything || is_walked(entry),
        ).map_values(
            |entry: DirView|
                (DirView { name: path_below(prefix, entry.name), kind: entry.kind }),
        ),
{
    order_is_sorted(dir_names(entries), entries.len() as int);
    walked_so_far(entries, prefix, everything, entries.len() as int);
    let all = in_name_order(entries);
    assert(all.take(all.len() as int) =~= all);
}

proof fn walked_so_far(entries: Seq<DirView>, prefix: Seq<char>, everything: bool, n: int)
    requires
        0 <= n <= entries.len(),
    ensures
        walked(entries, prefix, everything, n) == in_name_order(entries).take(n).filter(
            |entry: DirView| everything || is_walked(entry),
        ).map_values(
            |entry: DirView|
                (DirView { name: path_below(prefix, entry.name), kind: entry.kind }),
        ),
    decreases n,
{
    reveal(Seq::filter);
    let all = in_name_order(entries);
    let shown = |entry: DirView| everything || is_walked(entry);
    let below = |entry: DirView|
        (DirView { name: path_below(prefix, entry.name), kind: entry.kind });
    if n > 0 {
        walked_so_far(entries, prefix, everything, n - 1);
        assert(all.take(n).drop_last() =~= all.take(n - 1));
        assert(all.take(n).last() == all[n - 1]);
        let before = all.take(n - 1).filter(shown);
        if everything || is_walked(all[n - 1]) {
            assert(all.take(n).filter(shown) == before.push(all[n - 1]));
            assert(before.push(all[n - 1]).map_values(below) =~= before.map_values(below).push(
                below(all[n - 1]),
            ));
        } else {
            assert(all.take(n).filter(shown) == before);
        }
    } else {
        assert(all.take(0).filter(shown).map_values(below) =~= Seq::empty());
    }
}

} // verus!
