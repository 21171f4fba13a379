//! Laws of editing a file by showing its changed parts: which lines of the file stay, and where the
//! lines of the changes go.

use crate::app::edit::{
    anchor_after, anchor_at, anchor_before, anchors, anchors_increase, around, build, edit_outcome,
    first_some, first_unanchored, is_code, is_outcome, last_some, last_unanchored, match_bounds,
    match_from, most_similar, only_between, outcome_with, place, place_bounds, placed_from,
    placeholder, refused_at_once, replace_outcome, replacement, replacement_bounds, replacements,
    search_from, search_grows, similarity, stand_in, unfenced, EditOutcome, Place, Progress,
};
use crate::app::session_laws::blank_texts_are_white;
use crate::text::{
    contains, count_of, find_from, find_is_first, has_suffix, join, lines, occurs_at, trim_end, white,
};
use crate::text_laws::replacing_joins_the_pieces;
use vstd::prelude::*;

verus! {

/// Where a line of an edited file comes from: it is a line of the changes, or a line of the file that
/// was kept.
pub ghost enum Origin {
    Given(int),
    Kept(int),
}

/// The line that comes from somewhere.
pub open spec fn line_from(cs: Seq<Seq<char>>, fs: Seq<Seq<char>>, origin: Origin) -> Seq<char> {
    match origin {
        Origin::Given(i) => cs[i],
        Origin::Kept(j) => fs[j],
    }
}

/// The lines that come from somewhere.
pub open spec fn lines_from(cs: Seq<Seq<char>>, fs: Seq<Seq<char>>, os: Seq<Origin>) -> Seq<Seq<char>> {
    Seq::new(os.len(), |a: int| line_from(cs, fs, os[a]))
}

/// Whether one of the first `n` lines of the changes takes the place of file line `j`.
pub open spec fn replaced_within(
    cs: Seq<Seq<char>>,
    ps: Seq<Option<int>>,
    rs: Seq<Option<int>>,
    n: int,
    j: int,
) -> bool {
    exists|i: int|
        0 <= i < n && !placeholder(cs[i]) && #[trigger] place(ps, rs, i) == Place::Replace(j)
}

/// Whether both the lines of the changes and the kept lines of the file stand in their order.
pub open spec fn keeps_order(os: Seq<Origin>) -> bool {
    forall|a: int, b: int|
        0 <= a < b < os.len() ==> match (#[trigger] os[a], #[trigger] os[b]) {
            (Origin::Given(i), Origin::Given(k)) => i < k,
            (Origin::Kept(i), Origin::Kept(k)) => i < k,
            _ => true,
        }
}

/// Whether every line of the changes stands among the kept lines of the file where it belongs: one that
/// takes the place of a file line between the lines before and behind that one, one that is put in
/// before a file line between the lines before that one and the others.
pub open spec fn stands_where_it_belongs(
    ps: Seq<Option<int>>,
    rs: Seq<Option<int>>,
    os: Seq<Origin>,
) -> bool {
    forall|a: int, b: int|
        0 <= a < os.len() && 0 <= b < os.len() ==> match (#[trigger] os[a], #[trigger] os[b]) {
            (Origin::Given(i), Origin::Kept(j)) => match place(ps, rs, i) {
                Place::Replace(p) => if b < a {
                    j < p
                } else {
                    p < j
                },
                Place::Insert(p) => if b < a {
                    j < p
                } else {
                    p <= j
                },
                Place::Nowhere => false,
            },
            _ => true,
        }
}

/// Whether lines come, each once and in order, from the first `n` lines of the changes but the
/// placeholders, and from those of the first `upto` lines of the file that none of them replaces.
pub open spec fn woven(
    cs: Seq<Seq<char>>,
    fs: Seq<Seq<char>>,
    ps: Seq<Option<int>>,
    rs: Seq<Option<int>>,
    n: int,
    upto: int,
    os: Seq<Origin>,
) -> bool {
    &&& keeps_order(os)
    &&& stands_where_it_belongs(ps, rs, os)
    &&& forall|i: int| #[trigger]
        os.contains(Origin::Given(i)) == (0 <= i < n && !placeholder(cs[i]))
    &&& forall|j: int| #[trigger]
        os.contains(Origin::Kept(j)) == (0 <= j < upto && !replaced_within(cs, ps, rs, n, j))
}

/// What is known of a file that is being built.
spec fn weaving(
    cs: Seq<Seq<char>>,
    fs: Seq<Seq<char>>,
    ps: Seq<Option<int>>,
    rs: Seq<Option<int>>,
    n: int,
    built: Seq<Seq<char>>,
    consumed: int,
    os: Seq<Origin>,
) -> bool {
    &&& 0 <= consumed <= fs.len()
    &&& built == lines_from(cs, fs, os)
    &&& woven(cs, fs, ps, rs, n, consumed, os)
    &&& forall|j: int| #[trigger] replaced_within(cs, ps, rs, n, j) ==> 0 <= j < consumed
    &&& forall|i: int|
        0 <= i < n && !placeholder(cs[i]) ==> match #[trigger] place(ps, rs, i) {
            Place::Replace(p) => p < consumed,
            Place::Insert(p) => p <= consumed,
            Place::Nowhere => false,
        }
    &&& consumed > 0 && !replaced_within(cs, ps, rs, n, consumed - 1) ==> placed_from(ps, rs, n)
        == Some(consumed) && (n < cs.len() && ps[n] is None && rs[n] is None ==> only_between(
        ps,
        n,
    ) is None)
}

proof fn unanchored_neighbours(ps: Seq<Option<int>>, n: int)
    requires
        0 <= n,
        n + 1 < ps.len(),
        ps[n] is None,
        ps[n + 1] is None,
    ensures
        only_between(ps, n + 1) == only_between(ps, n),
{
    assert(ps.take(n + 1).drop_last() =~= ps.take(n));
    assert(ps.take(n + 1).last() == ps[n]);
    assert(anchor_before(ps, n + 1) == anchor_before(ps, n));
    assert(ps.skip(n + 1).drop_first() =~= ps.skip(n + 2));
    assert(ps.skip(n + 1)[0] == ps[n + 1]);
    assert(anchor_after(ps, n) == anchor_after(ps, n + 1));
}

/// What stands in a sequence that is put together of three parts.
proof fn parts_contain(os: Seq<Origin>, kept: Seq<Origin>, given: Origin, origin: Origin)
    ensures
        (os + kept).push(given).contains(origin) == (os.contains(origin) || kept.contains(origin)
            || origin == given),
{
    let all = (os + kept).push(given);
    if os.contains(origin) {
        let a = choose|a: int| 0 <= a < os.len() && os[a] == origin;
        assert(all[a] == origin);
    }
    if kept.contains(origin) {
        let a = choose|a: int| 0 <= a < kept.len() && kept[a] == origin;
        assert(all[os.len() + a] == origin);
    }
    if origin == given {
        assert(all[all.len() - 1] == origin);
    }
    if all.contains(origin) {
        let a = choose|a: int| 0 <= a < all.len() && all[a] == origin;
        if a < os.len() {
            assert(os[a] == origin);
        } else if a < os.len() + kept.len() {
            assert(kept[a - os.len()] == origin);
        }
    }
}

/// The file lines from `from` to `to`, kept.
spec fn kept_lines(from: int, to: int) -> Seq<Origin>
    recommends
        from <= to,
{
    Seq::new((to - from) as nat, |a: int| Origin::Kept(from + a))
}

proof fn kept_lines_contain(from: int, to: int, origin: Origin)
    requires
        from <= to,
    ensures
        kept_lines(from, to).contains(origin) == (origin matches Origin::Kept(j) && from <= j < to),
{
    let kept = kept_lines(from, to);
    if let Origin::Kept(j) = origin {
        if from <= j < to {
            assert(kept[j - from] == origin);
        }
    }
    if kept.contains(origin) {
        let a = choose|a: int| 0 <= a < kept.len() && kept[a] == origin;
        assert(origin == Origin::Kept(from + a));
    }
}

proof fn origins_so_far(
    cs: Seq<Seq<char>>,
    fs: Seq<Seq<char>>,
    ps: Seq<Option<int>>,
    rs: Seq<Option<int>>,
    n: int,
    built: Seq<Seq<char>>,
    consumed: int,
    os: Seq<Origin>,
)
    requires
        weaving(cs, fs, ps, rs, n, built, consumed, os),
    ensures
        forall|a: int|
            0 <= a < os.len() ==> match #[trigger] os[a] {
                Origin::Given(i) => 0 <= i < n && !placeholder(cs[i]),
                Origin::Kept(j) => 0 <= j < consumed && !replaced_within(cs, ps, rs, n, j),
            },
{
    assert forall|a: int| 0 <= a < os.len() implies match #[trigger] os[a] {
        Origin::Given(i) => 0 <= i < n && !placeholder(cs[i]),
        Origin::Kept(j) => 0 <= j < consumed && !replaced_within(cs, ps, rs, n, j),
    } by {
        match os[a] {
            Origin::Given(i) => {
                assert(os.contains(Origin::Given(i)));
            },
            Origin::Kept(j) => {
                assert(os.contains(Origin::Kept(j)));
            },
        }
    }
}

/// Weaves in line `n` of the changes, which goes behind the file lines up to `upto`.
#[verifier::spinoff_prover]
#[verifier::rlimit(40)]
proof fn weave_line(
    cs: Seq<Seq<char>>,
    fs: Seq<Seq<char>>,
    ps: Seq<Option<int>>,
    rs: Seq<Option<int>>,
    n: int,
    built: Seq<Seq<char>>,
    consumed: int,
    os: Seq<Origin>,
    upto: int,
    next: int,
) -> (now: Seq<Origin>)
    requires
        0 <= n < cs.len(),
        ps.len() == cs.len(),
        rs.len() == cs.len(),
        !placeholder(cs[n]),
        weaving(cs, fs, ps, rs, n, built, consumed, os),
        consumed <= upto < fs.len(),
        place(ps, rs, n) == Place::Replace(upto) && next == upto + 1 || place(ps, rs, n)
            == Place::Insert(upto) && next == upto,
    ensures
        weaving(
            cs,
            fs,
            ps,
            rs,
            n + 1,
            (built + fs.subrange(consumed, upto)).push(cs[n]),
            next,
            now,
        ),
{
    let kept = kept_lines(consumed, upto);
    let given = Origin::Given(n);
    let now = (os + kept).push(given);
    let lines = (built + fs.subrange(consumed, upto)).push(cs[n]);
    assert(lines =~= lines_from(cs, fs, now));
    replaced_by_one_more(cs, ps, rs, n);
    origins_so_far(cs, fs, ps, rs, n, built, consumed, os);
    assert forall|a: int| 0 <= a < now.len() implies #[trigger] now[a] == if a < os.len() {
        os[a]
    } else if a < os.len() + kept.len() {
        Origin::Kept(consumed + a - os.len())
    } else {
        given
    } by {}
    assert forall|i: int| #[trigger]
        now.contains(Origin::Given(i)) == (0 <= i < n + 1 && !placeholder(cs[i])) by {
        parts_contain(os, kept, given, Origin::Given(i));
        kept_lines_contain(consumed, upto, Origin::Given(i));
        assert(os.contains(Origin::Given(i)) == (0 <= i < n && !placeholder(cs[i])));
    }
    assert forall|j: int| #[trigger]
        now.contains(Origin::Kept(j)) == (0 <= j < next && !replaced_within(cs, ps, rs, n + 1, j)) by {
        parts_contain(os, kept, given, Origin::Kept(j));
        kept_lines_contain(consumed, upto, Origin::Kept(j));
        assert(os.contains(Origin::Kept(j)) == (0 <= j < consumed && !replaced_within(
            cs,
            ps,
            rs,
            n,
            j,
        )));
        assert(replaced_within(cs, ps, rs, n, j) ==> 0 <= j < consumed);
    }
    assert forall|j: int| #[trigger] replaced_within(cs, ps, rs, n + 1, j) implies 0 <= j < next by {
        assert(replaced_within(cs, ps, rs, n, j) ==> 0 <= j < consumed);
    }
    assert forall|a: int, b: int| 0 <= a < b < now.len() implies match (
        #[trigger] now[a],
        #[trigger] now[b],
    ) {
        (Origin::Given(i), Origin::Given(k)) => i < k,
        (Origin::Kept(i), Origin::Kept(k)) => i < k,
        _ => true,
    } by {
        if b < os.len() {
            assert(os[a] == now[a] && os[b] == now[b]);
        }
    }
    assert forall|a: int, b: int| 0 <= a < now.len() && 0 <= b < now.len() implies match (
        #[trigger] now[a],
        #[trigger] now[b],
    ) {
        (Origin::Given(i), Origin::Kept(j)) => match place(ps, rs, i) {
            Place::Replace(p) => if b < a {
                j < p
            } else {
                p < j
            },
            Place::Insert(p) => if b < a {
                j < p
            } else {
                p <= j
            },
            Place::Nowhere => false,
        },
        _ => true,
    } by {
        if let (Origin::Given(i), Origin::Kept(j)) = (now[a], now[b]) {
            if a < os.len() {
                assert(os[a] == now[a]);
                if b < os.len() {
                    assert(os[b] == now[b]);
                } else {
                    assert(place(ps, rs, i) == place(ps, rs, i));
                }
            } else {
                assert(i == n);
                if b < os.len() {
                    assert(os[b] == now[b]);
                }
            }
        }
    }
    if next > 0 && !replaced_within(cs, ps, rs, n + 1, next - 1) {
        assert(place(ps, rs, n) == Place::Insert(upto));
        if n + 1 < cs.len() && ps[n + 1] is None && rs[n + 1] is None {
            unanchored_neighbours(ps, n);
        }
    }
    now
}

proof fn replaced_by_one_more(
    cs: Seq<Seq<char>>,
    ps: Seq<Option<int>>,
    rs: Seq<Option<int>>,
    n: int,
)
    requires
        0 <= n,
    ensures
        forall|j: int| #[trigger]
            replaced_within(cs, ps, rs, n + 1, j) == (replaced_within(cs, ps, rs, n, j) || (
            !placeholder(cs[n]) && place(ps, rs, n) == Place::Replace(j))),
{
    assert forall|j: int| #[trigger]
        replaced_within(cs, ps, rs, n + 1, j) == (replaced_within(cs, ps, rs, n, j) || (
        !placeholder(cs[n]) && place(ps, rs, n) == Place::Replace(j))) by {
        if replaced_within(cs, ps, rs, n, j) {
            let i = choose|i: int|
                0 <= i < n && !placeholder(cs[i]) && #[trigger] place(ps, rs, i) == Place::Replace(j);
            assert(place(ps, rs, i) == Place::Replace(j));
        }
        if replaced_within(cs, ps, rs, n + 1, j) {
            let i = choose|i: int|
                0 <= i < n + 1 && !placeholder(cs[i]) && #[trigger] place(ps, rs, i)
                    == Place::Replace(j);
            assert(i == n || place(ps, rs, i) == Place::Replace(j));
        }
    }
}

/// Weaves in line `n` of the changes, which goes behind the file line `upto` that was replaced last.
proof fn weave_behind(
    cs: Seq<Seq<char>>,
    fs: Seq<Seq<char>>,
    ps: Seq<Option<int>>,
    rs: Seq<Option<int>>,
    n: int,
    built: Seq<Seq<char>>,
    consumed: int,
    os: Seq<Origin>,
    upto: int,
) -> (now: Seq<Origin>)
    requires
        0 <= n < cs.len(),
        ps.len() == cs.len(),
        rs.len() == cs.len(),
        !placeholder(cs[n]),
        weaving(cs, fs, ps, rs, n, built, consumed, os),
        0 <= upto < fs.len(),
        consumed == upto + 1,
        place(ps, rs, n) == Place::Replace(upto) || place(ps, rs, n) == Place::Insert(upto),
    ensures
        weaving(cs, fs, ps, rs, n + 1, built.push(cs[n]), consumed, now),
{
    let kept = Seq::<Origin>::empty();
    let given = Origin::Given(n);
    let now = os.push(given);
    assert((os + kept).push(given) =~= now);
    assert(built.push(cs[n]) =~= lines_from(cs, fs, now));
    replaced_by_one_more(cs, ps, rs, n);
    assert(replaced_within(cs, ps, rs, n, upto));
    assert forall|i: int| #[trigger]
        now.contains(Origin::Given(i)) == (0 <= i < n + 1 && !placeholder(cs[i])) by {
        parts_contain(os, kept, given, Origin::Given(i));
        assert(os.contains(Origin::Given(i)) == (0 <= i < n && !placeholder(cs[i])));
    }
    assert forall|j: int| #[trigger]
        now.contains(Origin::Kept(j)) == (0 <= j < consumed && !replaced_within(
            cs,
            ps,
            rs,
            n + 1,
            j,
        )) by {
        parts_contain(os, kept, given, Origin::Kept(j));
        assert(os.contains(Origin::Kept(j)) == (0 <= j < consumed && !replaced_within(
            cs,
            ps,
            rs,
            n,
            j,
        )));
    }
    assert forall|a: int, b: int| 0 <= a < b < now.len() implies match (
        #[trigger] now[a],
        #[trigger] now[b],
    ) {
        (Origin::Given(i), Origin::Given(k)) => i < k,
        (Origin::Kept(i), Origin::Kept(k)) => i < k,
        _ => true,
    } by {
        assert(os.contains(os[a]));
        if b < os.len() {
            assert(os[a] == now[a] && os[b] == now[b]);
        }
    }
    assert forall|a: int, b: int| 0 <= a < now.len() && 0 <= b < now.len() implies match (
        #[trigger] now[a],
        #[trigger] now[b],
    ) {
        (Origin::Given(i), Origin::Kept(j)) => match place(ps, rs, i) {
            Place::Replace(p) => if b < a {
                j < p
            } else {
                p < j
            },
            Place::Insert(p) => if b < a {
                j < p
            } else {
                p <= j
            },
            Place::Nowhere => false,
        },
        _ => true,
    } by {
        if let (Origin::Given(i), Origin::Kept(j)) = (now[a], now[b]) {
            assert(b < os.len());
            assert(os.contains(os[b]));
            assert(os[b] == now[b]);
            if a < os.len() {
                assert(os[a] == now[a]);
            } else {
                assert(os.contains(Origin::Kept(j)));
                assert(j != upto);
            }
        }
    }
    now
}

/// An edit that comes to its end weaves the lines of the changes into the file.
proof fn weave(
    cs: Seq<Seq<char>>,
    fs: Seq<Seq<char>>,
    rs: Seq<Option<int>>,
    n: int,
) -> (os: Seq<Origin>)
    requires
        0 <= n <= cs.len(),
        rs.len() == cs.len(),
        stand_in(rs, fs.len()),
        forall|i: int| 0 <= i < cs.len() && placeholder(#[trigger] cs[i]) ==> rs[i] is None,
    ensures
        build(cs, fs, anchors(cs, fs), rs, n) matches Progress::Built(built, consumed) ==> weaving(
            cs,
            fs,
            anchors(cs, fs),
            rs,
            n,
            built,
            consumed,
            os,
        ),
    decreases n,
{
    let ps = anchors(cs, fs);
    if n == 0 {
        let os = Seq::<Origin>::empty();
        assert(lines_from(cs, fs, os) =~= Seq::<Seq<char>>::empty());
        assert forall|o: Origin| !os.contains(o) by {}
        assert forall|j: int| !#[trigger] replaced_within(cs, ps, rs, 0, j) by {}
        os
    } else {
        let os = weave(cs, fs, rs, n - 1);
        match build(cs, fs, ps, rs, n - 1) {
            Progress::Built(built, consumed) => {
                replaced_by_one_more(cs, ps, rs, n - 1);
                place_bounds(cs, fs, rs, n - 1);
                if placeholder(cs[n - 1]) {
                    assert(ps[n - 1] is None);
                    assert(rs[n - 1] is None);
                    if n < cs.len() && ps[n] is None {
                        unanchored_neighbours(ps, n - 1);
                    }
                    assert forall|i: int| #[trigger]
                        os.contains(Origin::Given(i)) == (0 <= i < n && !placeholder(cs[i])) by {
                        assert(os.contains(Origin::Given(i)) == (0 <= i < n - 1 && !placeholder(
                            cs[i],
                        )));
                    }
                    os
                } else {
                    match place(ps, rs, n - 1) {
                        Place::Replace(p) => if consumed <= p {
                            weave_line(cs, fs, ps, rs, n - 1, built, consumed, os, p, p + 1)
                        } else if consumed == p + 1 {
                            weave_behind(cs, fs, ps, rs, n - 1, built, consumed, os, p)
                        } else {
                            os
                        },
                        Place::Insert(p) => if consumed <= p {
                            weave_line(cs, fs, ps, rs, n - 1, built, consumed, os, p, p)
                        } else if consumed == p + 1 {
                            weave_behind(cs, fs, ps, rs, n - 1, built, consumed, os, p)
                        } else {
                            os
                        },
                        Place::Nowhere => os,
                    }
                }
            },
            _ => os,
        }
    }
}

proof fn weave_rest(
    cs: Seq<Seq<char>>,
    fs: Seq<Seq<char>>,
    ps: Seq<Option<int>>,
    rs: Seq<Option<int>>,
    built: Seq<Seq<char>>,
    consumed: int,
    os: Seq<Origin>,
) -> (all: Seq<Origin>)
    requires
        ps.len() == cs.len(),
        weaving(cs, fs, ps, rs, cs.len() as int, built, consumed, os),
    ensures
        woven(cs, fs, ps, rs, cs.len() as int, fs.len() as int, all),
        built + fs.skip(consumed) == lines_from(cs, fs, all),
        ends_with_the_rest(cs, fs, ps, rs, all),
{
    let n = cs.len() as int;
    let kept = kept_lines(consumed, fs.len() as int);
    let all = os + kept;
    assert(built + fs.skip(consumed) =~= lines_from(cs, fs, all));
    origins_so_far(cs, fs, ps, rs, n, built, consumed, os);
    assert forall|a: int| 0 <= a < all.len() implies #[trigger] all[a] == if a < os.len() {
        os[a]
    } else {
        Origin::Kept(consumed + a - os.len())
    } by {}
    assert forall|o: Origin| #[trigger]
        all.contains(o) == (os.contains(o) || kept.contains(o)) by {
        if all.contains(o) {
            let a = choose|a: int| 0 <= a < all.len() && all[a] == o;
            if a < os.len() {
                assert(os[a] == o);
            } else {
                assert(kept[a - os.len()] == o);
            }
        }
        if os.contains(o) {
            let a = choose|a: int| 0 <= a < os.len() && os[a] == o;
            assert(all[a] == o);
        }
        if kept.contains(o) {
            let a = choose|a: int| 0 <= a < kept.len() && kept[a] == o;
            assert(all[os.len() + a] == o);
        }
    }
    assert forall|i: int| #[trigger]
        all.contains(Origin::Given(i)) == (0 <= i < n && !placeholder(cs[i])) by {
        kept_lines_contain(consumed, fs.len() as int, Origin::Given(i));
        assert(os.contains(Origin::Given(i)) == (0 <= i < n && !placeholder(cs[i])));
    }
    assert forall|j: int| #[trigger]
        all.contains(Origin::Kept(j)) == (0 <= j < fs.len() && !replaced_within(cs, ps, rs, n, j)) by {
        kept_lines_contain(consumed, fs.len() as int, Origin::Kept(j));
        assert(os.contains(Origin::Kept(j)) == (0 <= j < consumed && !replaced_within(
            cs,
            ps,
            rs,
            n,
            j,
        )));
        assert(replaced_within(cs, ps, rs, n, j) ==> 0 <= j < consumed);
    }
    assert forall|a: int, b: int| 0 <= a < b < all.len() implies match (
        #[trigger] all[a],
        #[trigger] all[b],
    ) {
        (Origin::Given(i), Origin::Given(k)) => i < k,
        (Origin::Kept(i), Origin::Kept(k)) => i < k,
        _ => true,
    } by {
        if b < os.len() {
            assert(os[a] == all[a] && os[b] == all[b]);
        }
    }
    assert forall|a: int, b: int| 0 <= a < all.len() && 0 <= b < all.len() implies match (
        #[trigger] all[a],
        #[trigger] all[b],
    ) {
        (Origin::Given(i), Origin::Kept(j)) => match place(ps, rs, i) {
            Place::Replace(p) => if b < a {
                j < p
            } else {
                p < j
            },
            Place::Insert(p) => if b < a {
                j < p
            } else {
                p <= j
            },
            Place::Nowhere => false,
        },
        _ => true,
    } by {
        if let (Origin::Given(i), Origin::Kept(j)) = (all[a], all[b]) {
            assert(os[a] == all[a]);
            if b < os.len() {
                assert(os[b] == all[b]);
            } else {
                assert(place(ps, rs, i) == place(ps, rs, i));
            }
        }
    }
    assert(placed_from(ps, rs, n) is None);
    assert(rest_begins_at(cs, ps, rs, consumed));
    assert forall|j: int| consumed <= j < fs.len() implies #[trigger] all[all.len() - fs.len() + j]
        == Origin::Kept(j) by {}
    assert(all.len() >= fs.len() - consumed);
    all
}

/// Whether file line `c` is the one behind the last that a line of the changes replaces.
pub open spec fn rest_begins_at(
    cs: Seq<Seq<char>>,
    ps: Seq<Option<int>>,
    rs: Seq<Option<int>>,
    c: int,
) -> bool {
    let n = cs.len() as int;
    &&& c > 0 ==> replaced_within(cs, ps, rs, n, c - 1)
    &&& forall|j: int| #[trigger] replaced_within(cs, ps, rs, n, j) ==> j < c
}

/// Whether the last lines are those of the file behind the last one that is replaced.
pub open spec fn ends_with_the_rest(
    cs: Seq<Seq<char>>,
    fs: Seq<Seq<char>>,
    ps: Seq<Option<int>>,
    rs: Seq<Option<int>>,
    os: Seq<Origin>,
) -> bool {
    exists|c: int| #[trigger]
        rest_begins_at(cs, ps, rs, c) && 0 <= c <= fs.len() && os.len() >= fs.len() - c && forall|
            j: int,
        |
            c <= j < fs.len() ==> #[trigger] os[os.len() - fs.len() + j] == Origin::Kept(j)
}

/// The lines in one text, with a newline at the end where the text before had one.
pub open spec fn text_of(content: Seq<char>, ls: Seq<Seq<char>>) -> Seq<char> {
    join(ls, "\n"@) + if has_suffix(content, "\n"@) {
        "\n"@
    } else {
        Seq::empty()
    }
}

/// An edit that is made leaves every line of the file that no line of the changes replaces, and puts
/// in every line of the changes but the placeholders: each once, all in their order, and each where it
/// belongs. Behind the last line that is replaced the file stays as it was.
pub proof fn edits_leave_the_other_lines(
    content: Seq<char>,
    changes: Seq<char>,
    r: Result<String, String>,
)
    requires
        is_outcome(r, edit_outcome(content, changes)),
        r is Ok,
    ensures
        ({
            let cs = lines(unfenced(changes));
            let fs = lines(content);
            let ps = anchors(cs, fs);
            let rs = replacements(cs, fs, ps);
            exists|os: Seq<Origin>|
                {
                    &&& #[trigger] woven(cs, fs, ps, rs, cs.len() as int, fs.len() as int, os)
                    &&& ends_with_the_rest(cs, fs, ps, rs, os)
                    &&& r->Ok_0@ == text_of(content, lines_from(cs, fs, os))
                }
        }),
{
    let cs = lines(unfenced(changes));
    let fs = lines(content);
    let ps = anchors(cs, fs);
    let rs = replacements(cs, fs, ps);
    assert forall|i: int| 0 <= i < rs.len() implies ((#[trigger] rs[i]) matches Some(j) ==> 0 <= j
        < fs.len()) by {
        replacement_bounds(cs, fs, i);
    }
    edits_with_leave_the_other_lines(content, changes, rs, r);
}

/// The same of an edit for which it is said which file lines the lines of the changes are changed
/// versions of. A placeholder is a changed version of none.
pub proof fn edits_with_leave_the_other_lines(
    content: Seq<char>,
    changes: Seq<char>,
    rs: Seq<Option<int>>,
    r: Result<String, String>,
)
    requires
        is_outcome(r, outcome_with(content, changes, rs)),
        r is Ok,
        rs.len() == lines(unfenced(changes)).len(),
        stand_in(rs, lines(content).len()),
        forall|i: int|
            0 <= i < rs.len() && placeholder(#[trigger] lines(unfenced(changes))[i]) ==> rs[i] is None,
    ensures
        ({
            let cs = lines(unfenced(changes));
            let fs = lines(content);
            let ps = anchors(cs, fs);
            exists|os: Seq<Origin>|
                {
                    &&& #[trigger] woven(cs, fs, ps, rs, cs.len() as int, fs.len() as int, os)
                    &&& ends_with_the_rest(cs, fs, ps, rs, os)
                    &&& r->Ok_0@ == text_of(content, lines_from(cs, fs, os))
                }
        }),
{
    let cs = lines(unfenced(changes));
    let fs = lines(content);
    let ps = anchors(cs, fs);
    let os = weave(cs, fs, rs, cs.len() as int);
    match build(cs, fs, ps, rs, cs.len() as int) {
        Progress::Built(built, consumed) => {
            let all = weave_rest(cs, fs, ps, rs, built, consumed, os);
            assert(woven(cs, fs, ps, rs, cs.len() as int, fs.len() as int, all));
        },
        _ => {},
    }
}

// ---------------------------------------------------------------------------------------------
// Where lines belong
// ---------------------------------------------------------------------------------------------
/// Whether two lines are the same but for white space at the end.
pub open spec fn same_line(a: Seq<char>, b: Seq<char>) -> bool {
    trim_end(a) == trim_end(b)
}

/// Whether a file line stands behind the anchors of all lines before line `i` of the changes.
pub open spec fn behind(ps: Seq<Option<int>>, i: int, k: int) -> bool {
    forall|h: int| 0 <= h < i ==> ((#[trigger] ps[h]) matches Some(p) ==> p < k)
}

/// Whether a file line stands between the anchors around line `i` of the changes.
pub open spec fn in_gap(ps: Seq<Option<int>>, i: int, k: int) -> bool {
    behind(ps, i, k) && forall|h: int|
        i < h < ps.len() ==> ((#[trigger] ps[h]) matches Some(p) ==> k < p)
}

proof fn search_is_behind(cs: Seq<Seq<char>>, fs: Seq<Seq<char>>, i: int, k: int)
    requires
        0 <= i <= cs.len(),
        0 <= k,
    ensures
        behind(anchors(cs, fs), i, k) == (search_from(cs, fs, i) <= k),
    decreases i,
{
    let ps = anchors(cs, fs);
    if i > 0 {
        search_is_behind(cs, fs, i - 1, k);
        search_grows(cs, fs, i - 1, i);
        match_bounds(fs, cs[i - 1], search_from(cs, fs, i - 1));
        assert(ps[i - 1] == anchor_at(cs, fs, i - 1, search_from(cs, fs, i - 1)));
        if search_from(cs, fs, i) <= k {
            assert forall|h: int| 0 <= h < i implies ((#[trigger] ps[h]) matches Some(p) ==> p < k) by {
                if h < i - 1 {
                    assert(behind(ps, i - 1, k));
                }
            }
        }
        if behind(ps, i, k) {
            assert(behind(ps, i - 1, k));
        }
    }
}

proof fn match_is_first(fs: Seq<Seq<char>>, line: Seq<char>, from: int)
    requires
        0 <= from,
    ensures
        match match_from(fs, line, from) {
            Some(k) => from <= k < fs.len() && same_line(line, fs[k]) && forall|j: int|
                from <= j < k ==> !same_line(line, #[trigger] fs[j]),
            None => forall|j: int| from <= j < fs.len() ==> !same_line(line, #[trigger] fs[j]),
        },
    decreases fs.len() - from,
{
    if from < fs.len() && trim_end(fs[from]) != trim_end(line) {
        match_is_first(fs, line, from + 1);
    }
}

/// A line of the changes, unless it is a placeholder, is anchored at the first file line that is the
/// same but for white space at the end and that stands behind all earlier anchors. It has no anchor only
/// if there is no such line.
pub proof fn lines_are_anchored_where_they_match(cs: Seq<Seq<char>>, fs: Seq<Seq<char>>, i: int)
    requires
        0 <= i < cs.len(),
    ensures
        placeholder(cs[i]) ==> anchors(cs, fs)[i] is None,
        !placeholder(cs[i]) ==> match anchors(cs, fs)[i] {
            Some(k) => 0 <= k < fs.len() && same_line(cs[i], fs[k]) && behind(
                anchors(cs, fs),
                i,
                k,
            ) && forall|j: int|
                0 <= j < k && same_line(cs[i], #[trigger] fs[j]) ==> !behind(anchors(cs, fs), i, j),
            None => forall|j: int|
                0 <= j < fs.len() && same_line(cs[i], #[trigger] fs[j]) ==> !behind(
                    anchors(cs, fs),
                    i,
                    j,
                ),
        },
{
    let from = search_from(cs, fs, i);
    search_grows(cs, fs, i, i);
    match_is_first(fs, cs[i], from);
    assert forall|j: int| 0 <= j < fs.len() implies #[trigger] behind(anchors(cs, fs), i, j) == (from
        <= j) by {
        search_is_behind(cs, fs, i, j);
    }
}

proof fn last_some_is_last(ps: Seq<Option<int>>)
    ensures
        match last_some(ps) {
            Some(p) => exists|h: int|
                0 <= h < ps.len() && #[trigger] ps[h] == Some(p) && forall|k: int|
                    h < k < ps.len() ==> (#[trigger] ps[k]) is None,
            None => forall|k: int| 0 <= k < ps.len() ==> (#[trigger] ps[k]) is None,
        },
    decreases ps.len(),
{
    if ps.len() > 0 {
        let head = ps.drop_last();
        last_some_is_last(head);
        if ps.last() is Some {
            assert(ps[ps.len() - 1] == last_some(ps));
        } else if last_some(head) is Some {
            let h = choose|h: int|
                0 <= h < head.len() && #[trigger] head[h] == last_some(head) && forall|k: int|
                    h < k < head.len() ==> (#[trigger] head[k]) is None;
            assert(ps[h] == last_some(ps));
            assert forall|k: int| h < k < ps.len() implies (#[trigger] ps[k]) is None by {
                if k < head.len() {
                    assert(head[k] is None);
                }
            }
        } else {
            assert forall|k: int| 0 <= k < ps.len() implies (#[trigger] ps[k]) is None by {
                if k < head.len() {
                    assert(head[k] is None);
                }
            }
        }
    }
}

proof fn first_some_is_first(ps: Seq<Option<int>>)
    ensures
        match first_some(ps) {
            Some(p) => exists|h: int|
                0 <= h < ps.len() && #[trigger] ps[h] == Some(p) && forall|k: int|
                    0 <= k < h ==> (#[trigger] ps[k]) is None,
            None => forall|k: int| 0 <= k < ps.len() ==> (#[trigger] ps[k]) is None,
        },
    decreases ps.len(),
{
    if ps.len() > 0 {
        let tail = ps.drop_first();
        first_some_is_first(tail);
        if ps[0] is Some {
            assert(ps[0] == first_some(ps));
        } else if first_some(tail) is Some {
            let h = choose|h: int|
                0 <= h < tail.len() && #[trigger] tail[h] == first_some(tail) && forall|k: int|
                    0 <= k < h ==> (#[trigger] tail[k]) is None;
            assert(ps[h + 1] == first_some(ps));
            assert forall|k: int| 0 <= k < h + 1 implies (#[trigger] ps[k]) is None by {
                if k > 0 {
                    assert(tail[k - 1] is None);
                }
            }
        } else {
            assert forall|k: int| 0 <= k < ps.len() implies (#[trigger] ps[k]) is None by {
                if k > 0 {
                    assert(tail[k - 1] is None);
                }
            }
        }
    }
}

/// The first line of the gap around line `i` of the changes.
spec fn gap_start(ps: Seq<Option<int>>, i: int) -> int {
    match anchor_before(ps, i) {
        Some(p) => p + 1,
        None => 0,
    }
}

/// The line behind the gap around line `i` of the changes, in a file of `total` lines.
spec fn gap_end(ps: Seq<Option<int>>, i: int, total: nat) -> int {
    match anchor_after(ps, i) {
        Some(p) => p,
        None => total as int,
    }
}

proof fn gap_is_a_range(cs: Seq<Seq<char>>, fs: Seq<Seq<char>>, i: int, k: int)
    requires
        0 <= i < cs.len(),
        0 <= k < fs.len(),
    ensures
        in_gap(anchors(cs, fs), i, k) == (gap_start(anchors(cs, fs), i) <= k < gap_end(
            anchors(cs, fs),
            i,
            fs.len(),
        )),
{
    let ps = anchors(cs, fs);
    let head = ps.take(i);
    let tail = ps.skip(i + 1);
    last_some_is_last(head);
    first_some_is_first(tail);
    match last_some(head) {
        Some(p) => {
            let h = choose|h: int|
                0 <= h < head.len() && #[trigger] head[h] == Some(p) && forall|k: int|
                    h < k < head.len() ==> (#[trigger] head[k]) is None;
            assert(ps[h] == Some(p));
            assert forall|g: int| 0 <= g < i && (#[trigger] ps[g]) is Some implies ps[g]->0 <= p by {
                if g > h {
                    assert(head[g] is None);
                }
                if g < h {
                    anchors_increase(cs, fs, g, h);
                }
            }
        },
        None => {
            assert forall|g: int| 0 <= g < i implies (#[trigger] ps[g]) is None by {
                assert(head[g] is None);
            }
        },
    }
    match first_some(tail) {
        Some(p) => {
            let h = choose|h: int|
                0 <= h < tail.len() && #[trigger] tail[h] == Some(p) && forall|k: int|
                    0 <= k < h ==> (#[trigger] tail[k]) is None;
            let at = h + i + 1;
            assert(ps[at] == Some(p));
            assert forall|g: int| i < g < ps.len() && (#[trigger] ps[g]) is Some implies p <= ps[g]->0 by {
                if g < at {
                    assert(tail[g - i - 1] is None);
                }
                if g > at {
                    anchors_increase(cs, fs, at, g);
                }
            }
        },
        None => {
            assert forall|g: int| i < g < ps.len() implies (#[trigger] ps[g]) is None by {
                assert(tail[g - i - 1] is None);
            }
        },
    }
}

/// How similar line `i` of the changes is to a file line.
pub open spec fn likeness(cs: Seq<Seq<char>>, fs: Seq<Seq<char>>, i: int, k: int) -> u64 {
    similarity(trim_end(cs[i]), trim_end(fs[k]))
}

proof fn most_similar_is_first(
    cs: Seq<Seq<char>>,
    fs: Seq<Seq<char>>,
    ps: Seq<Option<int>>,
    i: int,
    start: int,
    end: int,
)
    requires
        forall|k: int| start <= k < end ==> !ps.contains(Some(k)),
    ensures
        match most_similar(cs[i], fs, ps, start, end) {
            Some((j, sim)) => {
                &&& start <= j < end
                &&& sim == likeness(cs, fs, i, j)
                &&& forall|k: int| start <= k < end ==> #[trigger] likeness(cs, fs, i, k) <= sim
                &&& forall|k: int| start <= k < j ==> #[trigger] likeness(cs, fs, i, k) < sim
            },
            None => end <= start,
        },
    decreases end - start,
{
    if start < end {
        most_similar_is_first(cs, fs, ps, i, start, end - 1);
        assert(!ps.contains(Some(end - 1)));
        assert(likeness(cs, fs, i, end - 1) == similarity(trim_end(cs[i]), trim_end(fs[end - 1])));
    }
}

/// A line of the changes without an anchor is a changed version of the first of the most similar file
/// lines between the anchors around it, if that one is similar enough: nine tenths, as the bits of a
/// double.
pub proof fn similar_lines_are_replaced(cs: Seq<Seq<char>>, fs: Seq<Seq<char>>, i: int)
    requires
        0 <= i < cs.len(),
        !placeholder(cs[i]),
        anchors(cs, fs)[i] is None,
    ensures
        match replacements(cs, fs, anchors(cs, fs))[i] {
            Some(j) => {
                &&& 0 <= j < fs.len()
                &&& in_gap(anchors(cs, fs), i, j)
                &&& likeness(cs, fs, i, j) >= 0x3FEC_CCCC_CCCC_CCCD
                &&& forall|k: int|
                    0 <= k < fs.len() && in_gap(anchors(cs, fs), i, k) ==> #[trigger] likeness(
                        cs,
                        fs,
                        i,
                        k,
                    ) <= likeness(cs, fs, i, j)
                &&& forall|k: int|
                    0 <= k < j && in_gap(anchors(cs, fs), i, k) ==> #[trigger] likeness(
                        cs,
                        fs,
                        i,
                        k,
                    ) < likeness(cs, fs, i, j)
            },
            None => forall|k: int|
                0 <= k < fs.len() && in_gap(anchors(cs, fs), i, k) ==> #[trigger] likeness(
                    cs,
                    fs,
                    i,
                    k,
                ) < 0x3FEC_CCCC_CCCC_CCCD,
        },
{
    let ps = anchors(cs, fs);
    let start = gap_start(ps, i);
    let end = gap_end(ps, i, fs.len());
    around(cs, fs, i);
    assert forall|k: int| 0 <= k < fs.len() implies #[trigger] in_gap(ps, i, k) == (start <= k < end) by {
        gap_is_a_range(cs, fs, i, k);
    }
    assert forall|k: int| start <= k < end implies !ps.contains(Some(k)) by {
        if ps.contains(Some(k)) {
            let h = choose|h: int| 0 <= h < ps.len() && ps[h] == Some(k);
            assert(in_gap(ps, i, k));
            assert(ps[h] matches Some(p) && p == k);
        }
    }
    most_similar_is_first(cs, fs, ps, i, start, end);
    assert(replacements(cs, fs, ps)[i] == replacement(cs, fs, ps, i));
}

/// A line of the changes that is neither anchored nor a changed version of a line takes the place of the
/// one line between the anchors around it, where there is exactly one.
pub proof fn single_lines_are_replaced(cs: Seq<Seq<char>>, fs: Seq<Seq<char>>, i: int, j: int)
    requires
        0 <= i < cs.len(),
        0 <= j < fs.len(),
    ensures
        (only_between(anchors(cs, fs), i) == Some(j)) == {
            &&& in_gap(anchors(cs, fs), i, j)
            &&& exists|h: int| 0 <= h < i && (#[trigger] anchors(cs, fs)[h]) == Some(j - 1)
            &&& exists|h: int| i < h < cs.len() && (#[trigger] anchors(cs, fs)[h]) == Some(j + 1)
        },
{
    let ps = anchors(cs, fs);
    let head = ps.take(i);
    let tail = ps.skip(i + 1);
    gap_is_a_range(cs, fs, i, j);
    last_some_is_last(head);
    first_some_is_first(tail);
    if only_between(ps, i) == Some(j) {
        let h = choose|h: int|
            0 <= h < head.len() && #[trigger] head[h] == Some(j - 1) && forall|k: int|
                h < k < head.len() ==> (#[trigger] head[k]) is None;
        assert(ps[h] == Some(j - 1));
        let g = choose|g: int|
            0 <= g < tail.len() && #[trigger] tail[g] == Some(j + 1) && forall|k: int|
                0 <= k < g ==> (#[trigger] tail[k]) is None;
        assert(ps[g + i + 1] == Some(j + 1));
    }
    if in_gap(ps, i, j) && (exists|h: int| 0 <= h < i && (#[trigger] ps[h]) == Some(j - 1)) && (
    exists|h: int| i < h < cs.len() && (#[trigger] ps[h]) == Some(j + 1)) {
        let h = choose|h: int| 0 <= h < i && (#[trigger] ps[h]) == Some(j - 1);
        let g = choose|g: int| i < g < cs.len() && (#[trigger] ps[g]) == Some(j + 1);
        assert(head[h] == Some(j - 1));
        assert(tail[g - i - 1] == Some(j + 1));
        last_is_at_least(cs, fs, i, h);
        first_is_at_most(cs, fs, i, g);
    }
}

proof fn last_is_at_least(cs: Seq<Seq<char>>, fs: Seq<Seq<char>>, i: int, h: int)
    requires
        0 <= h < i < cs.len(),
        anchors(cs, fs)[h] is Some,
    ensures
        anchor_before(anchors(cs, fs), i) matches Some(p) && anchors(cs, fs)[h]->0 <= p,
{
    let ps = anchors(cs, fs);
    let head = ps.take(i);
    last_some_is_last(head);
    assert(head[h] is Some);
    let p = last_some(head)->0;
    let at = choose|at: int|
        0 <= at < head.len() && #[trigger] head[at] == Some(p) && forall|k: int|
            at < k < head.len() ==> (#[trigger] head[k]) is None;
    assert(ps[at] == Some(p));
    if h < at {
        anchors_increase(cs, fs, h, at);
    }
}

proof fn first_is_at_most(cs: Seq<Seq<char>>, fs: Seq<Seq<char>>, i: int, h: int)
    requires
        0 <= i < h < cs.len(),
        anchors(cs, fs)[h] is Some,
    ensures
        anchor_after(anchors(cs, fs), i) matches Some(p) && p <= anchors(cs, fs)[h]->0,
{
    let ps = anchors(cs, fs);
    let tail = ps.skip(i + 1);
    first_some_is_first(tail);
    assert(tail[h - i - 1] is Some);
    let p = first_some(tail)->0;
    let at = choose|at: int|
        0 <= at < tail.len() && #[trigger] tail[at] == Some(p) && forall|k: int|
            0 <= k < at ==> (#[trigger] tail[k]) is None;
    assert(ps[at + i + 1] == Some(p));
    if at + i + 1 < h {
        anchors_increase(cs, fs, at + i + 1, h);
    }
}

/// A file line is replaced only by a line of the changes that is the same but for white space at the
/// end, or that is similar enough to it, or that stands where it alone stands: between two lines that
/// the changes show before and behind.
pub proof fn replaced_lines_are_meant(cs: Seq<Seq<char>>, fs: Seq<Seq<char>>, i: int, j: int)
    requires
        0 <= i < cs.len(),
        !placeholder(cs[i]),
        place(anchors(cs, fs), replacements(cs, fs, anchors(cs, fs)), i) == Place::Replace(j),
    ensures
        0 <= j < fs.len(),
        same_line(cs[i], fs[j]) || likeness(cs, fs, i, j) >= 0x3FEC_CCCC_CCCC_CCCD || exists|
            a: int,
            b: int,
        |
            0 <= a < i < b < cs.len() && 0 < j < fs.len() - 1 && #[trigger] same_line(
                cs[a],
                fs[j - 1],
            ) && #[trigger] same_line(cs[b], fs[j + 1]),
{
    let ps = anchors(cs, fs);
    let rs = replacements(cs, fs, ps);
    assert forall|k: int| 0 <= k < rs.len() implies ((#[trigger] rs[k]) matches Some(j) ==> 0 <= j
        < fs.len()) by {
        replacement_bounds(cs, fs, k);
    }
    place_bounds(cs, fs, rs, i);
    lines_are_anchored_where_they_match(cs, fs, i);
    if ps[i] is None {
        similar_lines_are_replaced(cs, fs, i);
        if rs[i] is None {
            single_lines_are_replaced(cs, fs, i, j);
            let a = choose|a: int| 0 <= a < i && (#[trigger] ps[a]) == Some(j - 1);
            let b = choose|b: int| i < b < cs.len() && (#[trigger] ps[b]) == Some(j + 1);
            lines_are_anchored_where_they_match(cs, fs, a);
            lines_are_anchored_where_they_match(cs, fs, b);
            assert(same_line(cs[a], fs[j - 1]) && same_line(cs[b], fs[j + 1]));
        }
    }
}

/// The file line that line `i` of the changes stands for: its anchor, or the line that it is a changed
/// version of.
pub open spec fn stands_for(ps: Seq<Option<int>>, rs: Seq<Option<int>>, i: int) -> Option<int> {
    if ps[i] is Some {
        ps[i]
    } else {
        rs[i]
    }
}

proof fn placed_is_first(ps: Seq<Option<int>>, rs: Seq<Option<int>>, i: int)
    requires
        0 <= i,
    ensures
        match placed_from(ps, rs, i) {
            Some(p) => exists|k: int|
                i <= k < ps.len() && #[trigger] stands_for(ps, rs, k) == Some(p) && forall|h: int|
                    i <= h < k ==> #[trigger] stands_for(ps, rs, h) is None,
            None => forall|h: int| i <= h < ps.len() ==> #[trigger] stands_for(ps, rs, h) is None,
        },
    decreases ps.len() - i,
{
    if i < ps.len() {
        if stands_for(ps, rs, i) is Some {
            assert(stands_for(ps, rs, i) == placed_from(ps, rs, i));
        } else {
            placed_is_first(ps, rs, i + 1);
            if let Some(p) = placed_from(ps, rs, i) {
                let k = choose|k: int|
                    i + 1 <= k < ps.len() && #[trigger] stands_for(ps, rs, k) == Some(p) && forall|
                        h: int,
                    |
                        i + 1 <= h < k ==> #[trigger] stands_for(ps, rs, h) is None;
                assert(stands_for(ps, rs, k) == Some(p));
            }
        }
    }
}

/// A line of the changes that stands for no file line and does not stand where one line alone stands is
/// put in before the file line that the next of the changes stands for. It belongs nowhere just if no
/// line behind it stands for any.
pub proof fn new_lines_go_before_the_next(ps: Seq<Option<int>>, rs: Seq<Option<int>>, i: int)
    requires
        0 <= i < ps.len(),
        stands_for(ps, rs, i) is None,
        only_between(ps, i) is None,
    ensures
        match place(ps, rs, i) {
            Place::Replace(_) => false,
            Place::Insert(p) => exists|k: int|
                i < k < ps.len() && #[trigger] stands_for(ps, rs, k) == Some(p) && forall|h: int|
                    i < h < k ==> #[trigger] stands_for(ps, rs, h) is None,
            Place::Nowhere => forall|h: int|
                i < h < ps.len() ==> #[trigger] stands_for(ps, rs, h) is None,
        },
{
    placed_is_first(ps, rs, i + 1);
}

/// A line of the changes that stands for a file line takes its place.
pub proof fn known_lines_take_their_place(ps: Seq<Option<int>>, rs: Seq<Option<int>>, i: int)
    requires
        stands_for(ps, rs, i) is Some,
    ensures
        place(ps, rs, i) == Place::Replace(stands_for(ps, rs, i)->0),
{
}

/// The file line at which a line of the changes goes, and whether there is one.
pub open spec fn goes_to(ps: Seq<Option<int>>, rs: Seq<Option<int>>, i: int) -> Option<int> {
    match place(ps, rs, i) {
        Place::Replace(p) => Some(p),
        Place::Insert(p) => Some(p),
        Place::Nowhere => None,
    }
}

proof fn builds_in_order(
    cs: Seq<Seq<char>>,
    fs: Seq<Seq<char>>,
    ps: Seq<Option<int>>,
    rs: Seq<Option<int>>,
    n: int,
)
    requires
        0 <= n <= cs.len(),
        forall|i: int|
            0 <= i < cs.len() && !placeholder(#[trigger] cs[i]) ==> (goes_to(ps, rs, i) matches Some(p)
                && p >= 0),
        forall|i: int, k: int|
            0 <= i < k < cs.len() && !placeholder(#[trigger] cs[i]) && !placeholder(
                #[trigger] cs[k],
            ) ==> goes_to(ps, rs, i)->0 <= goes_to(ps, rs, k)->0,
    ensures
        build(cs, fs, ps, rs, n) matches Progress::Built(_, consumed) && forall|k: int|
            n <= k < cs.len() && !placeholder(#[trigger] cs[k]) ==> consumed <= goes_to(
                ps,
                rs,
                k,
            )->0 + 1,
    decreases n,
{
    if n > 0 {
        builds_in_order(cs, fs, ps, rs, n - 1);
        let now = build(cs, fs, ps, rs, n);
        if !placeholder(cs[n - 1]) {
            assert(goes_to(ps, rs, n - 1) is Some);
            assert(now is Built);
            assert forall|k: int| n <= k < cs.len() && !placeholder(#[trigger] cs[k]) implies now->Built_1
                <= goes_to(ps, rs, k)->0 + 1 by {
                assert(goes_to(ps, rs, n - 1)->0 <= goes_to(ps, rs, k)->0);
            }
        }
    } else {
        assert forall|k: int| 0 <= k < cs.len() && !placeholder(#[trigger] cs[k]) implies 0 <= goes_to(
            ps,
            rs,
            k,
        )->0 + 1 by {
            assert(goes_to(ps, rs, k) is Some);
        }
    }
}

/// Changes whose first and last lines of code are in the file, and whose lines go to file lines in the
/// order of the file, are made, unless they leave the file as it is.
pub proof fn changes_in_order_are_made(content: Seq<char>, changes: Seq<char>)
    requires
        ({
            let cs = lines(unfenced(changes));
            let fs = lines(content);
            let ps = anchors(cs, fs);
            let rs = replacements(cs, fs, ps);
            &&& refused_at_once(cs, ps) is None
            &&& forall|i: int|
                0 <= i < cs.len() && !placeholder(#[trigger] cs[i]) ==> goes_to(ps, rs, i) is Some
            &&& forall|i: int, k: int|
                0 <= i < k < cs.len() && !placeholder(#[trigger] cs[i]) && !placeholder(
                    #[trigger] cs[k],
                ) ==> goes_to(ps, rs, i)->0 <= goes_to(ps, rs, k)->0
        }),
    ensures
        edit_outcome(content, changes) is Edited || edit_outcome(content, changes)
            == EditOutcome::Refused(
            "The changes did not modify the file: the provided code already matches the file contents."@,
        ),
        edit_outcome(content, changes) matches EditOutcome::Edited(text) ==> text != content,
{
    let cs = lines(unfenced(changes));
    let fs = lines(content);
    let ps = anchors(cs, fs);
    let rs = replacements(cs, fs, ps);
    assert forall|i: int| 0 <= i < rs.len() implies ((#[trigger] rs[i]) matches Some(j) ==> 0 <= j
        < fs.len()) by {
        replacement_bounds(cs, fs, i);
    }
    assert forall|i: int| 0 <= i < cs.len() && !placeholder(#[trigger] cs[i]) implies (goes_to(
        ps,
        rs,
        i,
    ) matches Some(p) && p >= 0) by {
        place_bounds(cs, fs, rs, i);
    }
    builds_in_order(cs, fs, ps, rs, cs.len() as int);
}

/// Whether a line of the changes is code: no placeholder, and not blank.
pub open spec fn holds_code(line: Seq<char>) -> bool {
    !placeholder(line) && exists|k: int| 0 <= k < line.len() && !white(#[trigger] line[k])
}

/// Changes are refused at once just if they hold no line, or if no line of them is in the file, or if
/// their first or their last line of code is not.
pub proof fn changes_must_begin_and_end_in_the_file(cs: Seq<Seq<char>>, ps: Seq<Option<int>>)
    requires
        ps.len() == cs.len(),
    ensures
        refused_at_once(cs, ps) is None <==> {
            &&& exists|i: int| 0 <= i < ps.len() && (#[trigger] ps[i]) is Some
            &&& forall|i: int|
                0 <= i < cs.len() && holds_code(#[trigger] cs[i]) && (forall|k: int|
                    0 <= k < i ==> !holds_code(#[trigger] cs[k])) ==> ps[i] is Some
            &&& forall|i: int|
                0 <= i < cs.len() && holds_code(#[trigger] cs[i]) && (forall|k: int|
                    i < k < cs.len() ==> !holds_code(#[trigger] cs[k])) ==> ps[i] is Some
        },
{
    assert forall|line: Seq<char>| #[trigger] is_code(line) == holds_code(line) by {
        blank_texts_are_white(line);
    }
    if first_unanchored(cs, ps) {
        let i = choose|i: int|
            0 <= i < cs.len() && is_code(#[trigger] cs[i]) && ps[i] is None && forall|k: int|
                0 <= k < i ==> !is_code(#[trigger] cs[k]);
        assert forall|k: int| 0 <= k < i implies !holds_code(#[trigger] cs[k]) by {
            assert(!is_code(cs[k]));
        }
        assert(holds_code(cs[i]));
    } else {
        assert forall|i: int|
            0 <= i < cs.len() && holds_code(#[trigger] cs[i]) && (forall|k: int|
                0 <= k < i ==> !holds_code(#[trigger] cs[k])) implies ps[i] is Some by {
            assert(is_code(cs[i]));
            assert forall|k: int| 0 <= k < i implies !is_code(#[trigger] cs[k]) by {
                assert(!holds_code(cs[k]));
            }
        }
    }
    if last_unanchored(cs, ps) {
        let i = choose|i: int|
            0 <= i < cs.len() && is_code(#[trigger] cs[i]) && ps[i] is None && forall|k: int|
                i < k < cs.len() ==> !is_code(#[trigger] cs[k]);
        assert forall|k: int| i < k < cs.len() implies !holds_code(#[trigger] cs[k]) by {
            assert(!is_code(cs[k]));
        }
        assert(holds_code(cs[i]));
    } else {
        assert forall|i: int|
            0 <= i < cs.len() && holds_code(#[trigger] cs[i]) && (forall|k: int|
                i < k < cs.len() ==> !holds_code(#[trigger] cs[k])) implies ps[i] is Some by {
            assert(is_code(cs[i]));
            assert forall|k: int| i < k < cs.len() implies !is_code(#[trigger] cs[k]) by {
                assert(!holds_code(cs[k]));
            }
        }
    }
}

// ---------------------------------------------------------------------------------------------
// Find and replace
// ---------------------------------------------------------------------------------------------
/// A text that is replaced in one place stands there once only; what stands before and behind it stays.
pub proof fn one_place_is_replaced(
    filepath: Seq<char>,
    content: Seq<char>,
    old_string: Seq<char>,
    new_string: Seq<char>,
    text: Seq<char>,
)
    requires
        replace_outcome(filepath, content, old_string, new_string, false) == Ok::<
            Seq<char>,
            Seq<char>,
        >(text),
    ensures
        count_of(content, old_string) == 1,
        exists|before: Seq<char>, behind: Seq<char>|
            content == #[trigger] (before + old_string + behind) && text == before + new_string
                + behind && !contains(before, old_string) && !contains(behind, old_string),
{
    find_is_first(content, old_string, 0);
    let at = find_from(content, old_string, 0)->0;
    let before = content.take(at);
    let behind = content.skip(at + old_string.len());
    assert(content.subrange(at, at + old_string.len()) == old_string);
    assert(before + old_string + behind =~= content);
    find_is_first(before, old_string, 0);
    if contains(before, old_string) {
        let j = find_from(before, old_string, 0)->0;
        assert(before.subrange(j, j + old_string.len()) =~= content.subrange(
            j,
            j + old_string.len(),
        ));
        assert(occurs_at(content, old_string, j));
    }
    assert(count_of(behind, old_string) == 0);
    find_is_first(behind, old_string, 0);
}

/// Where a text is replaced everywhere, the file is cut at every place where it stands, and the pieces
/// are joined with the new text. The pieces themselves stay.
pub proof fn all_places_are_replaced(
    filepath: Seq<char>,
    content: Seq<char>,
    old_string: Seq<char>,
    new_string: Seq<char>,
    text: Seq<char>,
)
    requires
        replace_outcome(filepath, content, old_string, new_string, true) == Ok::<
            Seq<char>,
            Seq<char>,
        >(text),
    ensures
        exists|pieces: Seq<Seq<char>>|
            {
                &&& pieces.len() > 1
                &&& #[trigger] join(pieces, old_string) == content
                &&& join(pieces, new_string) == text
                &&& forall|k: int|
                    0 <= k < pieces.len() ==> !contains(#[trigger] pieces[k], old_string)
            },
{
    replacing_joins_the_pieces(content, old_string, new_string);
}

/// A replacement is made just if the old text is not empty, differs from the new one, and stands in the
/// file: once, or anywhere where all places are meant.
pub proof fn replacements_are_made(
    filepath: Seq<char>,
    content: Seq<char>,
    old_string: Seq<char>,
    new_string: Seq<char>,
    replace_all: bool,
)
    ensures
        replace_outcome(filepath, content, old_string, new_string, replace_all) is Ok <==> {
            &&& old_string.len() > 0
            &&& old_string != new_string
            &&& contains(content, old_string)
            &&& replace_all || count_of(content, old_string) == 1
        },
{
    if old_string.len() > 0 {
        find_is_first(content, old_string, 0);
    }
}

} // verus!
