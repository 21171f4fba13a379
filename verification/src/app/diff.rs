//! The difference of two texts, line by line.

use crate::text;
use crate::text::{decimal, join, lines, rows};
use vstd::prelude::*;

verus! {

/// The length of a longest common subsequence of `a` from `i` on and `b` from `j` on.
pub open spec fn lcs(a: Seq<Seq<char>>, b: Seq<Seq<char>>, i: int, j: int) -> nat
    decreases a.len() - i + b.len() - j,
{
    if i < 0 || j < 0 || i >= a.len() || j >= b.len() {
        0
    } else if a[i] == b[j] {
        1 + lcs(a, b, i + 1, j + 1)
    } else {
        let drop_a = lcs(a, b, i + 1, j);
        let drop_b = lcs(a, b, i, j + 1);
        if drop_a >= drop_b {
            drop_a
        } else {
            drop_b
        }
    }
}

/// The marked lines that lead from `a` to `b`, from `i` and `j` on: a line that stays is marked with
/// a space, one that goes with a minus and one that comes with a plus. Lines go before others come.
pub open spec fn diff_lines(a: Seq<Seq<char>>, b: Seq<Seq<char>>, i: int, j: int) -> Seq<Seq<char>>
    decreases a.len() - i + b.len() - j,
{
    if !(0 <= i <= a.len() && 0 <= j <= b.len()) {
        Seq::empty()
    } else if i < a.len() && j < b.len() {
        if a[i] == b[j] {
            seq![seq![' '] + a[i]] + diff_lines(a, b, i + 1, j + 1)
        } else if lcs(a, b, i + 1, j) >= lcs(a, b, i, j + 1) {
            seq![seq!['-'] + a[i]] + diff_lines(a, b, i + 1, j)
        } else {
            seq![seq!['+'] + b[j]] + diff_lines(a, b, i, j + 1)
        }
    } else if i < a.len() {
        seq![seq!['-'] + a[i]] + diff_lines(a, b, i + 1, j)
    } else if j < b.len() {
        seq![seq!['+'] + b[j]] + diff_lines(a, b, i, j + 1)
    } else {
        Seq::empty()
    }
}

/// The difference of two texts: a header with their numbers of lines, then the marked lines.
pub open spec fn diff_text(original: Seq<char>, updated: Seq<char>) -> Seq<char> {
    let a = lines(original);
    let b = lines(updated);
    "@@ -"@ + decimal(a.len()) + " +"@ + decimal(b.len()) + " @@\n"@ + join(
        diff_lines(a, b, 0, 0),
        "\n"@,
    )
}

/// One side of a difference: the lines that stay and those with the mark `mark`, without their
/// marks.
pub open spec fn side(marked: Seq<Seq<char>>, mark: char) -> Seq<Seq<char>>
    decreases marked.len(),
{
    if marked.len() == 0 {
        Seq::empty()
    } else {
        let rest = side(marked.drop_first(), mark);
        let line = marked[0];
        if line.len() > 0 && (line[0] == ' ' || line[0] == mark) {
            seq![line.skip(1)] + rest
        } else {
            rest
        }
    }
}

/// The number of lines that stay.
pub open spec fn kept(marked: Seq<Seq<char>>) -> nat
    decreases marked.len(),
{
    if marked.len() == 0 {
        0
    } else {
        let rest = kept(marked.drop_first());
        if marked[0].len() > 0 && marked[0][0] == ' ' {
            1 + rest
        } else {
            rest
        }
    }
}

proof fn side_step(mark: char, first: char, line: Seq<char>, rest: Seq<Seq<char>>)
    ensures
        side(seq![seq![first] + line] + rest, mark) == if first == ' ' || first == mark {
            seq![line] + side(rest, mark)
        } else {
            side(rest, mark)
        },
        kept(seq![seq![first] + line] + rest) == if first == ' ' {
            1 + kept(rest)
        } else {
            kept(rest)
        },
{
    let all = seq![seq![first] + line] + rest;
    assert(all.drop_first() =~= rest);
    assert((seq![first] + line).skip(1) =~= line);
    assert(all[0][0] == first);
}

/// A difference loses nothing: the lines that stay and go are the lines of the original from `i`
/// on, and those that stay and come are the lines of the updated text from `j` on.
pub proof fn diff_keeps_both_sides(a: Seq<Seq<char>>, b: Seq<Seq<char>>, i: int, j: int)
    requires
        0 <= i <= a.len(),
        0 <= j <= b.len(),
    ensures
        side(diff_lines(a, b, i, j), '-') == a.skip(i),
        side(diff_lines(a, b, i, j), '+') == b.skip(j),
    decreases a.len() - i + b.len() - j,
{
    if i < a.len() && j < b.len() && a[i] == b[j] {
        diff_keeps_both_sides(a, b, i + 1, j + 1);
        let rest = diff_lines(a, b, i + 1, j + 1);
        side_step('-', ' ', a[i], rest);
        side_step('+', ' ', a[i], rest);
        assert(seq![a[i]] + a.skip(i + 1) =~= a.skip(i));
        assert(seq![b[j]] + b.skip(j + 1) =~= b.skip(j));
    } else if i < a.len() && (j >= b.len() || lcs(a, b, i + 1, j) >= lcs(a, b, i, j + 1)) {
        diff_keeps_both_sides(a, b, i + 1, j);
        let rest = diff_lines(a, b, i + 1, j);
        side_step('-', '-', a[i], rest);
        side_step('+', '-', a[i], rest);
        assert(seq![a[i]] + a.skip(i + 1) =~= a.skip(i));
    } else if j < b.len() {
        diff_keeps_both_sides(a, b, i, j + 1);
        let rest = diff_lines(a, b, i, j + 1);
        side_step('-', '+', b[j], rest);
        side_step('+', '+', b[j], rest);
        assert(seq![b[j]] + b.skip(j + 1) =~= b.skip(j));
    } else {
        assert(a.skip(i) =~= Seq::empty());
        assert(b.skip(j) =~= Seq::empty());
    }
}

/// The number of lines that stay is the length of a longest common subsequence.
pub proof fn diff_keeps_lcs(a: Seq<Seq<char>>, b: Seq<Seq<char>>, i: int, j: int)
    requires
        0 <= i <= a.len(),
        0 <= j <= b.len(),
    ensures
        kept(diff_lines(a, b, i, j)) == lcs(a, b, i, j),
    decreases a.len() - i + b.len() - j,
{
    if i < a.len() && j < b.len() && a[i] == b[j] {
        diff_keeps_lcs(a, b, i + 1, j + 1);
        side_step('-', ' ', a[i], diff_lines(a, b, i + 1, j + 1));
    } else if i < a.len() && (j >= b.len() || lcs(a, b, i + 1, j) >= lcs(a, b, i, j + 1)) {
        diff_keeps_lcs(a, b, i + 1, j);
        side_step('-', '-', a[i], diff_lines(a, b, i + 1, j));
    } else if j < b.len() {
        diff_keeps_lcs(a, b, i, j + 1);
        side_step('-', '+', b[j], diff_lines(a, b, i, j + 1));
    }
}

/// Whether the positions `p` in `a` and `q` in `b`, both increasing from `i` and `j` on, pick out the
/// same lines.
pub open spec fn common(
    a: Seq<Seq<char>>,
    b: Seq<Seq<char>>,
    i: int,
    j: int,
    p: Seq<int>,
    q: Seq<int>,
) -> bool {
    &&& p.len() == q.len()
    &&& forall|k: int| #![trigger p[k]] #![trigger q[k]]
        0 <= k < p.len() ==> i <= p[k] < a.len() && j <= q[k] < b.len() && a[p[k]] == b[q[k]]
    &&& forall|k: int, l: int| 0 <= k < l < p.len() ==> p[k] < p[l] && q[k] < q[l]
}

/// A difference is as short as can be: no common subsequence is longer than the one whose lines
/// stay.
pub proof fn lcs_is_longest(
    a: Seq<Seq<char>>,
    b: Seq<Seq<char>>,
    i: int,
    j: int,
    p: Seq<int>,
    q: Seq<int>,
)
    requires
        0 <= i <= a.len(),
        0 <= j <= b.len(),
        common(a, b, i, j, p, q),
    ensures
        p.len() <= lcs(a, b, i, j),
    decreases a.len() - i + b.len() - j,
{
    if p.len() > 0 {
        assert(i <= p[0] < a.len() && j <= q[0] < b.len());
        if a[i] == b[j] {
            let p1 = p.drop_first();
            let q1 = q.drop_first();
            assert forall|k: int| #![trigger p1[k]] #![trigger q1[k]]
                0 <= k < p1.len() implies i + 1 <= p1[k] < a.len() && j + 1 <= q1[k] < b.len()
                && a[p1[k]] == b[q1[k]] by {
                assert(p[0] < p[k + 1] && q[0] < q[k + 1]);
            }
            lcs_is_longest(a, b, i + 1, j + 1, p1, q1);
        } else if p[0] > i {
            assert forall|k: int| #![trigger p[k]] 0 <= k < p.len() implies i + 1 <= p[k] by {
                if k > 0 {
                    assert(p[0] < p[k]);
                }
            }
            lcs_is_longest(a, b, i + 1, j, p, q);
        } else {
            assert(q[0] > j);
            assert forall|k: int| #![trigger q[k]] 0 <= k < q.len() implies j + 1 <= q[k] by {
                if k > 0 {
                    assert(q[0] < q[k]);
                }
            }
            lcs_is_longest(a, b, i, j + 1, p, q);
        }
    }
}

/// A common subsequence is no longer than what is left of `a`.
proof fn lcs_bound(a: Seq<Seq<char>>, b: Seq<Seq<char>>, i: int, j: int)
    requires
        0 <= i <= a.len(),
        0 <= j <= b.len(),
    ensures
        lcs(a, b, i, j) <= a.len() - i,
    decreases a.len() - i + b.len() - j,
{
    if i < a.len() && j < b.len() {
        if a[i] == b[j] {
            lcs_bound(a, b, i + 1, j + 1);
        } else {
            lcs_bound(a, b, i + 1, j);
            lcs_bound(a, b, i, j + 1);
        }
    }
}

/// The lengths of the longest common subsequences of all pairs of suffixes, shortest suffixes first.
fn lcs_table(a: &Vec<Vec<char>>, b: &Vec<Vec<char>>) -> (r: Vec<Vec<usize>>)
    ensures
        r@.len() == a@.len() + 1,
        forall|k: int| 0 <= k <= a@.len() ==> (#[trigger] r@[k])@.len() == b@.len() + 1,
        forall|k: int, t: int|
            0 <= k <= a@.len() && 0 <= t <= b@.len() ==> #[trigger] r@[k]@[t] == lcs(
                rows(a@),
                rows(b@),
                a@.len() - k,
                b@.len() - t,
            ),
{
    let ghost sa = rows(a@);
    let ghost sb = rows(b@);
    let n: usize = a.len();
    let m: usize = b.len();
    let mut table: Vec<Vec<usize>> = Vec::new();
    let mut first: Vec<usize> = Vec::new();
    first.push(0);
    let mut t: usize = 0;
    while t < m
        invariant
            t <= m,
            first@.len() == t + 1,
            forall|k: int| 0 <= k <= t ==> first@[k] == 0,
        decreases m - t,
    {
        first.push(0);
        t += 1;
    }
    table.push(first);
    let mut k: usize = 0;
    while k < n
        invariant
            n == a@.len(),
            m == b@.len(),
            sa == rows(a@),
            sb == rows(b@),
            k <= n,
            table@.len() == k + 1,
            forall|x: int| 0 <= x <= k ==> (#[trigger] table@[x])@.len() == m + 1,
            forall|x: int, y: int|
                0 <= x <= k && 0 <= y <= m ==> #[trigger] table@[x]@[y] == lcs(sa, sb, n - x, m - y),
        decreases n - k,
    {
        let i: usize = n - k - 1;
        let mut row: Vec<usize> = Vec::new();
        row.push(0);
        let mut t: usize = 0;
        while t < m
            invariant
                n == a@.len(),
                m == b@.len(),
                sa == rows(a@),
                sb == rows(b@),
                k < n,
                i == n - k - 1,
                t <= m,
                table@.len() == k + 1,
                forall|x: int| 0 <= x <= k ==> (#[trigger] table@[x])@.len() == m + 1,
                forall|x: int, y: int|
                    0 <= x <= k && 0 <= y <= m ==> #[trigger] table@[x]@[y] == lcs(
                        sa,
                        sb,
                        n - x,
                        m - y,
                    ),
                row@.len() == t + 1,
                forall|y: int| 0 <= y <= t ==> #[trigger] row@[y] == lcs(sa, sb, i as int, m - y),
            decreases m - t,
        {
            let j: usize = m - t - 1;
            proof {
                assert(sa[i as int] == a@[i as int]@);
                assert(sb[j as int] == b@[j as int]@);
                assert(table@[k as int]@.len() == m + 1);
                lcs_bound(sa, sb, i as int, j as int);
                assert(table@[k as int]@[t as int] == lcs(sa, sb, n - k, m - t));
                assert(table@[k as int]@[t + 1] == lcs(sa, sb, n - k, m - (t + 1)));
            }
            let value: usize = if text::same_chars(a[i].as_slice(), b[j].as_slice()) {
                table[k][t] + 1
            } else {
                let drop_a: usize = table[k][t + 1];
                let drop_b: usize = row[t];
                if drop_a >= drop_b {
                    drop_a
                } else {
                    drop_b
                }
            };
            row.push(value);
            t += 1;
        }
        table.push(row);
        k += 1;
    }
    table
}

/// A line with a mark before it.
fn marked(mark: char, line: &Vec<char>) -> (r: Vec<char>)
    ensures
        r@ == seq![mark] + line@,
{
    let mut out: Vec<char> = Vec::new();
    out.push(mark);
    text::push_all(&mut out, line.as_slice());
    assert(out@ =~= seq![mark] + line@);
    out
}

/// The marked lines that lead from `a` to `b`.
fn diff_of(a: &Vec<Vec<char>>, b: &Vec<Vec<char>>) -> (r: Vec<Vec<char>>)
    ensures
        rows(r@) == diff_lines(rows(a@), rows(b@), 0, 0),
{
    let ghost sa = rows(a@);
    let ghost sb = rows(b@);
    let n: usize = a.len();
    let m: usize = b.len();
    let table = lcs_table(a, b);
    let mut out: Vec<Vec<char>> = Vec::new();
    let mut i: usize = 0;
    let mut j: usize = 0;
    let ghost whole = diff_lines(sa, sb, 0, 0);
    assert(rows(out@) + whole =~= whole);
    while i < n || j < m
        invariant
            n == a@.len(),
            m == b@.len(),
            sa == rows(a@),
            sb == rows(b@),
            i <= n,
            j <= m,
            table@.len() == n + 1,
            forall|k: int| 0 <= k <= n ==> (#[trigger] table@[k])@.len() == m + 1,
            forall|k: int, t: int|
                0 <= k <= n && 0 <= t <= m ==> #[trigger] table@[k]@[t] == lcs(sa, sb, n - k, m - t),
            whole == rows(out@) + diff_lines(sa, sb, i as int, j as int),
        decreases n - i + m - j,
    {
        let ghost before = rows(out@);
        proof {
            assert(i < n ==> sa[i as int] == a@[i as int]@);
            assert(j < m ==> sb[j as int] == b@[j as int]@);
        }
        if i < n && j < m && text::same_chars(a[i].as_slice(), b[j].as_slice()) {
            let line = marked(' ', &a[i]);
            out.push(line);
            i += 1;
            j += 1;
            proof {
                let rest = diff_lines(sa, sb, i as int, j as int);
                assert(before + (seq![line@] + rest) =~= rows(out@) + rest);
            }
        } else {
            let remove = if i < n && j < m {
                assert(table@[n - (i + 1)]@.len() == m + 1);
                assert(table@[n - i]@.len() == m + 1);
                assert(table@[n - (i + 1)]@[m - j] == lcs(sa, sb, i + 1, j as int));
                assert(table@[n - i]@[m - (j + 1)] == lcs(sa, sb, i as int, j + 1));
                table[n - i - 1][m - j] >= table[n - i][m - j - 1]
            } else {
                i < n
            };
            if remove {
                let line = marked('-', &a[i]);
                out.push(line);
                i += 1;
                proof {
                    let rest = diff_lines(sa, sb, i as int, j as int);
                    assert(before + (seq![line@] + rest) =~= rows(out@) + rest);
                }
            } else {
                let line = marked('+', &b[j]);
                out.push(line);
                j += 1;
                proof {
                    let rest = diff_lines(sa, sb, i as int, j as int);
                    assert(before + (seq![line@] + rest) =~= rows(out@) + rest);
                }
            }
        }
    }
    assert(rows(out@) + diff_lines(sa, sb, i as int, j as int) =~= rows(out@));
    out
}

/// The difference of two texts, line by line.
pub fn unified_diff(original: &str, updated: &str) -> (r: String)
    ensures
        r@ == diff_text(original@, updated@),
{
    let a = text::lines_of(text::chars_of(original).as_slice());
    let b = text::lines_of(text::chars_of(updated).as_slice());
    let marked_lines = diff_of(&a, &b);
    assert(rows(a@).len() == a@.len() && rows(b@).len() == b@.len());
    let mut out: Vec<char> = text::chars_of("@@ -");
    text::push_all(&mut out, text::decimal_of(a.len() as u128).as_slice());
    text::push_str(&mut out, " +");
    text::push_all(&mut out, text::decimal_of(b.len() as u128).as_slice());
    text::push_str(&mut out, " @@\n");
    text::push_all(&mut out, text::joined(&marked_lines, text::chars_of("\n").as_slice()).as_slice());
    text::string_of(out.as_slice())
}

} // verus!
