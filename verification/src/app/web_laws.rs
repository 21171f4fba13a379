//! Laws of reading pages: entities, tags, hidden addresses and the results of a search.

use crate::app::web::{
    decoded, decoded_from, ends_line, entity_at, entity_char, octets, read_page, result_text,
    search_text, shown_results, tag_name, untagged, Reading, ResultView,
};
use crate::text::{find_from, find_is_at, find_is_first, join, occurs_at};
use crate::text_laws::joined_rows;
use vstd::prelude::*;

verus! {

// ---------------------------------------------------------------------------------------------
// Entities
// ---------------------------------------------------------------------------------------------
/// A character as a page writes it: the signs that mean something else there by their entities.
pub open spec fn written_char(c: char) -> Seq<char> {
    if c == '&' {
        "&amp;"@
    } else if c == '<' {
        "&lt;"@
    } else if c == '>' {
        "&gt;"@
    } else if c == '"' {
        "&quot;"@
    } else {
        seq![c]
    }
}

/// A text as a page writes it.
pub open spec fn written(s: Seq<char>) -> Seq<char>
    decreases s.len(),
{
    if s.len() == 0 {
        Seq::empty()
    } else {
        written_char(s[0]) + written(s.skip(1))
    }
}

proof fn decoding_goes_on(s: Seq<char>, t: Seq<char>, i: int)
    requires
        0 <= i <= t.len(),
    ensures
        decoded_from(s + t, s.len() + i) == decoded_from(t, i),
    decreases t.len() - i,
{
    let all = s + t;
    let at = s.len() + i;
    if i < t.len() {
        assert(all[at] == t[i]);
        decoding_goes_on(s, t, i + 1);
        if t[i] == '&' {
            find_is_first(t, seq![';'], i);
            find_is_first(all, seq![';'], at);
            match find_from(t, seq![';'], i) {
                Some(end) => {
                    assert(all.subrange(s.len() + end, s.len() + end + 1) =~= t.subrange(
                        end,
                        end + 1,
                    ));
                    assert forall|j: int| at <= j < s.len() + end implies !#[trigger] occurs_at(
                        all,
                        seq![';'],
                        j,
                    ) by {
                        assert(all.subrange(j, j + 1) =~= t.subrange(j - s.len(), j - s.len() + 1));
                        assert(!occurs_at(t, seq![';'], j - s.len()));
                    }
                    find_is_at(all, seq![';'], at, s.len() + end);
                    assert(all.subrange(at, s.len() + end + 1) =~= t.subrange(i, end + 1));
                    if entity_at(t, i) is Some {
                        decoding_goes_on(s, t, end + 1);
                    }
                },
                None => {
                    if let Some(end) = find_from(all, seq![';'], at) {
                        assert(all.subrange(end, end + 1) =~= t.subrange(
                            end - s.len(),
                            end - s.len() + 1,
                        ));
                        assert(occurs_at(t, seq![';'], end - s.len()));
                    }
                },
            }
        }
    }
}

proof fn entity_is_read(entity: Seq<char>, c: char, t: Seq<char>)
    requires
        entity.len() >= 2,
        entity[0] == '&',
        entity.last() == ';',
        forall|j: int| 0 <= j < entity.len() - 1 ==> #[trigger] entity[j] != ';',
        entity_char(entity) == Some(c),
    ensures
        decoded(entity + t) == seq![c] + decoded(t),
{
    let all = entity + t;
    let end = entity.len() - 1;
    assert(all.subrange(end, end + 1) =~= seq![';']);
    assert forall|j: int| 0 <= j < end implies !#[trigger] occurs_at(all, seq![';'], j) by {
        assert(entity[j] != ';');
        assert(all.subrange(j, j + 1)[0] == entity[j]);
    }
    find_is_at(all, seq![';'], 0, end);
    assert(all.subrange(0, end + 1) =~= entity);
    assert(entity_at(all, 0) == Some((end + 1, c)));
    decoding_goes_on(entity, t, 0);
}

/// What a page writes is read back as it was.
pub proof fn written_texts_are_read_back(s: Seq<char>)
    ensures
        decoded(written(s)) == s,
    decreases s.len(),
{
    if s.len() > 0 {
        let c = s[0];
        let rest = written(s.skip(1));
        written_texts_are_read_back(s.skip(1));
        assert(s =~= seq![c] + s.skip(1));
        reveal_strlit("&amp;");
        reveal_strlit("&lt;");
        reveal_strlit("&gt;");
        reveal_strlit("&quot;");
        if c == '&' {
            entity_is_read("&amp;"@, c, rest);
        } else if c == '<' {
            assert("&lt;"@ != "&amp;"@) by {
                assert("&lt;"@.len() != "&amp;"@.len());
            }
            entity_is_read("&lt;"@, c, rest);
        } else if c == '>' {
            assert("&gt;"@ != "&amp;"@) by {
                assert("&gt;"@.len() != "&amp;"@.len());
            }
            assert("&gt;"@ != "&lt;"@) by {
                assert("&gt;"@[1] != "&lt;"@[1]);
            }
            entity_is_read("&gt;"@, c, rest);
        } else if c == '"' {
            assert("&quot;"@.len() == 6);
            assert("&quot;"@ != "&amp;"@ && "&quot;"@ != "&lt;"@ && "&quot;"@ != "&gt;"@);
            entity_is_read("&quot;"@, c, rest);
        } else {
            let all = seq![c] + rest;
            assert(all[0] == c);
            decoding_goes_on(seq![c], rest, 0);
        }
    } else {
        assert(decoded(written(s)) =~= s);
    }
}

// ---------------------------------------------------------------------------------------------
// Tags
// ---------------------------------------------------------------------------------------------
/// Whether a text holds no angle bracket.
pub open spec fn is_plain(s: Seq<char>) -> bool {
    forall|i: int| 0 <= i < s.len() ==> #[trigger] s[i] != '<' && s[i] != '>'
}

proof fn reading_goes_on(s: Seq<char>, t: Seq<char>, n: int)
    requires
        is_plain(t),
        0 <= n <= t.len(),
    ensures
        untagged(s + t, s.len() + n) == (if untagged(s, s.len() as int).1 {
            untagged(s, s.len() as int)
        } else {
            (untagged(s, s.len() as int).0 + t.take(n), false)
        }),
    decreases n,
{
    if n == 0 {
        same_reading(s, t, s.len() as int);
        assert(untagged(s, s.len() as int).0 + t.take(0) =~= untagged(s, s.len() as int).0);
    } else {
        reading_goes_on(s, t, n - 1);
        assert((s + t)[s.len() + n - 1] == t[n - 1]);
        assert(untagged(s, s.len() as int).0 + t.take(n) =~= (untagged(s, s.len() as int).0
            + t.take(n - 1)).push(t[n - 1]));
    }
}

proof fn same_reading(s: Seq<char>, t: Seq<char>, n: int)
    requires
        0 <= n <= s.len(),
    ensures
        untagged(s + t, n) == untagged(s, n),
    decreases n,
{
    if n > 0 {
        same_reading(s, t, n - 1);
        assert((s + t)[n - 1] == s[n - 1]);
    }
}

/// A text without tags stays as it is.
pub proof fn plain_texts_stay(s: Seq<char>)
    requires
        is_plain(s),
    ensures
        untagged(s, s.len() as int).0 == s,
{
    let none = Seq::<char>::empty();
    reading_goes_on(none, s, s.len() as int);
    assert(none + s =~= s);
    assert(s.take(s.len() as int) =~= s);
    assert(none + s.take(s.len() as int) =~= s);
}

/// A tag is left out, and what stands before and behind it stays.
pub proof fn tags_are_left_out(s: Seq<char>, tag: Seq<char>, behind: Seq<char>)
    requires
        is_plain(tag),
        is_plain(behind),
    ensures
        ({
            let all = s + seq!['<'] + tag + seq!['>'] + behind;
            untagged(all, all.len() as int).0 == untagged(s, s.len() as int).0 + behind
        }),
{
    let kept = untagged(s, s.len() as int).0;
    let opened = s + seq!['<'];
    same_reading(s, seq!['<'], s.len() as int);
    assert(opened[s.len() as int] == '<');
    assert(untagged(opened, opened.len() as int) == (kept, true));
    let inside = opened + tag;
    reading_goes_on(opened, tag, tag.len() as int);
    let closed = inside + seq!['>'];
    same_reading(inside, seq!['>'], inside.len() as int);
    assert(closed[inside.len() as int] == '>');
    assert(untagged(closed, closed.len() as int) == (kept, false));
    let all = closed + behind;
    reading_goes_on(closed, behind, behind.len() as int);
    assert(behind.take(behind.len() as int) =~= behind);
    assert(all =~= s + seq!['<'] + tag + seq!['>'] + behind);
}

proof fn page_so_far(s: Seq<char>, t: Seq<char>, n: int)
    requires
        0 <= n <= s.len(),
    ensures
        read_page(s + t, n) == read_page(s, n),
    decreases n,
{
    if n > 0 {
        page_so_far(s, t, n - 1);
        assert((s + t)[n - 1] == s[n - 1]);
    }
}

/// What is read of a page outside of tags is kept.
pub proof fn words_of_a_page_are_kept(s: Seq<char>, t: Seq<char>)
    requires
        read_page(s, s.len() as int).tag is None,
        forall|i: int| 0 <= i < t.len() ==> #[trigger] t[i] != '<',
    ensures
        read_page(s + t, (s + t).len() as int) == (Reading {
            out: read_page(s, s.len() as int).out + t,
            tag: None,
        }),
    decreases t.len(),
{
    let before = read_page(s, s.len() as int);
    if t.len() == 0 {
        assert(s + t =~= s);
        assert(before.out + t =~= before.out);
    } else {
        let head = t.drop_last();
        assert forall|i: int| 0 <= i < head.len() implies #[trigger] head[i] != '<' by {
            assert(head[i] == t[i]);
        }
        words_of_a_page_are_kept(s, head);
        let all = s + t;
        assert(all =~= (s + head) + seq![t.last()]);
        page_so_far(s + head, seq![t.last()], (s + head).len() as int);
        assert(all[all.len() - 1] == t[t.len() - 1]);
        assert((before.out + head).push(t.last()) =~= before.out + t);
    }
}

proof fn tag_so_far(s: Seq<char>, tag: Seq<char>, n: int)
    requires
        is_plain(tag),
        0 <= n <= tag.len(),
    ensures
        read_page(s + seq!['<'] + tag, s.len() + 1 + n) == (Reading {
            out: read_page(s, s.len() as int).out,
            tag: Some(tag.take(n)),
        }),
    decreases n,
{
    let all = s + seq!['<'] + tag;
    if n == 0 {
        assert(all =~= s + (seq!['<'] + tag));
        page_so_far(s, seq!['<'] + tag, s.len() as int);
        assert(all[s.len() as int] == '<');
        assert(tag.take(0) =~= Seq::<char>::empty());
    } else {
        tag_so_far(s, tag, n - 1);
        assert(all[s.len() + n] == tag[n - 1]);
        assert(tag.take(n - 1).push(tag[n - 1]) =~= tag.take(n));
    }
}

/// A tag of a page is not shown; it ends the line if its name is that of a block or of a line break.
pub proof fn tags_of_a_page_are_not_shown(s: Seq<char>, tag: Seq<char>)
    requires
        is_plain(tag),
    ensures
        ({
            let all = s + seq!['<'] + tag + seq!['>'];
            read_page(all, all.len() as int) == (Reading {
                out: if ends_line(tag_name(tag)) {
                    read_page(s, s.len() as int).out + seq!['\n']
                } else {
                    read_page(s, s.len() as int).out
                },
                tag: None,
            })
        }),
{
    let opened = s + seq!['<'] + tag;
    let all = opened + seq!['>'];
    tag_so_far(s, tag, tag.len() as int);
    page_so_far(opened, seq!['>'], opened.len() as int);
    assert(all[opened.len() as int] == '>');
    assert(tag.take(tag.len() as int) =~= tag);
    assert(read_page(s, s.len() as int).out.push('\n') =~= read_page(s, s.len() as int).out
        + seq!['\n']);
}

// ---------------------------------------------------------------------------------------------
// Hidden addresses
// ---------------------------------------------------------------------------------------------
/// Bytes in groups of six bits, three bytes to four groups.
pub open spec fn in_sextets(bytes: Seq<u8>) -> Seq<u8>
    decreases bytes.len(),
{
    if bytes.len() == 0 {
        Seq::empty()
    } else if bytes.len() == 1 {
        seq![bytes[0] / 4, ((bytes[0] % 4) * 16) as u8]
    } else if bytes.len() == 2 {
        seq![
            bytes[0] / 4,
            ((bytes[0] % 4) * 16 + bytes[1] / 16) as u8,
            ((bytes[1] % 16) * 4) as u8,
        ]
    } else {
        seq![
            bytes[0] / 4,
            ((bytes[0] % 4) * 16 + bytes[1] / 16) as u8,
            ((bytes[1] % 16) * 4 + bytes[2] / 64) as u8,
            bytes[2] % 64,
        ] + in_sextets(bytes.skip(3))
    }
}

/// Bytes that were put in groups of six bits are read back.
pub proof fn sextets_are_read_back(bytes: Seq<u8>)
    ensures
        octets(in_sextets(bytes)) == bytes,
    decreases bytes.len(),
{
    let groups = in_sextets(bytes);
    if bytes.len() >= 3 {
        sextets_are_read_back(bytes.skip(3));
        assert(groups.skip(4) =~= in_sextets(bytes.skip(3)));
        assert(octets(groups) =~= bytes);
    } else {
        assert(octets(groups) =~= bytes);
    }
}

// ---------------------------------------------------------------------------------------------
// Results
// ---------------------------------------------------------------------------------------------
/// The texts of results.
pub open spec fn result_texts(results: Seq<ResultView>) -> Seq<Seq<char>> {
    results.map_values(|result: ResultView| result.title + "\n"@ + result.url + "\n"@ + result.snippet)
}

proof fn joined_grows(parts: Seq<Seq<char>>, n: int)
    requires
        0 <= n <= parts.len(),
    ensures
        join(parts.take(n), "\n"@).len() <= join(parts, "\n"@).len(),
    decreases parts.len(),
{
    if n == parts.len() {
        assert(parts.take(n) =~= parts);
    } else {
        joined_grows(parts.drop_last(), n);
        assert(parts.drop_last().take(n) =~= parts.take(n));
    }
}

proof fn shown_from(results: Seq<ResultView>, i: int)
    requires
        0 <= i <= results.len(),
        join(result_texts(results), "\n"@).len() <= 8000,
    ensures
        shown_results(results, i, join(result_texts(results).take(i), "\n"@)) == join(
            result_texts(results),
            "\n"@,
        ),
    decreases results.len() - i,
{
    let texts = result_texts(results);
    if i < results.len() {
        shown_from(results, i + 1);
        joined_grows(texts, i + 1);
        let so_far = texts.take(i);
        assert(texts.take(i + 1) =~= so_far + seq![texts[i]]);
        assert(texts[i] == result_text(results[i]));
        if i > 0 {
            joined_rows(so_far, seq![texts[i]], "\n"@);
            reveal_strlit("\n");
            assert(join(so_far, "\n"@).len() > 0) by {
                long_enough(results, i);
            }
        } else {
            assert(join(so_far, "\n"@) =~= Seq::<char>::empty());
        }
    } else {
        assert(texts.take(i) =~= texts);
    }
}

proof fn long_enough(results: Seq<ResultView>, i: int)
    requires
        0 < i <= results.len(),
    ensures
        join(result_texts(results).take(i), "\n"@).len() > 0,
{
    reveal_strlit("\n");
    let so_far = result_texts(results).take(i);
    assert(so_far.last() == result_text(results[i - 1]));
    assert(so_far.last().len() > 0);
}

/// As long as they fit in eight thousand characters, all pages that were found are shown, in order:
/// each with its title, its address and what it says.
pub proof fn all_results_are_shown(results: Seq<ResultView>)
    requires
        results.len() > 0,
        join(result_texts(results), "\n"@).len() <= 8000,
    ensures
        search_text(results) == join(result_texts(results), "\n"@),
{
    shown_from(results, 0);
    assert(join(result_texts(results).take(0), "\n"@) =~= Seq::<char>::empty());
}

} // verus!
