//! Laws of streams: the pieces of an answer come together as they were sent.

use crate::adapter::traits::{
    accs_view, call_with_index, chunk_added, empty_acc, padded, with_chunk, with_delta, with_deltas,
    AccView, Aggregator,
};
use crate::adapter::types::{deltas_view, CompletionChunk, DeltaView};
use crate::text::{opt_text, or_empty};
use crate::text_laws::{ends_with_part, run_together};
use vstd::prelude::*;

verus! {

/// The texts of arguments in the pieces for the tool call with an index, one after the other.
pub open spec fn arguments_sent(pieces: Seq<DeltaView>, index: u32) -> Seq<char> {
    run_together(
        pieces.filter(|piece: DeltaView| piece.index == index).map_values(
            |piece: DeltaView| or_empty(piece.arguments_delta),
        ),
    )
}

/// Whether a text is the last one that was sent, under an index, of those that were sent at all.
pub open spec fn sent_last(sent: Seq<(u32, Option<Seq<char>>)>, index: u32, got: Option<Seq<char>>) -> bool {
    match got {
        Some(text) => exists|h: int|
            0 <= h < sent.len() && #[trigger] sent[h] == (index, Some(text)) && forall|j: int|
                h < j < sent.len() && (#[trigger] sent[j]).0 == index ==> sent[j].1 is None,
        None => forall|j: int|
            0 <= j < sent.len() && (#[trigger] sent[j]).0 == index ==> sent[j].1 is None,
    }
}

/// The ids that pieces bring.
pub open spec fn ids_sent(pieces: Seq<DeltaView>) -> Seq<(u32, Option<Seq<char>>)> {
    pieces.map_values(|piece: DeltaView| (piece.index, piece.id))
}

/// The names that pieces bring.
pub open spec fn names_sent(pieces: Seq<DeltaView>) -> Seq<(u32, Option<Seq<char>>)> {
    pieces.map_values(|piece: DeltaView| (piece.index, piece.name))
}

/// Whether a tool call holds what was sent under its index: the texts of its arguments one after the
/// other, and the id and the name that were sent last.
pub open spec fn holds_what_was_sent(call: DeltaView, pieces: Seq<DeltaView>) -> bool {
    &&& or_empty(call.arguments_delta) == arguments_sent(pieces, call.index)
    &&& sent_last(ids_sent(pieces), call.index, call.id)
    &&& sent_last(names_sent(pieces), call.index, call.name)
}

/// Whether one of some pieces has an index.
pub open spec fn has_index(pieces: Seq<DeltaView>, index: u32) -> bool {
    exists|k: int| 0 <= k < pieces.len() && (#[trigger] pieces[k]).index == index
}

/// Whether tool calls are put together from pieces: one call for each index that was sent, with the
/// texts of its arguments one after the other, and with the id and the name that were sent last.
pub open spec fn put_together(calls: Seq<DeltaView>, pieces: Seq<DeltaView>) -> bool {
    &&& forall|i: int, j: int|
        0 <= i < j < calls.len() ==> (#[trigger] calls[i]).index != (#[trigger] calls[j]).index
    &&& forall|index: u32| #[trigger] has_index(calls, index) == has_index(pieces, index)
    &&& forall|k: int| 0 <= k < calls.len() ==> holds_what_was_sent(#[trigger] calls[k], pieces)
}

proof fn first_with_index(calls: Seq<DeltaView>, index: u32, i: int)
    requires
        0 <= i,
    ensures
        match call_with_index(calls, index, i) {
            Some(k) => i <= k < calls.len() && calls[k].index == index,
            None => forall|k: int| i <= k < calls.len() ==> (#[trigger] calls[k]).index != index,
        },
    decreases calls.len() - i,
{
    if i < calls.len() && calls[i].index != index {
        first_with_index(calls, index, i + 1);
    }
}

proof fn one_more_argument(pieces: Seq<DeltaView>, piece: DeltaView, index: u32)
    ensures
        arguments_sent(pieces.push(piece), index) == if piece.index == index {
            arguments_sent(pieces, index) + or_empty(piece.arguments_delta)
        } else {
            arguments_sent(pieces, index)
        },
{
    reveal(Seq::filter);
    let of_call = |piece: DeltaView| piece.index == index;
    let text = |piece: DeltaView| or_empty(piece.arguments_delta);
    assert(pieces.push(piece).drop_last() =~= pieces);
    let before = pieces.filter(of_call);
    if piece.index == index {
        assert(pieces.push(piece).filter(of_call) == before.push(piece));
        assert(before.push(piece).map_values(text) =~= before.map_values(text).push(text(piece)));
        ends_with_part(before.map_values(text), text(piece));
    } else {
        assert(pieces.push(piece).filter(of_call) == before);
    }
}

proof fn one_more_sent(
    sent: Seq<(u32, Option<Seq<char>>)>,
    one: (u32, Option<Seq<char>>),
    index: u32,
    got: Option<Seq<char>>,
)
    requires
        sent_last(sent, index, got),
    ensures
        sent_last(
            sent.push(one),
            index,
            if one.0 == index && one.1 is Some {
                one.1
            } else {
                got
            },
        ),
{
    let all = sent.push(one);
    if one.0 == index && one.1 is Some {
        assert(all[sent.len() as int] == (index, Some(one.1->0)));
    } else {
        match got {
            Some(text) => {
                let h = choose|h: int|
                    0 <= h < sent.len() && #[trigger] sent[h] == (index, Some(text)) && forall|
                        j: int,
                    |
                        h < j < sent.len() && (#[trigger] sent[j]).0 == index ==> sent[j].1 is None;
                assert(all[h] == (index, Some(text)));
                assert forall|j: int|
                    h < j < all.len() && (#[trigger] all[j]).0 == index implies all[j].1 is None by {
                    if j < sent.len() {
                        assert(all[j] == sent[j]);
                    }
                }
            },
            None => {
                assert forall|j: int|
                    0 <= j < all.len() && (#[trigger] all[j]).0 == index implies all[j].1 is None by {
                    if j < sent.len() {
                        assert(all[j] == sent[j]);
                    }
                }
            },
        }
    }
}

proof fn nothing_sent_yet(pieces: Seq<DeltaView>, index: u32)
    requires
        forall|h: int| 0 <= h < pieces.len() ==> (#[trigger] pieces[h]).index != index,
    ensures
        arguments_sent(pieces, index) == Seq::<char>::empty(),
        sent_last(ids_sent(pieces), index, None),
        sent_last(names_sent(pieces), index, None),
    decreases pieces.len(),
{
    reveal(Seq::filter);
    if pieces.len() > 0 {
        let head = pieces.drop_last();
        assert forall|h: int| 0 <= h < head.len() implies (#[trigger] head[h]).index != index by {
            assert(head[h] == pieces[h]);
        }
        nothing_sent_yet(head, index);
        assert(pieces[pieces.len() - 1].index != index);
        one_more_argument(head, pieces.last(), index);
        assert(head.push(pieces.last()) =~= pieces);
    } else {
        assert(pieces.filter(|piece: DeltaView| piece.index == index) =~= Seq::empty());
        assert(pieces.filter(|piece: DeltaView| piece.index == index).map_values(
            |piece: DeltaView| or_empty(piece.arguments_delta),
        ) =~= Seq::empty());
    }
    assert forall|j: int|
        0 <= j < ids_sent(pieces).len() && (#[trigger] ids_sent(pieces)[j]).0 == index implies ids_sent(
        pieces,
    )[j].1 is None by {
        assert(pieces[j].index != index);
    }
    assert forall|j: int|
        0 <= j < names_sent(pieces).len() && (#[trigger] names_sent(pieces)[j]).0 == index implies names_sent(
        pieces,
    )[j].1 is None by {
        assert(pieces[j].index != index);
    }
}

proof fn one_more_index(pieces: Seq<DeltaView>, piece: DeltaView, index: u32)
    ensures
        has_index(pieces.push(piece), index) == (has_index(pieces, index) || piece.index == index),
{
    let all = pieces.push(piece);
    assert(all[pieces.len() as int] == piece);
    if has_index(pieces, index) {
        let k = choose|k: int| 0 <= k < pieces.len() && (#[trigger] pieces[k]).index == index;
        assert(all[k].index == index);
    }
    if has_index(all, index) {
        let k = choose|k: int| 0 <= k < all.len() && (#[trigger] all[k]).index == index;
        if k < pieces.len() {
            assert(pieces[k].index == index);
        }
    }
}

proof fn same_indices(a: Seq<DeltaView>, b: Seq<DeltaView>, index: u32)
    requires
        a.len() == b.len(),
        forall|k: int| 0 <= k < a.len() ==> (#[trigger] a[k]).index == b[k].index,
    ensures
        has_index(a, index) == has_index(b, index),
{
    if has_index(a, index) {
        let k = choose|k: int| 0 <= k < a.len() && (#[trigger] a[k]).index == index;
        assert(b[k].index == index);
    }
    if has_index(b, index) {
        let k = choose|k: int| 0 <= k < b.len() && (#[trigger] b[k]).index == index;
        assert(a[k].index == index);
    }
}

/// One more piece goes to the tool call with its index, or begins a new one behind the others.
pub proof fn pieces_go_to_their_call(
    calls: Seq<DeltaView>,
    pieces: Seq<DeltaView>,
    piece: DeltaView,
)
    requires
        put_together(calls, pieces),
    ensures
        put_together(with_delta(calls, piece), pieces.push(piece)),
{
    let now = with_delta(calls, piece);
    let all = pieces.push(piece);
    first_with_index(calls, piece.index, 0);
    let found = call_with_index(calls, piece.index, 0);
    assert forall|i: int, j: int| 0 <= i < j < now.len() implies (#[trigger] now[i]).index != (
    #[trigger] now[j]).index by {
        if j < calls.len() {
            assert(calls[i].index != calls[j].index);
        } else {
            assert(calls[i].index != piece.index);
        }
    }
    assert forall|index: u32| #[trigger] has_index(now, index) == has_index(all, index) by {
        one_more_index(pieces, piece, index);
        assert(has_index(calls, index) == has_index(pieces, index));
        if found is Some {
            same_indices(now, calls, index);
            assert(calls[found->0].index == piece.index);
        } else {
            one_more_index(calls, piece, index);
        }
    }
    assert forall|k: int| 0 <= k < now.len() implies holds_what_was_sent(#[trigger] now[k], all) by {
        if k < calls.len() {
            assert(holds_what_was_sent(calls[k], pieces));
            older_call(calls, pieces, piece, k);
        } else {
            assert(has_index(calls, piece.index) == has_index(pieces, piece.index));
            new_call(calls, pieces, piece);
        }
    }
}

proof fn older_call(calls: Seq<DeltaView>, pieces: Seq<DeltaView>, piece: DeltaView, k: int)
    requires
        0 <= k < calls.len(),
        forall|i: int, j: int|
            0 <= i < j < calls.len() ==> (#[trigger] calls[i]).index != (#[trigger] calls[j]).index,
        holds_what_was_sent(calls[k], pieces),
    ensures
        holds_what_was_sent(with_delta(calls, piece)[k], pieces.push(piece)),
{
    let now = with_delta(calls, piece);
    let all = pieces.push(piece);
    let index = calls[k].index;
    first_with_index(calls, piece.index, 0);
    assert(ids_sent(all) =~= ids_sent(pieces).push((piece.index, piece.id)));
    assert(names_sent(all) =~= names_sent(pieces).push((piece.index, piece.name)));
    one_more_argument(pieces, piece, index);
    one_more_sent(ids_sent(pieces), (piece.index, piece.id), index, calls[k].id);
    one_more_sent(names_sent(pieces), (piece.index, piece.name), index, calls[k].name);
    let sent = arguments_sent(pieces, index);
    assert(sent + Seq::<char>::empty() =~= sent);
    match call_with_index(calls, piece.index, 0) {
        Some(at) => {
            if at != k {
                assert(calls[at].index != calls[k].index);
                assert(now[k] == calls[k]);
            }
        },
        None => {
            assert(now[k] == calls[k]);
            assert(calls[k].index != piece.index);
        },
    }
}

proof fn new_call(calls: Seq<DeltaView>, pieces: Seq<DeltaView>, piece: DeltaView)
    requires
        has_index(calls, piece.index) == has_index(pieces, piece.index),
        call_with_index(calls, piece.index, 0) is None,
    ensures
        holds_what_was_sent(piece, pieces.push(piece)),
{
    let all = pieces.push(piece);
    let index = piece.index;
    first_with_index(calls, index, 0);
    assert(ids_sent(all) =~= ids_sent(pieces).push((index, piece.id)));
    assert(names_sent(all) =~= names_sent(pieces).push((index, piece.name)));
    one_more_argument(pieces, piece, index);
    assert forall|h: int| 0 <= h < pieces.len() implies (#[trigger] pieces[h]).index != index by {
        if pieces[h].index == index {
            assert(has_index(pieces, index));
        }
    }
    nothing_sent_yet(pieces, index);
    one_more_sent(ids_sent(pieces), (index, piece.id), index, None);
    one_more_sent(names_sent(pieces), (index, piece.name), index, None);
    let more = or_empty(piece.arguments_delta);
    assert(Seq::<char>::empty() + more =~= more);
}

proof fn pieces_of_a_chunk(
    calls: Seq<DeltaView>,
    pieces: Seq<DeltaView>,
    more: Seq<DeltaView>,
    n: int,
)
    requires
        0 <= n <= more.len(),
        put_together(calls, pieces),
    ensures
        put_together(with_deltas(calls, more, n), pieces + more.take(n)),
    decreases n,
{
    if n == 0 {
        assert(pieces + more.take(0) =~= pieces);
    } else {
        pieces_of_a_chunk(calls, pieces, more, n - 1);
        pieces_go_to_their_call(
            with_deltas(calls, more, n - 1),
            pieces + more.take(n - 1),
            more[n - 1],
        );
        assert((pieces + more.take(n - 1)).push(more[n - 1]) =~= pieces + more.take(n));
    }
}

/// The tool calls of an answer are put together from the pieces that were sent for it, however they
/// were mixed.
pub proof fn tool_calls_are_put_together(pieces: Seq<DeltaView>)
    ensures
        put_together(with_deltas(Seq::empty(), pieces, pieces.len() as int), pieces),
{
    let none = Seq::<DeltaView>::empty();
    pieces_of_a_chunk(none, none, pieces, pieces.len() as int);
    assert(none + pieces.take(pieces.len() as int) =~= pieces);
}

/// What the chunks for an answer say, one after the other.
pub open spec fn text_sent(chunks: Seq<CompletionChunk>, index: int) -> Seq<char> {
    run_together(
        chunks.filter(|chunk: CompletionChunk| chunk.index == index).map_values(
            |chunk: CompletionChunk| or_empty(opt_text(chunk.delta.content)),
        ),
    )
}

/// What the chunks for an answer think, one after the other.
pub open spec fn thoughts_sent(chunks: Seq<CompletionChunk>, index: int) -> Seq<char> {
    run_together(
        chunks.filter(|chunk: CompletionChunk| chunk.index == index).map_values(
            |chunk: CompletionChunk| or_empty(opt_text(chunk.delta.reasoning)),
        ),
    )
}

/// The pieces of tool calls in the chunks for an answer, one after the other.
pub open spec fn pieces_sent(chunks: Seq<CompletionChunk>, index: int) -> Seq<DeltaView>
    decreases chunks.len(),
{
    if chunks.len() == 0 {
        Seq::empty()
    } else if chunks.last().index == index {
        pieces_sent(chunks.drop_last(), index) + deltas_view(chunks.last().delta.tool_calls@)
    } else {
        pieces_sent(chunks.drop_last(), index)
    }
}

/// The answer with an index as far as it has come; one that has not begun is empty.
pub open spec fn answer_at(answers: Seq<AccView>, index: int) -> AccView {
    if index < answers.len() {
        answers[index]
    } else {
        empty_acc()
    }
}

/// Whether states of an aggregator follow each other while chunks come in, from the first on.
pub open spec fn takes_in(states: Seq<Aggregator>, chunks: Seq<CompletionChunk>) -> bool {
    &&& states.len() == chunks.len() + 1
    &&& states[0].choices@.len() == 0
    &&& forall|n: int|
        0 <= n < chunks.len() ==> chunk_added(
            #[trigger] states[n],
            states[n + 1],
            chunks[n],
        )
}

/// After chunks have come in, every answer says and thinks what the chunks for it said and thought, one
/// after the other, and its tool calls are put together from the pieces in them.
pub proof fn answers_are_put_together(
    states: Seq<Aggregator>,
    chunks: Seq<CompletionChunk>,
    index: int,
)
    requires
        takes_in(states, chunks),
        0 <= index,
    ensures
        ({
            let answer = answer_at(accs_view(states.last().choices@), index);
            &&& answer.content == text_sent(chunks, index)
            &&& answer.reasoning == thoughts_sent(chunks, index)
            &&& put_together(answer.tool_deltas, pieces_sent(chunks, index))
        }),
{
    taken_in_so_far(states, chunks, index, chunks.len() as int);
    assert(chunks.take(chunks.len() as int) =~= chunks);
}

proof fn taken_in_so_far(
    states: Seq<Aggregator>,
    chunks: Seq<CompletionChunk>,
    index: int,
    n: int,
)
    requires
        takes_in(states, chunks),
        0 <= index,
        0 <= n <= chunks.len(),
    ensures
        ({
            let answer = answer_at(accs_view(states[n].choices@), index);
            &&& answer.content == text_sent(chunks.take(n), index)
            &&& answer.reasoning == thoughts_sent(chunks.take(n), index)
            &&& put_together(answer.tool_deltas, pieces_sent(chunks.take(n), index))
        }),
    decreases n,
{
    reveal(Seq::filter);
    let mine = |chunk: CompletionChunk| chunk.index == index;
    let said = |chunk: CompletionChunk| or_empty(opt_text(chunk.delta.content));
    let thought = |chunk: CompletionChunk| or_empty(opt_text(chunk.delta.reasoning));
    if n == 0 {
        assert(chunks.take(0).filter(mine).map_values(said) =~= Seq::empty());
        assert(chunks.take(0).filter(mine).map_values(thought) =~= Seq::empty());
    } else {
        taken_in_so_far(states, chunks, index, n - 1);
        let chunk = chunks[n - 1];
        assert(chunk_added(states[n - 1], states[n - 1 + 1], chunks[n - 1]));
        let answers = accs_view(states[n - 1].choices@);
        let wide = padded(answers, (chunk.index + 1) as nat);
        let now = accs_view(states[n].choices@);
        assert(chunks.take(n).drop_last() =~= chunks.take(n - 1));
        assert(chunks.take(n).last() == chunk);
        let before = chunks.take(n - 1).filter(mine);
        if chunk.index == index {
            assert(chunks.take(n).filter(mine) == before.push(chunk));
            assert(before.push(chunk).map_values(said) =~= before.map_values(said).push(
                said(chunk),
            ));
            assert(before.push(chunk).map_values(thought) =~= before.map_values(thought).push(
                thought(chunk),
            ));
            ends_with_part(before.map_values(said), said(chunk));
            ends_with_part(before.map_values(thought), thought(chunk));
            let answer = answer_at(answers, index);
            assert(wide[index] == answer);
            assert(now[index] == with_chunk(answer, chunk));
            let more = deltas_view(chunk.delta.tool_calls@);
            pieces_of_a_chunk(
                answer.tool_deltas,
                pieces_sent(chunks.take(n - 1), index),
                more,
                more.len() as int,
            );
            assert(more.take(more.len() as int) =~= more);
        } else {
            assert(chunks.take(n).filter(mine) == before);
            if index < wide.len() {
                assert(now[index] == wide[index]);
                assert(wide[index] == answer_at(answers, index));
            }
            assert(answer_at(now, index) == answer_at(answers, index));
        }
    }
}

} // verus!
