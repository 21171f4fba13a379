//! Editing the input line.

use crate::frontend::state::InputState;
use crate::text;
use crate::text::{opt_text, replaced, trim, views};
use vstd::prelude::*;

verus! {

/// Where the cursor stands: a position beyond the text counts as its end.
pub open spec fn cursor_in(buffer: Seq<char>, cursor: usize) -> int {
    if cursor <= buffer.len() {
        cursor as int
    } else {
        buffer.len() as int
    }
}

/// The text with `more` put in at the cursor.
pub open spec fn typed(buffer: Seq<char>, cursor: usize, more: Seq<char>) -> Seq<char> {
    let at = cursor_in(buffer, cursor);
    buffer.take(at) + more + buffer.skip(at)
}

/// The text without the character before the cursor.
pub open spec fn erased(buffer: Seq<char>, cursor: usize) -> Seq<char> {
    let at = cursor_in(buffer, cursor);
    if cursor == 0 || at == 0 {
        buffer
    } else {
        buffer.remove(at - 1)
    }
}

/// A pasted text with line feeds as its only line ends.
pub open spec fn normalized(s: Seq<char>) -> Seq<char> {
    replaced(replaced(s, "\r\n"@, "\n"@), "\r"@, "\n"@)
}

/// Types a character.
pub fn insert_char(state: &mut InputState, c: char)
    requires
        old(state).cursor < usize::MAX,
    ensures
        *final(state) == (InputState {
            buffer: final(state).buffer,
            cursor: (old(state).cursor + 1) as usize,
            ..*old(state)
        }),
        final(state).buffer@ == typed(old(state).buffer@, old(state).cursor, seq![c]),
        old(state).wf() ==> final(state).wf(),
{
    let mut chars = text::chars_of(state.buffer.as_str());
    let at: usize = char_index(chars.len(), state.cursor);
    let ghost before = chars@;
    chars.insert(at, c);
    assert(chars@ =~= before.take(at as int) + seq![c] + before.skip(at as int));
    state.buffer = text::string_of(chars.as_slice());
    state.cursor = state.cursor + 1;
}

/// The position at which the cursor acts on a text of `len` characters.
fn char_index(len: usize, cursor: usize) -> (r: usize)
    ensures
        r == if cursor <= len {
            cursor
        } else {
            len
        },
{
    if cursor <= len {
        cursor
    } else {
        len
    }
}

/// Puts in a pasted text.
pub fn insert_text(state: &mut InputState, text: &str)
    requires
        old(state).cursor + normalized(text@).len() <= usize::MAX,
    ensures
        *final(state) == (InputState {
            buffer: final(state).buffer,
            cursor: (old(state).cursor + normalized(text@).len()) as usize,
            ..*old(state)
        }),
        final(state).buffer@ == typed(old(state).buffer@, old(state).cursor, normalized(text@)),
        old(state).wf() ==> final(state).wf(),
{
    proof {
        reveal_strlit("\r\n");
        reveal_strlit("\r");
    }
    let newline = text::chars_of("\n");
    let once = text::replace(
        text::chars_of(text).as_slice(),
        text::chars_of("\r\n").as_slice(),
        newline.as_slice(),
    );
    let more = text::replace(once.as_slice(), text::chars_of("\r").as_slice(), newline.as_slice());
    let chars = text::chars_of(state.buffer.as_str());
    let at: usize = char_index(chars.len(), state.cursor);
    let mut out = text::part(chars.as_slice(), 0, at);
    text::push_all(&mut out, more.as_slice());
    text::push_all(&mut out, text::part(chars.as_slice(), at, chars.len()).as_slice());
    assert(out@ =~= chars@.take(at as int) + more@ + chars@.skip(at as int));
    state.buffer = text::string_of(out.as_slice());
    state.cursor = state.cursor + more.len();
}

/// Erases the character before the cursor.
pub fn backspace(state: &mut InputState)
    ensures
        *final(state) == (InputState {
            buffer: final(state).buffer,
            cursor: final(state).cursor,
            ..*old(state)
        }),
        final(state).cursor == if old(state).cursor == 0 {
            0
        } else {
            (old(state).cursor - 1) as usize
        },
        final(state).buffer@ == erased(old(state).buffer@, old(state).cursor),
        old(state).wf() ==> final(state).wf(),
{
    if state.cursor == 0 {
        return ;
    }
    let mut chars = text::chars_of(state.buffer.as_str());
    let at: usize = char_index(chars.len(), state.cursor);
    if at > 0 {
        let _ = chars.remove(at - 1);
        state.buffer = text::string_of(chars.as_slice());
    }
    state.cursor = state.cursor - 1;
}

/// Erases the character at the cursor.
pub fn delete_char(state: &mut InputState)
    ensures
        *final(state) == (InputState { buffer: final(state).buffer, ..*old(state) }),
        final(state).buffer@ == if old(state).cursor < old(state).buffer@.len() {
            old(state).buffer@.remove(old(state).cursor as int)
        } else {
            old(state).buffer@
        },
        old(state).wf() ==> final(state).wf(),
{
    let mut chars = text::chars_of(state.buffer.as_str());
    if state.cursor < chars.len() {
        let _ = chars.remove(state.cursor);
        state.buffer = text::string_of(chars.as_slice());
    }
}

/// Moves the cursor to the left.
pub fn move_left(state: &mut InputState)
    ensures
        *final(state) == (InputState {
            cursor: if old(state).cursor > 0 {
                (old(state).cursor - 1) as usize
            } else {
                0
            },
            ..*old(state)
        }),
        old(state).wf() ==> final(state).wf(),
{
    if state.cursor > 0 {
        state.cursor = state.cursor - 1;
    }
}

/// Moves the cursor to the right, up to the end of the text.
pub fn move_right(state: &mut InputState)
    ensures
        *final(state) == (InputState {
            cursor: if old(state).cursor < old(state).buffer@.len() {
                (old(state).cursor + 1) as usize
            } else {
                old(state).cursor
            },
            ..*old(state)
        }),
        old(state).wf() ==> final(state).wf(),
{
    let len: usize = state.buffer.as_str().unicode_len();
    if state.cursor < len {
        state.cursor = state.cursor + 1;
    }
}

/// Moves the cursor to the beginning of the text.
pub fn move_home(state: &mut InputState)
    ensures
        *final(state) == (InputState { cursor: 0, ..*old(state) }),
        old(state).wf() ==> final(state).wf(),
{
    state.cursor = 0;
}

/// Moves the cursor to the end of the text.
pub fn move_end(state: &mut InputState)
    ensures
        *final(state) == (InputState { cursor: final(state).cursor, ..*old(state) }),
        final(state).cursor == old(state).buffer@.len(),
        old(state).wf() ==> final(state).wf(),
{
    state.cursor = state.buffer.as_str().unicode_len();
}

/// Types a line feed.
pub fn newline(state: &mut InputState)
    requires
        old(state).cursor < usize::MAX,
    ensures
        *final(state) == (InputState {
            buffer: final(state).buffer,
            cursor: (old(state).cursor + 1) as usize,
            ..*old(state)
        }),
        final(state).buffer@ == typed(old(state).buffer@, old(state).cursor, seq!['\n']),
        old(state).wf() ==> final(state).wf(),
{
    insert_char(state, '\n');
}

/// Where the history stands after a step back: at the text sent before, or at the last one.
pub open spec fn previous_index(history_index: Option<usize>, len: nat) -> int {
    match history_index {
        Some(i) => if i > 0 {
            i - 1
        } else {
            len - 1
        },
        None => len - 1,
    }
}

/// Goes one step back in the history.
pub fn history_previous(state: &mut InputState)
    requires
        old(state).history_index matches Some(i) ==> i <= old(state).history@.len(),
    ensures
        old(state).history@.len() == 0 ==> *final(state) == *old(state),
        old(state).history@.len() > 0 ==> {
            let i = previous_index(old(state).history_index, old(state).history@.len());
            &&& *final(state) == (InputState {
                buffer: final(state).buffer,
                cursor: final(state).cursor,
                history_index: Some(i as usize),
                ..*old(state)
            })
            &&& final(state).buffer@ == old(state).history@[i]@
            &&& final(state).cursor == final(state).buffer@.len()
        },
        old(state).wf() ==> final(state).wf(),
{
    if state.history.len() == 0 {
        return ;
    }
    let index: usize = match state.history_index {
        Some(index) => if index > 0 {
            index - 1
        } else {
            state.history.len() - 1
        },
        None => state.history.len() - 1,
    };
    state.history_index = Some(index);
    state.buffer = state.history[index].clone();
    state.cursor = state.buffer.as_str().unicode_len();
}

/// Goes one step forward in the history; after the last text comes an empty line.
pub fn history_next(state: &mut InputState)
    ensures
        match old(state).history_index {
            None => *final(state) == *old(state),
            Some(i) => {
                &&& *final(state) == (InputState {
                    buffer: final(state).buffer,
                    cursor: final(state).cursor,
                    history_index: if i + 1 < old(state).history@.len() {
                        Some((i + 1) as usize)
                    } else {
                        None
                    },
                    ..*old(state)
                })
                &&& final(state).buffer@ == if i + 1 < old(state).history@.len() {
                    old(state).history@[i + 1]@
                } else {
                    Seq::empty()
                }
                &&& final(state).cursor == final(state).buffer@.len()
            },
        },
        old(state).wf() ==> final(state).wf(),
{
    match state.history_index {
        None => {},
        Some(index) => {
            let len: usize = state.history.len();
            if len > 0 && index < len - 1 {
                state.history_index = Some(index + 1);
                state.buffer = state.history[index + 1].clone();
            } else {
                state.history_index = None;
                state.buffer = String::new();
            }
            state.cursor = state.buffer.as_str().unicode_len();
        },
    }
}

/// The history after a text was sent. Commands and repetitions of the last text are not kept.
pub open spec fn remembered(history: Seq<Seq<char>>, text: Seq<char>) -> Seq<Seq<char>> {
    if (text.len() > 0 && text[0] == '/') || (history.len() > 0 && history.last() == text) {
        history
    } else {
        history.push(text)
    }
}

/// Takes the trimmed text of the input line to be sent, unless it is blank.
pub fn commit(state: &mut InputState) -> (r: Option<String>)
    ensures
        trim(old(state).buffer@).len() == 0 ==> r is None && *final(state) == *old(state),
        trim(old(state).buffer@).len() > 0 ==> {
            &&& opt_text(r) == Some(trim(old(state).buffer@))
            &&& *final(state) == (InputState {
                buffer: final(state).buffer,
                cursor: 0,
                history: final(state).history,
                history_index: None,
                ..*old(state)
            })
            &&& final(state).buffer@.len() == 0
            &&& views(final(state).history@) == remembered(
                views(old(state).history@),
                trim(old(state).buffer@),
            )
        },
        old(state).wf() ==> final(state).wf(),
{
    let chars = text::trimmed(text::chars_of(state.buffer.as_str()).as_slice());
    if chars.len() == 0 {
        return None;
    }
    let sent = text::string_of(chars.as_slice());
    let ghost before = views(state.history@);
    let n: usize = state.history.len();
    let repeated = n > 0 && text::same(state.history[n - 1].as_str(), sent.as_str());
    proof {
        assert(n > 0 ==> before.last() == state.history@[n - 1]@);
    }
    if chars[0] != '/' && !repeated {
        state.history.push(sent.clone());
        assert(views(state.history@) =~= before.push(sent@));
    }
    state.buffer = String::new();
    state.cursor = 0;
    state.history_index = None;
    Some(sent)
}

/// Erasing undoes typing: after a character is typed and erased again, the text is as before, and so
/// is the cursor.
pub proof fn backspace_undoes_insert(buffer: Seq<char>, cursor: usize, c: char)
    requires
        cursor <= buffer.len(),
        cursor < usize::MAX,
    ensures
        erased(typed(buffer, cursor, seq![c]), (cursor + 1) as usize) == buffer,
{
    let now = typed(buffer, cursor, seq![c]);
    assert(now.remove(cursor as int) =~= buffer);
}

/// A step back in the history and a step forward again come back to the same text.
pub proof fn next_undoes_previous(index: usize, len: nat)
    requires
        0 < index < len,
    ensures
        previous_index(Some(index), len) + 1 == index,
{
}

} // verus!
