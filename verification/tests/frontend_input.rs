use prognosis::frontend::input::{
    backspace, commit, delete_char, history_next, history_previous, insert_char, insert_text,
    move_end, move_home, move_left, move_right, newline,
};
use prognosis::frontend::state::InputState;

#[test]
fn typing_and_editing() {
    let mut state = InputState::new();
    for c in "hello".chars() {
        insert_char(&mut state, c);
    }
    assert_eq!(state.buffer, "hello");
    assert_eq!(state.cursor, 5);
    move_left(&mut state);
    assert_eq!(state.cursor, 4);
    backspace(&mut state);
    assert_eq!(state.buffer, "helo");
    insert_char(&mut state, 'i');
    assert_eq!(state.buffer, "helio");
    move_home(&mut state);
    insert_char(&mut state, 'H');
    assert_eq!(state.buffer, "Hhelio");
    move_end(&mut state);
    delete_char(&mut state);
    assert_eq!(state.buffer, "Hhelio");
    backspace(&mut state);
    assert_eq!(state.buffer, "Hheli");
}

#[test]
fn multi_line_insertion() {
    let mut state = InputState::new();
    insert_text(&mut state, "line1");
    newline(&mut state);
    insert_text(&mut state, "line2");
    assert_eq!(state.buffer, "line1\nline2");
    assert_eq!(state.cursor, 11);
    move_home(&mut state);
    newline(&mut state);
    assert_eq!(state.buffer, "\nline1\nline2");
}

#[test]
fn paste_carriage_returns_normalized_to_newlines() {
    let mut state = InputState::new();
    insert_text(&mut state, "first\r\nsecond\rthird");
    assert_eq!(state.buffer, "first\nsecond\nthird");
    assert_eq!(state.cursor, 18);
}

#[test]
fn history_navigation() {
    let mut state = InputState::new();
    assert!(commit(&mut state).is_none());
    insert_text(&mut state, "first");
    assert_eq!(commit(&mut state).as_deref(), Some("first"));
    insert_text(&mut state, "second");
    assert_eq!(commit(&mut state).as_deref(), Some("second"));
    assert_eq!(state.history.len(), 2);
    history_previous(&mut state);
    assert_eq!(state.buffer, "second");
    history_previous(&mut state);
    assert_eq!(state.buffer, "first");
    history_next(&mut state);
    assert_eq!(state.buffer, "second");
    history_next(&mut state);
    assert_eq!(state.buffer, "");
}

#[test]
fn command_text_is_not_saved_to_history() {
    let mut state = InputState::new();
    insert_text(&mut state, "/status");
    assert_eq!(commit(&mut state).as_deref(), Some("/status"));
    assert!(state.history.is_empty());
}

#[test]
fn wide_characters_count_as_one() {
    let mut state = InputState::new();
    insert_text(&mut state, "桌面");
    assert_eq!(state.cursor, 2);
    move_left(&mut state);
    delete_char(&mut state);
    assert_eq!(state.buffer, "桌");
    move_right(&mut state);
    assert_eq!(state.cursor, 1);
}
