//! What a key does in each mode of the display.

use crate::frontend::commands;
use crate::frontend::commands::{action_of, commands_for, commands_view, resume_id, Action};
use crate::frontend::input;
use crate::frontend::input::{erased, previous_index, remembered, typed};
use crate::frontend::select::Selector;
use crate::frontend::state::{
    finished_messages, is_diff, messages_view, InputState, MessageView, Mode, PendingCall,
    SelectorKind, SetupState, ToolStatus, UiMessage, UiState,
};
use crate::text;
use crate::text::{
    find_from, has_prefix, lowercase, opt_text, rows, trim, trim_start_char, unsigned, views, words,
};
use vstd::arithmetic::div_mod::{lemma_fundamental_div_mod, lemma_fundamental_div_mod_converse};
use vstd::prelude::*;

verus! {

/// A key.
#[derive(Debug, Clone, Copy, PartialEq, Eq, Structural)]
pub enum KeyCode {
    Char(char),
    Enter,
    Esc,
    Tab,
    BackTab,
    Up,
    Down,
    Left,
    Right,
    Home,
    End,
    PageUp,
    PageDown,
    Backspace,
    Delete,
    Other,
}

/// A key with the keys that are held down.
#[derive(Debug, Clone, Copy, PartialEq, Eq, Structural)]
pub struct Key {
    pub code: KeyCode,
    pub control: bool,
    pub shift: bool,
    pub alt: bool,
}

/// What a key asks for beyond the display.
#[derive(Debug)]
pub enum Effect {
    Nothing,
    Quit,
    CancelGeneration,
    CancelTools(Vec<(String, String)>),
    Approve { approved: bool, remember: bool },
    Toggle { kind: SelectorKind, name: String },
    Select { kind: SelectorKind, item: String },
    AddModel { name: String, kind: String, base_url: String, api_key: String },
    Resume(String),
    Run(String),
    Submit(String),
}

// ---------------------------------------------------------------------------------------------
// Breaking off
// ---------------------------------------------------------------------------------------------
/// Whether the answer that was coming in is broken off.
pub open spec fn broken_off(before: UiState, after: UiState) -> bool {
    &&& after == (UiState {
        cancelled: true,
        pending_tool_calls: after.pending_tool_calls,
        streaming: None,
        messages: after.messages,
        ..before
    })
    &&& after.pending_tool_calls@.len() == 0
    &&& messages_view(after.messages@) == messages_view(before.messages@).push(
        MessageView::System { content: "(generation cancelled)"@ },
    )
}

/// Breaks off the answer that is coming in.
pub fn break_off(ui: &mut UiState)
    ensures
        broken_off(*old(ui), *final(ui)),
{
    ui.cancelled = true;
    ui.pending_tool_calls.clear();
    ui.finish_stream();
    ui.push_system("(generation cancelled)");
}

/// The calls that are running among the first `n` messages, each by its identifier and its tool.
pub open spec fn running(messages: Seq<MessageView>, n: int) -> Seq<(Seq<char>, Seq<char>)>
    decreases n,
{
    if n <= 0 {
        Seq::empty()
    } else {
        let before = running(messages, n - 1);
        match messages[n - 1] {
            MessageView::ToolCall(call) => if call.status == ToolStatus::Running {
                before.push((call.tool_call_id, call.name))
            } else {
                before
            },
            _ => before,
        }
    }
}

/// Pairs of texts as characters.
pub open spec fn pairs_view(pairs: Seq<(String, String)>) -> Seq<(Seq<char>, Seq<char>)> {
    Seq::new(pairs.len(), |i: int| (pairs[i].0@, pairs[i].1@))
}

/// The messages after the first `n` of some calls were cancelled.
pub open spec fn after_cancelling(
    messages: Seq<MessageView>,
    last: Option<usize>,
    calls: Seq<(Seq<char>, Seq<char>)>,
    now: u64,
    n: int,
) -> Seq<MessageView>
    decreases n,
{
    if n <= 0 {
        messages
    } else {
        finished_messages(
            after_cancelling(messages, last, calls, now, n - 1),
            calls[n - 1].0,
            last,
            "(cancelled)"@,
            "(tool call cancelled by user)"@,
            ToolStatus::Denied,
            Some("cancelled"@),
            now,
        )
    }
}

/// The calls that are running, each by its identifier and its tool.
pub fn running_calls(ui: &UiState) -> (r: Vec<(String, String)>)
    ensures
        pairs_view(r@) == running(messages_view(ui.messages@), ui.messages@.len() as int),
{
    let ghost all = messages_view(ui.messages@);
    let mut out: Vec<(String, String)> = Vec::new();
    let mut i: usize = 0;
    assert(pairs_view(out@) =~= Seq::empty());
    while i < ui.messages.len()
        invariant
            i <= ui.messages@.len(),
            all == messages_view(ui.messages@),
            pairs_view(out@) == running(all, i as int),
        decreases ui.messages@.len() - i,
    {
        assert(all[i as int] == ui.messages@[i as int]@);
        if let UiMessage::ToolCall(call) = &ui.messages[i] {
            if call.status == ToolStatus::Running {
                let ghost before = pairs_view(out@);
                out.push((call.tool_call_id.clone(), call.name.clone()));
                assert(pairs_view(out@) =~= before.push((call.tool_call_id@, call.name@)));
            }
        }
        i += 1;
    }
    out
}

/// Cancels the calls that are running, and gives them back.
pub fn cancel_running_tools(ui: &mut UiState, now: u64) -> (r: Vec<(String, String)>)
    ensures
        pairs_view(r@) == running(messages_view(old(ui).messages@), old(ui).messages@.len() as int),
        r@.len() == 0 ==> *final(ui) == *old(ui),
        r@.len() > 0 ==> {
            &&& *final(ui) == (UiState {
                messages: final(ui).messages,
                pending_tool_calls: final(ui).pending_tool_calls,
                ..*old(ui)
            })
            &&& final(ui).pending_tool_calls@.len() == 0
            &&& messages_view(final(ui).messages@) == after_cancelling(
                messages_view(old(ui).messages@),
                old(ui).last_tool_index,
                pairs_view(r@),
                now,
                r@.len() as int,
            ).push(MessageView::System { content: "(tool calls cancelled)"@ })
        },
{
    let calls = running_calls(ui);
    if calls.len() == 0 {
        return calls;
    }
    let ghost start = *ui;
    let ghost pairs = pairs_view(calls@);
    proof {
        cancelling_is_no_difference();
    }
    let mut i: usize = 0;
    while i < calls.len()
        invariant
            i <= calls@.len(),
            pairs == pairs_view(calls@),
            !is_diff("(tool call cancelled by user)"@),
            *ui == (UiState {
                messages: ui.messages,
                turn_added: ui.turn_added,
                turn_removed: ui.turn_removed,
                ..start
            }),
            ui.turn_added == start.turn_added,
            ui.turn_removed == start.turn_removed,
            messages_view(ui.messages@) == after_cancelling(
                messages_view(start.messages@),
                start.last_tool_index,
                pairs,
                now,
                i as int,
            ),
        decreases calls@.len() - i,
    {
        assert(pairs[i as int].0 == calls@[i as int].0@);
        ui.mark_tool_finished(
            calls[i].0.as_str(),
            "(cancelled)",
            "(tool call cancelled by user)",
            ToolStatus::Denied,
            Some("cancelled".to_owned()),
            now,
        );
        i += 1;
    }
    ui.pending_tool_calls.clear();
    ui.push_system("(tool calls cancelled)");
    calls
}

/// The remark on a call that was cancelled shows no difference.
proof fn cancelling_is_no_difference()
    ensures
        !is_diff("(tool call cancelled by user)"@),
{
    let s = "(tool call cancelled by user)"@;
    reveal_strlit("(tool call cancelled by user)");
    reveal_strlit("@@ -");
    reveal_strlit("diff --git");
    text::find_is_first(s, "@@ -"@, 0);
    if let Some(k) = find_from(s, "@@ -"@, 0) {
        assert(s.subrange(k, k + 4)[0] == '@');
        assert(s[k] == '@');
    }
    text::find_is_first(s, "diff --git"@, 0);
    if let Some(k) = find_from(s, "diff --git"@, 0) {
        assert(s.subrange(k, k + 10)[5] == '-');
        assert(s[k + 5] == '-');
    }
}

// ---------------------------------------------------------------------------------------------
// Panels
// ---------------------------------------------------------------------------------------------
/// Ten more, as far as the type goes.
pub open spec fn more(n: usize, by: int) -> usize {
    if n + by > usize::MAX {
        usize::MAX
    } else {
        (n + by) as usize
    }
}

/// Less, but not below nothing.
pub open spec fn less(n: usize, by: int) -> usize {
    if n < by {
        0
    } else {
        (n - by) as usize
    }
}

/// Whether a key was handled in a panel.
pub open spec fn panel_pressed(before: UiState, after: UiState, code: KeyCode) -> bool {
    match code {
        KeyCode::Esc => {
            &&& after == (UiState {
                mode: Mode::Chat,
                input: InputState { buffer: after.input.buffer, cursor: 0, ..before.input },
                panel_scroll: 0,
                ..before
            })
            &&& after.input.buffer@.len() == 0
        },
        KeyCode::Up => after == (UiState { panel_scroll: less(before.panel_scroll, 1), ..before }),
        KeyCode::Down => after == (UiState { panel_scroll: more(before.panel_scroll, 1), ..before }),
        KeyCode::PageUp => after == (UiState {
            panel_scroll: more(before.panel_scroll, 10),
            ..before
        }),
        KeyCode::PageDown => after == (UiState {
            panel_scroll: less(before.panel_scroll, 10),
            ..before
        }),
        _ => after == before,
    }
}

/// Handles a key in the panels for the status and for help.
pub fn handle_panel_key(ui: &mut UiState, code: KeyCode)
    ensures
        panel_pressed(*old(ui), *final(ui), code),
{
    match code {
        KeyCode::Esc => {
            ui.mode = Mode::Chat;
            ui.input.buffer = String::new();
            assert(ui.input.buffer@ =~= Seq::<char>::empty());
            ui.input.cursor = 0;
            ui.panel_scroll = 0;
        },
        KeyCode::Up => {
            ui.panel_scroll = ui.panel_scroll.saturating_sub(1);
        },
        KeyCode::Down => {
            ui.panel_scroll = ui.panel_scroll.saturating_add(1);
        },
        KeyCode::PageUp => {
            ui.panel_scroll = ui.panel_scroll.saturating_add(10);
        },
        KeyCode::PageDown => {
            ui.panel_scroll = ui.panel_scroll.saturating_sub(10);
        },
        _ => {},
    }
}

// ---------------------------------------------------------------------------------------------
// Approval
// ---------------------------------------------------------------------------------------------
/// What a key says of the call that waits: whether it may run, and whether its tool may always.
pub open spec fn approval(key: Key) -> Option<(bool, bool)> {
    match key.code {
        KeyCode::Enter => Some((true, key.shift)),
        KeyCode::BackTab => Some((true, true)),
        KeyCode::Char('y') => Some((true, true)),
        KeyCode::Esc => Some((false, false)),
        _ => None,
    }
}

/// Whether a key was handled where a call waits for approval; what is then asked for is `r`.
pub open spec fn approval_pressed(before: UiState, after: UiState, key: Key, r: Effect) -> bool {
    match approval(key) {
        Some((approved, remember)) => r == (Effect::Approve { approved, remember }) && after == (
        UiState { mode: Mode::Chat, ..before }),
        None => r is Nothing && after == before,
    }
}

/// Handles a key where a call waits for approval.
pub fn handle_approve_key(ui: &mut UiState, key: Key) -> (r: Effect)
    ensures
        approval_pressed(*old(ui), *final(ui), key, r),
{
    let (approved, remember) = match key.code {
        KeyCode::Enter => (true, key.shift),
        KeyCode::BackTab => (true, true),
        KeyCode::Char(c) => {
            if c == 'y' {
                (true, true)
            } else {
                return Effect::Nothing;
            }
        },
        KeyCode::Esc => (false, false),
        _ => return Effect::Nothing,
    };
    ui.mode = Mode::Chat;
    Effect::Approve { approved, remember }
}

// ---------------------------------------------------------------------------------------------
// Lists
// ---------------------------------------------------------------------------------------------
/// An item of a list without whether it is in force.
pub open spec fn item_name(item: Seq<char>) -> Seq<char> {
    if has_prefix(item, "[on] "@) {
        item.skip(5)
    } else if has_prefix(item, "[off] "@) {
        item.skip(6)
    } else {
        item
    }
}

/// The name that an item of a list begins with.
pub open spec fn named(item: Seq<char>) -> Seq<char> {
    let whole = item_name(item);
    match find_from(whole, " — "@, 0) {
        Some(at) => whole.take(at),
        None => whole,
    }
}

/// An item of a list without whether it is in force.
pub fn selector_item_name(item: &str) -> (r: String)
    ensures
        r@ == item_name(item@),
{
    let chars = text::chars_of(item);
    let total: usize = chars.len();
    proof {
        reveal_strlit("[on] ");
        reveal_strlit("[off] ");
    }
    if text::starts_with(chars.as_slice(), "[on] ") {
        let rest = text::part(chars.as_slice(), 5, total);
        assert(rest@ =~= item@.skip(5));
        text::string_of(rest.as_slice())
    } else if text::starts_with(chars.as_slice(), "[off] ") {
        let rest = text::part(chars.as_slice(), 6, total);
        assert(rest@ =~= item@.skip(6));
        text::string_of(rest.as_slice())
    } else {
        item.to_owned()
    }
}

/// The name that an item of a list begins with.
pub fn name_in_item(item: &str) -> (r: String)
    ensures
        r@ == named(item@),
{
    let whole = selector_item_name(item);
    let chars = text::chars_of(whole.as_str());
    let dash = text::chars_of(" — ");
    match text::find(chars.as_slice(), dash.as_slice(), 0) {
        Some(at) => {
            let head = text::part(chars.as_slice(), 0, at);
            assert(head@ =~= whole@.take(at as int));
            text::string_of(head.as_slice())
        },
        None => whole,
    }
}

/// The item of a list that is selected.
pub open spec fn selected_item(selector: Selector) -> Option<Seq<char>> {
    if selector.selected < selector.items@.len() {
        Some(selector.items@[selector.selected as int]@)
    } else {
        None
    }
}

/// Whether the rest of the display is as it was.
pub open spec fn only_selector(before: UiState, after: UiState) -> bool {
    after == (UiState { selector: after.selector, mode: after.mode, ..before })
}

/// Whether a key was handled in a list; what is then asked for is `r`.
pub open spec fn selector_pressed(before: UiState, after: UiState, code: KeyCode, r: Effect) -> bool {
    &&& only_selector(before, after)
    &&& match before.selector {
        None => r is Nothing && after.mode == Mode::Chat && after.selector is None,
        Some(selector) => match code {
            KeyCode::Up => {
                &&& r is Nothing
                &&& after.mode == before.mode
                &&& after.selector == Some(
                    if selector.items@.len() == 0 {
                        selector
                    } else {
                        Selector {
                            selected: ((selector.selected + selector.items@.len() - 1)
                                % selector.items@.len() as int) as usize,
                            ..selector
                        }
                    },
                )
            },
            KeyCode::Down => {
                &&& r is Nothing
                &&& after.mode == before.mode
                &&& after.selector == Some(
                    if selector.items@.len() == 0 {
                        selector
                    } else {
                        Selector {
                            selected: ((selector.selected + 1) % selector.items@.len() as int)
                                as usize,
                            ..selector
                        }
                    },
                )
            },
            KeyCode::Tab => {
                &&& after == before
                &&& if (selector.kind == SelectorKind::Rules || selector.kind
                    == SelectorKind::Skills) && selected_item(selector) is Some {
                    r matches Effect::Toggle { kind, name } && kind == selector.kind && name@
                        == named(selected_item(selector)->0)
                } else {
                    r is Nothing
                }
            },
            KeyCode::Enter => {
                &&& after.selector is None
                &&& match selected_item(selector) {
                    Some(item) => after.mode == before.mode && (
                    r matches Effect::Select { kind, item: chosen } && kind == selector.kind
                        && chosen@ == item),
                    None => r is Nothing && after.mode == Mode::Chat,
                }
            },
            KeyCode::Esc => r is Nothing && after.selector is None && after.mode
                == Mode::Chat,
            _ => r is Nothing && after == before,
        },
    }
}

/// Handles a key in a list.
pub fn handle_selector_key(ui: &mut UiState, code: KeyCode) -> (r: Effect)
    ensures
        selector_pressed(*old(ui), *final(ui), code, r),
{
    let mut selector = match ui.selector.take() {
        Some(selector) => selector,
        None => {
            ui.mode = Mode::Chat;
            return Effect::Nothing;
        },
    };
    match code {
        KeyCode::Up => {
            selector.move_up();
            ui.selector = Some(selector);
            Effect::Nothing
        },
        KeyCode::Down => {
            selector.move_down();
            ui.selector = Some(selector);
            Effect::Nothing
        },
        KeyCode::Tab => {
            let mut effect = Effect::Nothing;
            if selector.kind == SelectorKind::Rules || selector.kind == SelectorKind::Skills {
                if let Some(item) = selector.current() {
                    effect = Effect::Toggle { kind: selector.kind, name: name_in_item(item) };
                }
            }
            ui.selector = Some(selector);
            effect
        },
        KeyCode::Enter => {
            if let Some(item) = selector.current() {
                return Effect::Select { kind: selector.kind, item: item.to_owned() };
            }
            ui.mode = Mode::Chat;
            Effect::Nothing
        },
        KeyCode::Esc => {
            ui.mode = Mode::Chat;
            Effect::Nothing
        },
        _ => {
            ui.selector = Some(selector);
            Effect::Nothing
        },
    }
}

/// What an item of a list stands for.
#[derive(Debug)]
pub enum Choice {
    AddModel,
    ListModels,
    SwitchModel(String),
    RemoveModel(String),
    Recall(String),
    Resume(String),
    CancelTask(u64),
    ShowRule(String),
    ShowSkill(String),
    Forget(String),
}

/// A `Choice` with its text as characters.
pub ghost enum ChoiceView {
    AddModel,
    ListModels,
    SwitchModel(Seq<char>),
    RemoveModel(Seq<char>),
    Recall(Seq<char>),
    Resume(Seq<char>),
    CancelTask(u64),
    ShowRule(Seq<char>),
    ShowSkill(Seq<char>),
    Forget(Seq<char>),
}

impl View for Choice {
    type V = ChoiceView;

    open spec fn view(&self) -> ChoiceView {
        match self {
            Choice::AddModel => ChoiceView::AddModel,
            Choice::ListModels => ChoiceView::ListModels,
            Choice::SwitchModel(name) => ChoiceView::SwitchModel(name@),
            Choice::RemoveModel(name) => ChoiceView::RemoveModel(name@),
            Choice::Recall(id) => ChoiceView::Recall(id@),
            Choice::Resume(id) => ChoiceView::Resume(id@),
            Choice::CancelTask(id) => ChoiceView::CancelTask(*id),
            Choice::ShowRule(name) => ChoiceView::ShowRule(name@),
            Choice::ShowSkill(name) => ChoiceView::ShowSkill(name@),
            Choice::Forget(name) => ChoiceView::Forget(name@),
        }
    }
}

/// The word behind the number sign that an item begins with.
pub open spec fn item_word(item: Seq<char>) -> Option<Seq<char>> {
    let parts = words(trim_start_char(item, '#'));
    if parts.len() == 0 {
        None
    } else {
        Some(parts[0])
    }
}

/// The word behind the number sign that an item begins with, or the item.
pub open spec fn item_id(item: Seq<char>) -> Seq<char> {
    match item_word(item) {
        Some(id) => id,
        None => item,
    }
}

/// The number behind the number sign that an item begins with, or none.
pub open spec fn item_number(item: Seq<char>) -> u64 {
    match item_word(item) {
        Some(word) => match unsigned(word, u64::MAX as nat) {
            Some(n) => n as u64,
            None => 0,
        },
        None => 0,
    }
}

/// What an item of a list stands for.
pub open spec fn choice_of(kind: SelectorKind, item: Seq<char>) -> ChoiceView {
    match kind {
        SelectorKind::Models => if item == "+ Add model"@ {
            ChoiceView::AddModel
        } else if item == "− Remove model"@ {
            ChoiceView::ListModels
        } else {
            ChoiceView::SwitchModel(item)
        },
        SelectorKind::RemoveModel => ChoiceView::RemoveModel(item),
        SelectorKind::Remember => ChoiceView::Recall(item_id(item)),
        SelectorKind::History => ChoiceView::Resume(item_id(item)),
        SelectorKind::Tasks => ChoiceView::CancelTask(item_number(item)),
        SelectorKind::Rules => ChoiceView::ShowRule(named(item)),
        SelectorKind::Skills => ChoiceView::ShowSkill(named(item)),
        SelectorKind::Approvals => ChoiceView::Forget(item),
    }
}

/// The word behind the number sign that an item begins with.
fn word_in_item(item: &str) -> (r: Option<String>)
    ensures
        opt_text(r) == item_word(item@),
{
    let chars = text::chars_of(item);
    let rest = text::trimmed_start_char(chars.as_slice(), '#');
    let parts = text::words_of(rest.as_slice());
    assert(rows(parts@).len() == parts@.len());
    if parts.len() == 0 {
        None
    } else {
        assert(rows(parts@)[0] == parts@[0]@);
        Some(text::string_of(parts[0].as_slice()))
    }
}

/// What an item of a list stands for.
pub fn select_enter(kind: SelectorKind, item: &str) -> (r: Choice)
    ensures
        r@ == choice_of(kind, item@),
{
    match kind {
        SelectorKind::Models => {
            if text::same(item, "+ Add model") {
                Choice::AddModel
            } else if text::same(item, "− Remove model") {
                Choice::ListModels
            } else {
                Choice::SwitchModel(item.to_owned())
            }
        },
        SelectorKind::RemoveModel => Choice::RemoveModel(item.to_owned()),
        SelectorKind::Remember => Choice::Recall(
            match word_in_item(item) {
                Some(id) => id,
                None => item.to_owned(),
            },
        ),
        SelectorKind::History => Choice::Resume(
            match word_in_item(item) {
                Some(id) => id,
                None => item.to_owned(),
            },
        ),
        SelectorKind::Tasks => {
            let id: u64 = match word_in_item(item) {
                Some(word) => match text::parse_unsigned(
                    text::chars_of(word.as_str()).as_slice(),
                    u64::MAX,
                ) {
                    Some(n) => n,
                    None => 0,
                },
                None => 0,
            };
            Choice::CancelTask(id)
        },
        SelectorKind::Rules => Choice::ShowRule(name_in_item(item)),
        SelectorKind::Skills => Choice::ShowSkill(name_in_item(item)),
        SelectorKind::Approvals => Choice::Forget(item.to_owned()),
    }
}

/// Shows a remark and a list.
pub fn reopen(ui: &mut UiState, said: &str, selector: Selector)
    ensures
        *final(ui) == (UiState {
            messages: final(ui).messages,
            selector: Some(selector),
            mode: Mode::Selector,
            ..*old(ui)
        }),
        messages_view(final(ui).messages@) == messages_view(old(ui).messages@).push(
            MessageView::System { content: said@ },
        ),
{
    ui.push_system(said);
    ui.selector = Some(selector);
    ui.mode = Mode::Selector;
}

// ---------------------------------------------------------------------------------------------
// The form for a model
// ---------------------------------------------------------------------------------------------
/// The fields of a form as characters.
pub open spec fn form_view(fields: Seq<(String, String)>) -> Seq<(Seq<char>, Seq<char>)> {
    Seq::new(fields.len(), |i: int| (fields[i].0@, fields[i].1@))
}

/// The form for a model, as it is first shown.
pub open spec fn fresh_form() -> Seq<(Seq<char>, Seq<char>)> {
    seq![
        ("name"@, "deepseek-v4-flash"@),
        ("provider"@, "deepseek"@),
        ("base_url"@, "https://api.deepseek.com"@),
        ("api_key"@, Seq::empty()),
    ]
}

/// A form has four fields, and its cursor stands in the active one.
pub open spec fn form_wf(setup: SetupState) -> bool {
    &&& setup.fields@.len() == 4
    &&& setup.active < 4
    &&& setup.cursor <= setup.fields@[setup.active as int].1@.len()
}

/// The form for a model, as it is first shown.
pub fn new_setup() -> (r: SetupState)
    ensures
        form_view(r.fields@) == fresh_form(),
        r.active == 0,
        r.cursor == 0,
        r.error is None,
        form_wf(r),
{
    let mut fields: Vec<(String, String)> = Vec::new();
    fields.push(("name".to_owned(), "deepseek-v4-flash".to_owned()));
    fields.push(("provider".to_owned(), "deepseek".to_owned()));
    fields.push(("base_url".to_owned(), "https://api.deepseek.com".to_owned()));
    let none = String::new();
    assert(none@ =~= Seq::<char>::empty());
    fields.push(("api_key".to_owned(), none));
    assert(form_view(fields@) =~= fresh_form());
    SetupState { fields, active: 0, cursor: 0, error: None }
}

/// Shows the form for a model.
pub fn show_setup(ui: &mut UiState)
    ensures
        *final(ui) == (UiState { mode: Mode::Setup, setup: final(ui).setup, ..*old(ui) }),
        final(ui).setup matches Some(setup) && form_view(setup.fields@) == fresh_form()
            && setup.active == 0 && setup.cursor == 0 && setup.error is None && form_wf(setup),
{
    ui.mode = Mode::Setup;
    ui.setup = Some(new_setup());
}

/// The value of the active field.
pub open spec fn active_value(setup: SetupState) -> Seq<char> {
    setup.fields@[setup.active as int].1@
}

/// Whether only the value of the active field, and what else is named, has changed.
pub open spec fn value_changed(
    before: SetupState,
    after: SetupState,
    value: Seq<char>,
    cursor: int,
) -> bool {
    &&& after.active == before.active
    &&& after.cursor == cursor
    &&& form_view(after.fields@) == form_view(before.fields@).update(
        before.active as int,
        (before.fields@[before.active as int].0@, value),
    )
}

/// Whether another field is active, with the cursor at its end.
pub open spec fn field_changed(before: SetupState, after: SetupState, active: int) -> bool {
    &&& after.fields == before.fields
    &&& after.error == before.error
    &&& after.active == active
    &&& after.cursor == before.fields@[active].1@.len()
}

/// Whether only the cursor has moved.
pub open spec fn cursor_moved(before: SetupState, after: SetupState, cursor: int) -> bool {
    after == (SetupState { cursor: cursor as usize, ..before })
}

/// Whether a key was handled in the form; what is then asked for is `r`.
pub open spec fn form_pressed(before: SetupState, after: SetupState, key: Key, r: Effect) -> bool {
    match key.code {
        KeyCode::Char(c) => if key.control {
            r is Nothing && after == before
        } else {
            &&& r is Nothing
            &&& after.error is None
            &&& value_changed(
                before,
                after,
                active_value(before).insert(before.cursor as int, c),
                before.cursor + 1,
            )
        },
        KeyCode::Left => r is Nothing && cursor_moved(before, after, less(before.cursor, 1) as int),
        KeyCode::Right => r is Nothing && cursor_moved(
            before,
            after,
            if before.cursor < active_value(before).len() {
                before.cursor + 1
            } else {
                before.cursor as int
            },
        ),
        KeyCode::Home => r is Nothing && cursor_moved(before, after, 0),
        KeyCode::End => r is Nothing && cursor_moved(
            before,
            after,
            active_value(before).len() as int,
        ),
        KeyCode::Backspace => {
            &&& r is Nothing
            &&& after.error == before.error
            &&& if before.cursor > 0 {
                value_changed(
                    before,
                    after,
                    active_value(before).remove(before.cursor - 1),
                    before.cursor - 1,
                )
            } else {
                after == before
            }
        },
        KeyCode::Delete => {
            &&& r is Nothing
            &&& after.error == before.error
            &&& if before.cursor < active_value(before).len() {
                value_changed(
                    before,
                    after,
                    active_value(before).remove(before.cursor as int),
                    before.cursor as int,
                )
            } else {
                after == before
            }
        },
        KeyCode::Up => r is Nothing && if before.active > 0 {
            field_changed(before, after, before.active - 1)
        } else {
            after == before
        },
        KeyCode::Down => r is Nothing && if before.active < 3 {
            field_changed(before, after, before.active + 1)
        } else {
            after == before
        },
        KeyCode::Enter => if before.active < 3 {
            r is Nothing && field_changed(before, after, before.active + 1)
        } else if before.fields@[3].1@.len() == 0 {
            &&& r is Nothing
            &&& after == (SetupState { error: after.error, ..before })
            &&& after.error matches Some(error) && error@ == "api key must not be empty"@
        } else {
            &&& after == before
            &&& r matches Effect::AddModel { name, kind, base_url, api_key } && name@
                == before.fields@[0].1@ && kind@ == before.fields@[1].1@ && base_url@
                == before.fields@[2].1@ && api_key@ == before.fields@[3].1@
        },
        _ => r is Nothing && after == before,
    }
}

/// Changes the value of the active field.
fn set_active(setup: &mut SetupState, chars: &Vec<char>, cursor: usize)
    requires
        form_wf(*old(setup)),
        cursor <= chars@.len(),
    ensures
        value_changed(*old(setup), *final(setup), chars@, cursor as int),
        final(setup).error == old(setup).error,
        form_wf(*final(setup)),
{
    let at: usize = setup.active;
    let ghost before = form_view(setup.fields@);
    setup.fields[at].1 = text::string_of(chars.as_slice());
    setup.cursor = cursor;
    assert(form_view(setup.fields@) =~= before.update(
        at as int,
        (old(setup).fields@[at as int].0@, chars@),
    ));
}

/// Handles a key in the form.
fn press_form(setup: &mut SetupState, key: Key) -> (r: Effect)
    requires
        form_wf(*old(setup)),
        active_value(*old(setup)).len() < usize::MAX,
        key.code != KeyCode::Esc,
    ensures
        form_wf(*final(setup)),
        form_pressed(*old(setup), *final(setup), key, r),
{
    let mut chars = text::chars_of(setup.fields[setup.active].1.as_str());
    match key.code {
        KeyCode::Char(c) => {
            if !key.control {
                let at: usize = setup.cursor;
                chars.insert(at, c);
                set_active(setup, &chars, at + 1);
                setup.error = None;
            }
        },
        KeyCode::Left => {
            setup.cursor = setup.cursor.saturating_sub(1);
        },
        KeyCode::Right => {
            if setup.cursor < chars.len() {
                setup.cursor = setup.cursor + 1;
            }
        },
        KeyCode::Home => {
            setup.cursor = 0;
        },
        KeyCode::End => {
            setup.cursor = chars.len();
        },
        KeyCode::Backspace => {
            if setup.cursor > 0 {
                let at: usize = setup.cursor - 1;
                let _ = chars.remove(at);
                set_active(setup, &chars, at);
            }
        },
        KeyCode::Delete => {
            if setup.cursor < chars.len() {
                let at: usize = setup.cursor;
                let _ = chars.remove(at);
                set_active(setup, &chars, at);
            }
        },
        KeyCode::Up => {
            if setup.active > 0 {
                setup.active = setup.active - 1;
                setup.cursor = text::chars_of(setup.fields[setup.active].1.as_str()).len();
            }
        },
        KeyCode::Down => {
            if setup.active < 3 {
                setup.active = setup.active + 1;
                setup.cursor = text::chars_of(setup.fields[setup.active].1.as_str()).len();
            }
        },
        KeyCode::Enter => {
            if setup.active < 3 {
                setup.active = setup.active + 1;
                setup.cursor = text::chars_of(setup.fields[setup.active].1.as_str()).len();
            } else if setup.fields[3].1.as_str().is_empty() {
                setup.error = Some("api key must not be empty".to_owned());
            } else {
                return Effect::AddModel {
                    name: setup.fields[0].1.clone(),
                    kind: setup.fields[1].1.clone(),
                    base_url: setup.fields[2].1.clone(),
                    api_key: setup.fields[3].1.clone(),
                };
            }
        },
        _ => {},
    }
    Effect::Nothing
}

/// Whether a key was handled in the form for a model; what is then asked for is `r`.
pub open spec fn setup_pressed(before: UiState, after: UiState, key: Key, r: Effect) -> bool {
    match before.setup {
        None => r is Nothing && after == (UiState { mode: Mode::Chat, ..before }),
        Some(setup) => if key.code == KeyCode::Esc {
            r is Nothing && after == (UiState {
                setup: None,
                mode: Mode::Chat,
                ..before
            })
        } else {
            &&& after == (UiState { setup: after.setup, ..before })
            &&& after.setup matches Some(now) && form_pressed(setup, now, key, r)
        },
    }
}

/// Handles a key in the form for a model.
pub fn handle_setup_key(ui: &mut UiState, key: Key) -> (r: Effect)
    requires
        old(ui).setup matches Some(setup) ==> form_wf(setup) && active_value(setup).len()
            < usize::MAX,
    ensures
        final(ui).setup matches Some(setup) ==> form_wf(setup),
        setup_pressed(*old(ui), *final(ui), key, r),
{
    let mut setup = match ui.setup.take() {
        Some(setup) => setup,
        None => {
            ui.mode = Mode::Chat;
            return Effect::Nothing;
        },
    };
    match key.code {
        KeyCode::Esc => {
            ui.mode = Mode::Chat;
            Effect::Nothing
        },
        _ => {
            let effect = press_form(&mut setup, key);
            ui.setup = Some(setup);
            effect
        },
    }
}

/// Takes in whether the model of the form was added.
pub fn finish_setup(ui: &mut UiState, outcome: Result<&str, &str>)
    ensures
        match outcome {
            Ok(said) => {
                &&& *final(ui) == (UiState {
                    messages: final(ui).messages,
                    setup: None,
                    mode: Mode::Chat,
                    ..*old(ui)
                })
                &&& messages_view(final(ui).messages@) == messages_view(old(ui).messages@).push(
                    MessageView::System { content: said@ },
                )
            },
            Err(error) => match old(ui).setup {
                Some(setup) => {
                    &&& *final(ui) == (UiState { setup: final(ui).setup, ..*old(ui) })
                    &&& final(ui).setup matches Some(after) && after == (SetupState {
                        error: after.error,
                        ..setup
                    }) && (after.error matches Some(shown) && shown@ == error@)
                },
                None => *final(ui) == *old(ui),
            },
        },
{
    match outcome {
        Ok(said) => {
            ui.push_system(said);
            ui.setup = None;
            ui.mode = Mode::Chat;
        },
        Err(error) => {
            if let Some(setup) = ui.setup.take() {
                let mut setup = setup;
                setup.error = Some(error.to_owned());
                ui.setup = Some(setup);
            }
        },
    }
}

// ---------------------------------------------------------------------------------------------
// Chat
// ---------------------------------------------------------------------------------------------
/// Whether the input line holds a command.
pub open spec fn is_command(input: Seq<char>) -> bool {
    input.len() > 0 && input[0] == '/'
}

/// The mode for an input line.
pub open spec fn mode_for(input: Seq<char>) -> Mode {
    if is_command(input) {
        Mode::Command
    } else {
        Mode::Chat
    }
}

/// The command that an input line begins, without its slashes.
pub open spec fn filter_of(input: Seq<char>) -> Seq<char> {
    trim_start_char(input, '/')
}

/// Whether the input line was emptied.
pub open spec fn emptied(before: InputState, after: InputState) -> bool {
    after == (InputState { buffer: after.buffer, cursor: 0, ..before }) && after.buffer@.len() == 0
}

/// Whether the rest of the display is as it was but for the input line and the mode.
pub open spec fn only_input(before: UiState, after: UiState) -> bool {
    after == (UiState { input: after.input, mode: after.mode, ..before })
}

/// Whether the input line was sent; what is then asked for is `r`.
pub open spec fn input_sent(before: UiState, after: UiState, r: Effect) -> bool {
    let said = trim(before.input.buffer@);
    if said.len() == 0 {
        r is Nothing && after == before
    } else {
        let line = after.input;
        &&& line == (InputState {
            buffer: line.buffer,
            cursor: 0,
            history: line.history,
            history_index: None,
            pending_submit: line.pending_submit,
            ..before.input
        })
        &&& line.buffer@.len() == 0
        &&& views(line.history@) == remembered(views(before.input.history@), said)
        &&& if is_command(said) {
            &&& r is Nothing
            &&& line.pending_submit == before.input.pending_submit
            &&& after == (UiState { input: line, ..before })
        } else if before.streaming is Some {
            &&& r is Nothing
            &&& views(line.pending_submit@) == views(before.input.pending_submit@).push(said)
            &&& after == (UiState { input: line, ..before })
        } else {
            &&& r matches Effect::Submit(sent) && sent@ == said
            &&& line.pending_submit == before.input.pending_submit
            &&& after == (UiState { input: line, cancelled: false, ..before })
        }
    }
}

/// Sends the input line. While an answer is coming in, it waits.
pub fn submit_input(ui: &mut UiState) -> (r: Effect)
    ensures
        input_sent(*old(ui), *final(ui), r),
        old(ui).input.wf() ==> final(ui).input.wf(),
{
    let said = match input::commit(&mut ui.input) {
        Some(said) => said,
        None => return Effect::Nothing,
    };
    if text::starts_with(text::chars_of(said.as_str()).as_slice(), "/") {
        proof {
            slash_first(said@);
        }
        return Effect::Nothing;
    }
    proof {
        slash_first(said@);
    }
    if ui.is_generating() {
        let ghost before = views(ui.input.pending_submit@);
        ui.input.pending_submit.push(said);
        assert(views(ui.input.pending_submit@) =~= before.push(said@));
        return Effect::Nothing;
    }
    ui.cancelled = false;
    Effect::Submit(said)
}

/// A text begins with a slash if and only if its first character is one.
proof fn slash_first(s: Seq<char>)
    ensures
        has_prefix(s, "/"@) == is_command(s),
{
    reveal_strlit("/");
    if s.len() > 0 {
        assert(s.take(1)[0] == s[0]);
        if s[0] == '/' {
            assert(s.take(1) =~= "/"@);
        }
    }
}

/// Takes the text that waits longest, to be sent now.
pub fn flush_pending(ui: &mut UiState) -> (r: Option<String>)
    ensures
        old(ui).input.pending_submit@.len() == 0 ==> r is None && *final(ui) == *old(ui),
        old(ui).input.pending_submit@.len() > 0 ==> {
            &&& opt_text(r) == Some(old(ui).input.pending_submit@[0]@)
            &&& *final(ui) == (UiState {
                input: InputState {
                    pending_submit: final(ui).input.pending_submit,
                    ..old(ui).input
                },
                ..*old(ui)
            })
            &&& final(ui).input.pending_submit@ == old(ui).input.pending_submit@.skip(1)
        },
{
    if ui.input.pending_submit.len() == 0 {
        return None;
    }
    let next = ui.input.pending_submit.remove(0);
    assert(ui.input.pending_submit@ =~= old(ui).input.pending_submit@.skip(1));
    Some(next)
}

/// What Enter does where the input line holds a command.
pub open spec fn command_entered(before: UiState, after: UiState, r: Effect) -> bool {
    let filter = filter_of(before.input.buffer@);
    let found = commands_for(lowercase(filter));
    match resume_id(filter) {
        Some(id) => {
            &&& r matches Effect::Resume(named) && named@ == id
            &&& only_input(before, after)
            &&& emptied(before.input, after.input)
            &&& after.mode == Mode::Chat
        },
        None => if found.len() > 0 {
            &&& r matches Effect::Run(name) && name@ == found[before.input.command_selection as int
                % found.len() as int].name
            &&& after == before
        } else {
            input_sent(before, after, r)
        },
    }
}

/// What Enter does where the input line holds a command.
fn enter_command(ui: &mut UiState) -> (r: Effect)
    ensures
        command_entered(*old(ui), *final(ui), r),
        old(ui).input.wf() ==> final(ui).input.wf(),
{
    let chars = text::chars_of(ui.input.buffer.as_str());
    let rest = text::trimmed_start_char(chars.as_slice(), '/');
    let filter = text::string_of(rest.as_slice());
    if let Some(id) = commands::resume_arg(filter.as_str()) {
        clear_input(ui);
        ui.mode = Mode::Chat;
        return Effect::Resume(id);
    }
    let found = commands::filtered(filter.as_str());
    assert(commands_view(found@).len() == found@.len());
    if found.len() > 0 {
        let at: usize = ui.input.command_selection % found.len();
        assert(commands_view(found@)[at as int].name == found@[at as int].0@);
        return Effect::Run(found[at].0.clone());
    }
    submit_input(ui)
}

/// Empties the input line.
fn clear_input(ui: &mut UiState)
    ensures
        *final(ui) == (UiState { input: final(ui).input, ..*old(ui) }),
        emptied(old(ui).input, final(ui).input),
{
    ui.input.buffer = String::new();
    assert(ui.input.buffer@ =~= Seq::<char>::empty());
    ui.input.cursor = 0;
}

/// Whether another command is selected.
pub open spec fn selection_moved(before: UiState, after: UiState, by: int) -> bool {
    let count = commands_for(lowercase(filter_of(before.input.buffer@))).len();
    if count == 0 {
        after == before
    } else {
        after == (UiState {
            input: InputState {
                command_selection: ((before.input.command_selection + by + count) % count as int)
                    as usize,
                ..before.input
            },
            ..before
        })
    }
}

/// The commands that the input line begins.
fn commands_found(ui: &UiState) -> (r: Vec<(String, String)>)
    ensures
        commands_view(r@) == commands_for(lowercase(filter_of(ui.input.buffer@))),
{
    let chars = text::chars_of(ui.input.buffer.as_str());
    let rest = text::trimmed_start_char(chars.as_slice(), '/');
    commands::filtered(text::string_of(rest.as_slice()).as_str())
}

/// Selects the command above, or the last one from the first.
fn command_up(ui: &mut UiState)
    ensures
        selection_moved(*old(ui), *final(ui), -1),
{
    let found = commands_found(ui);
    let count: usize = found.len();
    assert(commands_view(found@).len() == count);
    if count > 0 {
        let at: usize = ui.input.command_selection % count;
        proof {
            wrapping_up(ui.input.command_selection as int, count as int);
        }
        ui.input.command_selection = if at == 0 {
            count - 1
        } else {
            at - 1
        };
    }
}

/// Selects the command below, or the first one from the last.
fn command_down(ui: &mut UiState)
    ensures
        selection_moved(*old(ui), *final(ui), 1),
{
    let found = commands_found(ui);
    let count: usize = found.len();
    assert(commands_view(found@).len() == count);
    if count > 0 {
        let at: usize = ui.input.command_selection % count;
        proof {
            wrapping_down(ui.input.command_selection as int, count as int);
        }
        ui.input.command_selection = if at == count - 1 {
            0
        } else {
            at + 1
        };
    }
}

proof fn wrapping_up(s: int, m: int)
    requires
        0 <= s,
        0 < m,
    ensures
        (s - 1 + m) % m == if s % m == 0 {
            m - 1
        } else {
            s % m - 1
        },
{
    lemma_fundamental_div_mod(s, m);
    assert(m * (s / m) == (s / m) * m) by (nonlinear_arith);
    if s % m == 0 {
        lemma_fundamental_div_mod_converse(s - 1 + m, m, s / m, m - 1);
    } else {
        assert((s / m + 1) * m == (s / m) * m + m) by (nonlinear_arith);
        lemma_fundamental_div_mod_converse(s - 1 + m, m, s / m + 1, s % m - 1);
    }
}

proof fn wrapping_down(s: int, m: int)
    requires
        0 <= s,
        0 < m,
    ensures
        (s + 1 + m) % m == if s % m == m - 1 {
            0
        } else {
            s % m + 1
        },
{
    lemma_fundamental_div_mod(s, m);
    assert(m * (s / m) == (s / m) * m) by (nonlinear_arith);
    assert((s / m + 1) * m == (s / m) * m + m) by (nonlinear_arith);
    if s % m == m - 1 {
        assert((s / m + 2) * m == (s / m) * m + m + m) by (nonlinear_arith);
        lemma_fundamental_div_mod_converse(s + 1 + m, m, s / m + 2, 0);
    } else {
        lemma_fundamental_div_mod_converse(s + 1 + m, m, s / m + 1, s % m + 1);
    }
}

/// Whether the input line was edited so that it holds a text, with the cursor at a place.
pub open spec fn line_edited(before: UiState, after: UiState, input: Seq<char>, cursor: int) -> bool {
    &&& after == (UiState {
        input: InputState { buffer: after.input.buffer, cursor: cursor as usize, ..before.input },
        mode: mode_for(input),
        ..before
    })
    &&& after.input.buffer@ == input
}

/// Whether a key was handled in the chat; what is then asked for is `r`.
pub open spec fn chat_pressed(before: UiState, after: UiState, key: Key, now: u64, r: Effect) -> bool {
    let line = before.input;
    let command = is_command(line.buffer@);
    match key.code {
        KeyCode::Char(c) => r is Nothing && line_edited(
            before,
            after,
            typed(line.buffer@, line.cursor, seq![c]),
            line.cursor + 1,
        ),
        KeyCode::Enter => if key.shift || key.alt {
            &&& r is Nothing
            &&& after == (UiState {
                input: InputState {
                    buffer: after.input.buffer,
                    cursor: (line.cursor + 1) as usize,
                    ..line
                },
                ..before
            })
            &&& after.input.buffer@ == typed(line.buffer@, line.cursor, seq!['\n'])
        } else if command {
            command_entered(before, after, r)
        } else {
            input_sent(before, after, r)
        },
        KeyCode::Tab => if command {
            let found = commands_for(lowercase(filter_of(line.buffer@)));
            &&& r is Nothing
            &&& if found.len() == 0 {
                after == before
            } else {
                &&& after == (UiState {
                    input: InputState {
                        buffer: after.input.buffer,
                        cursor: (found[0].name.len() + 1) as usize,
                        ..line
                    },
                    ..before
                })
                &&& after.input.buffer@ == "/"@ + found[0].name
            }
        } else {
            r is Nothing && after == (UiState { fold_expanded: !before.fold_expanded, ..before })
        },
        KeyCode::Up => r is Nothing && if command {
            selection_moved(before, after, -1)
        } else {
            &&& after == (UiState { input: after.input, ..before })
            &&& if line.history@.len() == 0 {
                after.input == line
            } else {
                let i = previous_index(line.history_index, line.history@.len());
                &&& after.input == (InputState {
                    buffer: after.input.buffer,
                    cursor: after.input.cursor,
                    history_index: Some(i as usize),
                    ..line
                })
                &&& after.input.buffer@ == line.history@[i]@
                &&& after.input.cursor == after.input.buffer@.len()
            }
        },
        KeyCode::Down => r is Nothing && if command {
            selection_moved(before, after, 1)
        } else {
            &&& after == (UiState { input: after.input, ..before })
            &&& match line.history_index {
                None => after.input == line,
                Some(i) => {
                    &&& after.input == (InputState {
                        buffer: after.input.buffer,
                        cursor: after.input.cursor,
                        history_index: if i + 1 < line.history@.len() {
                            Some((i + 1) as usize)
                        } else {
                            None
                        },
                        ..line
                    })
                    &&& after.input.cursor == after.input.buffer@.len()
                    &&& after.input.buffer@ == if i + 1 < line.history@.len() {
                        line.history@[i + 1]@
                    } else {
                        Seq::empty()
                    }
                },
            }
        },
        KeyCode::Left => r is Nothing && after == (UiState {
            input: InputState { cursor: less(line.cursor, 1), ..line },
            ..before
        }),
        KeyCode::Right => r is Nothing && after == (UiState {
            input: InputState {
                cursor: if line.cursor < line.buffer@.len() {
                    (line.cursor + 1) as usize
                } else {
                    line.cursor
                },
                ..line
            },
            ..before
        }),
        KeyCode::Home => r is Nothing && after == (UiState {
            input: InputState { cursor: 0, ..line },
            ..before
        }),
        KeyCode::End => {
            &&& r is Nothing
            &&& after == (UiState {
                input: InputState { cursor: after.input.cursor, ..line },
                ..before
            })
            &&& after.input.cursor == line.buffer@.len()
        },
        KeyCode::Backspace => r is Nothing && line_edited(
            before,
            after,
            erased(line.buffer@, line.cursor),
            less(line.cursor, 1) as int,
        ),
        KeyCode::Delete => r is Nothing && line_edited(
            before,
            after,
            if line.cursor < line.buffer@.len() {
                line.buffer@.remove(line.cursor as int)
            } else {
                line.buffer@
            },
            line.cursor as int,
        ),
        KeyCode::PageUp => r is Nothing && after == (UiState {
            scroll_offset: more(before.scroll_offset, 10),
            ..before
        }),
        KeyCode::PageDown => r is Nothing && after == (UiState {
            scroll_offset: less(before.scroll_offset, 10),
            ..before
        }),
        KeyCode::Esc => if command {
            &&& r is Nothing
            &&& only_input(before, after)
            &&& emptied(line, after.input)
            &&& after.mode == Mode::Chat
        } else if before.streaming is Some {
            r is CancelGeneration && broken_off(before, after)
        } else {
            tools_stopped(before, after, now, r)
        },
        _ => r is Nothing && after == before,
    }
}

/// Whether the calls that are running were cancelled; what is then asked for is `r`. If none is,
/// nothing happens.
pub open spec fn tools_stopped(before: UiState, after: UiState, now: u64, r: Effect) -> bool {
    let calls = running(messages_view(before.messages@), before.messages@.len() as int);
    if calls.len() == 0 {
        r is Nothing && after == before
    } else {
        &&& r matches Effect::CancelTools(stopped) && pairs_view(stopped@) == calls
        &&& after == (UiState {
            messages: after.messages,
            pending_tool_calls: after.pending_tool_calls,
            ..before
        })
        &&& after.pending_tool_calls@.len() == 0
        &&& messages_view(after.messages@) == after_cancelling(
            messages_view(before.messages@),
            before.last_tool_index,
            calls,
            now,
            calls.len() as int,
        ).push(MessageView::System { content: "(tool calls cancelled)"@ })
    }
}

/// Cancels the calls that are running, if there are any.
fn stop_tools(ui: &mut UiState, now: u64) -> (r: Effect)
    ensures
        tools_stopped(*old(ui), *final(ui), now, r),
{
    let calls = cancel_running_tools(ui, now);
    assert(pairs_view(calls@).len() == calls@.len());
    if calls.len() == 0 {
        Effect::Nothing
    } else {
        Effect::CancelTools(calls)
    }
}

/// Whether the input line holds a command.
fn begins_command(ui: &UiState) -> (r: bool)
    ensures
        r == is_command(ui.input.buffer@),
{
    let chars = text::chars_of(ui.input.buffer.as_str());
    chars.len() > 0 && chars[0] == '/'
}

/// The mode for the input line.
fn line_mode(ui: &UiState) -> (r: Mode)
    ensures
        r == mode_for(ui.input.buffer@),
{
    if begins_command(ui) {
        Mode::Command
    } else {
        Mode::Chat
    }
}

/// Completes the command that the input line begins.
fn complete_command(ui: &mut UiState)
    ensures
        ({
            let found = commands_for(lowercase(filter_of(old(ui).input.buffer@)));
            if found.len() == 0 {
                *final(ui) == *old(ui)
            } else {
                &&& *final(ui) == (UiState {
                    input: InputState {
                        buffer: final(ui).input.buffer,
                        cursor: (found[0].name.len() + 1) as usize,
                        ..old(ui).input
                    },
                    ..*old(ui)
                })
                &&& final(ui).input.buffer@ == "/"@ + found[0].name
            }
        }),
        old(ui).input.wf() ==> final(ui).input.wf(),
{
    let found = commands_found(ui);
    assert(commands_view(found@).len() == found@.len());
    if found.len() > 0 {
        assert(commands_view(found@)[0].name == found@[0].0@);
        ui.input.buffer = text::glue("/", found[0].0.as_str());
        let count: usize = text::chars_of(ui.input.buffer.as_str()).len();
        proof {
            reveal_strlit("/");
            assert(count == found@[0].0@.len() + 1);
        }
        ui.input.cursor = count;
    }
}

/// Handles a key in the chat.
pub fn handle_chat_key(ui: &mut UiState, key: Key, now: u64) -> (r: Effect)
    requires
        old(ui).input.wf(),
        old(ui).input.cursor < usize::MAX,
    ensures
        chat_pressed(*old(ui), *final(ui), key, now, r),
        final(ui).input.wf(),
{
    let command = begins_command(ui);
    match key.code {
        KeyCode::Char(c) => {
            input::insert_char(&mut ui.input, c);
            ui.mode = line_mode(ui);
            Effect::Nothing
        },
        KeyCode::Enter => {
            if key.shift || key.alt {
                input::newline(&mut ui.input);
                Effect::Nothing
            } else if command {
                enter_command(ui)
            } else {
                submit_input(ui)
            }
        },
        KeyCode::Tab => {
            if command {
                complete_command(ui);
            } else {
                ui.fold_expanded = !ui.fold_expanded;
            }
            Effect::Nothing
        },
        KeyCode::Up => {
            if command {
                command_up(ui);
            } else {
                input::history_previous(&mut ui.input);
            }
            Effect::Nothing
        },
        KeyCode::Down => {
            if command {
                command_down(ui);
            } else {
                input::history_next(&mut ui.input);
            }
            Effect::Nothing
        },
        KeyCode::Left => {
            input::move_left(&mut ui.input);
            Effect::Nothing
        },
        KeyCode::Right => {
            input::move_right(&mut ui.input);
            Effect::Nothing
        },
        KeyCode::Home => {
            input::move_home(&mut ui.input);
            Effect::Nothing
        },
        KeyCode::End => {
            input::move_end(&mut ui.input);
            Effect::Nothing
        },
        KeyCode::Backspace => {
            input::backspace(&mut ui.input);
            ui.mode = line_mode(ui);
            Effect::Nothing
        },
        KeyCode::Delete => {
            input::delete_char(&mut ui.input);
            ui.mode = line_mode(ui);
            Effect::Nothing
        },
        KeyCode::PageUp => {
            ui.scroll_offset = ui.scroll_offset.saturating_add(10);
            Effect::Nothing
        },
        KeyCode::PageDown => {
            ui.scroll_offset = ui.scroll_offset.saturating_sub(10);
            Effect::Nothing
        },
        KeyCode::Esc => {
            if command {
                clear_input(ui);
                ui.mode = Mode::Chat;
                Effect::Nothing
            } else if ui.is_generating() {
                break_off(ui);
                Effect::CancelGeneration
            } else {
                stop_tools(ui, now)
            }
        },
        _ => Effect::Nothing,
    }
}

// ---------------------------------------------------------------------------------------------
// All keys
// ---------------------------------------------------------------------------------------------
/// Whether a key was handled; what is then asked for is `r`.
pub open spec fn pressed(before: UiState, after: UiState, key: Key, now: u64, r: Effect) -> bool {
    if key.control && key.code == KeyCode::Char('d') {
        r is Quit && after == before
    } else if key.control && key.code == KeyCode::Char('c') {
        let calls = running(messages_view(before.messages@), before.messages@.len() as int);
        if before.streaming is Some {
            r is CancelGeneration && broken_off(before, after)
        } else if calls.len() > 0 {
            tools_stopped(before, after, now, r)
        } else {
            r is Quit && after == before
        }
    } else {
        match before.mode {
            Mode::Status => r is Nothing && panel_pressed(before, after, key.code),
            Mode::Help => r is Nothing && panel_pressed(before, after, key.code),
            Mode::Chat => chat_pressed(before, after, key, now, r),
            Mode::Command => chat_pressed(before, after, key, now, r),
            Mode::Approve => approval_pressed(before, after, key, r),
            Mode::Selector => selector_pressed(before, after, key.code, r),
            Mode::Setup => setup_pressed(before, after, key, r),
        }
    }
}

/// Handles a key.
pub fn handle_key(ui: &mut UiState, key: Key, now: u64) -> (r: Effect)
    requires
        old(ui).input.wf(),
        old(ui).input.cursor < usize::MAX,
        old(ui).setup matches Some(setup) ==> form_wf(setup) && active_value(setup).len()
            < usize::MAX,
    ensures
        pressed(*old(ui), *final(ui), key, now, r),
        final(ui).input.wf(),
        final(ui).setup matches Some(setup) ==> form_wf(setup),
{
    if key.control {
        if let KeyCode::Char(c) = key.code {
            if c == 'd' {
                return Effect::Quit;
            }
            if c == 'c' {
                if ui.is_generating() {
                    break_off(ui);
                    return Effect::CancelGeneration;
                }
                let effect = stop_tools(ui, now);
                return match effect {
                    Effect::Nothing => Effect::Quit,
                    other => other,
                };
            }
        }
    }
    match ui.mode {
        Mode::Approve => handle_approve_key(ui, key),
        Mode::Selector => handle_selector_key(ui, key.code),
        Mode::Status => {
            handle_panel_key(ui, key.code);
            Effect::Nothing
        },
        Mode::Help => {
            handle_panel_key(ui, key.code);
            Effect::Nothing
        },
        Mode::Setup => handle_setup_key(ui, key),
        Mode::Chat => handle_chat_key(ui, key, now),
        Mode::Command => handle_chat_key(ui, key, now),
    }
}

/// Why a command is not carried out, if it is not: it is unknown, or the agent is busy and cannot take
/// it in. To compress the conversation can wait.
pub open spec fn command_refusal(name: Seq<char>, busy: bool) -> Option<Seq<char>> {
    match action_of(name) {
        Some(action) => if busy && !(action is Compact) {
            Some("(busy: a tool is running, retry the command)"@)
        } else {
            None
        },
        None => Some("unknown command: /"@ + name),
    }
}

/// What a command does to the display, and what is left to do; nothing is left of one that is not
/// carried out.
pub fn run_command(ui: &mut UiState, name: &str, busy: bool) -> (r: Option<Action>)
    ensures
        emptied(old(ui).input, final(ui).input),
        match command_refusal(name@, busy) {
            None => {
                &&& r matches Some(found) && action_of(name@) == Some(found@)
                &&& *final(ui) == (UiState {
                    input: final(ui).input,
                    mode: if action_of(name@)->0 is Compact {
                        Mode::Chat
                    } else {
                        old(ui).mode
                    },
                    ..*old(ui)
                })
            },
            Some(refusal) => {
                &&& r is None
                &&& *final(ui) == (UiState {
                    input: final(ui).input,
                    messages: final(ui).messages,
                    ..*old(ui)
                })
                &&& messages_view(final(ui).messages@) == messages_view(old(ui).messages@).push(
                    MessageView::System { content: refusal },
                )
            },
        },
{
    clear_input(ui);
    match commands::execute(name) {
        Some(action) => {
            if let Action::Compact = action {
                ui.mode = Mode::Chat;
            } else if busy {
                ui.push_system("(busy: a tool is running, retry the command)");
                return None;
            }
            Some(action)
        },
        None => {
            ui.push_system(text::glue("unknown command: /", name).as_str());
            None
        },
    }
}

/// The last thing that the assistant said.
pub open spec fn last_said(messages: Seq<MessageView>, n: int) -> Option<Seq<char>>
    decreases n,
{
    if n <= 0 {
        None
    } else {
        match messages[n - 1] {
            MessageView::Assistant { content, .. } => if content.len() > 0 {
                Some(content)
            } else {
                last_said(messages, n - 1)
            },
            _ => last_said(messages, n - 1),
        }
    }
}

/// The last thing that the assistant said.
pub fn assistant_text(ui: &UiState) -> (r: Option<String>)
    ensures
        opt_text(r) == last_said(messages_view(ui.messages@), ui.messages@.len() as int),
{
    let ghost all = messages_view(ui.messages@);
    let mut n: usize = ui.messages.len();
    while n > 0
        invariant
            n <= ui.messages@.len(),
            all == messages_view(ui.messages@),
            last_said(all, ui.messages@.len() as int) == last_said(all, n as int),
        decreases n,
    {
        assert(all[n - 1] == ui.messages@[n - 1]@);
        if let UiMessage::Assistant { content, .. } = &ui.messages[n - 1] {
            if !content.as_str().is_empty() {
                return Some(content.clone());
            }
        }
        n -= 1;
    }
    None
}

/// The title of the terminal.
pub fn format_title(display: &str, model: &str) -> (r: String)
    ensures
        r@ == if model@.len() == 0 {
            "✦ "@ + display@
        } else {
            "✦ "@ + display@ + " · "@ + model@
        },
{
    if model.is_empty() {
        text::glue("✦ ", display)
    } else {
        let mut title = text::glue3("✦ ", display, " · ");
        title.append(model);
        title
    }
}

/// Takes the call that waits longest, if the chat is in front and no answer is coming in.
pub fn next_pending_call(ui: &mut UiState) -> (r: Option<PendingCall>)
    ensures
        ({
            let ready = old(ui).mode == Mode::Chat && old(ui).streaming is None
                && old(ui).pending_tool_calls@.len() > 0;
            &&& !ready ==> r is None && *final(ui) == *old(ui)
            &&& ready ==> r == Some(old(ui).pending_tool_calls@[0]) && *final(ui) == (UiState {
                pending_tool_calls: final(ui).pending_tool_calls,
                ..*old(ui)
            }) && final(ui).pending_tool_calls@ == old(ui).pending_tool_calls@.skip(1)
        }),
{
    match ui.mode {
        Mode::Chat => {},
        _ => return None,
    }
    if ui.is_generating() || ui.pending_tool_calls.len() == 0 {
        return None;
    }
    let call = ui.pending_tool_calls.remove(0);
    assert(ui.pending_tool_calls@ =~= old(ui).pending_tool_calls@.skip(1));
    Some(call)
}

} // verus!
