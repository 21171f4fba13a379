//! How events change what the terminal shows.

use crate::frontend::state::{
    capped, finished_messages, is_diff, marked_lines, messages_view, path_in, streamed, turn_summary,
    with_file, CallView, CognitiveSnapshot, MessageView, ToolStatus, UiState,
};
use crate::json;
use crate::json::json_printed;
use crate::runtime::{
    ActionCandidate, DriveState, EmotionState, Event, MetaState, ModulatorState, PerceptionSource,
};
use crate::text;
use crate::text::{contains, lines, opt_text, or_empty, replaced, rows, trim, views};
use crate::util;
use crate::util::without_ansi;
use vstd::prelude::*;

verus! {

/// When an event is handled: the caller's clock in nanoseconds, the time of day, and the length of
/// the turn so far, both as they are shown.
pub struct Moment {
    pub now: u64,
    pub time_of_day: String,
    pub turn_length: String,
}

/// The first line of a text, cut after `limit` characters.
pub open spec fn headline(s: Seq<char>, limit: nat) -> Seq<char> {
    let first = if lines(s).len() > 0 {
        lines(s)[0]
    } else {
        Seq::empty()
    };
    if first.len() <= limit {
        first
    } else {
        first.take(limit as int) + "…"@
    }
}

/// The first line of a text, cut after `limit` characters.
pub fn truncate(s: &[char], limit: usize) -> (r: String)
    ensures
        r@ == headline(s@, limit as nat),
{
    let ls = text::lines_of(s);
    assert(rows(ls@).len() == ls@.len());
    if ls.len() == 0 {
        let empty = String::new();
        assert(empty@ =~= Seq::<char>::empty());
        return empty;
    }
    assert(rows(ls@)[0] == ls@[0]@);
    let first = &ls[0];
    if first.len() <= limit {
        text::string_of(first.as_slice())
    } else {
        let cut = text::part(first.as_slice(), 0, limit);
        assert(cut@ =~= first@.take(limit as int));
        text::glue(text::string_of(cut.as_slice()).as_str(), "…")
    }
}

/// A tool's output as it is shown: without control sequences, and with line feeds only.
pub open spec fn cleaned(output: Seq<char>) -> Seq<char> {
    replaced(replaced(without_ansi(output, 0), "\r\n"@, "\n"@), "\r"@, "\n"@)
}

/// A tool's output as it is shown.
pub fn clean_output(output: &str) -> (r: Vec<char>)
    ensures
        r@ == cleaned(output@),
{
    proof {
        reveal_strlit("\r\n");
        reveal_strlit("\r");
    }
    let newline = text::chars_of("\n");
    let plain = util::strip_ansi(text::chars_of(output).as_slice());
    let once = text::replace(
        plain.as_slice(),
        text::chars_of("\r\n").as_slice(),
        newline.as_slice(),
    );
    text::replace(once.as_slice(), text::chars_of("\r").as_slice(), newline.as_slice())
}

/// How a tool call ended.
pub open spec fn result_status(output: Seq<char>, verdict: Option<Seq<char>>) -> ToolStatus {
    if contains(output, "user denied the tool call"@) {
        ToolStatus::Denied
    } else if verdict == Some("blocked"@) {
        ToolStatus::Errored
    } else {
        ToolStatus::Done
    }
}

/// How a tool call ended.
pub fn status_of(output: &str, verdict: &Option<String>) -> (r: ToolStatus)
    ensures
        r == result_status(output@, opt_text(*verdict)),
{
    if text::has(text::chars_of(output).as_slice(), "user denied the tool call") {
        ToolStatus::Denied
    } else {
        let blocked = match verdict {
            Some(verdict) => text::same(verdict.as_str(), "blocked"),
            None => false,
        };
        if blocked {
            ToolStatus::Errored
        } else {
            ToolStatus::Done
        }
    }
}

/// The number of characters of a tool's output that stand beside its name.
pub const SUMMARY_CHARS: usize = 300;

/// Whether an event has the effect that it should have.
pub open spec fn event_effect(ui: UiState, event: Event, at: Moment, after: UiState) -> bool {
    match event {
        Event::Perception { source, content } => match source {
            PerceptionSource::User => {
                &&& after == (UiState {
                    messages: after.messages,
                    turn_start: at.now,
                    turn_files: after.turn_files,
                    turn_added: 0,
                    turn_removed: 0,
                    turn_tool_calls: 0,
                    ..ui
                })
                &&& after.turn_files@.len() == 0
                &&& messages_view(after.messages@) == messages_view(ui.messages@).push(
                    MessageView::User { content: content@, time: at.time_of_day@ },
                )
            },
            PerceptionSource::ToolResult => after == ui,
            _ => if trim(content@).len() == 0 {
                after == ui
            } else {
                says(ui, content@, after)
            },
        },
        Event::Chunk { content, reasoning } => if ui.cancelled {
            after == ui
        } else {
            &&& after == (UiState {
                messages: after.messages,
                streaming: match ui.streaming {
                    Some(index) => Some(index),
                    None => Some(ui.messages@.len() as usize),
                },
                ..ui
            })
            &&& messages_view(after.messages@) == streamed(
                messages_view(ui.messages@),
                ui.streaming,
                or_empty(opt_text(content)),
                or_empty(opt_text(reasoning)),
            )
        },
        Event::StreamEnd { prompt_tokens } => match prompt_tokens {
            Some(tokens) => after == (UiState { context_tokens: tokens as usize, ..ui }),
            None => after == ui,
        },
        Event::ActionSelected { candidate } => if ui.cancelled {
            after == ui
        } else {
            match candidate {
                ActionCandidate::CallTool { name, arguments, tool_call_id } => {
                    &&& after == (UiState {
                        messages: after.messages,
                        streaming: None,
                        last_tool_index: Some(ui.messages@.len() as usize),
                        turn_tool_calls: capped(ui.turn_tool_calls + 1),
                        turn_files: after.turn_files,
                        ..ui
                    })
                    &&& views(after.turn_files@) == with_file(
                        views(ui.turn_files@),
                        path_in(json_printed(arguments@)),
                    )
                    &&& messages_view(after.messages@) == messages_view(ui.messages@).push(
                        MessageView::ToolCall(
                            CallView {
                                tool_call_id: or_empty(opt_text(tool_call_id)),
                                name: name@,
                                arguments: json_printed(arguments@),
                                status: ToolStatus::Running,
                                summary: Seq::empty(),
                                output: Seq::empty(),
                                diff: Seq::empty(),
                                elapsed: None,
                                started: at.now,
                                verdict: None,
                            },
                        ),
                    )
                },
                _ => if ui.turn_tool_calls == 0 {
                    after == (UiState { streaming: None, ..ui })
                } else {
                    &&& after == (UiState {
                        messages: after.messages,
                        streaming: None,
                        turn_start: at.now,
                        turn_files: after.turn_files,
                        turn_added: 0,
                        turn_removed: 0,
                        turn_tool_calls: 0,
                        ..ui
                    })
                    &&& after.turn_files@.len() == 0
                    &&& messages_view(after.messages@) == messages_view(ui.messages@).push(
                        MessageView::Summary(
                            turn_summary(
                                ui.turn_files@.len(),
                                ui.turn_added as nat,
                                ui.turn_removed as nat,
                                at.turn_length@,
                            ),
                        ),
                    )
                },
            }
        },
        Event::ToolResult { output, tool_call_id, verdict } => {
            let shown = cleaned(output@);
            &&& after == (UiState {
                messages: after.messages,
                turn_added: capped(
                    ui.turn_added + if is_diff(shown) {
                        marked_lines(lines(shown), '+') as int
                    } else {
                        0
                    },
                ),
                turn_removed: capped(
                    ui.turn_removed + if is_diff(shown) {
                        marked_lines(lines(shown), '-') as int
                    } else {
                        0
                    },
                ),
                ..ui
            })
            &&& messages_view(after.messages@) == finished_messages(
                messages_view(ui.messages@),
                or_empty(opt_text(tool_call_id)),
                ui.last_tool_index,
                headline(shown, SUMMARY_CHARS as nat),
                shown,
                result_status(output@, opt_text(verdict)),
                opt_text(verdict),
                at.now,
            )
        },
        Event::GenerationError { error } => says(ui, "(Generation error) "@ + error@, after),
        Event::CompactContext { summary } => starts_anew(
            ui,
            "(Conversation compacted)\n"@ + summary@,
            after,
        ),
        Event::ConversationCleared => starts_anew(ui, "(Conversation cleared)"@, after),
        Event::ModulatorUpdate { state, mode } => after == (UiState {
            cognitive: CognitiveSnapshot {
                dopamine: state.dopamine,
                norepinephrine: state.norepinephrine,
                acetylcholine: state.acetylcholine,
                serotonin: state.serotonin,
                mode,
                ..ui.cognitive
            },
            ..ui
        }),
        Event::EmotionUpdate { emotion } => after == (UiState {
            cognitive: CognitiveSnapshot {
                valence: emotion.valence,
                arousal: emotion.arousal,
                ..ui.cognitive
            },
            ..ui
        }),
        Event::DriveUpdate { drives } => after == (UiState {
            cognitive: CognitiveSnapshot {
                drive_homeostatic: drives.homeostatic,
                drive_curiosity: drives.curiosity,
                drive_salience: drives.salience,
                ..ui.cognitive
            },
            ..ui
        }),
        Event::MetaUpdate { meta_state } => after == (UiState {
            cognitive: CognitiveSnapshot {
                uncertainty: meta_state.uncertainty,
                conflict: meta_state.conflict,
                confidence: meta_state.confidence,
                ..ui.cognitive
            },
            ..ui
        }),
        Event::WorkingMemoryUpdate { slots } => after == (UiState {
            cognitive: CognitiveSnapshot { wm_slots: slots, ..ui.cognitive },
            ..ui
        }),
        Event::Rpe { rpe } => after == (UiState {
            cognitive: CognitiveSnapshot { rpe: Some(rpe), ..ui.cognitive },
            ..ui
        }),
        Event::ErrorComputed { weighted } => after == (UiState {
            cognitive: CognitiveSnapshot { last_error: Some(weighted), ..ui.cognitive },
            ..ui
        }),
        Event::Prediction { direction } => after == (UiState {
            cognitive: CognitiveSnapshot { prediction_direction: Some(direction), ..ui.cognitive },
            ..ui
        }),
        Event::Other => after == ui,
    }
}

/// Whether a remark of the system, and nothing else, was added.
pub open spec fn says(ui: UiState, content: Seq<char>, after: UiState) -> bool {
    &&& after == (UiState { messages: after.messages, ..ui })
    &&& messages_view(after.messages@) == messages_view(ui.messages@).push(
        MessageView::System { content },
    )
}

/// Whether the conversation was begun anew with a remark.
pub open spec fn starts_anew(ui: UiState, content: Seq<char>, after: UiState) -> bool {
    &&& after == (UiState { messages: after.messages, streaming: None, total_tokens: 0, ..ui })
    &&& messages_view(after.messages@) == seq![MessageView::System { content }]
}

/// Takes over the levels of the modulators.
pub fn apply_modulator(ui: &mut UiState, modulator: &ModulatorState, mode: String)
    ensures
        *final(ui) == (UiState {
            cognitive: CognitiveSnapshot {
                dopamine: modulator.dopamine,
                norepinephrine: modulator.norepinephrine,
                acetylcholine: modulator.acetylcholine,
                serotonin: modulator.serotonin,
                mode,
                ..old(ui).cognitive
            },
            ..*old(ui)
        }),
{
    ui.cognitive.dopamine = modulator.dopamine;
    ui.cognitive.norepinephrine = modulator.norepinephrine;
    ui.cognitive.acetylcholine = modulator.acetylcholine;
    ui.cognitive.serotonin = modulator.serotonin;
    ui.cognitive.mode = mode;
}

/// Takes over the emotion.
pub fn apply_emotion(ui: &mut UiState, emotion: &EmotionState)
    ensures
        *final(ui) == (UiState {
            cognitive: CognitiveSnapshot {
                valence: emotion.valence,
                arousal: emotion.arousal,
                ..old(ui).cognitive
            },
            ..*old(ui)
        }),
{
    ui.cognitive.valence = emotion.valence;
    ui.cognitive.arousal = emotion.arousal;
}

/// Takes over the drives.
pub fn apply_drive(ui: &mut UiState, drive: &DriveState)
    ensures
        *final(ui) == (UiState {
            cognitive: CognitiveSnapshot {
                drive_homeostatic: drive.homeostatic,
                drive_curiosity: drive.curiosity,
                drive_salience: drive.salience,
                ..old(ui).cognitive
            },
            ..*old(ui)
        }),
{
    ui.cognitive.drive_homeostatic = drive.homeostatic;
    ui.cognitive.drive_curiosity = drive.curiosity;
    ui.cognitive.drive_salience = drive.salience;
}

/// Takes over what the agent knows of its thinking.
pub fn apply_meta(ui: &mut UiState, meta: &MetaState)
    ensures
        *final(ui) == (UiState {
            cognitive: CognitiveSnapshot {
                uncertainty: meta.uncertainty,
                conflict: meta.conflict,
                confidence: meta.confidence,
                ..old(ui).cognitive
            },
            ..*old(ui)
        }),
{
    ui.cognitive.uncertainty = meta.uncertainty;
    ui.cognitive.conflict = meta.conflict;
    ui.cognitive.confidence = meta.confidence;
}

/// Takes over the working memory.
pub fn apply_wm(ui: &mut UiState, slots: Vec<String>)
    ensures
        *final(ui) == (UiState {
            cognitive: CognitiveSnapshot { wm_slots: slots, ..old(ui).cognitive },
            ..*old(ui)
        }),
{
    ui.cognitive.wm_slots = slots;
}

/// Shows an event. A decision to call a tool is handed back, to be carried out.
pub fn handle_event(ui: &mut UiState, event: Event, at: &Moment) -> (r: Option<Event>)
    ensures
        event_effect(*old(ui), event, *at, *final(ui)),
        match event {
            Event::ActionSelected {
                candidate: ActionCandidate::CallTool { .. },
            } => r == if old(ui).cancelled {
                None
            } else {
                Some(event)
            },
            _ => r is None,
        },
{
    match event {
        Event::Perception { source, content } => {
            match source {
                PerceptionSource::User => {
                    ui.reset_turn(at.now);
                    ui.push_user(content.as_str(), at.time_of_day.as_str());
                },
                PerceptionSource::ToolResult => {},
                _ => {
                    if text::trimmed(text::chars_of(content.as_str()).as_slice()).len() > 0 {
                        ui.push_system(content.as_str());
                    }
                },
            }
            None
        },
        Event::Chunk { content, reasoning } => {
            if !ui.cancelled {
                ui.append_stream(
                    text::unwrap_or_empty(content).as_str(),
                    text::unwrap_or_empty(reasoning).as_str(),
                );
            }
            None
        },
        Event::StreamEnd { prompt_tokens } => {
            if let Some(tokens) = prompt_tokens {
                ui.context_tokens = tokens as usize;
            }
            None
        },
        Event::ActionSelected { candidate } => {
            if ui.cancelled {
                return None;
            }
            ui.finish_stream();
            let is_call = match &candidate {
                ActionCandidate::CallTool { name, arguments, tool_call_id } => {
                    let id = text::unwrap_or_empty(text::copy_opt(tool_call_id));
                    let _ = ui.mark_tool_started(
                        id,
                        name.clone(),
                        json::print_json(arguments),
                        at.now,
                    );
                    true
                },
                _ => {
                    ui.finish_turn(at.turn_length.as_str(), at.now);
                    false
                },
            };
            if is_call {
                Some(Event::ActionSelected { candidate })
            } else {
                None
            }
        },
        Event::ToolResult { output, tool_call_id, verdict } => {
            let status = status_of(output.as_str(), &verdict);
            let shown = clean_output(output.as_str());
            let summary = truncate(shown.as_slice(), SUMMARY_CHARS);
            let id = text::unwrap_or_empty(tool_call_id);
            ui.mark_tool_finished(
                id.as_str(),
                summary.as_str(),
                text::string_of(shown.as_slice()).as_str(),
                status,
                verdict,
                at.now,
            );
            None
        },
        Event::GenerationError { error } => {
            ui.push_system(text::glue("(Generation error) ", error.as_str()).as_str());
            None
        },
        Event::CompactContext { summary } => {
            ui.clear_conversation(
                text::glue("(Conversation compacted)\n", summary.as_str()).as_str(),
            );
            None
        },
        Event::ConversationCleared => {
            ui.clear_conversation("(Conversation cleared)");
            None
        },
        Event::ModulatorUpdate { state, mode } => {
            apply_modulator(ui, &state, mode);
            None
        },
        Event::EmotionUpdate { emotion } => {
            apply_emotion(ui, &emotion);
            None
        },
        Event::DriveUpdate { drives } => {
            apply_drive(ui, &drives);
            None
        },
        Event::MetaUpdate { meta_state } => {
            apply_meta(ui, &meta_state);
            None
        },
        Event::WorkingMemoryUpdate { slots } => {
            apply_wm(ui, slots);
            None
        },
        Event::Rpe { rpe } => {
            ui.cognitive.rpe = Some(rpe);
            None
        },
        Event::ErrorComputed { weighted } => {
            ui.cognitive.last_error = Some(weighted);
            None
        },
        Event::Prediction { direction } => {
            ui.cognitive.prediction_direction = Some(direction);
            None
        },
        Event::Other => None,
    }
}

/// After a generation was cancelled, nothing that it still reports is shown: pieces of the answer and
/// decisions leave the terminal as it is.
pub proof fn cancelled_shows_nothing(ui: UiState, event: Event, at: Moment, after: UiState)
    requires
        ui.cancelled,
        event_effect(ui, event, at, after),
        event is Chunk || event is ActionSelected,
    ensures
        after == ui,
{
}

} // verus!
