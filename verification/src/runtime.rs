//! What the cognitive runtime reports.

use crate::adapter::types::ReasoningEffort;
use crate::json::Json;
use crate::number::Single;
use vstd::prelude::*;

verus! {

/// Where something that the agent perceives comes from.
#[derive(Debug, Clone, Copy, PartialEq, Eq, Structural)]
pub enum PerceptionSource {
    User,
    System,
    Internal,
    Scheduled,
    ToolResult,
}

/// What the agent may do next.
#[derive(Debug)]
pub enum ActionCandidate {
    CallTool { name: String, arguments: Json, tool_call_id: Option<String> },
    Respond,
    AskClarification,
}

/// The levels of the modulators.
#[derive(Debug, Clone, Copy, PartialEq, Eq, Structural)]
pub struct ModulatorState {
    pub dopamine: Single,
    pub norepinephrine: Single,
    pub acetylcholine: Single,
    pub serotonin: Single,
}

/// The emotion.
#[derive(Debug, Clone, Copy, PartialEq, Eq, Structural)]
pub struct EmotionState {
    pub valence: Single,
    pub arousal: Single,
}

/// The drives.
#[derive(Debug, Clone, Copy, PartialEq, Eq, Structural)]
pub struct DriveState {
    pub homeostatic: Single,
    pub curiosity: Single,
    pub salience: Single,
}

/// What the agent knows of its own thinking.
#[derive(Debug, Clone, Copy, PartialEq, Eq, Structural)]
pub struct MetaState {
    pub uncertainty: Single,
    pub conflict: Single,
    pub confidence: Single,
}

/// Something that happened in the runtime.
#[derive(Debug)]
pub enum Event {
    /// The agent perceives something.
    Perception { source: PerceptionSource, content: String },
    /// A piece of an answer arrived.
    Chunk { content: Option<String>, reasoning: Option<String> },
    /// An answer is complete; the number of tokens of its prompt, if it was reported.
    StreamEnd { prompt_tokens: Option<u32> },
    /// The agent decided what to do.
    ActionSelected { candidate: ActionCandidate },
    /// A tool call ended.
    ToolResult { output: String, tool_call_id: Option<String>, verdict: Option<String> },
    /// An answer failed.
    GenerationError { error: String },
    /// The conversation was compressed.
    CompactContext { summary: String },
    /// The conversation was cleared.
    ConversationCleared,
    /// The modulators changed.
    ModulatorUpdate { state: ModulatorState, mode: String },
    /// The emotion changed.
    EmotionUpdate { emotion: EmotionState },
    /// The drives changed.
    DriveUpdate { drives: DriveState },
    /// The agent's view of its thinking changed.
    MetaUpdate { meta_state: MetaState },
    /// The working memory changed.
    WorkingMemoryUpdate { slots: Vec<String> },
    /// A reward prediction error.
    Rpe { rpe: Single },
    /// The weighted error of a prediction.
    ErrorComputed { weighted: Single },
    /// The direction of a prediction.
    Prediction { direction: Single },
    /// Something that the terminal does not show.
    Other,
}

/// A record of one cycle of the runtime. Levels are texts with two decimals.
#[derive(Debug)]
pub struct TraceRecord {
    pub cycle_id: u64,
    pub error_before: Option<String>,
    pub error_after: Option<String>,
    pub prediction_direction: Option<String>,
    pub prediction_sentiment: Option<String>,
    pub prediction_reaction: Option<String>,
    pub modulation: Option<Modulation>,
    pub decision: Option<ActionCandidate>,
    pub retrieval: Option<String>,
    pub memory_writes: Vec<String>,
}

/// How the modulators shaped an answer.
#[derive(Debug, Clone, Copy, PartialEq, Eq, Structural)]
pub struct Modulation {
    pub reasoning_effort: Option<ReasoningEffort>,
}

/// What the user said and what the assistant answered.
#[derive(Debug, Clone, PartialEq)]
pub struct DialogueTurn {
    pub user: String,
    pub assistant: String,
}

/// A `DialogueTurn` with its texts as characters.
pub ghost struct DialogueView {
    pub user: Seq<char>,
    pub assistant: Seq<char>,
}

impl View for DialogueTurn {
    type V = DialogueView;

    open spec fn view(&self) -> DialogueView {
        DialogueView { user: self.user@, assistant: self.assistant@ }
    }
}

/// The views of turns.
pub open spec fn dialogue_view(turns: Seq<DialogueTurn>) -> Seq<DialogueView> {
    Seq::new(turns.len(), |i: int| turns[i]@)
}

} // verus!
