//! Hints for the start screen.

use crate::util;
use vstd::prelude::*;

verus! {

/// The hints.
pub const TIPS: [&'static str; 12] = [
    "Type / to see available commands",
    "Shift+Enter / Alt+Enter inserts a newline in the input box",
    "Esc interrupts the current generation",
    "Some tool calls ask for approval: Enter approves, Shift+Enter remembers, Esc denies",
    "The /status panel shows live cognitive signals: RPE, modulators, memory",
    "Conversation history is always kept in full; /compact is the only way to compress it",
    "Rules (project + ~/.prognosis) are injected automatically when they apply",
    "Use /models to switch models without restarting",
    "Scheduled tasks keep running and report into the conversation",
    "Use /history to reload a past session, /continue for the most recent one",
    "Use /remember to inject a summarized memory from an archived session",
    "Paste inserts text without sending; press Enter to send",
];

/// Hint `index`.
pub fn tip_at(index: usize) -> (r: &'static str)
    requires
        index < TIPS@.len(),
    ensures
        r == TIPS@[index as int],
{
    TIPS[index]
}

/// One of the hints, picked at random.
pub fn pick_tip() -> (r: &'static str)
    ensures
        TIPS@.contains(r),
{
    let index: usize = util::random_below(12);
    let tip = tip_at(index);
    assert(TIPS@[index as int] == tip);
    tip
}

} // verus!
