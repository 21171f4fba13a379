//! The logic of a terminal coding agent: prompts, tools, sessions, scheduling and display,
//! each part with a contract that says what it computes.

pub mod adapter;
pub mod app;
pub mod encoding;
pub mod frontend;
pub mod json;
pub mod number;
pub mod order;
pub mod pattern;
pub mod runtime;
pub mod text;
pub mod text_laws;
pub mod util;
pub mod util_laws;
