//! The agent itself: its tools, the check in front of them, its models, sessions and tasks.

pub mod agent;
pub mod conversation;
pub mod diff;
pub mod edit;
pub mod edit_laws;
pub mod file_laws;
pub mod files;
pub mod gate_laws;
pub mod judge_laws;
pub mod models;
pub mod remember;
pub mod requests;
pub mod rule_laws;
pub mod rules;
pub mod scheduler;
pub mod search;
pub mod search_laws;
pub mod session_laws;
pub mod supervisor;
pub mod task_laws;
pub mod tool_specs;
pub mod web;
pub mod web_laws;
