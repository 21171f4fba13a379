//! What the terminal shows and how it reacts to keys and events.

pub mod choice_laws;
pub mod choices;
pub mod commands;
pub mod display_laws;
pub mod hitokoto;
pub mod input;
pub mod keys;
pub mod layout;
pub mod logo;
pub mod markdown;
pub mod markdown_laws;
pub mod messages;
pub mod panels;
pub mod render;
pub mod select;
pub mod state;
pub mod table;
pub mod theme;
