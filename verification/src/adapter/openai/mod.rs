//! OpenAI servers.

pub mod client;
pub mod wire;
