//! Talking to language models.

pub mod config;
pub mod deepseek;
pub mod error;
pub mod http;
pub mod openai;
pub mod retry;
pub mod stream_laws;
pub mod traits;
pub mod types;
pub mod wire_laws;
