//! A focus timer for one finite block of work at a time.

pub mod commands;
pub mod dialogue;
pub mod error;
pub mod history;
pub mod laws;
pub mod llm;
pub mod render;
pub mod replay;
pub mod session;
pub mod storage;
pub mod text;
pub mod time;
