//! A terminal chat client's core: the conversation model, the key and action
//! rules of the application, the screen state and its layout rules, and the
//! decoding of streamed completion events.

pub mod agent;
pub mod app;
pub mod data;
pub mod llm;
pub mod message;
pub mod session;
pub mod text;
pub mod ui;
