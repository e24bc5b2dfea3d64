//! A command-line task tracker's core: the parser that turns a typed line into
//! a request, the status model, the task table with its name-or-id matching,
//! and the session step that turns a request into an outcome and a message.

pub mod clock;
pub mod command;
pub mod display;
pub mod session;
pub mod store;
pub mod text;
