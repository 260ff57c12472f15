//! A line-oriented todo list: tasks persisted one per line in a plain-text
//! file, a codec between file contents and task sequences, and the editor
//! state machine that turns user intents into document mutations.
//!
//! File and terminal I/O live outside this crate: callers hand the library
//! file contents as characters and receive the characters to write back.

pub mod codec;
pub mod editor;
pub mod task;
