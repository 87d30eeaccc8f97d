//! Log tailing and trigger dispatch for a directory of append-only
//! game-server log files.
//!
//! The crate holds the decisions of the service: how freshly read bytes
//! become text, which line of a chunk is forwarded, where the next read of a
//! file starts, which triggers fire on a line, which action each one names
//! and what that action tells Discord. Reading files, waiting for
//! notifications and sending messages is left to the caller.

pub mod actions;
pub mod archive;
pub mod config;
pub mod decoder;
pub mod lines;
pub mod linking;
pub mod models;
pub mod notices;
pub mod numbers;
pub mod offsets;
pub mod patterns;
pub mod selection;
pub mod source;
pub mod tailer;
pub mod text;
pub mod triggers;
pub mod uuid;
pub mod webhook;
