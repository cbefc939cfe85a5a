//! A verified core for a line-oriented task tracker.
//!
//! Tasks live in a flat text file, one line per task: a status character
//! (`' '` for incomplete, `'X'` for complete) followed by the task's name.
//! This crate holds the codec for that format, the task data model, and the
//! command dispatcher that mutates an in-memory task list. Reading and
//! writing the file itself, and the process boundary, are left to the
//! surrounding program.

pub mod strutil;
pub mod task;
pub mod codec;
pub mod dispatch;
