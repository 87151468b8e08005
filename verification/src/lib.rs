//! Watches paths and reruns a command when files under them change.
//!
//! The library holds the decisions of the tool: how a command line becomes a
//! template with a placeholder, which arguments a run gets, what the header
//! above a run looks like, which watched root a changed file belongs to, and
//! what the dispatch loop does with each filesystem event.

pub mod args;
pub mod changes;
pub mod command;
pub mod header;
pub mod helpers;
pub mod text;
pub mod watcher;
