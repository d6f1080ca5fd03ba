//! Progress reporting: task state and events, display styles, a manager for
//! several tasks, terminal rendering, and formatting of durations, sizes and
//! rates.  Durations are given in nanoseconds.
pub mod manager;
pub mod styles;
pub mod task;
pub mod terminal;
pub mod utils;
