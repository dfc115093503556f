//! A runner for concurrent tasks, each with its own progress state machine.
//!
//! The library decides; the caller acts. A [`task::Task`] tells its worker,
//! one step at a time, whether to advance its progress indicator, to block
//! for a while, or to stop, and which terminal message to show. A
//! [`runner::TaskRunner`] accounts for every task handed out: it accepts
//! exactly one completion signal and one join per task, in that order of
//! phases, and refuses anything else.

pub mod task;
pub mod runner;
pub mod laws;
