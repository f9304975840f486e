//! The decisions behind the native side of the test activity: what the
//! activity says on creation, how it processes data, and in which order it
//! runs the SDK tests and reports on each of them.

pub mod activity;
pub mod report;
pub mod sequencer;
