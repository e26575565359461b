//! Decisions of the monitor loop: configuration, transition filtering, round
//! tracking and the per-frame state machine.
pub mod config;
pub mod transition;
pub mod rounds;
pub mod calendar;
pub mod ocr_steps;
pub mod session;
