//! Launching a pipeline.
//!
//! Opening files, starting processes, killing and waiting for them is the
//! caller's work. What is decided here is the order of that work and what
//! follows from each outcome: the caller carries out one [`run::Action`],
//! reports its [`run::Outcome`], and is told the next action.
//!
//! [`model`] holds the rules as a mathematical state machine, [`run`] the
//! executable machine, [`laws`] what holds of every run.

pub mod laws;
pub mod model;
pub mod run;
