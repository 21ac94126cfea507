//! The core of a small command interpreter.
//!
//! A line of text is parsed into a pipeline of commands, and the pipeline is
//! launched stage by stage, with the standard streams of neighbouring stages
//! joined by pipes and the others redirected to files where the line asks for
//! it.
//!
//! * [`text`] cuts a line into pieces and words.
//! * [`command`] holds the commands and the errors of parsing.
//! * [`parser`] turns a line into a pipeline.
//! * [`executor`] decides what is opened, started, killed and waited for,
//!   and in which order; the caller does the work itself.
//! * [`builtin`] tells which pipelines the interpreter carries out without
//!   starting a process.

pub mod builtin;
pub mod command;
pub mod executor;
pub mod parser;
pub mod text;
