//! A pipeline interpreter for an interactive command shell.
//!
//! A command line is cut into stages at the pipe separator, each stage is
//! either a builtin or an external program, and a small state machine decides
//! how the standard streams of consecutive stages are chained together.
//!
//! The library starts no process and reads no terminal. It decides; the
//! program around it acts and reports back.

pub mod builtin;
pub mod chain;
pub mod prompt;
pub mod run;
pub mod session;
pub mod stage;
pub mod text;
