//! Process-execution engine and Google-style docstring parser.
//!
//! The `command` module models the supervision of a child process: the
//! configuration that describes an invocation, the poll-loop decisions that
//! enforce the two timeout policies, and the per-stream output pump that fans
//! chunks out to capture and relay destinations. The `docstrings` module is a
//! heuristic section-based parser for structured documentation comments. The
//! `chars` module holds the character-sequence utilities both build on.

pub mod chars;
pub mod command;
pub mod docstrings;

pub use command::{
    CommandConfig, CommandExecutionError, CommandFailure, CommandNoOutputTimeoutError,
    CommandTimeoutExceededError,
};
pub use docstrings::{Docstring, Example, ParseError, SimpleDocstringParser};
