//! Core of a POSIX-style command-line shell: splitting an input line into
//! words while honouring quoting and escaping, recognising and validating
//! output-redirection operators, and planning where the resulting output
//! bytes must be written.
//!
//! The read-eval-print loop, the builtin commands that touch the process
//! environment, and the actual file writes live outside this crate; they
//! exchange plain values (strings, byte vectors, and the types defined here)
//! with the verified functions of this library.

pub mod cmd;
pub mod errors;
pub mod parse;
pub mod redirect;
pub mod words;
