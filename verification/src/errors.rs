//! Error types used by the shell core.

use vstd::prelude::*;
use vstd::string::StringExecFns;

verus! {

/// Invalid input error.
///
/// Returned by the tokenizer when an input line cannot be parsed: an
/// unmatched quote or escape at end of input, or a malformed redirection
/// operator. The `reason` is the exact diagnostic the shell reports.
#[derive(Debug, PartialEq, Eq)]
pub struct InvalidInputError {
    pub reason: String,
}

impl InvalidInputError {
    /// Builds an error carrying the given diagnostic text.
    pub fn from(value: &str) -> (r: Self)
        ensures
            r.reason@ == value@,
    {
        InvalidInputError { reason: String::from_str(value) }
    }

    /// The full diagnostic line, prefixed as the shell prints it.
    pub fn message(&self) -> (r: String)
        ensures
            r@ == "invalid input: "@ + self.reason@,
    {
        let mut r = String::from_str("invalid input: ");
        r.append(self.reason.as_str());
        r
    }
}

/// Error output from a builtin handler or an external program.
///
/// Carries the text that the shell writes to its standard error stream.
#[derive(Debug, PartialEq, Eq)]
pub struct OutputError {
    pub reason: String,
}

impl OutputError {
    /// Builds an error carrying the given diagnostic text.
    pub fn from(value: &str) -> (r: Self)
        ensures
            r.reason@ == value@,
    {
        OutputError { reason: String::from_str(value) }
    }
}

} // verus!
