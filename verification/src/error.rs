//! The failure reported by the front end and by the engine.

use vstd::prelude::*;
use vstd::string::*;

verus! {

/// A failure with a human-readable message and the source position it
/// refers to. Failures that have no position carry `usize::MAX` twice.
#[derive(Debug)]
pub struct InterpreterError {
    pub err: String,
    pub line: usize,
    pub col: usize,
}

impl InterpreterError {
    /// A failure without a source position.
    pub fn unlocated(message: &str) -> (e: InterpreterError)
        ensures
            e.err@ == message@,
            e.line == usize::MAX,
            e.col == usize::MAX,
    {
        InterpreterError { err: String::from_str(message), line: usize::MAX, col: usize::MAX }
    }

    /// The text shown to the user: the message behind a fixed prefix.
    pub fn to_string(&self) -> (text: String)
        ensures
            text@ == "InterpreterError: "@ + self.err@,
    {
        let mut text = String::from_str("InterpreterError: ");
        text.append(self.err.as_str());
        text
    }
}

} // verus!
