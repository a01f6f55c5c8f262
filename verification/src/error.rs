//! The diagnostic that scanning fails with.

use vstd::prelude::*;
use vstd::string::StringExecFns;
use crate::text::{decimal, push_decimal};

verus! {

/// A lexical error: what went wrong, and the line (counted from 1) on which
/// it was found.
#[derive(Debug)]
pub struct Error {
    pub message: String,
    pub line: u32,
}

/// The mathematical content of an [`Error`].
pub struct ErrorView {
    pub message: Seq<char>,
    pub line: int,
}

impl View for Error {
    type V = ErrorView;

    open spec fn view(&self) -> ErrorView {
        ErrorView { message: self.message@, line: self.line as int }
    }
}

impl Error {
    /// An error with this message, found on this line.
    pub fn new(message: &str, line: u32) -> (e: Self)
        ensures
            e@.message == message@,
            e@.line == line,
    {
        Self { message: message.to_owned(), line }
    }

    /// The error as it is shown: the line, and then the message.
    pub fn to_string(&self) -> (shown: String)
        ensures
            shown@ == "[line "@ + decimal(self.line as nat) + "] Error: "@ + self.message@,
    {
        let mut shown = "[line ".to_owned();
        push_decimal(&mut shown, self.line);
        shown.append("] Error: ");
        shown.append(self.message.as_str());
        shown
    }
}

} // verus!
