//! The error reported by every failing operation: a message for the user
//! and the process exit code that goes with it.

use vstd::prelude::*;

verus! {

/// Exit code of an error in how the command was invoked.
pub const USAGE_EXIT_CODE: u8 = 2;

/// Exit code of an error while carrying out a well-formed command.
pub const OPERATION_EXIT_CODE: u8 = 1;

/// A failure, with the message shown to the user and the exit code.
#[derive(Debug)]
pub struct Error {
    message: String,
    exit_code: u8,
}

impl Error {
    /// The message shown to the user.
    pub closed spec fn text(&self) -> Seq<char> {
        self.message@
    }

    /// The process exit code.
    pub closed spec fn code(&self) -> u8 {
        self.exit_code
    }

    /// An error in how the command was invoked (exit code 2).
    pub fn usage(message: String) -> (e: Error)
        ensures
            e.text() == message@,
            e.code() == USAGE_EXIT_CODE,
    {
        Error { message, exit_code: USAGE_EXIT_CODE }
    }

    /// An error while carrying out a command (exit code 1).
    pub fn operation(message: String) -> (e: Error)
        ensures
            e.text() == message@,
            e.code() == OPERATION_EXIT_CODE,
    {
        Error { message, exit_code: OPERATION_EXIT_CODE }
    }

    /// The exit code the process ends with when it reports this error.
    pub fn exit_code(&self) -> (code: u8)
        ensures
            code == self.code(),
    {
        self.exit_code
    }

    /// The message shown to the user.
    pub fn message(&self) -> (m: &str)
        ensures
            m@ == self.text(),
    {
        self.message.as_str()
    }
}

} // verus!
