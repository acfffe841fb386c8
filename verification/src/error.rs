//! What a command reports when it cannot do its work.
//!
//! These are the failures of the commands themselves. A caller that keeps the
//! store in a file has two more of its own: the file cannot be read or written,
//! or it does not hold a store.

use vstd::prelude::*;

verus! {

/// The kinds of failure.
#[derive(Clone, Copy, Debug, PartialEq, Eq, Structural)]
pub enum ErrorKind {
    /// The command was given the wrong number of arguments.
    InvalidUsage,
    /// The id argument is not a whole number that fits.
    InvalidId,
    /// A mark command was given no id at all.
    MissingId,
    /// The store has no task with the given id.
    NotFound,
    /// The filter of the list command is not one of the three known words.
    UnknownFilter,
}

/// A failure as a mathematical value.
pub struct Failure {
    pub kind: ErrorKind,
    pub message: Seq<char>,
}

/// A failure: its kind, and the message shown to the user.
#[derive(Clone, Debug)]
pub struct CommandError {
    pub kind: ErrorKind,
    pub message: String,
}

impl View for CommandError {
    type V = Failure;

    open spec fn view(&self) -> Failure {
        Failure { kind: self.kind, message: self.message@ }
    }
}

impl CommandError {
    /// A failure of the given kind with the given message.
    pub fn new(kind: ErrorKind, message: &str) -> (error: CommandError)
        ensures
            error@ == (Failure { kind, message: message@ }),
    {
        CommandError { kind, message: String::from_str(message) }
    }

    /// The message shown to the user.
    pub fn to_string(&self) -> (text: String)
        ensures
            text@ == self@.message,
    {
        self.message.clone()
    }
}

/// What a command that answers with one message returned, as a mathematical
/// value.
pub open spec fn reply_view(reply: Result<String, CommandError>) -> Result<Seq<char>, Failure> {
    match reply {
        Ok(message) => Ok(message@),
        Err(error) => Err(error@),
    }
}

/// The result of a check that can only fail, as a mathematical value.
pub open spec fn check_view(checked: Result<(), CommandError>) -> Option<Failure> {
    match checked {
        Ok(_) => None,
        Err(error) => Some(error@),
    }
}

} // verus!
