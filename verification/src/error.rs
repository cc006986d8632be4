//! The errors that end a call, and the reply that a call gives.

use vstd::prelude::*;

verus! {

/// An error that ends a call.
#[derive(Debug)]
pub enum EngineError {
    /// The pattern is no valid regular expression.
    InvalidPattern,
    /// The glob pattern is malformed.
    InvalidGlob,
    /// A changed file could not be written. `path` is the file's path as it
    /// is shown in quotes.
    WriteFailed { path: String },
}

/// The message of `error`.
pub open spec fn message_text(error: EngineError) -> Seq<char> {
    match error {
        EngineError::InvalidPattern => "Invalid regex pattern"@,
        EngineError::InvalidGlob => "Invalid glob pattern"@,
        EngineError::WriteFailed { path } => "Failed to write "@ + path@,
    }
}

/// The reply of a call that ended with `outcome`: the report, or the word
/// `Error`, a colon, a space and the error's message.
pub open spec fn reply_text(outcome: Result<String, EngineError>) -> Seq<char> {
    match outcome {
        Ok(report) => report@,
        Err(error) => "Error: "@ + message_text(error),
    }
}

impl EngineError {
    /// The message of the error.
    pub fn message(&self) -> (message: String)
        ensures
            message@ == message_text(*self),
    {
        match self {
            EngineError::InvalidPattern => String::from_str("Invalid regex pattern"),
            EngineError::InvalidGlob => String::from_str("Invalid glob pattern"),
            EngineError::WriteFailed { path } => {
                let mut message = String::from_str("Failed to write ");
                message.append(path.as_str());
                message
            },
        }
    }
}

/// The reply of a call that ended with `outcome`.
pub fn render_reply(outcome: Result<String, EngineError>) -> (reply: String)
    ensures
        reply@ == reply_text(outcome),
{
    match outcome {
        Ok(report) => report,
        Err(error) => {
            let mut reply = String::from_str("Error: ");
            let message = error.message();
            reply.append(message.as_str());
            reply
        },
    }
}

} // verus!
