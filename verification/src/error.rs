//! What goes wrong, and how it is told.

use vstd::prelude::*;

verus! {

/// A failure, with the message that a user reads.
#[derive(Debug)]
pub enum AudioError {
    /// The configuration asks for something that cannot be had.
    InvalidConfig(String),
    /// A device, a file or a model failed.
    IoError(String),
    /// An input value is not what the module takes.
    InvalidValue(String),
}

impl AudioError {
    /// Whether this is a configuration error with the given message.
    pub open spec fn says_invalid_config(self, message: Seq<char>) -> bool {
        self matches AudioError::InvalidConfig(m) && m@ == message
    }

    /// Whether this is an input or output error with the given message.
    pub open spec fn says_io_error(self, message: Seq<char>) -> bool {
        self matches AudioError::IoError(m) && m@ == message
    }

    /// Whether this is an input value error with the given message.
    pub open spec fn says_invalid_value(self, message: Seq<char>) -> bool {
        self matches AudioError::InvalidValue(m) && m@ == message
    }
}

/// The text of an error, as the module framework shows it.
pub open spec fn error_text(e: AudioError) -> Seq<char> {
    match e {
        AudioError::InvalidConfig(m) => "Configuration error: "@ + m@,
        AudioError::IoError(m) => "IO error: "@ + m@,
        AudioError::InvalidValue(m) => "Invalid "@ + m@ + " value"@,
    }
}

/// `Display` of `modular_agent_core::Error`, through `to_string`, for the
/// variant of the same name: a fixed text around the message.
#[verifier::external_body]
pub(crate) fn shown(e: &AudioError) -> (r: String)
    ensures
        r@ == error_text(*e),
{
    match e {
        AudioError::InvalidConfig(m) => modular_agent_core::Error::InvalidConfig(m.clone()),
        AudioError::IoError(m) => modular_agent_core::Error::IoError(m.clone()),
        AudioError::InvalidValue(m) => modular_agent_core::Error::InvalidValue(m.clone()),
    }.to_string()
}

/// An error has one kind and one message, and is shown with both.
pub proof fn an_error_says_one_thing(e: AudioError, message: Seq<char>)
    ensures
        match e {
            AudioError::InvalidConfig(m) => {
                &&& e.says_invalid_config(message) <==> m@ == message
                &&& !e.says_io_error(message) && !e.says_invalid_value(message)
                &&& error_text(e) == "Configuration error: "@ + m@
            },
            AudioError::IoError(m) => {
                &&& e.says_io_error(message) <==> m@ == message
                &&& !e.says_invalid_config(message) && !e.says_invalid_value(message)
                &&& error_text(e) == "IO error: "@ + m@
            },
            AudioError::InvalidValue(m) => {
                &&& e.says_invalid_value(message) <==> m@ == message
                &&& !e.says_invalid_config(message) && !e.says_io_error(message)
                &&& error_text(e) == "Invalid "@ + m@ + " value"@
            },
        },
{
}

} // verus!
