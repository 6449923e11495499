//! Messages for the person in front of the program.

use vstd::prelude::*;
use vstd::string::*;

verus! {

/// How grave a message is.
#[derive(Clone, Copy, Debug, PartialEq, Eq, Structural)]
pub enum MessageSeverity {
    Error,
    Warning,
    Info,
}

/// A message and how grave it is.
#[derive(Clone, Debug, PartialEq, Eq)]
pub struct Message {
    pub severity: MessageSeverity,
    pub message: String,
}

impl Message {
    /// A message of the given severity.
    pub fn new(severity: MessageSeverity, s: &str) -> (m: Message)
        ensures
            m.severity == severity,
            m.message@ == s@,
    {
        Message { severity, message: String::from_str(s) }
    }

    /// An error.
    pub fn error(s: &str) -> (m: Message)
        ensures
            m.severity == MessageSeverity::Error,
            m.message@ == s@,
    {
        Message::new(MessageSeverity::Error, s)
    }

    /// A warning.
    pub fn warning(s: &str) -> (m: Message)
        ensures
            m.severity == MessageSeverity::Warning,
            m.message@ == s@,
    {
        Message::new(MessageSeverity::Warning, s)
    }

    /// A piece of information.
    pub fn info(s: &str) -> (m: Message)
        ensures
            m.severity == MessageSeverity::Info,
            m.message@ == s@,
    {
        Message::new(MessageSeverity::Info, s)
    }
}

} // verus!
