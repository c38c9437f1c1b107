//! Errors, classified by kind.

use vstd::prelude::*;

verus! {

/// What went wrong, as far as policy is concerned.
#[derive(Clone, Copy, Debug, PartialEq, Eq, Structural, Hash)]
pub enum ErrorKind {
    Unknown,
    Filesystem,
    Docker,
    ConfigSpecViolation,
    ConfigRulesViolation,
    NotFound,
    VersionIncompatible,
    Network,
    Serialization,
    Deserialization,
    Pack,
    ValidateS9pk,
    ConfigGen,
    Database,
    Backup,
    Restore,
    Authorization,
    AutoConfigure,
}

/// The process exit code that stands for a kind.
pub open spec fn code_of(kind: ErrorKind) -> int {
    match kind {
        ErrorKind::Unknown => 1,
        ErrorKind::Filesystem => 2,
        ErrorKind::Docker => 3,
        ErrorKind::ConfigSpecViolation => 4,
        ErrorKind::ConfigRulesViolation => 5,
        ErrorKind::NotFound => 6,
        ErrorKind::VersionIncompatible => 8,
        ErrorKind::Network => 9,
        ErrorKind::Serialization => 11,
        ErrorKind::Deserialization => 12,
        ErrorKind::Pack => 23,
        ErrorKind::ValidateS9pk => 24,
        ErrorKind::ConfigGen => 27,
        ErrorKind::Database => 29,
        ErrorKind::Backup => 32,
        ErrorKind::Restore => 33,
        ErrorKind::Authorization => 34,
        ErrorKind::AutoConfigure => 35,
    }
}

impl ErrorKind {
    /// The exit code of this kind; never zero, and different kinds have
    /// different codes.
    pub fn code(&self) -> (c: i32)
        ensures
            c == code_of(*self),
            c != 0,
    {
        match self {
            ErrorKind::Unknown => 1,
            ErrorKind::Filesystem => 2,
            ErrorKind::Docker => 3,
            ErrorKind::ConfigSpecViolation => 4,
            ErrorKind::ConfigRulesViolation => 5,
            ErrorKind::NotFound => 6,
            ErrorKind::VersionIncompatible => 8,
            ErrorKind::Network => 9,
            ErrorKind::Serialization => 11,
            ErrorKind::Deserialization => 12,
            ErrorKind::Pack => 23,
            ErrorKind::ValidateS9pk => 24,
            ErrorKind::ConfigGen => 27,
            ErrorKind::Database => 29,
            ErrorKind::Backup => 32,
            ErrorKind::Restore => 33,
            ErrorKind::Authorization => 34,
            ErrorKind::AutoConfigure => 35,
        }
    }

    /// Is an error of this kind surfaced to the caller as a failed operation
    /// that leaves global state alone?
    pub fn recoverable(&self) -> (b: bool)
        ensures
            b == (*self == ErrorKind::ConfigSpecViolation || *self
                == ErrorKind::ConfigRulesViolation || *self == ErrorKind::AutoConfigure || *self
                == ErrorKind::NotFound),
    {
        match self {
            ErrorKind::ConfigSpecViolation => true,
            ErrorKind::ConfigRulesViolation => true,
            ErrorKind::AutoConfigure => true,
            ErrorKind::NotFound => true,
            _ => false,
        }
    }
}

/// Distinct kinds never share an exit code.
pub proof fn codes_are_distinct(a: ErrorKind, b: ErrorKind)
    requires
        a != b,
    ensures
        code_of(a) != code_of(b),
{
}

/// An error: its kind, and a message for people.
#[derive(Debug)]
pub struct Error {
    pub kind: ErrorKind,
    pub message: String,
}

impl Error {
    pub fn new(message: String, kind: ErrorKind) -> (e: Error)
        ensures
            e.kind == kind,
            e.message == message,
    {
        Error { kind, message }
    }

    /// An error of `kind` whose message is `text`.
    pub fn of(kind: ErrorKind, text: &str) -> (e: Error)
        ensures
            e.kind == kind,
            e.message@ == text@,
    {
        Error { kind, message: text.to_owned() }
    }
}

impl Clone for Error {
    fn clone(&self) -> (e: Error)
        ensures
            e == *self,
    {
        Error { kind: self.kind, message: self.message.clone() }
    }
}

} // verus!
