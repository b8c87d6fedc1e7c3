//! A structured error: who should handle it, what kind it is, and a message.
use crate::text::converts;
use vstd::prelude::*;

verus! {

/// Who should handle an [`Error`].
#[derive(Clone, Copy, Debug, Eq, Hash, PartialEq, Structural)]
pub enum Audience {
    /// The error is meant for the end user.
    User,
    /// The error is meant for operators: logs and metrics.
    System,
}

/// A coarse category of [`Error`].
#[derive(Clone, Copy, Debug, Eq, Hash, PartialEq, Structural)]
pub enum Kind {
    /// A value exceeds the maximum allowed length.
    ExceedsMax,
    /// A value is below the minimum allowed length.
    BelowMin,
    /// An entity was not found.
    NotFound,
    /// The supplied input does not meet the required constraints.
    InvalidInput,
    /// None of the other kinds applies.
    Unexpected,
    /// A gateway adapter failed.
    GatewayError,
    /// A use case failed.
    UsecaseError,
    /// The user lacks a required permission.
    PermissionDenied,
    /// Local, in-memory processing failed.
    ProcessingFailure,
}

/// An error with its classification and an owned, human-readable message.
#[derive(Clone, Debug, Eq, Hash, PartialEq)]
pub struct Error {
    pub audience: Audience,
    pub kind: Kind,
    pub message: String,
}

impl Error {
    /// This error has the given classification and message text.
    pub open spec fn is(&self, audience: Audience, kind: Kind, message: Seq<char>) -> bool {
        &&& self.audience == audience
        &&& self.kind == kind
        &&& self.message@ == message
    }

    /// This error has the given classification, and its message is what
    /// `message` is turned into.
    pub open spec fn is_made_of<M: Into<String>>(
        &self,
        audience: Audience,
        kind: Kind,
        message: M,
    ) -> bool {
        &&& self.audience == audience
        &&& self.kind == kind
        &&& converts(message, self.message)
    }

    /// An error with the given audience, kind and message.
    pub fn new(audience: Audience, kind: Kind, message: impl Into<String>) -> (r: Error)
        ensures
            r.is_made_of(audience, kind, message),
    {
        Error { audience, kind, message: message.into() }
    }

    /// An error of the given kind for the end user.
    pub fn for_user(kind: Kind, message: impl Into<String>) -> (r: Error)
        ensures
            r.is_made_of(Audience::User, kind, message),
    {
        Error::new(Audience::User, kind, message)
    }

    /// An error of the given kind for operators.
    pub fn for_system(kind: Kind, message: impl Into<String>) -> (r: Error)
        ensures
            r.is_made_of(Audience::System, kind, message),
    {
        Error::new(Audience::System, kind, message)
    }

    /// Whether the error is meant for the end user.
    pub fn is_user(&self) -> (r: bool)
        ensures
            r == (self.audience == Audience::User),
    {
        self.audience == Audience::User
    }

    /// Whether the error is meant for operators.
    pub fn is_system(&self) -> (r: bool)
        ensures
            r == (self.audience == Audience::System),
    {
        self.audience == Audience::System
    }

    /// The text to show for this error: its message and nothing else.
    pub fn to_string(&self) -> (s: String)
        ensures
            s@ == self.message@,
    {
        self.message.clone()
    }
}

} // verus!
