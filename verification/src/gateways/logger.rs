use crate::error::Error;
use vstd::prelude::*;

verus! {

/// A sink for log messages.
pub trait Logger: Sync + Send {
    /// Logs an error, with more context where there is any.
    fn error(&self, error: Error, additional_context: Option<&str>);

    /// Logs a warning, with the error that led to it where there is one.
    fn warning(&self, warning: &str, error: Option<Error>);

    /// Logs information, with the error it is about where there is one.
    fn info(&self, info: &str, error: Option<Error>);

    /// Logs a message for debugging.
    fn debug(&self, debug: &str);
}

} // verus!
