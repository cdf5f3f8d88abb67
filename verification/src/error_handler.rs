//! An error handler holds the meta text that prefixes each reported error.
//! Reporting is output at the edge of the system: the driver around the
//! library prints `{text}: {error:?}` for every error handed to it.

use vstd::prelude::*;
use std::sync::Arc;

verus! {

/// Keeps the meta text to print before a log line.
pub struct LoggingErrorHandler {
    /// The text printed before each reported error.
    pub text: String,
}

impl LoggingErrorHandler {
    /// Creates `LoggingErrorHandler` with a meta text before a log.
    ///
    /// The logs will be printed in this format: `{text}: {:?}`.
    pub fn with_custom_text(text: String) -> (r: Arc<LoggingErrorHandler>)
        ensures
            (*r).text@ == text@,
    {
        Arc::new(LoggingErrorHandler { text })
    }

    /// A shortcut for
    /// `LoggingErrorHandler::with_custom_text("Error".to_owned())`.
    pub fn new() -> (r: Arc<LoggingErrorHandler>)
        ensures
            (*r).text@ == "Error"@,
    {
        LoggingErrorHandler::with_custom_text("Error".to_owned())
    }
}

} // verus!
