//! The kinds of failure the exporter tells apart, and which of them end it.

use vstd::prelude::*;

verus! {

/// A failure of the exporter.
#[derive(Clone, Debug, PartialEq, Eq)]
pub enum ExportError {
    /// The backend never reported ready during startup.
    StartupUnreachable,
    /// The event source could not be opened.
    SourceOpenFailure,
    /// A batch could not be read from the event source.
    SourceReadFailure,
    /// A batch could not be put into the backend's format: the JSON writer
    /// reported an error.
    SerializationFailure,
    /// The backend answered with a status other than success.
    DeliveryRejected { status: u16, body: String },
    /// No answer was obtained from the backend.
    DeliveryUnreachable { detail: String },
}

impl ExportError {
    /// Only failures of the startup phase end the process.
    pub open spec fn fatal(&self) -> bool {
        self is StartupUnreachable || self is SourceOpenFailure
    }

    /// Failures of steady operation count toward backoff and are retried.
    pub open spec fn recoverable(&self) -> bool {
        !self.fatal()
    }

    /// Whether this failure ends the process instead of being retried.
    pub fn is_fatal(&self) -> (r: bool)
        ensures
            r == self.fatal(),
    {
        match self {
            ExportError::StartupUnreachable => true,
            ExportError::SourceOpenFailure => true,
            _ => false,
        }
    }
}

} // verus!
