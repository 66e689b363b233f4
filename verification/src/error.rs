//! Error values for ring construction and topology analysis.
//!
//! The core operations are total over their valid inputs: an empty ring or an
//! absent node is a defined empty result, never a failure.  These variants
//! exist for callers that validate configurations and must report a typed,
//! descriptive failure.

use vstd::prelude::*;
use vstd::string::StringExecFns;

verus! {

/// A typed failure carrying a descriptive message.
#[derive(Debug, Clone)]
pub enum Error {
    /// Invalid token value.
    InvalidToken(String),
    /// Invalid node configuration.
    InvalidNode(String),
    /// Ring operation failed.
    RingOperation(String),
    /// Topology error.
    Topology(String),
    /// Internal error.
    Internal(String),
}

/// The rendered message of an error: a variant prefix followed by the
/// carried description.
pub open spec fn message_chars(e: &Error) -> Seq<char> {
    match e {
        Error::InvalidToken(m) => "Invalid token: "@ + m@,
        Error::InvalidNode(m) => "Invalid node: "@ + m@,
        Error::RingOperation(m) => "Ring operation failed: "@ + m@,
        Error::Topology(m) => "Topology error: "@ + m@,
        Error::Internal(m) => "Internal error: "@ + m@,
    }
}

impl Error {
    /// Render the error as human-readable text.
    pub fn message(&self) -> (r: String)
        ensures
            r@ == message_chars(self),
    {
        let mut out: String = match self {
            Error::InvalidToken(_) => "Invalid token: ".to_owned(),
            Error::InvalidNode(_) => "Invalid node: ".to_owned(),
            Error::RingOperation(_) => "Ring operation failed: ".to_owned(),
            Error::Topology(_) => "Topology error: ".to_owned(),
            Error::Internal(_) => "Internal error: ".to_owned(),
        };
        match self {
            Error::InvalidToken(m) => out.append(m.as_str()),
            Error::InvalidNode(m) => out.append(m.as_str()),
            Error::RingOperation(m) => out.append(m.as_str()),
            Error::Topology(m) => out.append(m.as_str()),
            Error::Internal(m) => out.append(m.as_str()),
        }
        out
    }
}

} // verus!
