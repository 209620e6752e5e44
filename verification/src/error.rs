//! The failures that loading and replaying a container can end in.

use vstd::prelude::*;

verus! {

/// Why a load or a replay pass was abandoned.
#[derive(Clone, Copy, Debug, PartialEq, Eq, Structural)]
pub enum ReplayError {
    /// The trailing magic marker is missing or wrong, or the footer is truncated.
    MalformedContainer,
    /// The footer names no summary section: the file carries no index.
    MissingIndex,
    /// A schema record carries the reserved id 0.
    InvalidCatalogEntry,
    /// A frame could not be decoded: its opcode does not fit its payload.
    Decode,
}

impl ReplayError {
    /// A short description of the failure, as shown to the user.
    pub fn message(&self) -> (text: &'static str)
        ensures
            text@ == (match *self {
                ReplayError::MalformedContainer => "bad footer magic"@,
                ReplayError::MissingIndex => "missing summary section"@,
                ReplayError::InvalidCatalogEntry => "invalid schema id"@,
                ReplayError::Decode => "malformed record"@,
            }),
    {
        match self {
            ReplayError::MalformedContainer => "bad footer magic",
            ReplayError::MissingIndex => "missing summary section",
            ReplayError::InvalidCatalogEntry => "invalid schema id",
            ReplayError::Decode => "malformed record",
        }
    }
}

} // verus!
