//! Error kinds reported by the secret-entry core.

use vstd::prelude::*;

verus! {

/// Failure of a single write into a [`crate::buffer::SecureBuffer`]:
/// the index lies in the slot reserved for the implicit terminator or beyond.
#[derive(Clone, Copy, Debug, PartialEq, Eq, Structural)]
pub enum BufferError {
    CapacityExceeded,
}

/// Errors surfaced at the boundary of the secret-entry core.
#[derive(Clone, Copy, Debug, PartialEq, Eq, Structural)]
pub enum TermError {
    /// No controlling terminal device exists; callers degrade to the
    /// standard-channel mode instead of failing outright.
    DeviceUnavailable,
    /// The typed secret did not fit in the fixed-capacity buffer; the
    /// truncated attempt is wiped and the read is aborted.
    SecretTooLong,
    /// An underlying read, write or terminal-control operation failed.
    IoError,
}

impl TermError {
    /// A short description of the error, for display by callers.
    pub fn message(&self) -> (r: &'static str)
        ensures
            self is DeviceUnavailable ==> r@ =~= "no terminal device available"@,
            self is SecretTooLong ==> r@ =~= "incorrect password attempt"@,
            self is IoError ==> r@ =~= "input/output error"@,
    {
        match self {
            TermError::DeviceUnavailable => "no terminal device available",
            TermError::SecretTooLong => "incorrect password attempt",
            TermError::IoError => "input/output error",
        }
    }
}

} // verus!
