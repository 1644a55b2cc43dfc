//! Decisions of a terminal session's read operations.
//!
//! A session owns one channel — a dedicated terminal device, or the standard
//! input/error pair — and each read operation decides for itself whether to
//! switch the device into a hidden-entry mode and which delivery mode it
//! needs.  The guard for that switch lives for one read call only, since
//! every other operation wants the device's original canonical settings.

use vstd::prelude::*;

verus! {

/// A read operation of a terminal session.
#[derive(Clone, Copy, Debug, PartialEq, Eq, Structural)]
pub enum SessionOp {
    /// Silent secret read: echo hidden, line-buffered delivery.
    ReadSecret,
    /// Masked-feedback secret read: echo hidden, byte-by-byte delivery.
    ReadSecretWithFeedback,
    /// Cleartext read: the terminal keeps whatever settings it has.
    ReadCleartext,
}

/// Whether `op` switches the terminal into hidden-entry mode, and in which
/// delivery mode: `Some(char_by_char)` to acquire a guard, `None` to leave
/// the terminal untouched.
pub fn guard_request(op: &SessionOp) -> (r: Option<bool>)
    ensures
        op is ReadSecret ==> r == Some(false),
        op is ReadSecretWithFeedback ==> r == Some(true),
        op is ReadCleartext ==> r is None,
{
    match op {
        SessionOp::ReadSecret => Some(false),
        SessionOp::ReadSecretWithFeedback => Some(true),
        SessionOp::ReadCleartext => None,
    }
}

} // verus!
