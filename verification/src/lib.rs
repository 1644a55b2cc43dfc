//! Interactive secret entry for command-line authentication prompts.
//!
//! The crate reads a secret typed at a terminal without echoing it, optionally
//! drawing masked feedback, and keeps the secret in a fixed-capacity buffer:
//! every read that fails wipes the partial secret before returning, and
//! callers wipe a delivered buffer once they are done with it.  The
//! line-editing rules (erase-one, erase-all, end-of-input) follow the
//! terminal driver's own control-character bindings.

pub mod buffer;
pub mod errors;
pub mod reader;
pub mod session;
pub mod settings;
