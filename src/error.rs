//! Error kinds reported to callers.

use vstd::prelude::*;

verus! {

/// The error taxonomy of the manager.
#[derive(Clone, Copy, Debug, PartialEq, Eq, Structural)]
pub enum ErrorCode {
    /// Unknown game, unknown profile, or no running game on record.
    NotFound,
    /// A name or a running process is already taken.
    Conflict,
    /// File-system failure or malformed stored data.
    InternalError,
    /// The runner could not be provisioned, is missing, or the platform is
    /// not supported.
    ExternalToolError,
}

} // verus!
