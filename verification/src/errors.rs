//! Caller-facing error taxonomy for discovery, scanning and queue commands.

use vstd::prelude::*;

verus! {

/// Errors surfaced to the caller by the queue and target commands, and by
/// the game file scanner.  Probe failures during discovery are never
/// surfaced this way: an unreachable host simply stays out of the result
/// set.
#[derive(Clone, Copy, Debug, PartialEq, Eq, Structural)]
pub enum FtpError {
    /// The given host address is not a well-formed dotted quad.
    InvalidAddress,
    /// The connect test against the candidate target failed or timed out.
    Unreachable,
    /// The scan root does not exist.
    PathNotFound,
    /// The scan root exists but is a plain file.
    NotADirectory,
    /// The enqueued file path is already present in the queue.
    DuplicateEntry,
    /// No queued task carries the given file path.
    NotFound,
    /// The task with the given file path is the one currently transferring.
    InUse,
    /// The queue cannot be cleared while a transfer is in progress.
    Busy,
}

} // verus!
