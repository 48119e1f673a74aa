//! Network service discovery and FTP transfer queueing for a local
//! file-serving device.
//!
//! The crate covers three subsystems:
//!
//! * discovery: turning a dotted-quad range into candidate hosts, collecting
//!   reachability results, and diffing consecutive scans;
//! * scanning: walking a directory tree for transferable game files;
//! * transfers: an ordered, deduplicated queue of outbound transfers drained
//!   by a single worker, with progress and terminal events.
//!
//! All state machines here are pure: reachability probes, file reads and the
//! clock are performed by the embedding program and handed in as plain
//! values, so every decision the crate makes is verified.  The one outside
//! call made from this crate is the FTP upload itself.

pub mod discovery;
pub mod errors;
pub mod files;
pub mod laws;
pub mod manager;
pub mod text;
pub mod transfer;

pub use errors::FtpError;
