//! Sampling of call stacks from a running interpreter process.
//!
//! The library holds the decisions of a stack sampler: how a capture of all
//! threads is assembled under a locking strategy, how a paced stream of
//! samples isolates failures, how tracked processes are kept by process id,
//! and how the newest sample is rendered as a folded-stack line into a
//! caller's bounded buffer.
pub mod boundary;
pub mod buffer;
pub mod sampler;
pub mod spy;
pub mod trace;
