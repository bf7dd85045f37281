//! The probes. Each one reads a single category of fact and fails on its
//! own, without touching what the others found.

use vstd::prelude::*;

pub mod app;
pub mod hw;
pub mod os;
pub mod pacman;

verus! {

/// Why a probe could not report its fact.
#[derive(Debug, Clone, Copy, PartialEq, Eq, Structural)]
pub enum ProbeError {
    /// A source that the hardware fingerprint is made of could not be read.
    Unavailable,
    /// The system call that identifies the kernel reported failure.
    SyscallFailed,
    /// The release file could not be read or names no distribution.
    NotFound,
}

} // verus!
