//! Host inventory: the facts about one machine (a hardware fingerprint, the
//! operating system's identity, the installed packages), the record that
//! merges them for the wire, and the rules by which a submission of that
//! record to a collection service is started and concluded.
//!
//! The functions here are proved against the contracts they carry. A few of
//! them call into other crates; each such call stands in a small function of
//! its own, whose contract is believed and says so. Reading files, running
//! the package manager and talking to the network are left to the caller,
//! who hands the bytes and status codes in as plain values.

pub mod detect;
pub mod json;
pub mod payload;
pub mod submit;
pub mod text;
