//! The hardware fingerprint: a keyed SHA-256 digest over the system
//! identifier, the CPU identifier and the serial of the root drive.

use vstd::prelude::*;
use crate::detect::ProbeError;

verus! {

/// The characters of a digest: decimal digits and the letters `a` to `f`.
pub open spec fn is_lower_hex(c: char) -> bool {
    ('0' <= c && c <= '9') || ('a' <= c && c <= 'f')
}

/// A SHA-256 digest written out: 64 lower-case hexadecimal characters.
pub open spec fn is_digest(text: Seq<char>) -> bool {
    &&& text.len() == 64
    &&& forall|i: int| 0 <= i < text.len() ==> is_lower_hex(#[trigger] text[i])
}

/// The key under which the fingerprint is taken.
pub const KEY: &'static str = "licker";

/// Calls `machineid_rs::IdBuilder::build` on a SHA-256 builder that holds the
/// components `SystemID`, `CPUID` and `DriveSerial`, in that order, with
/// `key` as the HMAC key; a failure is handed back as its message.
///
/// The builder reads the machine, so nothing is claimed about which digest
/// comes back or whether one does. What is claimed is its shape: the builder
/// hex-encodes the 32 bytes of an HMAC-SHA-256 tag in lower case. The builder
/// is never empty here, which is the one case in which `build` panics.
#[verifier::external_body]
fn fingerprint(key: &str) -> (r: Result<String, String>)
    ensures
        r matches Ok(digest) ==> is_digest(digest@),
{
    let mut builder = machineid_rs::IdBuilder::new(machineid_rs::Encryption::SHA256);
    builder
        .add_component(machineid_rs::HWIDComponent::SystemID)
        .add_component(machineid_rs::HWIDComponent::CPUID)
        .add_component(machineid_rs::HWIDComponent::DriveSerial);
    match builder.build(key) {
        Ok(digest) => Ok(digest),
        Err(error) => Err(error.to_string()),
    }
}

/// Turns the outcome of fingerprinting into the probe's answer: a digest is
/// passed on as it is, and any failure, whatever its message, becomes
/// [`ProbeError::Unavailable`].
pub fn id_from(outcome: Result<String, String>) -> (r: Result<String, ProbeError>)
    ensures
        outcome matches Ok(digest) ==> r == Ok::<String, ProbeError>(digest),
        outcome is Err ==> r == Err::<String, ProbeError>(ProbeError::Unavailable),
{
    match outcome {
        Ok(digest) => Ok(digest),
        Err(_) => Err(ProbeError::Unavailable),
    }
}

/// The hashed identifier of this machine, keyed with [`KEY`].
///
/// Which digest comes back depends on the machine. Whatever the machine, an
/// answer is a well-formed digest and a failure is
/// [`ProbeError::Unavailable`]; [`id_from`] states how the two arise.
pub fn id() -> (r: Result<String, ProbeError>)
    ensures
        r matches Ok(digest) ==> is_digest(digest@),
        r matches Err(e) ==> e == ProbeError::Unavailable,
{
    id_from(fingerprint(KEY))
}

} // verus!
