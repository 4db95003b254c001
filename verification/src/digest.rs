//! Content digests.
//!
//! The parcel store addresses content by the SHA-256 digest of its
//! bytes, rendered as 64 lowercase hexadecimal characters.  The digest
//! itself is computed by the `sha2` crate; this module names its result
//! so that contracts elsewhere can speak about it exactly.

use vstd::prelude::*;

verus! {

/// The SHA-256 digest of `bytes`, as 64 lowercase hexadecimal
/// characters.  The digest is a pure function of the bytes alone; what
/// its value is on given bytes is known only to the implementation.
pub uninterp spec fn sha256_hex_of(bytes: Seq<u8>) -> Seq<char>;

/// Relies on `sha2::Sha256` through `sha2::Digest::digest`, which maps
/// the input bytes to their 32-byte SHA-256 digest, and on
/// generic-array's `LowerHex` formatting, which renders those 32 bytes
/// as 64 lowercase hexadecimal characters.
#[verifier::external_body]
pub(crate) fn sha256_hex(bytes: &[u8]) -> (r: String)
    ensures
        r@ == sha256_hex_of(bytes@),
        r@.len() == 64,
{
    format!("{:x}", <sha2::Sha256 as sha2::Digest>::digest(bytes))
}

} // verus!
