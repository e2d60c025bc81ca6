//! Content hashing: asset output keys are the SHA-256 of the asset's URL,
//! written as lowercase hex.

use sha2::Digest;
use vstd::prelude::*;

verus! {

/// What the SHA-256-of-a-string-as-hex pipeline returns: a function of the
/// input characters alone.
pub uninterp spec fn sha256_hex_of(s: Seq<char>) -> Seq<char>;

/// Relies on `sha2::Sha256::digest` (a 32-byte digest, deterministic in
/// its input) and `LowerHex` formatting (two hex digits per byte), so the
/// result has exactly 64 characters.
#[verifier::external_body]
pub(crate) fn sha256_hex(s: &str) -> (r: String)
    ensures
        r@ == sha256_hex_of(s@),
        r@.len() == 64,
{
    format!("{:x}", sha2::Sha256::digest(s.as_bytes()))
}

} // verus!
