//! Payload fingerprints: the lowercase hexadecimal SHA-256 of the bytes.

use vstd::prelude::*;

verus! {

/// Number of characters of a fingerprint.
pub const FINGERPRINT_LEN: usize = 64;

/// The SHA-256 digest of `payload`, written as lowercase hexadecimal text.
/// This is what `sha256::digest` returns for a byte slice.
pub uninterp spec fn sha256_hex(payload: Seq<u8>) -> Seq<char>;

/// A lowercase hexadecimal digit.
pub open spec fn is_lower_hex(c: char) -> bool {
    ('0' <= c && c <= '9') || ('a' <= c && c <= 'f')
}

/// A well-formed fingerprint: 64 lowercase hexadecimal digits.
pub open spec fn is_fingerprint(s: Seq<char>) -> bool {
    &&& s.len() == FINGERPRINT_LEN
    &&& forall|i: int| 0 <= i < s.len() ==> is_lower_hex(#[trigger] s[i])
}

/// Calls `sha256::digest` on a byte slice. The crate hashes the bytes with
/// SHA-256 and hex-encodes the 32-byte digest in lowercase, so the text has
/// 64 characters, all of them lowercase hexadecimal digits, and depends on
/// the bytes alone.
#[verifier::external_body]
fn sha256_digest(payload: &[u8]) -> (hex: String)
    ensures
        hex@ == sha256_hex(payload@),
        is_fingerprint(hex@),
{
    sha256::digest(payload)
}

/// The fingerprint of a payload. It is a function of the bytes alone: it
/// never fails, and neither earlier calls nor the state of any store bear
/// on it.
pub fn fingerprint(payload: &[u8]) -> (fp: String)
    ensures
        fp@ == sha256_hex(payload@),
        is_fingerprint(fp@),
{
    sha256_digest(payload)
}

} // verus!
