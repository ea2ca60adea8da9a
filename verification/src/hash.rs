//! Fingerprints of file contents.

use sha2::{Digest, Sha256};
use vstd::prelude::*;

verus! {

/// The SHA-256 digest of the bytes.
pub uninterp spec fn sha256_digest(b: Seq<u8>) -> Seq<u8>;

/// `Sha256::new`, `update` and `finalize` of `sha2`: the SHA-256 digest of the
/// bytes, which has 32 bytes.
#[verifier::external_body]
pub(crate) fn sha256(b: &[u8]) -> (r: Vec<u8>)
    ensures
        r@ == sha256_digest(b@),
        r@.len() == 32,
{
    let mut hasher = Sha256::new();
    hasher.update(b);
    hasher.finalize().to_vec()
}

/// The lower case hexadecimal digit of a number below sixteen.
pub open spec fn hex_digit(d: int) -> char {
    if d < 10 {
        ('0' as int + d) as char
    } else {
        ('a' as int + (d - 10)) as char
    }
}

/// Two lower case hexadecimal digits for each byte.
pub open spec fn hex_text(b: Seq<u8>) -> Seq<char> {
    Seq::new(
        2 * b.len(),
        |i: int|
            if i % 2 == 0 {
                hex_digit(b[i / 2] as int / 16)
            } else {
                hex_digit(b[i / 2] as int % 16)
            },
    )
}

/// `hex::encode`: two lower case hexadecimal digits for each byte, the high one
/// first.
#[verifier::external_body]
pub(crate) fn hex_encode(b: &Vec<u8>) -> (r: String)
    ensures
        r@ == hex_text(b@),
{
    hex::encode(b)
}

/// The fingerprint of a content, in hexadecimal digits.
pub open spec fn fingerprint(b: Seq<u8>) -> Seq<char> {
    hex_text(sha256_digest(b))
}

/// The fingerprint of a content, in hexadecimal digits.
pub fn content_hash(content: &[u8]) -> (r: String)
    ensures
        r@ == fingerprint(content@),
        r@.len() == 64,
{
    hex_encode(&sha256(content))
}

} // verus!
