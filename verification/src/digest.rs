//! Content digests of file bytes.
use vstd::prelude::*;
use sha2::{Digest, Sha256};

verus! {

/// The lowercase hexadecimal SHA-256 digest of `bytes`.
pub uninterp spec fn sha256_hex(bytes: Seq<u8>) -> Seq<char>;

/// A lowercase hexadecimal digit.
pub open spec fn is_lower_hex_digit(c: char) -> bool {
    ('0' <= c && c <= '9') || ('a' <= c && c <= 'f')
}

/// Calls `Sha256::new`, `Digest::update` and `Digest::finalize` of the `sha2` crate and formats
/// the 32-byte digest with `{:x}`.  Trusted: the result is the digest of `bytes` (named
/// `sha256_hex`), and `{:x}` of a 32-byte array writes two lowercase hexadecimal digits per byte.
#[verifier::external_body]
pub(crate) fn hash_bytes(bytes: &[u8]) -> (r: String)
    ensures
        r@ == sha256_hex(bytes@),
        r@.len() == 64,
        forall|i: int| 0 <= i < r@.len() ==> is_lower_hex_digit(#[trigger] r@[i]),
{
    let mut hasher = Sha256::new();
    hasher.update(bytes);
    format!("{:x}", hasher.finalize())
}

/// The digest of a file's content, if the file exists.
pub open spec fn content_digest(bytes: Option<Seq<u8>>) -> Option<Seq<char>> {
    match bytes {
        Some(b) => Some(sha256_hex(b)),
        None => None,
    }
}

/// The view of optional file content.
pub open spec fn bytes_view(bytes: &Option<Vec<u8>>) -> Option<Seq<u8>> {
    match bytes {
        Some(b) => Some(b@),
        None => None,
    }
}

/// The digest of optional file content.
pub fn digest_of(bytes: &Option<Vec<u8>>) -> (r: Option<String>)
    ensures
        r matches Some(h) ==> h@.len() == 64,
        crate::models::opt_view(r) == content_digest(bytes_view(bytes)),
{
    match bytes {
        Some(b) => Some(hash_bytes(b.as_slice())),
        None => None,
    }
}

} // verus!
