//! File digests as captures record them: `sha256:` and the lowercase hex of
//! the SHA-256 digest.

use vstd::prelude::*;
use crate::text::push_str;
use crate::util::{hex_encode, hex_text};

verus! {

/// The SHA-256 digest of a byte sequence.
pub uninterp spec fn sha256_of(bytes: Seq<u8>) -> Seq<u8>;

/// `sha2::Sha256::digest`: the SHA-256 digest of `bytes`, named
/// `sha256_of`; it is 32 bytes long.
#[verifier::external_body]
fn sha256(bytes: &[u8]) -> (r: Vec<u8>)
    ensures
        r@ == sha256_of(bytes@),
        r@.len() == 32,
{
    <sha2::Sha256 as sha2::Digest>::digest(bytes).to_vec()
}

/// The recorded digest label of a file's content.
pub open spec fn sha256_label_spec(content: Seq<u8>) -> Seq<char> {
    "sha256:"@ + hex_text(sha256_of(content))
}

/// The digest label of a file's content: `sha256:` followed by the 64 hex
/// digits of its SHA-256 digest.
pub fn sha256_label(content: &[u8]) -> (r: String)
    ensures
        r@ == sha256_label_spec(content@),
{
    let d = sha256(content);
    let mut r = String::new();
    push_str(&mut r, "sha256:");
    let h = hex_encode(d.as_slice());
    push_str(&mut r, h.as_str());
    r
}

} // verus!
