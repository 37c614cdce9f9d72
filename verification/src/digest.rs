//! Labelled SHA-256 digests: `<label>:<lower-case hex of SHA-256(UTF-8 text)>`.
use sha2::Digest;
use vstd::prelude::*;
use vstd::string::StringSliceAdditionalSpecFns;
use crate::text::{hex_encode, push_hex_bytes};

verus! {

/// SHA-256 of a byte string.
pub uninterp spec fn sha256_of(data: Seq<u8>) -> Seq<u8>;

/// Runs `sha2::Sha256::digest` on `data`. What is assumed: the result is
/// the 32-byte SHA-256 digest, named `sha256_of(data)`.
#[verifier::external_body]
fn sha256(data: &[u8]) -> (r: Vec<u8>)
    ensures
        r@ == sha256_of(data@),
        r@.len() == 32,
{
    sha2::Sha256::digest(data).to_vec()
}

/// The labelled digest text of `value`.
pub open spec fn tagged_sha256_text(label: Seq<char>, value: Seq<char>) -> Seq<char> {
    label + ":"@ + hex_encode(sha256_of(vstd::utf8::encode_utf8(value)))
}

/// `label:` followed by the lower-case hex SHA-256 digest of `value`'s UTF-8 bytes.
pub fn tagged_sha256(value: &str, label: &str) -> (r: String)
    ensures
        r@ == tagged_sha256_text(label@, value@),
        r@.len() == label@.len() + 65,
{
    let digest = sha256(value.as_bytes());
    let mut out = label.to_owned();
    out.append(":");
    push_hex_bytes(&mut out, digest.as_slice());
    proof {
        assert(value.spec_bytes() == vstd::utf8::encode_utf8(value@));
        reveal_strlit(":");
        assert(hex_encode(digest@).len() == 64);
    }
    out
}

} // verus!
