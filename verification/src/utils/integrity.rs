use vstd::prelude::*;

use crate::codec::{base64_encode, base64_text};
use crate::text::hex_lower;

verus! {

/// The SHA-1 digest of `data` (20 bytes), as the sha1 crate computes it.
pub uninterp spec fn sha1_digest(data: Seq<u8>) -> Seq<u8>;

/// The SHA-512 digest of `data` (64 bytes), as the sha2 crate computes it.
pub uninterp spec fn sha512_digest(data: Seq<u8>) -> Seq<u8>;

/// sha1's `Sha1::new`, `update` and `digest`, written with the digest's
/// `Display`, which prints the five state words as eight lower-case hex
/// digits each: the digest's 20 bytes in lower-case hex.
#[verifier::external_body]
fn sha1_hex(data: &[u8]) -> (r: String)
    ensures
        r@ == hex_lower(sha1_digest(data@)),
{
    let mut hasher = sha1::Sha1::new();
    hasher.update(data);
    hasher.digest().to_string()
}

/// sha2's `Sha512::digest`: the 64 bytes of the SHA-512 digest of `data`.
#[verifier::external_body]
fn sha512(data: &[u8]) -> (r: Vec<u8>)
    ensures
        r@ == sha512_digest(data@),
        r@.len() == 64,
{
    <sha2::Sha512 as sha2::Digest>::digest(data).to_vec()
}

/// Returns bytes shasum: the SHA-1 digest in lower-case hex.
pub fn shasum(body: &[u8]) -> (r: String)
    ensures
        r@ == hex_lower(sha1_digest(body@)),
{
    sha1_hex(body)
}

/// Returns the Standard Subresource Integrity with a sha512 algorithm:
/// `sha512-` and the base64 text of the SHA-512 digest.
pub fn ssri_512(body: &[u8]) -> (r: String)
    ensures
        r@ == "sha512-"@ + base64_text(sha512_digest(body@)),
{
    let digest = sha512(body);
    let encoded = base64_encode(digest.as_slice());
    let mut r = String::from_str("sha512-");
    r.append(encoded.as_str());
    r
}

} // verus!
