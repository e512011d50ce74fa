//! Content hashing: the MD5 digest of a file's bytes, rendered as the
//! fixed-width lowercase hexadecimal string that fingerprinted names embed.

use vstd::prelude::*;
use crate::hex::{hex_bytes, hex_of};
use md5::{Digest, Md5};

verus! {

pub uninterp spec fn md5_of(bytes: Seq<u8>) -> Seq<u8>;

/// Relies on md5::Md5 (the md-5 crate): Digest::digest computes the MD5 hash,
/// sixteen bytes that are a function of the input bytes alone.
#[verifier::external_body]
fn md5_digest(bytes: &[u8]) -> (r: Vec<u8>)
    ensures
        r@ == md5_of(bytes@),
        r@.len() == 16,
{
    Md5::digest(bytes).to_vec()
}

/// The digest string of a byte content: its MD5 hash in hexadecimal.
pub open spec fn digest_string_of(bytes: Seq<u8>) -> Seq<char> {
    hex_of(md5_of(bytes))
}

/// Hash a full byte content into its digest string.
pub fn hash_bytes(bytes: &[u8]) -> (r: String)
    ensures
        r@ == digest_string_of(bytes@),
        r@.len() == 32,
{
    let d = md5_digest(bytes);
    let r = hex_bytes(d.as_slice());
    proof {
        crate::hex::lemma_hex_of_len(md5_of(bytes@));
    }
    r
}

/// Digest determinism: equal byte contents render equal digest strings.
pub proof fn lemma_digest_deterministic(a: Seq<u8>, b: Seq<u8>)
    requires
        a == b,
    ensures
        digest_string_of(a) == digest_string_of(b),
{
}

} // verus!
