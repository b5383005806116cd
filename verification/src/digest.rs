//! SHA-256 digests for transfer integrity checks.
//!
//! The digest itself comes from the `sha2` crate and is only named here,
//! never restated: `sha256_of` stands for whatever SHA-256 returns on
//! given bytes, the same in every process. The verified code around it
//! compares spellings of that name.

use vstd::prelude::*;
use sha2::Digest;
use crate::text::{hex_of, hex_string, lemma_hex_of_len};

verus! {

/// The SHA-256 digest of a byte string. A pure function of the bytes; the
/// `sha2` crate computes it.
pub uninterp spec fn sha256_of(data: Seq<u8>) -> Seq<u8>;

/// Relies on `sha2::Sha256` through the `Digest` trait: the digest is a
/// function of the input bytes alone and is 32 bytes long.
#[verifier::external_body]
pub fn sha256(data: &[u8]) -> (r: Vec<u8>)
    ensures
        r@ == sha256_of(data@),
        r@.len() == 32,
{
    sha2::Sha256::digest(data).to_vec()
}

/// The lower-case hex spelling of the SHA-256 digest, 64 characters.
pub fn sha256_hex(data: &[u8]) -> (r: String)
    ensures
        r@ == hex_of(sha256_of(data@)),
        r@.len() == 64,
{
    let digest = sha256(data);
    let r = hex_string(digest.as_slice());
    proof {
        lemma_hex_of_len(sha256_of(data@));
    }
    r
}

} // verus!
