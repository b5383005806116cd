//! Base64 coding for chunk payloads carried over a text side channel.
//!
//! The `base64` crate's standard engine does the work; this module only
//! names its results. `base64_of` stands for the encoding of given
//! bytes, `base64_decode_of` for what decoding given text yields; the
//! encode wrapper records that decoding inverts encoding, which the
//! engine documents.

use vstd::prelude::*;
use base64::Engine;

verus! {

/// The standard base64 spelling of a byte string, as the `base64`
/// crate's STANDARD engine produces it.
pub uninterp spec fn base64_of(data: Seq<u8>) -> Seq<char>;

/// What the STANDARD engine's decode yields on given text: `None` for
/// text it rejects.
pub uninterp spec fn base64_decode_of(text: Seq<char>) -> Option<Seq<u8>>;

/// Relies on base64's `general_purpose::STANDARD.encode`: deterministic
/// in the input bytes, and inverted by the same engine's decode. The
/// length bound keeps the engine's output-size computation (four thirds
/// of the input, rounded up) away from its overflow panic.
#[verifier::external_body]
pub fn base64_encode(data: &[u8]) -> (r: String)
    requires
        data@.len() <= usize::MAX / 4,
    ensures
        r@ == base64_of(data@),
        base64_decode_of(r@) == Some(data@),
{
    base64::engine::general_purpose::STANDARD.encode(data)
}

/// Relies on base64's `general_purpose::STANDARD.decode`: deterministic
/// in the input text; `None` exactly on text the engine rejects.
#[verifier::external_body]
pub fn base64_decode(text: &str) -> (r: Option<Vec<u8>>)
    ensures
        match r {
            Some(b) => base64_decode_of(text@) == Some(b@),
            None => base64_decode_of(text@) is None,
        },
{
    match base64::engine::general_purpose::STANDARD.decode(text) {
        Ok(b) => Some(b),
        Err(_) => None,
    }
}

} // verus!
