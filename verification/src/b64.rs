//! Base64 text of the handshake command fields (`alpha`, `beta`,
//! `omega`).  The encoding itself is done by the `base64` crate; the
//! contracts name its results so that the engine's rules can speak of
//! them exactly.

use vstd::prelude::*;

verus! {

/// The standard base64 text (with padding) of a byte string.
pub uninterp spec fn b64_encoding(s: Seq<u8>) -> Seq<u8>;

/// What standard base64 decoding yields on a text: `None` where the
/// text is not valid base64.
pub uninterp spec fn b64_decoding(s: Seq<u8>) -> Option<Seq<u8>>;

/// Relies on base64::encode: the standard alphabet with padding, a
/// function of the input bytes alone; base64::decode reads it back.
#[verifier::external_body]
pub fn b64_encode(b: &Vec<u8>) -> (r: Vec<u8>)
    ensures
        r@ == b64_encoding(b@),
        b64_decoding(r@) == Some(b@),
{
    base64::encode(b).into_bytes()
}

/// Relies on base64::decode: standard-alphabet decoding, a function of
/// the input bytes alone, failing on text outside the alphabet.
#[verifier::external_body]
pub fn b64_decode(b: &Vec<u8>) -> (r: Option<Vec<u8>>)
    ensures
        match r {
            Some(v) => b64_decoding(b@) == Some(v@),
            None => b64_decoding(b@) is None,
        },
{
    base64::decode(b).ok()
}

} // verus!
