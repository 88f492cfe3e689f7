//! Base64 encoding and decoding, done by the `base64` crate behind trusted
//! wrappers. Encoding has an exact specification; decoding is named, since
//! stating the accepted grammar exactly would restate the crate.

use vstd::prelude::*;

verus! {

/// The standard base64 alphabet, one byte per 6-bit value.
pub open spec fn b64_alphabet(v: int) -> u8
    recommends
        0 <= v < 64,
{
    if v < 26 {
        (65 + v) as u8  // 'A'..='Z'
    } else if v < 52 {
        (97 + (v - 26)) as u8  // 'a'..='z'
    } else if v < 62 {
        (48 + (v - 52)) as u8  // '0'..='9'
    } else if v == 62 {
        43u8  // '+'
    } else {
        47u8  // '/'
    }
}

/// Standard padded base64 encoding: each full 3-byte group becomes 4
/// alphabet bytes; a trailing group of 1 or 2 bytes is padded with `=`.
pub open spec fn b64_encode(s: Seq<u8>) -> Seq<u8>
    decreases s.len(),
{
    if s.len() == 0 {
        Seq::empty()
    } else if s.len() == 1 {
        let a = s[0] as int;
        seq![b64_alphabet(a / 4), b64_alphabet((a % 4) * 16), 61u8, 61u8]
    } else if s.len() == 2 {
        let a = s[0] as int;
        let b = s[1] as int;
        seq![
            b64_alphabet(a / 4),
            b64_alphabet((a % 4) * 16 + b / 16),
            b64_alphabet((b % 16) * 4),
            61u8,
        ]
    } else {
        let a = s[0] as int;
        let b = s[1] as int;
        let c = s[2] as int;
        seq![
            b64_alphabet(a / 4),
            b64_alphabet((a % 4) * 16 + b / 16),
            b64_alphabet((b % 16) * 4 + c / 64),
            b64_alphabet(c % 64),
        ] + b64_encode(s.skip(3))
    }
}

/// The bytes that standard base64 decoding yields on a given input, or
/// `None` where the input is rejected.
pub uninterp spec fn b64_decoded(s: Seq<u8>) -> Option<Seq<u8>>;

#[verifier::external_type_specification]
#[verifier::external_body]
pub struct ExDecodeError(base64::DecodeError);

/// Relies on `base64::encode`: standard alphabet, `=`-padded output.
#[verifier::external_body]
pub(crate) fn encode_base64(b: &[u8]) -> (r: Vec<u8>)
    ensures
        r@ == b64_encode(b@),
{
    base64::encode(b).into_bytes()
}

/// Relies on `base64::decode`: `Ok` exactly on the inputs the standard
/// configuration accepts, and then the decoded bytes.
#[verifier::external_body]
pub(crate) fn decode_base64(b: &[u8]) -> (r: Result<Vec<u8>, base64::DecodeError>)
    ensures
        r is Ok <==> b64_decoded(b@) is Some,
        r matches Ok(v) ==> b64_decoded(b@) == Some(v@),
{
    base64::decode(b)
}

} // verus!
