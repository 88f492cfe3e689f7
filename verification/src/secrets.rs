//! The secret resolver: turns a base64 ciphertext into the parameters of a
//! decrypt call, and turns decrypted plaintext bytes into a credential
//! string. The decrypt call itself is I/O and happens outside the library;
//! both credentials must be resolved before any request is built.

use vstd::prelude::*;

use crate::b64::{b64_decoded, decode_base64};
use crate::err::QueryError;

verus! {

/// Everything a decrypt call needs besides the fixed algorithm name: the
/// raw ciphertext bytes and the key identifier.
pub struct DecryptParams {
    pub ciphertext_blob: Vec<u8>,
    pub key_id: String,
}

/// The fixed algorithm named in every decrypt request.
pub fn encryption_algorithm() -> (r: &'static str)
    ensures
        r@ == "SYMMETRIC_DEFAULT"@,
{
    "SYMMETRIC_DEFAULT"
}

/// Decoding the ciphertext is the only work done before the decrypt call:
/// it succeeds exactly when the input is valid base64, so an invalid input
/// fails before any request parameters exist.
pub fn prepare_decrypt(ciphertext_b64: &[u8], key_id: &str) -> (r: Result<
    DecryptParams,
    QueryError,
>)
    ensures
        r is Ok <==> b64_decoded(ciphertext_b64@) is Some,
        r matches Ok(p) ==> Some(p.ciphertext_blob@) == b64_decoded(ciphertext_b64@) && p.key_id@
            == key_id@,
        r matches Err(e) ==> e == QueryError::BadBase64,
{
    match decode_base64(ciphertext_b64) {
        Ok(blob) => Ok(DecryptParams { ciphertext_blob: blob, key_id: key_id.to_owned() }),
        Err(_) => Err(QueryError::BadBase64),
    }
}

/// Relies on `String::from_utf8`: `Ok` exactly when the bytes are valid
/// UTF-8, and then a string holding those very bytes.
#[verifier::external_body]
fn string_from_bytes(b: Vec<u8>) -> (r: Option<String>)
    ensures
        r is Some <==> vstd::utf8::valid_utf8(b@),
        r matches Some(s) ==> vstd::utf8::encode_utf8(s@) == b@ && s@ == vstd::utf8::decode_utf8(
            b@,
        ),
{
    match String::from_utf8(b) {
        Ok(s) => Some(s),
        Err(_) => None,
    }
}

/// The decrypted plaintext becomes a credential exactly when it is valid
/// UTF-8; the credential is that plaintext, byte for byte.
pub fn credential_from_plaintext(plaintext: Vec<u8>) -> (r: Result<String, QueryError>)
    ensures
        r is Ok <==> vstd::utf8::valid_utf8(plaintext@),
        r matches Ok(s) ==> vstd::utf8::encode_utf8(s@) == plaintext@,
        r matches Err(e) ==> e == QueryError::BadUtf8,
{
    match string_from_bytes(plaintext) {
        Some(s) => Ok(s),
        None => Err(QueryError::BadUtf8),
    }
}

} // verus!
