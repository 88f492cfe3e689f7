//! Error values for every fatal condition the pipeline can hit.

use vstd::prelude::*;

verus! {

/// One variant per fatal condition: bad base64 ciphertext, bytes that are
/// not UTF-8 (a decrypted plaintext or a response body), a response status
/// other than 200, a response body that is not a table-shaped JSON
/// document, and a data row with no cells at all.
#[derive(Debug, PartialEq, Eq, Structural)]
pub enum QueryError {
    BadBase64,
    BadUtf8,
    BadStatus(u16),
    BadBody,
    EmptyRow,
}

} // verus!
