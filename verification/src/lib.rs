//! Verified core of a one-shot graph-database query tool.
//!
//! The library holds the computational steps of the pipeline: decoding
//! base64 ciphertext into decrypt-request parameters, validating decrypted
//! plaintext, building the authenticated HTTP request pieces (Basic auth
//! header value and JSON body), checking the response status, parsing the
//! tabular JSON response, and rendering the title lines. All I/O (the
//! key-management calls and the HTTP exchange) lives outside the library.

mod b64;
mod err;
mod parse;
mod request;
mod secrets;
mod table;

pub use b64::{b64_alphabet, b64_decoded, b64_encode};
pub use err::QueryError;
pub use parse::{cells_view, parse_table, rows_view, spec_parse_table};
pub use request::{basic_auth_value, check_status, dec_digits, dec_int, query_body,
    spec_basic_auth, spec_query_body};
pub use secrets::{credential_from_plaintext, encryption_algorithm, prepare_decrypt,
    DecryptParams};
pub use table::{all_rows_nonempty, parse_response, process_response, quote_cell, render_titles,
    spec_escape, spec_escape_byte, spec_hex_digit, spec_lines, spec_quote, Table};
