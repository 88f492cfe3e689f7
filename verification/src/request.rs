//! Building the authenticated query request: the Basic auth header value,
//! the JSON body carrying the fixed query text and the year range, and the
//! strict status check applied to the response.

use vstd::prelude::*;
use vstd::string::StringSliceAdditionalSpecFns;

use crate::b64::{b64_encode, encode_base64};
use crate::err::QueryError;

verus! {

/// Decimal digits of a non-negative integer, most significant first.
pub open spec fn dec_digits(n: int) -> Seq<u8>
    recommends
        n >= 0,
    decreases n,
{
    if n < 10 {
        seq![(48 + n) as u8]
    } else {
        dec_digits(n / 10).push((48 + n % 10) as u8)
    }
}

/// Decimal rendering of an integer: a leading `-` on negatives.
pub open spec fn dec_int(n: int) -> Seq<u8> {
    if n < 0 {
        seq![45u8] + dec_digits(-n)
    } else {
        dec_digits(n)
    }
}

/// Appends the decimal digits of `n`.
fn push_dec_u32(v: &mut Vec<u8>, n: u32)
    ensures
        final(v)@ == old(v)@ + dec_digits(n as int),
    decreases n,
{
    if n < 10 {
        v.push((48 + n) as u8);
        assert(v@ =~= old(v)@ + dec_digits(n as int));
    } else {
        push_dec_u32(v, n / 10);
        v.push((48 + (n % 10)) as u8);
        assert(v@ =~= old(v)@ + dec_digits(n as int));
    }
}

/// Appends the decimal rendering of `n`, sign included.
fn push_dec_i32(v: &mut Vec<u8>, n: i32)
    ensures
        final(v)@ == old(v)@ + dec_int(n as int),
{
    if n < 0 {
        v.push(45);
        let m: u32 = (-(n as i64)) as u32;
        assert(m as int == -(n as int));
        push_dec_u32(v, m);
        assert(v@ =~= old(v)@ + dec_int(n as int));
    } else {
        push_dec_u32(v, n as u32);
    }
}

/// The JSON request body for a year range: the fixed query text and a
/// `params` object holding `start` and `end` as decimal integers.
pub open spec fn spec_query_body(start: int, end: int) -> Seq<u8> {
    "{\"query\":\"MATCH (r:Movie) WHERE r.released >= {start} AND r.released < {end} RETURN r.title\",\"params\":{\"start\":".spec_bytes()
        + dec_int(start) + ",\"end\":".spec_bytes() + dec_int(end) + "}}".spec_bytes()
}

/// Builds the JSON request body, exactly as `spec_query_body` states it.
pub fn query_body(start: i32, end: i32) -> (r: Vec<u8>)
    ensures
        r@ == spec_query_body(start as int, end as int),
{
    let mut v: Vec<u8> = Vec::new();
    v.extend_from_slice(
        "{\"query\":\"MATCH (r:Movie) WHERE r.released >= {start} AND r.released < {end} RETURN r.title\",\"params\":{\"start\":".as_bytes(),
    );
    push_dec_i32(&mut v, start);
    v.extend_from_slice(",\"end\":".as_bytes());
    push_dec_i32(&mut v, end);
    v.extend_from_slice("}}".as_bytes());
    assert(v@ =~= spec_query_body(start as int, end as int));
    v
}

/// The Basic auth header value for a user and password: the base64
/// encoding of `user:password`, after the fixed `Basic ` prefix.
pub open spec fn spec_basic_auth(user: Seq<char>, password: Seq<char>) -> Seq<u8> {
    "Basic ".spec_bytes() + b64_encode(
        vstd::utf8::encode_utf8(user) + ":".spec_bytes() + vstd::utf8::encode_utf8(password),
    )
}

/// Builds the `Authorization` header value, exactly as `spec_basic_auth`
/// states it.
pub fn basic_auth_value(user: &str, password: &str) -> (r: Vec<u8>)
    ensures
        r@ == spec_basic_auth(user@, password@),
{
    let mut joined: Vec<u8> = Vec::new();
    joined.extend_from_slice(user.as_bytes());
    joined.extend_from_slice(":".as_bytes());
    joined.extend_from_slice(password.as_bytes());
    assert(joined@ =~= vstd::utf8::encode_utf8(user@) + ":".spec_bytes()
        + vstd::utf8::encode_utf8(password@));
    let enc = encode_base64(joined.as_slice());
    let mut r: Vec<u8> = Vec::new();
    r.extend_from_slice("Basic ".as_bytes());
    r.extend_from_slice(enc.as_slice());
    assert(r@ =~= spec_basic_auth(user@, password@));
    r
}

/// The only status accepted from the query service: exactly 200.
pub fn check_status(status: u16) -> (r: Result<(), QueryError>)
    ensures
        r is Ok <==> status == 200,
        r matches Err(e) ==> e == QueryError::BadStatus(status),
{
    if status == 200 {
        Ok(())
    } else {
        Err(QueryError::BadStatus(status))
    }
}

} // verus!
