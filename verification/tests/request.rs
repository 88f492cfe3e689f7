//! The request pieces: the JSON body, the Basic auth header value, and
//! the strict status check.

use neoquery::{basic_auth_value, check_status, query_body, QueryError};

#[test]
fn body_for_1990_to_2000_is_exact() {
    let body = String::from_utf8(query_body(1990, 2000)).unwrap();
    assert_eq!(
        body,
        "{\"query\":\"MATCH (r:Movie) WHERE r.released >= {start} AND r.released < {end} RETURN r.title\",\"params\":{\"start\":1990,\"end\":2000}}"
    );
}

#[test]
fn body_parses_as_the_expected_json() {
    let body = String::from_utf8(query_body(1990, 2000)).unwrap();
    let v: serde_json::Value = serde_json::from_str(&body).unwrap();
    assert_eq!(
        v.get("query").unwrap().as_str().unwrap(),
        "MATCH (r:Movie) WHERE r.released >= {start} AND r.released < {end} RETURN r.title"
    );
    let params = v.get("params").unwrap();
    assert_eq!(params.get("start").unwrap().as_i64(), Some(1990));
    assert_eq!(params.get("end").unwrap().as_i64(), Some(2000));
    assert_eq!(params.as_object().unwrap().len(), 2);
    assert_eq!(v.as_object().unwrap().len(), 2);
}

#[test]
fn body_renders_negative_and_extreme_years() {
    let body = String::from_utf8(query_body(-5, i32::MIN)).unwrap();
    assert!(body.ends_with("\"params\":{\"start\":-5,\"end\":-2147483648}}"));
    let body = String::from_utf8(query_body(0, i32::MAX)).unwrap();
    assert!(body.ends_with("\"params\":{\"start\":0,\"end\":2147483647}}"));
}

#[test]
fn auth_header_is_basic_base64_of_user_colon_password() {
    let auth = basic_auth_value("user", "password");
    assert_eq!(auth, b"Basic dXNlcjpwYXNzd29yZA==".to_vec());
}

#[test]
fn auth_header_matches_real_base64() {
    let auth = basic_auth_value("neo4j", "s3cr3t-pw");
    let expected = format!("Basic {}", base64::encode("neo4j:s3cr3t-pw"));
    assert_eq!(auth, expected.into_bytes());
}

#[test]
fn only_status_200_passes() {
    assert_eq!(check_status(200), Ok(()));
    assert_eq!(check_status(404), Err(QueryError::BadStatus(404)));
    assert_eq!(check_status(201), Err(QueryError::BadStatus(201)));
    assert_eq!(check_status(0), Err(QueryError::BadStatus(0)));
}
