//! The secret resolver: base64 ciphertext handling and plaintext
//! validation, with the decrypt call mocked as a known plaintext.

use neoquery::{credential_from_plaintext, encryption_algorithm, prepare_decrypt, QueryError};

#[test]
fn secret_resolver_round_trip() {
    // "bmVvNGo=" is the base64 encoding of "neo4j".
    let params = prepare_decrypt(b"bmVvNGo=", "alias/test-key").unwrap();
    assert_eq!(params.ciphertext_blob, b"neo4j".to_vec());
    assert_eq!(params.key_id, "alias/test-key".to_string());
    // A mock decrypt service answers with a known plaintext; the resolver
    // must hand it back exactly, as a UTF-8 string.
    let mock_plaintext = b"s3cr3t-pw".to_vec();
    let credential = credential_from_plaintext(mock_plaintext).unwrap();
    assert_eq!(credential, "s3cr3t-pw".to_string());
}

#[test]
fn resolver_matches_real_base64() {
    let raw: Vec<u8> = vec![0, 255, 17, 42, 128, 3];
    let encoded = base64::encode(&raw);
    let params = prepare_decrypt(encoded.as_bytes(), "k").unwrap();
    assert_eq!(params.ciphertext_blob, raw);
}

#[test]
fn invalid_base64_fails_before_any_decrypt() {
    // No decrypt parameters exist, so no decrypt request can be sent.
    let r = prepare_decrypt(b"!!!not base64!!!", "alias/test-key");
    assert!(matches!(r, Err(QueryError::BadBase64)));
}

#[test]
fn bad_length_base64_fails() {
    // A length of 4k+1 symbols can never be a base64 encoding.
    let r = prepare_decrypt(b"AAAAA", "k");
    assert!(matches!(r, Err(QueryError::BadBase64)));
}

#[test]
fn non_utf8_plaintext_is_rejected() {
    let r = credential_from_plaintext(vec![0xff, 0xfe, 0x00]);
    assert_eq!(r, Err(QueryError::BadUtf8));
}

#[test]
fn algorithm_is_symmetric_default() {
    assert_eq!(encryption_algorithm(), "SYMMETRIC_DEFAULT");
}
