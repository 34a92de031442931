use contract_registry::extract_compatible_signature;
use contract_registry::signature::SignatureError;
use contract_registry::signature::sign_body;
use contract_registry::signature::verify;
use contract_registry::verify_signature;

#[test]
fn own_signature_verifies() {
    // For all valid (secret, body): the signature computed with the
    // shared secret over the body verifies; any other body does not.
    let secret = b"webhook-secret";
    let body = b"{\"job\":{\"name\":\"build\",\"status\":\"success\",\"number\":42}}";
    let signature = sign_body(secret, body);
    assert!(verify_signature(secret, &signature, body));
    assert!(!verify_signature(secret, &signature, b"{\"job\":{\"number\":43}}"));
    assert!(!verify_signature(b"other-secret", &signature, body));
}

#[test]
fn known_hmac_vector() {
    // HMAC-SHA-256 with key "key" over the fox sentence, a published
    // test vector.
    let body = b"The quick brown fox jumps over the lazy dog";
    let expected = "f7bc83f430538424b13298e6aa6fb143ef4d59a14946175997479dbc2d1a3cd8";
    assert_eq!(sign_body(b"key", body), expected);
    assert!(verify_signature(b"key", expected, body));
}

#[test]
fn signature_in_either_hex_case() {
    let secret = b"s";
    let body = b"payload";
    let signature = sign_body(secret, body).to_uppercase();
    assert!(verify_signature(secret, &signature, body));
}

#[test]
fn invalid_hex_fails_without_panic() {
    assert!(!verify_signature(b"s", "not hex!", b"payload"));
    assert!(!verify_signature(b"s", "abc", b"payload"));
}

#[test]
fn extracts_the_supported_version() {
    assert_eq!(extract_compatible_signature("v1=abcd"), Some("abcd"));
    assert_eq!(extract_compatible_signature("v0=zz,v1=abcd"), Some("abcd"));
    assert_eq!(extract_compatible_signature("v1=first,v1=second"), Some("first"));
    assert_eq!(extract_compatible_signature("v1="), Some(""));
}

#[test]
fn rejects_incompatible_headers() {
    assert_eq!(extract_compatible_signature(""), None);
    assert_eq!(extract_compatible_signature("v2=abcd"), None);
    // A pair with a second `=` is malformed, not compatible.
    assert_eq!(extract_compatible_signature("v1=a=b"), None);
    assert_eq!(extract_compatible_signature("v1"), None);
}

#[test]
fn header_without_v1_is_incompatible_not_false() {
    let secret = b"webhook-secret";
    let body = b"body";
    let r = verify(secret, "v2=0011", body);
    assert_eq!(r, Err(SignatureError::IncompatibleSignatureVersion));
}

#[test]
fn header_with_v1_verifies() {
    let secret = b"webhook-secret";
    let body = b"body";
    let header = format!("v0=dead,v1={}", sign_body(secret, body));
    assert_eq!(verify(secret, &header, body), Ok(true));
    assert_eq!(verify(secret, &header, b"tampered"), Ok(false));
}
