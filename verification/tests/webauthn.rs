use wallet_program::webauthn::{
    base64url_decode, base64url_encode_no_pad, extract_challenge_from_client_data_json,
    extract_origin_from_client_data_json, extract_type_from_client_data_json,
    verify_client_data_json_challenge,
};

#[test]
fn test_base64url_roundtrip() {
    let data = b"hello world";
    let encoded = base64url_encode_no_pad(data);
    let decoded = base64url_decode(&encoded).unwrap();
    assert_eq!(decoded, data);
}

#[test]
fn test_extract_challenge_chrome() {
    // Chrome-style JSON with extra field
    let json = br#"{"type":"webauthn.get","challenge":"dGVzdF9jaGFsbGVuZ2U","origin":"https://example.com","crossOrigin":false,"other_keys_can_be_added_here":"do not compare"}"#;
    let challenge = extract_challenge_from_client_data_json(json).unwrap();
    assert_eq!(challenge, b"test_challenge");
}

#[test]
fn test_extract_challenge_safari() {
    // Safari-style JSON (no crossOrigin, different order possible)
    let json = br#"{"type":"webauthn.get","challenge":"dGVzdF9jaGFsbGVuZ2U","origin":"https://example.com"}"#;
    let challenge = extract_challenge_from_client_data_json(json).unwrap();
    assert_eq!(challenge, b"test_challenge");
}

#[test]
fn test_verify_challenge_match() {
    let json = br#"{"type":"webauthn.get","challenge":"dGVzdF9jaGFsbGVuZ2U","origin":"https://example.com"}"#;
    assert!(verify_client_data_json_challenge(json, b"test_challenge").is_ok());
}

#[test]
fn test_verify_challenge_mismatch() {
    let json = br#"{"type":"webauthn.get","challenge":"dGVzdF9jaGFsbGVuZ2U","origin":"https://example.com"}"#;
    assert!(verify_client_data_json_challenge(json, b"wrong_challenge").is_err());
}

#[test]
fn test_extract_origin() {
    let json = br#"{"type":"webauthn.get","challenge":"abc","origin":"https://example.com"}"#;
    let origin = extract_origin_from_client_data_json(json).unwrap();
    assert_eq!(origin, b"https://example.com");
}

#[test]
fn test_extract_type() {
    let json = br#"{"type":"webauthn.get","challenge":"abc","origin":"https://example.com"}"#;
    let auth_type = extract_type_from_client_data_json(json).unwrap();
    assert_eq!(auth_type, b"webauthn.get");
}
