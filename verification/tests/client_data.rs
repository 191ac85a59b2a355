use wallet_program::error::{AuthError, ProgramError};
use wallet_program::webauthn::{
    extract_challenge_from_client_data_json, extract_origin_from_client_data_json,
    extract_type_from_client_data_json, reconstruct_client_data_json,
    verify_client_data_json_challenge, verify_client_data_json_type_get, AuthDataParser, AuthType,
    ClientDataJsonReconstructionParams,
};

#[test]
fn extraction_handles_any_field_order() {
    let json = br#"{"challenge":"dGVzdF9jaGFsbGVuZ2U","origin":"https://a.io","type":"webauthn.get"}"#;
    assert_eq!(extract_challenge_from_client_data_json(json), Some(b"test_challenge".to_vec()));
    assert_eq!(extract_type_from_client_data_json(json), Some(&b"webauthn.get"[..]));
    assert_eq!(extract_origin_from_client_data_json(json), Some(&b"https://a.io"[..]));
}

#[test]
fn extraction_takes_the_first_occurrence() {
    let json = br#"{"type":"webauthn.get","challenge":"YQ","challenge":"Yg"}"#;
    assert_eq!(extract_challenge_from_client_data_json(json), Some(b"a".to_vec()));
}

#[test]
fn extraction_fails_without_field_or_closing_quote() {
    assert_eq!(extract_challenge_from_client_data_json(br#"{"type":"webauthn.get"}"#), None);
    assert_eq!(extract_origin_from_client_data_json(br#"{"origin":"https://a.io"#), None);
    assert_eq!(extract_type_from_client_data_json(b""), None);
    // A challenge that is not base64url.
    assert_eq!(extract_challenge_from_client_data_json(br#"{"challenge":"a+b"}"#), None);
}

#[test]
fn verify_challenge_errors() {
    let bad = br#"{"type":"webauthn.get","challenge":"a+b"}"#;
    assert_eq!(
        verify_client_data_json_challenge(bad, b"x"),
        Err(ProgramError::Auth(AuthError::InvalidMessageHash))
    );
    let none = br#"{"type":"webauthn.get"}"#;
    assert_eq!(
        verify_client_data_json_challenge(none, b""),
        Err(ProgramError::Auth(AuthError::InvalidMessageHash))
    );
}

#[test]
fn verify_type_get() {
    let get = br#"{"type":"webauthn.get","challenge":"abc"}"#;
    assert_eq!(verify_client_data_json_type_get(get), Ok(()));
    let create = br#"{"type":"webauthn.create","challenge":"abc"}"#;
    assert_eq!(
        verify_client_data_json_type_get(create),
        Err(ProgramError::Auth(AuthError::InvalidMessage))
    );
    assert_eq!(
        verify_client_data_json_type_get(br#"{"challenge":"abc"}"#),
        Err(ProgramError::Auth(AuthError::InvalidMessage))
    );
}

#[test]
fn reconstruction_params_flags() {
    let p = ClientDataJsonReconstructionParams { type_and_flags: 0x17 };
    assert_eq!(p.auth_type(), AuthType::Get);
    assert!(p.is_cross_origin());
    assert!(p.is_http());
    assert!(p.has_google_extra());
    let q = ClientDataJsonReconstructionParams { type_and_flags: 0x20 };
    assert_eq!(q.auth_type(), AuthType::Create);
    assert!(!q.is_cross_origin());
    assert!(!q.is_http());
    assert!(!q.has_google_extra());
}

#[test]
fn reconstruct_exact_json() {
    let p = ClientDataJsonReconstructionParams { type_and_flags: 0x10 };
    let json = reconstruct_client_data_json(&p, b"example.com", b"test_challenge");
    assert_eq!(
        json,
        br#"{"type":"webauthn.get","challenge":"dGVzdF9jaGFsbGVuZ2U","origin":"https://example.com","crossOrigin":false}"#.to_vec()
    );
    let q = ClientDataJsonReconstructionParams { type_and_flags: 0x07 };
    let json = reconstruct_client_data_json(&q, b"localhost", b"");
    assert_eq!(
        json,
        br#"{"type":"webauthn.create","challenge":"","origin":"http://localhost","crossOrigin":true,"other_keys_can_be_added_here":"do not compare clientDataJSON against a template. See https://goo.gl/yabPex"}"#.to_vec()
    );
}

#[test]
fn reconstructed_json_verifies_its_own_challenge_and_type() {
    for flags in [0x00u8, 0x10, 0x17, 0x06] {
        let p = ClientDataJsonReconstructionParams { type_and_flags: flags };
        for challenge in [&b""[..], b"a", b"ab", b"abc", &[0xff; 32][..]] {
            let json = reconstruct_client_data_json(&p, b"rp.example", challenge);
            assert_eq!(verify_client_data_json_challenge(&json, challenge), Ok(()));
            assert_eq!(verify_client_data_json_type_get(&json).is_ok(), p.auth_type() == AuthType::Get);
        }
    }
}

#[test]
fn authenticator_data_fields() {
    let mut data = vec![7u8; 32];
    data.push(0x05);
    data.extend_from_slice(&[0x01, 0x02, 0x03, 0x04]);
    let parser = AuthDataParser::new(&data);
    assert_eq!(parser.rp_id_hash(), &[7u8; 32][..]);
    assert!(parser.is_user_present());
    assert!(parser.is_user_verified());
    assert_eq!(parser.counter(), 0x01020304);
    data[32] = 0x04;
    let parser = AuthDataParser::new(&data);
    assert!(!parser.is_user_present());
    assert!(parser.is_user_verified());
}

#[test]
fn reconstructed_json_carries_its_origin() {
    let https = ClientDataJsonReconstructionParams { type_and_flags: 0x10 };
    let json = reconstruct_client_data_json(&https, b"rp.example", b"xyz");
    assert_eq!(extract_origin_from_client_data_json(&json), Some(&b"https://rp.example"[..]));
    let http = ClientDataJsonReconstructionParams { type_and_flags: 0x02 };
    // A challenge whose encoding begins with `o` does not confuse the search.
    let json = reconstruct_client_data_json(&http, b"localhost", &[0xa2, 0x8a, 0xe0, 0x1c]);
    assert_eq!(extract_origin_from_client_data_json(&json), Some(&b"http://localhost"[..]));
}
