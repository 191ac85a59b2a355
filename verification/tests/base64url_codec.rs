use wallet_program::base64url::{base64url_decode, base64url_encode_no_pad};

#[test]
fn encode_rfc4648_vectors_without_padding() {
    assert_eq!(base64url_encode_no_pad(b""), b"".to_vec());
    assert_eq!(base64url_encode_no_pad(b"f"), b"Zg".to_vec());
    assert_eq!(base64url_encode_no_pad(b"fo"), b"Zm8".to_vec());
    assert_eq!(base64url_encode_no_pad(b"foo"), b"Zm9v".to_vec());
    assert_eq!(base64url_encode_no_pad(b"foob"), b"Zm9vYg".to_vec());
    assert_eq!(base64url_encode_no_pad(b"fooba"), b"Zm9vYmE".to_vec());
    assert_eq!(base64url_encode_no_pad(b"foobar"), b"Zm9vYmFy".to_vec());
}

#[test]
fn encode_uses_url_alphabet() {
    assert_eq!(base64url_encode_no_pad(&[0xfb, 0xff]), b"-_8".to_vec());
    assert_eq!(base64url_encode_no_pad(b"test_challenge"), b"dGVzdF9jaGFsbGVuZ2U".to_vec());
}

#[test]
fn decode_vectors() {
    assert_eq!(base64url_decode(b"Zm9vYmFy"), Some(b"foobar".to_vec()));
    assert_eq!(base64url_decode(b"Zm9vYg"), Some(b"foob".to_vec()));
    assert_eq!(base64url_decode(b"-_8"), Some(vec![0xfb, 0xff]));
    assert_eq!(base64url_decode(b""), Some(vec![]));
}

#[test]
fn decode_skips_padding() {
    assert_eq!(base64url_decode(b"Zm9vYg=="), Some(b"foob".to_vec()));
    assert_eq!(base64url_decode(b"Zm9v=YmFy"), Some(b"foobar".to_vec()));
    assert_eq!(base64url_decode(b"===="), Some(vec![]));
}

#[test]
fn decode_rejects_symbols_outside_the_alphabet() {
    assert_eq!(base64url_decode(b"Zm9v+mFy"), None);
    assert_eq!(base64url_decode(b"Zm9v/mFy"), None);
    assert_eq!(base64url_decode(b"Zm9v\"mFy"), None);
}

#[test]
fn decode_drops_trailing_bits() {
    // A single sextet holds no whole byte.
    assert_eq!(base64url_decode(b"Z"), Some(vec![]));
    assert_eq!(base64url_decode(b"Zh"), Some(b"f".to_vec()));
}

#[test]
fn roundtrip_all_lengths_and_bytes() {
    let data: Vec<u8> = (0u8..=255).collect();
    for n in 0..data.len() {
        let encoded = base64url_encode_no_pad(&data[..n]);
        assert!(encoded.iter().all(|c| c.is_ascii_alphanumeric() || *c == b'-' || *c == b'_'));
        assert_eq!(base64url_decode(&encoded), Some(data[..n].to_vec()));
        let mut padded = encoded.clone();
        padded.extend_from_slice(b"==");
        assert_eq!(base64url_decode(&padded), Some(data[..n].to_vec()));
    }
}

#[test]
fn encoding_concatenates_whole_groups() {
    let a = b"abcdef";
    let b = b"xy";
    let mut ab = a.to_vec();
    ab.extend_from_slice(b);
    let mut expected = base64url_encode_no_pad(a);
    expected.extend_from_slice(&base64url_encode_no_pad(b));
    assert_eq!(base64url_encode_no_pad(&ab), expected);
}

#[test]
fn decoding_skips_padding_anywhere() {
    assert_eq!(base64url_decode(b"SG=Vs=bG8"), base64url_decode(b"SGVsbG8"));
    assert_eq!(base64url_decode(b"=SGVsbG8"), Some(b"Hello".to_vec()));
}
