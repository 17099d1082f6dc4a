use ssb_neon_keys::json::Json;
use ssb_neon_keys::keys::CryptoError;
use ssb_neon_keys::secret::{secret_box, secret_unbox};

fn s(t: &str) -> String {
    t.to_string()
}

fn value() -> Json {
    Json::Object(vec![
        (s("n"), Json::Number(s("42"))),
        (s("list"), Json::Array(vec![Json::Str(s("a")), Json::Null])),
    ])
}

#[test]
fn seal_then_open_gives_the_rendering_back() {
    let key = [3u8; 32];
    let sealed = secret_box(Some(&value()), &key).unwrap().unwrap();
    let opened = secret_unbox(Some(sealed.as_slice()), &key).unwrap().unwrap();
    assert_eq!(opened, "{\"n\":42,\"list\":[\"a\",null]}");
}

#[test]
fn seal_round_trips_scalars() {
    let key = [4u8; 40];
    for (v, text) in [
        (Json::Number(s("7")), "7"),
        (Json::Str(s("hi")), "\"hi\""),
        (Json::Bool(false), "false"),
        (Json::Array(vec![]), "[]"),
    ] {
        let sealed = secret_box(Some(&v), &key).unwrap().unwrap();
        assert_eq!(secret_unbox(Some(sealed.as_slice()), &key), Ok(Some(s(text))));
    }
}

#[test]
fn envelope_is_tag_then_ciphertext() {
    let key = [5u8; 32];
    let sealed = secret_box(Some(&Json::Str(s("abc"))), &key).unwrap().unwrap();
    assert_eq!(sealed.len(), 5 + 16);
    assert_ne!(&sealed[16..], b"\"abc\"");
}

#[test]
fn extra_key_bytes_are_ignored() {
    let mut long = vec![6u8; 32];
    long.extend_from_slice(&[1, 2, 3]);
    let a = secret_box(Some(&value()), &long).unwrap().unwrap();
    let b = secret_box(Some(&value()), &[6u8; 32]).unwrap().unwrap();
    assert_eq!(a, b);
}

#[test]
fn null_and_absent_give_no_value() {
    let key = [1u8; 32];
    assert_eq!(secret_box(None, &key), Ok(None));
    assert_eq!(secret_box(Some(&Json::Null), &key), Ok(None));
    assert_eq!(secret_box(Some(&Json::Null), &[1u8; 3]), Ok(None));
}

#[test]
fn wrong_key_fails_closed() {
    let sealed = secret_box(Some(&value()), &[7u8; 32]).unwrap().unwrap();
    assert_eq!(secret_unbox(Some(sealed.as_slice()), &[8u8; 32]), Err(CryptoError::DecryptionFailed));
}

#[test]
fn tampered_envelope_fails() {
    let key = [9u8; 32];
    let mut sealed = secret_box(Some(&value()), &key).unwrap().unwrap();
    sealed[20] ^= 1;
    assert_eq!(secret_unbox(Some(sealed.as_slice()), &key), Err(CryptoError::DecryptionFailed));
}

#[test]
fn non_buffer_input_gives_no_value() {
    assert_eq!(secret_unbox(None, &[1u8; 32]), Ok(None));
    assert_eq!(secret_unbox(None, &[1u8; 2]), Ok(None));
}

#[test]
fn short_key_is_an_error() {
    assert_eq!(
        secret_box(Some(&value()), &[1u8; 31]),
        Err(CryptoError::InvalidKeyLength)
    );
    assert_eq!(secret_unbox(Some(&[0u8; 40][..]), &[1u8; 31]), Err(CryptoError::InvalidKeyLength));
}

#[test]
fn short_input_fails_authentication() {
    assert_eq!(secret_unbox(Some(&[0u8; 10][..]), &[1u8; 32]), Err(CryptoError::DecryptionFailed));
    assert_eq!(secret_unbox(Some(&[][..]), &[1u8; 32]), Err(CryptoError::DecryptionFailed));
}

#[test]
fn non_utf8_plaintext_gives_no_value() {
    let key = [2u8; 32];
    let k = ssb_crypto::secretbox::Key::from_slice(&key).unwrap();
    let n = ssb_crypto::secretbox::Nonce::from_slice(&key[0..24]).unwrap();
    let mut msg = vec![0xffu8, 0xfe];
    let tag = k.seal(&mut msg, &n);
    let mut envelope = tag.0.to_vec();
    envelope.extend_from_slice(&msg);
    assert_eq!(secret_unbox(Some(envelope.as_slice()), &key), Ok(None));
}

#[test]
fn envelope_matches_the_secretbox_layout() {
    let key = [3u8; 32];
    let k = ssb_crypto::secretbox::Key::from_slice(&key).unwrap();
    let n = ssb_crypto::secretbox::Nonce::from_slice(&key[0..24]).unwrap();
    let mut msg = b"[1]".to_vec();
    let tag = k.seal(&mut msg, &n);
    let mut expected = tag.0.to_vec();
    expected.extend_from_slice(&msg);
    let v = Json::Array(vec![Json::Number(s("1"))]);
    assert_eq!(secret_box(Some(&v), &key), Ok(Some(expected)));
}

#[test]
fn malformed_number_is_not_sealed() {
    let v = Json::Array(vec![Json::Number(s("1]"))]);
    assert_eq!(secret_box(Some(&v), &[1u8; 32]), Err(CryptoError::InvalidArgument));
}
