use sodiumoxide::crypto::sign::ed25519;
use ssb_neon_keys::json::Json;
use ssb_neon_keys::keys::{decode_key, keypair_from_seed, CryptoError, KeyArg};
use ssb_neon_keys::sig::{sign_obj, verify_obj};

fn s(t: &str) -> String {
    t.to_string()
}

fn keypair(seed_byte: u8) -> (String, String) {
    let (pk, sk) = keypair_from_seed(&[seed_byte; 32]).unwrap();
    (
        format!("{}.ed25519", base64::encode(&pk)),
        format!("{}.ed25519", base64::encode(&sk)),
    )
}

fn sample() -> Json {
    Json::Object(vec![
        (s("a"), Json::Number(s("1"))),
        (s("b"), Json::Str(s("x"))),
    ])
}

fn copy(v: &Json) -> Json {
    match v {
        Json::Null => Json::Null,
        Json::Bool(b) => Json::Bool(*b),
        Json::Number(t) => Json::Number(t.clone()),
        Json::Str(t) => Json::Str(t.clone()),
        Json::Array(items) => Json::Array(items.iter().map(copy).collect()),
        Json::Object(f) => Json::Object(f.iter().map(|(k, x)| (k.clone(), copy(x))).collect()),
    }
}

fn copy_fields(v: &Json) -> Vec<(String, Json)> {
    fields(v).iter().map(|(k, x)| (k.clone(), copy(x))).collect()
}

fn sign_error(r: Result<Json, CryptoError>) -> CryptoError {
    match r {
        Ok(_) => panic!("signing succeeded"),
        Err(e) => e,
    }
}

fn fields(v: &Json) -> &Vec<(String, Json)> {
    match v {
        Json::Object(f) => f,
        _ => panic!("not an object"),
    }
}

fn signature_of(v: &Json) -> String {
    match &fields(v).iter().find(|f| f.0 == "signature").unwrap().1 {
        Json::Str(t) => t.clone(),
        _ => panic!("signature is not a string"),
    }
}

#[test]
fn sign_then_verify_gives_true() {
    let (public, private) = keypair(7);
    let signed = sign_obj(&KeyArg::Raw(private), sample()).unwrap();
    assert_eq!(verify_obj(&KeyArg::Raw(public), signed), Ok(true));
}

#[test]
fn key_containers_are_accepted() {
    let (public, private) = keypair(8);
    let keys = KeyArg::Container { private: Some(private), public: Some(format!("@{}", public)) };
    let signed = sign_obj(&keys, sample()).unwrap();
    assert_eq!(verify_obj(&keys, signed), Ok(true));
}

#[test]
fn signature_is_appended_and_encoded() {
    let (_, private) = keypair(9);
    let signed = sign_obj(&KeyArg::Raw(private), sample()).unwrap();
    let f = fields(&signed);
    assert_eq!(f.len(), 3);
    assert_eq!(f[0].0, "a");
    assert_eq!(f[1].0, "b");
    assert_eq!(f[2].0, "signature");
    let text = signature_of(&signed);
    assert!(text.ends_with(".sig.ed25519"));
    assert_eq!(decode_key(&text).unwrap().len(), 64);
}

#[test]
fn signing_is_deterministic() {
    let (_, private) = keypair(10);
    let a = sign_obj(&KeyArg::Raw(private.clone()), sample()).unwrap();
    let b = sign_obj(&KeyArg::Raw(private), sample()).unwrap();
    assert_eq!(signature_of(&a), signature_of(&b));
}

#[test]
fn existing_signature_is_replaced_in_place() {
    let (_, private) = keypair(11);
    let obj = Json::Object(vec![
        (s("signature"), Json::Str(s("old"))),
        (s("a"), Json::Number(s("1"))),
    ]);
    let signed = sign_obj(&KeyArg::Raw(private), obj).unwrap();
    let f = fields(&signed);
    assert_eq!(f.len(), 2);
    assert_eq!(f[0].0, "signature");
    assert_ne!(signature_of(&signed), "old");
}

#[test]
fn tampered_object_does_not_verify() {
    let (public, private) = keypair(12);
    let obj = Json::Object(vec![
        (s("a"), Json::Number(s("1"))),
        (s("nested"), Json::Object(vec![(s("b"), Json::Str(s("x")))])),
    ]);
    let signed = sign_obj(&KeyArg::Raw(private), obj).unwrap();
    let mut f = copy_fields(&signed);
    f[1].1 = Json::Object(vec![(s("b"), Json::Str(s("y")))]);
    assert_eq!(verify_obj(&KeyArg::Raw(public.clone()), Json::Object(f)), Ok(false));
    let mut g = copy_fields(&signed);
    g[0].1 = Json::Number(s("2"));
    assert_eq!(verify_obj(&KeyArg::Raw(public), Json::Object(g)), Ok(false));
}

#[test]
fn wrong_public_key_does_not_verify() {
    let (_, private) = keypair(13);
    let (other_public, _) = keypair(14);
    let signed = sign_obj(&KeyArg::Raw(private), sample()).unwrap();
    assert_eq!(verify_obj(&KeyArg::Raw(other_public), signed), Ok(false));
}

#[test]
fn missing_signature_is_an_error() {
    let (public, _) = keypair(15);
    assert_eq!(verify_obj(&KeyArg::Raw(public), sample()), Err(CryptoError::MissingSignature));
}

#[test]
fn non_string_signature_is_an_error() {
    let (public, _) = keypair(16);
    let obj = Json::Object(vec![(s("signature"), Json::Number(s("5")))]);
    assert_eq!(verify_obj(&KeyArg::Raw(public), obj), Err(CryptoError::MissingSignature));
}

#[test]
fn undecodable_signature_is_an_error() {
    let (public, _) = keypair(17);
    let obj = Json::Object(vec![(s("signature"), Json::Str(s("!!!.sig.ed25519")))]);
    assert_eq!(
        verify_obj(&KeyArg::Raw(public.clone()), obj),
        Err(CryptoError::InvalidSignatureEncoding)
    );
    let short = format!("{}.sig.ed25519", base64::encode([1u8; 10]));
    let obj = Json::Object(vec![(s("signature"), Json::Str(short))]);
    assert_eq!(verify_obj(&KeyArg::Raw(public), obj), Err(CryptoError::InvalidSignatureEncoding));
}

#[test]
fn key_errors() {
    assert_eq!(sign_error(sign_obj(&KeyArg::Raw(s("***")), sample())), CryptoError::InvalidKeyEncoding);
    let short = format!("{}.ed25519", base64::encode([1u8; 10]));
    assert_eq!(sign_error(sign_obj(&KeyArg::Raw(short.clone()), sample())), CryptoError::InvalidKeyLength);
    assert_eq!(verify_obj(&KeyArg::Raw(short), sample()), Err(CryptoError::InvalidKeyLength));
    let keys = KeyArg::Container { private: None, public: None };
    assert_eq!(sign_error(sign_obj(&keys, sample())), CryptoError::MissingKeyField);
    assert_eq!(verify_obj(&keys, sample()), Err(CryptoError::MissingKeyField));
}

#[test]
fn non_object_is_an_argument_error() {
    let (public, private) = keypair(18);
    assert_eq!(sign_error(sign_obj(&KeyArg::Raw(private), Json::Null)), CryptoError::InvalidArgument);
    assert_eq!(
        verify_obj(&KeyArg::Raw(public), Json::Array(vec![])),
        Err(CryptoError::InvalidArgument)
    );
}

#[test]
fn decode_key_strips_sigil_and_suffix() {
    let text = format!("@{}.ed25519", base64::encode([5u8, 6, 7]));
    assert_eq!(decode_key(&text), Some(vec![5u8, 6, 7]));
    assert_eq!(decode_key(&base64::encode([9u8; 4])), Some(vec![9u8; 4]));
}

#[test]
fn keypair_from_seed_matches_sodiumoxide() {
    let (pk, sk) = keypair_from_seed(&[3u8; 32]).unwrap();
    let (epk, esk) = ed25519::keypair_from_seed(&ed25519::Seed([3u8; 32]));
    assert_eq!(pk, epk.0.to_vec());
    assert_eq!(sk, esk.0.to_vec());
    assert_eq!(&sk[..32], &[3u8; 32]);
    assert_eq!(&sk[32..], &pk[..]);
    assert!(keypair_from_seed(&[3u8; 31]).is_none());
}

#[test]
fn malformed_numbers_are_refused() {
    let (public, private) = keypair(19);
    let bad = Json::Object(vec![(s("a"), Json::Number(s("1,\n  \"b\": 2")))]);
    assert_eq!(sign_error(sign_obj(&KeyArg::Raw(private.clone()), bad)), CryptoError::InvalidArgument);
    let signed = sign_obj(&KeyArg::Raw(private), sample()).unwrap();
    let mut f = copy_fields(&signed);
    f[0].1 = Json::Number(s("01"));
    assert_eq!(verify_obj(&KeyArg::Raw(public), Json::Object(f)), Err(CryptoError::InvalidArgument));
}

#[test]
fn golden_signature_of_sample_object() {
    let (_, private) = keypair(1);
    let signed = sign_obj(&KeyArg::Raw(private), sample()).unwrap();
    assert_eq!(
        signature_of(&signed),
        "BDuW7SDM3zVJCSKuBmFuUOt6LpI4hXEQqBsBytBRggE/E5qGfh/JTiuRzdXaAv5oSQ6tOVewSDdisXwSkBUlBg==.sig.ed25519"
    );
}
