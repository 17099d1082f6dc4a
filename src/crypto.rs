use vstd::prelude::*;
use vstd::utf8::{encode_utf8, valid_utf8};

use sodiumoxide::crypto::sign::ed25519;
use ssb_crypto::secretbox::{Key, Nonce};

verus! {

/// The standard, padded base64 text of `b`.
pub uninterp spec fn b64_text(b: Seq<u8>) -> Seq<char>;

/// What base64::decode gives for `s`: the bytes, or `None` where it refuses the text.
pub uninterp spec fn b64_decoded(s: Seq<char>) -> Option<Seq<u8>>;

/// The detached ed25519 signature of `m` under the 64-byte secret key `sk`.
pub uninterp spec fn ed25519_signature(sk: Seq<u8>, m: Seq<u8>) -> Seq<u8>;

/// Whether `sig` is a valid ed25519 signature of `m` under the public key `pk`.
pub uninterp spec fn ed25519_verifies(pk: Seq<u8>, m: Seq<u8>, sig: Seq<u8>) -> bool;

/// The ed25519 public key derived from a 32-byte seed.
pub uninterp spec fn ed25519_public(seed: Seq<u8>) -> Seq<u8>;

/// The attached secretbox (xsalsa20poly1305) of `m`: the 16-byte tag, then the ciphertext.
pub uninterp spec fn secretbox_sealed(key: Seq<u8>, nonce: Seq<u8>, m: Seq<u8>) -> Seq<u8>;

pub open spec fn is_b64_char(c: char) -> bool {
    ('A' <= c && c <= 'Z') || ('a' <= c && c <= 'z') || ('0' <= c && c <= '9') || c == '+' || c
        == '/' || c == '='
}

pub open spec fn all_b64_chars(s: Seq<char>) -> bool {
    forall|i: int| 0 <= i < s.len() ==> is_b64_char(#[trigger] s[i])
}

/// An ed25519 secret key in libsodium's layout: the seed, then the public key
/// derived from it, which is `pk`.
pub open spec fn is_keypair(pk: Seq<u8>, sk: Seq<u8>) -> bool {
    &&& sk.len() == 64
    &&& sk.subrange(32, 64) == pk
    &&& pk == ed25519_public(sk.subrange(0, 32))
}

/// Relies on base64::encode: standard alphabet with `=` padding, a function
/// of the bytes alone; base64::decode takes its text back to the bytes.
#[verifier::external_body]
pub(crate) fn base64_encode(b: &[u8]) -> (r: String)
    ensures
        r@ == b64_text(b@),
        all_b64_chars(r@),
        b64_decoded(r@) == Some(b@),
{
    base64::encode(b)
}

/// Relies on base64::decode (standard alphabet), a function of the text alone.
#[verifier::external_body]
pub(crate) fn base64_decode(s: &str) -> (r: Option<Vec<u8>>)
    ensures
        match r {
            Some(v) => b64_decoded(s@) == Some(v@),
            None => b64_decoded(s@) is None,
        },
{
    base64::decode(s).ok()
}

/// Relies on sodiumoxide's ed25519::sign_detached, which signs with a
/// 64-byte secret key and returns 64 bytes; its result passes the check of
/// ed25519::Signature::new that the three top bits of the last byte are clear.
#[verifier::external_body]
pub(crate) fn ed25519_sign(m: &[u8], sk: &[u8]) -> (r: Vec<u8>)
    requires
        sk@.len() == 64,
    ensures
        r@ == ed25519_signature(sk@, m@),
        r@.len() == 64,
        r@[63] < 32,
{
    let sk = ed25519::SecretKey::from_slice(sk).unwrap();
    ed25519::sign_detached(m, &sk).to_bytes().to_vec()
}

/// Relies on sodiumoxide's ed25519::keypair_from_seed (libsodium's
/// crypto_sign_ed25519_seed_keypair): the public key derived from the seed,
/// and the secret key laid out as the seed followed by that public key.
#[verifier::external_body]
pub(crate) fn ed25519_keypair_from_seed(seed: &[u8]) -> (r: (Vec<u8>, Vec<u8>))
    requires
        seed@.len() == 32,
    ensures
        r.0@ == ed25519_public(seed@),
        r.0@.len() == 32,
        r.1@ == seed@ + r.0@,
{
    let seed = ed25519::Seed::from_slice(seed).unwrap();
    let (pk, sk) = ed25519::keypair_from_seed(&seed);
    (pk.0.to_vec(), sk.0.to_vec())
}

/// Relies on sodiumoxide's ed25519::verify_detached (with the signature
/// built by ed25519::Signature::from_bytes, which accepts 64 bytes whose last
/// byte has its three top bits clear): deterministic, and true on a signature
/// that the matching secret key made.
#[verifier::external_body]
pub(crate) fn ed25519_verify(sig: &[u8], m: &[u8], pk: &[u8]) -> (r: bool)
    requires
        sig@.len() == 64,
        sig@[63] < 32,
        pk@.len() == 32,
    ensures
        r == ed25519_verifies(pk@, m@, sig@),
        forall|sk: Seq<u8>|
            sk.len() == 64 && sk.subrange(32, 64) == pk@ && pk@ == ed25519_public(sk.subrange(0, 32))
                && sig@ == #[trigger] ed25519_signature(sk, m@) ==> r,
{
    let sig = ed25519::Signature::from_bytes(sig).unwrap();
    let pk = ed25519::PublicKey::from_slice(pk).unwrap();
    ed25519::verify_detached(&sig, m, &pk)
}

/// Relies on ssb_crypto's secretbox::Key::seal: encrypts `msg` in place and
/// returns the 16-byte authentication tag.
#[verifier::external_body]
pub(crate) fn secretbox_seal(key: &[u8], nonce: &[u8], msg: &mut Vec<u8>) -> (tag: Vec<u8>)
    requires
        key@.len() == 32,
        nonce@.len() == 24,
    ensures
        tag@.len() == 16,
        final(msg)@.len() == old(msg)@.len(),
        tag@ + final(msg)@ == secretbox_sealed(key@, nonce@, old(msg)@),
{
    let key = Key::from_slice(key).unwrap();
    let nonce = Nonce::from_slice(nonce).unwrap();
    key.seal(msg.as_mut_slice(), &nonce).0.to_vec()
}

/// Relies on ssb_crypto's secretbox::Key::open_attached_into: it authenticates
/// the tag that leads `input`, and on success writes the plaintext into `out`,
/// which must be 16 bytes shorter than `input`.
#[verifier::external_body]
pub(crate) fn secretbox_open_attached(
    key: &[u8],
    nonce: &[u8],
    input: &[u8],
    out: &mut Vec<u8>,
) -> (r: bool)
    requires
        key@.len() == 32,
        nonce@.len() == 24,
        input@.len() >= 16,
        old(out)@.len() == input@.len() - 16,
    ensures
        final(out)@.len() == old(out)@.len(),
        r ==> secretbox_sealed(key@, nonce@, final(out)@) == input@,
        forall|m: Seq<u8>|
            #[trigger] secretbox_sealed(key@, nonce@, m) == input@ ==> r && final(out)@ == m,
{
    let key = Key::from_slice(key).unwrap();
    let nonce = Nonce::from_slice(nonce).unwrap();
    key.open_attached_into(input, &nonce, out.as_mut_slice())
}

/// Relies on String::from_utf8: it accepts exactly the valid UTF-8 byte
/// strings and keeps their bytes.
#[verifier::external_body]
pub(crate) fn utf8_string(b: Vec<u8>) -> (r: Option<String>)
    ensures
        r is Some <==> valid_utf8(b@),
        r is Some ==> encode_utf8(r->Some_0@) == b@,
{
    String::from_utf8(b).ok()
}

} // verus!
