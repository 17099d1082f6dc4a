use vstd::prelude::*;
use vstd::slice::slice_subrange;
use vstd::utf8::{encode_utf8, valid_utf8};

use crate::crypto::{secretbox_open_attached, secretbox_seal, secretbox_sealed, utf8_string};
use crate::json::{compact, is_well_formed, well_formed, Json};
use crate::keys::CryptoError;
use crate::render::compact_bytes;
use crate::text::lemma_compact_valid;

verus! {

/// The cipher key: the first 32 bytes of the sealing key.
pub open spec fn cipher_key(k: Seq<u8>) -> Seq<u8> {
    k.subrange(0, 32)
}

/// The nonce: the first 24 bytes of the sealing key, a prefix of the cipher key.
pub open spec fn cipher_nonce(k: Seq<u8>) -> Seq<u8> {
    k.subrange(0, 24)
}

/// The sealed envelope of `v` under `k`: tag, then the ciphertext of the
/// compact rendering of `v`.
pub open spec fn sealed_value(v: Json, k: Seq<u8>) -> Seq<u8> {
    secretbox_sealed(cipher_key(k), cipher_nonce(k), compact(v))
}

/// `c` is the envelope of some plaintext under `k`.
pub open spec fn opens(c: Seq<u8>, k: Seq<u8>) -> bool {
    exists|m: Seq<u8>| #[trigger] secretbox_sealed(cipher_key(k), cipher_nonce(k), m) == c
}

/// What `secret_box(value, key)` returns.
pub open spec fn box_post(
    value: Option<Json>,
    key: Seq<u8>,
    r: Result<Option<Vec<u8>>, CryptoError>,
) -> bool {
    match value {
        None => r == Ok::<Option<Vec<u8>>, CryptoError>(None),
        Some(v) => if v is Null {
            r == Ok::<Option<Vec<u8>>, CryptoError>(None)
        } else if key.len() < 32 {
            r == Err::<Option<Vec<u8>>, CryptoError>(CryptoError::InvalidKeyLength)
        } else if !well_formed(v) {
            r == Err::<Option<Vec<u8>>, CryptoError>(CryptoError::InvalidArgument)
        } else {
            &&& r is Ok
            &&& r->Ok_0 is Some
            &&& r->Ok_0->Some_0@ == sealed_value(v, key)
            &&& r->Ok_0->Some_0@.len() == compact(v).len() + 16
        },
    }
}

/// What `secret_unbox(input, key)` returns; `None` stands for an input that
/// is not a byte buffer.
pub open spec fn unbox_post(
    input: Option<Seq<u8>>,
    key: Seq<u8>,
    r: Result<Option<String>, CryptoError>,
) -> bool {
    match input {
        None => r == Ok::<Option<String>, CryptoError>(None),
        Some(c) => if key.len() < 32 {
            r == Err::<Option<String>, CryptoError>(CryptoError::InvalidKeyLength)
        } else if c.len() < 16 {
            r == Err::<Option<String>, CryptoError>(CryptoError::DecryptionFailed)
        } else {
            &&& (r == Err::<Option<String>, CryptoError>(CryptoError::DecryptionFailed) <==> !opens(
                c,
                key,
            ))
            &&& (r is Ok && r->Ok_0 is Some) ==> secretbox_sealed(
                cipher_key(key),
                cipher_nonce(key),
                encode_utf8(r->Ok_0->Some_0@),
            ) == c
            &&& forall|m: Seq<u8>| #[trigger]
                secretbox_sealed(cipher_key(key), cipher_nonce(key), m) == c ==> {
                    &&& valid_utf8(m) ==> (r is Ok && r->Ok_0 is Some && encode_utf8(
                        r->Ok_0->Some_0@,
                    ) == m)
                    &&& !valid_utf8(m) ==> r == Ok::<Option<String>, CryptoError>(None)
                }
        },
    }
}

pub open spec fn json_opt(value: Option<&Json>) -> Option<Json> {
    match value {
        Some(v) => Some(*v),
        None => None,
    }
}

pub open spec fn bytes_opt(input: Option<&[u8]>) -> Option<Seq<u8>> {
    match input {
        Some(c) => Some(c@),
        None => None,
    }
}

/// Seals a value: encrypts its compact rendering under the first 32 bytes of
/// `key`, with the first 24 bytes as the nonce, and puts the tag in front.
/// An absent or null value gives no envelope.
pub fn secret_box(value: Option<&Json>, key: &[u8]) -> (r: Result<Option<Vec<u8>>, CryptoError>)
    ensures
        box_post(json_opt(value), key@, r),
{
    let v = match value {
        None => return Ok(None),
        Some(v) => v,
    };
    if let Json::Null = v {
        return Ok(None);
    }
    if key.len() < 32 {
        return Err(CryptoError::InvalidKeyLength);
    }
    if !is_well_formed(v) {
        return Err(CryptoError::InvalidArgument);
    }
    let mut msg = compact_bytes(v);
    let k = slice_subrange(key, 0, 32);
    let n = slice_subrange(key, 0, 24);
    let mut out = secretbox_seal(k, n, &mut msg);
    out.append(&mut msg);
    Ok(Some(out))
}

/// Opens an envelope that `secret_box` made: authenticates and decrypts it,
/// and returns the plaintext where it is UTF-8 text. An input that is not a
/// byte buffer, or a plaintext that is not UTF-8, gives no value.
pub fn secret_unbox(input: Option<&[u8]>, key: &[u8]) -> (r: Result<Option<String>, CryptoError>)
    ensures
        unbox_post(bytes_opt(input), key@, r),
{
    let c = match input {
        None => return Ok(None),
        Some(c) => c,
    };
    if key.len() < 32 {
        return Err(CryptoError::InvalidKeyLength);
    }
    if c.len() < 16 {
        return Err(CryptoError::DecryptionFailed);
    }
    let n_plain = c.len() - 16;
    let mut out: Vec<u8> = Vec::new();
    while out.len() < n_plain
        invariant
            out@.len() <= n_plain,
        decreases n_plain - out@.len(),
    {
        out.push(0);
    }
    let k = slice_subrange(key, 0, 32);
    let n = slice_subrange(key, 0, 24);
    if !secretbox_open_attached(k, n, c, &mut out) {
        return Err(CryptoError::DecryptionFailed);
    }
    let ghost m = out@;
    assert(secretbox_sealed(cipher_key(key@), cipher_nonce(key@), m) == c@);
    assert(opens(c@, key@));
    match utf8_string(out) {
        Some(s) => Ok(Some(s)),
        None => Ok(None),
    }
}

/// Sealing a well-formed value that is neither absent nor null and opening the envelope
/// with the same key gives back the compact rendering of the value, as text.
pub proof fn lemma_seal_open_round_trip(
    v: Json,
    key: Seq<u8>,
    sealed: Result<Option<Vec<u8>>, CryptoError>,
    opened: Result<Option<String>, CryptoError>,
)
    requires
        key.len() >= 32,
        !(v is Null),
        well_formed(v),
        box_post(Some(v), key, sealed),
        unbox_post(Some(sealed->Ok_0->Some_0@), key, opened),
    ensures
        opened is Ok,
        opened->Ok_0 is Some,
        encode_utf8(opened->Ok_0->Some_0@) == compact(v),
{
    lemma_compact_valid(v);
    let c = sealed->Ok_0->Some_0@;
    assert(secretbox_sealed(cipher_key(key), cipher_nonce(key), compact(v)) == c);
    assert(opens(c, key));
}

} // verus!
