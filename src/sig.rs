use vstd::prelude::*;
use vstd::string::StringExecFns;

use crate::crypto::{
    all_b64_chars, b64_decoded, b64_text, base64_encode, ed25519_sign, ed25519_signature, ed25519_verifies,
    ed25519_verify, is_b64_char, is_keypair,
};
use crate::json::{
    field_well_formed, fields_well_formed, is_well_formed, lemma_fields_well_formed_prefix,
    lemma_object_text, object_text, well_formed, Json,
};
use crate::keys::{
    body_start, decode_key, decoded, dot_from, key_body, lemma_dot_from_bounds, private_key_text,
    private_text, public_key_text, public_text, CryptoError, KeyArg,
};
use crate::render::canonical_bytes;

verus! {

pub open spec fn signature_key() -> Seq<char> {
    seq!['s', 'i', 'g', 'n', 'a', 't', 'u', 'r', 'e']
}

pub open spec fn signature_suffix() -> Seq<char> {
    seq!['.', 's', 'i', 'g', '.', 'e', 'd', '2', '5', '5', '1', '9']
}

/// The text under which a signature is stored in a signed object.
pub open spec fn signature_text(sig: Seq<u8>) -> Seq<char> {
    b64_text(sig) + signature_suffix()
}

/// The index of the first field at or after `i` whose key is `k`, or the
/// number of fields.
pub open spec fn find_from(fields: Seq<(String, Json)>, k: Seq<char>, i: int) -> int
    decreases fields.len() - i,
{
    if i >= fields.len() {
        fields.len() as int
    } else if fields[i].0@ == k {
        i
    } else {
        find_from(fields, k, i + 1)
    }
}

/// The index of the first field whose key is `k`, or the number of fields.
pub open spec fn field_index(fields: Seq<(String, Json)>, k: Seq<char>) -> int {
    find_from(fields, k, 0)
}

/// `new` is `old` with its `signature` field set to the string `t`: in
/// place where `old` has one, else appended.
pub open spec fn signed_fields(
    old: Seq<(String, Json)>,
    new: Seq<(String, Json)>,
    t: Seq<char>,
) -> bool {
    let j = field_index(old, signature_key());
    &&& new.len() == (if j < old.len() {
        old.len()
    } else {
        old.len() + 1
    })
    &&& forall|i: int| 0 <= i < new.len() && i != j ==> new[i] == old[i]
    &&& new[j].0@ == signature_key()
    &&& new[j].1 is Str
    &&& new[j].1->Str_0@ == t
}

/// What signing `obj` gives once the secret key has decoded to `sk`.
pub open spec fn signing_outcome(sk: Seq<u8>, obj: Json, r: Result<Json, CryptoError>) -> bool {
    if sk.len() != 64 {
        r == Err::<Json, CryptoError>(CryptoError::InvalidKeyLength)
    } else {
        if !(obj is Object && well_formed(obj)) {
            r == Err::<Json, CryptoError>(CryptoError::InvalidArgument)
        } else {
            let f = obj->Object_0;
            let sig = ed25519_signature(sk, object_text(f@));
            &&& b64_decoded(b64_text(sig)) == Some(sig)
            &&& sig.len() == 64
            &&& sig[63] < 32
            &&& all_b64_chars(b64_text(sig))
            &&& r is Ok
            &&& r->Ok_0 is Object
            &&& signed_fields(f@, r->Ok_0->Object_0@, signature_text(sig))
        }
    }
}

/// What `sign_obj(keys, obj)` returns.
pub open spec fn sign_post(keys: KeyArg, obj: Json, r: Result<Json, CryptoError>) -> bool {
    match private_text(keys) {
        None => r == Err::<Json, CryptoError>(CryptoError::MissingKeyField),
        Some(t) => match decoded(t) {
            None => r == Err::<Json, CryptoError>(CryptoError::InvalidKeyEncoding),
            Some(sk) => signing_outcome(sk, obj, r),
        },
    }
}

/// What verifying gives once the signature of field `j` of `f` has decoded
/// to `sig`.
pub open spec fn signature_check(
    pk: Seq<u8>,
    f: Seq<(String, Json)>,
    j: int,
    sig: Seq<u8>,
    r: Result<bool, CryptoError>,
) -> bool {
    let msg = object_text(f.remove(j));
    if sig.len() != 64 {
        r == Err::<bool, CryptoError>(CryptoError::InvalidSignatureEncoding)
    } else if sig[63] >= 32 {
        r == Ok::<bool, CryptoError>(false)
    } else {
        &&& r == Ok::<bool, CryptoError>(ed25519_verifies(pk, msg, sig))
        &&& forall|sk: Seq<u8>|
            is_keypair(pk, sk) && sig == #[trigger] ed25519_signature(sk, msg) ==> r == Ok::<
                bool,
                CryptoError,
            >(true)
    }
}

/// What verifying `obj` gives once the public key has decoded to `pk`.
pub open spec fn verifying_outcome(pk: Seq<u8>, obj: Json, r: Result<bool, CryptoError>) -> bool {
    if pk.len() != 32 {
        r == Err::<bool, CryptoError>(CryptoError::InvalidKeyLength)
    } else {
        if !(obj is Object && well_formed(obj)) {
            r == Err::<bool, CryptoError>(CryptoError::InvalidArgument)
        } else {
            let f = obj->Object_0;
            let j = field_index(f@, signature_key());
            if j == f@.len() {
                r == Err::<bool, CryptoError>(CryptoError::MissingSignature)
            } else {
                match f@[j].1 {
                    Json::Str(s) => match decoded(s@) {
                        None => r == Err::<bool, CryptoError>(
                            CryptoError::InvalidSignatureEncoding,
                        ),
                        Some(sig) => signature_check(pk, f@, j, sig, r),
                    },
                    _ => r == Err::<bool, CryptoError>(CryptoError::MissingSignature),
                }
            }
        }
    }
}

/// What `verify_obj(keys, obj)` returns.
pub open spec fn verify_post(keys: KeyArg, obj: Json, r: Result<bool, CryptoError>) -> bool {
    match public_text(keys) {
        None => r == Err::<bool, CryptoError>(CryptoError::MissingKeyField),
        Some(t) => match decoded(t) {
            None => r == Err::<bool, CryptoError>(CryptoError::InvalidKeyEncoding),
            Some(pk) => verifying_outcome(pk, obj, r),
        },
    }
}

pub proof fn lemma_find_from(fields: Seq<(String, Json)>, k: Seq<char>, i: int)
    requires
        0 <= i <= fields.len(),
    ensures
        i <= find_from(fields, k, i) <= fields.len(),
        find_from(fields, k, i) < fields.len() ==> fields[find_from(fields, k, i)].0@ == k,
        forall|m: int| i <= m < find_from(fields, k, i) ==> fields[m].0@ != k,
    decreases fields.len() - i,
{
    if i < fields.len() && fields[i].0@ != k {
        lemma_find_from(fields, k, i + 1);
    }
}

/// The first field whose key is `k` stands at `p`.
pub proof fn lemma_field_index_at(fields: Seq<(String, Json)>, k: Seq<char>, p: int)
    requires
        0 <= p < fields.len(),
        fields[p].0@ == k,
        forall|m: int| 0 <= m < p ==> fields[m].0@ != k,
    ensures
        field_index(fields, k) == p,
{
    lemma_find_from(fields, k, 0);
}

/// The first `.` of `s` stands at `p`.
pub proof fn lemma_dot_at(s: Seq<char>, p: int)
    requires
        0 <= p < s.len(),
        s[p] == '.',
        forall|m: int| 0 <= m < p ==> s[m] != '.',
    ensures
        dot_from(s, 0) == p,
{
    lemma_dot_from_bounds(s, 0);
}

/// The base64 part of the signature text of a signature is its base64 text.
pub proof fn lemma_signature_text_body(sig: Seq<u8>)
    requires
        all_b64_chars(b64_text(sig)),
    ensures
        key_body(signature_text(sig)) == b64_text(sig),
{
    let b = b64_text(sig);
    let t = signature_text(sig);
    assert(t[b.len() as int] == '.');
    assert forall|m: int| 0 <= m < b.len() implies t[m] != '.' by {
        assert(t[m] == b[m]);
        assert(is_b64_char(b[m]));
    }
    lemma_dot_at(t, b.len() as int);
    if b.len() > 0 {
        assert(t[0] == b[0]);
        assert(is_b64_char(b[0]));
    }
    assert(body_start(t) == 0);
    assert(key_body(t) =~= b);
}

fn find_field(fields: &Vec<(String, Json)>, key: &String) -> (j: usize)
    ensures
        j == field_index(fields@, key@),
{
    let mut i: usize = 0;
    while i < fields.len()
        invariant
            i <= fields@.len(),
            find_from(fields@, key@, i as int) == field_index(fields@, key@),
        decreases fields@.len() - i,
    {
        if fields[i].0 == *key {
            return i;
        }
        i = i + 1;
    }
    i
}

fn signature_key_string() -> (r: String)
    ensures
        r@ == signature_key(),
{
    let k: String = "signature".to_owned();
    proof {
        reveal_strlit("signature");
    }
    assert(k@ =~= signature_key());
    k
}

/// Signs an object: signs the indented rendering of `obj` as it is given,
/// then sets its `signature` field to the signature text. An object holding a
/// number that is not written as JSON writes numbers is refused.
pub fn sign_obj(keys: &KeyArg, obj: Json) -> (r: Result<Json, CryptoError>)
    ensures
        sign_post(*keys, obj, r),
{
    let text = match private_key_text(keys) {
        Some(t) => t,
        None => return Err(CryptoError::MissingKeyField),
    };
    let sk = match decode_key(text.as_str()) {
        Some(b) => b,
        None => return Err(CryptoError::InvalidKeyEncoding),
    };
    if sk.len() != 64 {
        let r = Err(CryptoError::InvalidKeyLength);
        assert(signing_outcome(sk@, obj, r));
        return r;
    }
    let msg = match &obj {
        Json::Object(_) if is_well_formed(&obj) => canonical_bytes(&obj),
        _ => {
            let r = Err(CryptoError::InvalidArgument);
            assert(signing_outcome(sk@, obj, r));
            return r;
        },
    };
    proof {
        lemma_object_text(obj);
    }
    let sig = ed25519_sign(msg.as_slice(), sk.as_slice());
    let b64 = base64_encode(sig.as_slice());
    let sig_text = b64.concat(".sig.ed25519");
    proof {
        reveal_strlit(".sig.ed25519");
    }
    assert(sig_text@ =~= signature_text(sig@));
    let ghost old_obj = obj;
    match obj {
        Json::Object(mut fields) => {
            let ghost old_fields = fields@;
            let key = signature_key_string();
            let j = find_field(&fields, &key);
            proof {
                lemma_find_from(old_fields, signature_key(), 0);
            }
            if j < fields.len() {
                fields.set(j, (key, Json::Str(sig_text)));
            } else {
                fields.push((key, Json::Str(sig_text)));
            }
            let r = Ok(Json::Object(fields));
            assert(signed_fields(old_fields, r->Ok_0->Object_0@, signature_text(sig@)));
            assert(signing_outcome(sk@, old_obj, r));
            r
        },
        _ => Err(CryptoError::InvalidArgument),
    }
}

/// Verifies a signed object: decodes its `signature` field, and checks it
/// against the indented rendering of the object without that field. An
/// object holding a number that is not written as JSON writes numbers is
/// refused.
pub fn verify_obj(keys: &KeyArg, obj: Json) -> (r: Result<bool, CryptoError>)
    ensures
        verify_post(*keys, obj, r),
{
    let text = match public_key_text(keys) {
        Some(t) => t,
        None => return Err(CryptoError::MissingKeyField),
    };
    let pk = match decode_key(text.as_str()) {
        Some(b) => b,
        None => return Err(CryptoError::InvalidKeyEncoding),
    };
    if pk.len() != 32 {
        let r = Err(CryptoError::InvalidKeyLength);
        assert(verifying_outcome(pk@, obj, r));
        return r;
    }
    let ghost old_obj = obj;
    if !is_well_formed(&obj) {
        let r = Err(CryptoError::InvalidArgument);
        assert(verifying_outcome(pk@, old_obj, r));
        return r;
    }
    let mut fields = match obj {
        Json::Object(f) => f,
        _ => {
            let r = Err(CryptoError::InvalidArgument);
            assert(verifying_outcome(pk@, old_obj, r));
            return r;
        },
    };
    let ghost f = fields@;
    let key = signature_key_string();
    let j = find_field(&fields, &key);
    proof {
        lemma_find_from(f, signature_key(), 0);
    }
    if j == fields.len() {
        let r = Err(CryptoError::MissingSignature);
        assert(verifying_outcome(pk@, old_obj, r));
        return r;
    }
    let sig = match &fields[j].1 {
        Json::Str(s) => match decode_key(s.as_str()) {
            Some(b) => b,
            None => {
                let r = Err(CryptoError::InvalidSignatureEncoding);
                assert(f[j as int].1 == Json::Str(*s));
                assert(verifying_outcome(pk@, old_obj, r));
                return r;
            },
        },
        _ => {
            let r = Err(CryptoError::MissingSignature);
            assert(verifying_outcome(pk@, old_obj, r));
            return r;
        },
    };
    if sig.len() != 64 {
        let r = Err(CryptoError::InvalidSignatureEncoding);
        assert(signature_check(pk@, f, j as int, sig@, r));
        assert(verifying_outcome(pk@, old_obj, r));
        return r;
    }
    if sig[63] >= 32 {
        let r = Ok(false);
        assert(signature_check(pk@, f, j as int, sig@, r));
        assert(verifying_outcome(pk@, old_obj, r));
        return r;
    }
    let _ = fields.remove(j);
    let rest = Json::Object(fields);
    let msg = canonical_bytes(&rest);
    proof {
        lemma_object_text(rest);
    }
    let r = Ok(ed25519_verify(sig.as_slice(), msg.as_slice(), pk.as_slice()));
    assert(signature_check(pk@, f, j as int, sig@, r));
    assert(verifying_outcome(pk@, old_obj, r));
    r
}

/// Signing an object that has no `signature` field, then verifying the
/// signed object with the public key that matches the secret key, gives
/// `true`.
pub proof fn lemma_sign_verify_round_trip(
    private_keys: KeyArg,
    public_keys: KeyArg,
    sk: Seq<u8>,
    pk: Seq<u8>,
    obj: Json,
    signed: Result<Json, CryptoError>,
    verified: Result<bool, CryptoError>,
)
    requires
        private_text(private_keys) is Some,
        decoded(private_text(private_keys)->Some_0) == Some(sk),
        public_text(public_keys) is Some,
        decoded(public_text(public_keys)->Some_0) == Some(pk),
        is_keypair(pk, sk),
        obj is Object,
        well_formed(obj),
        field_index(obj->Object_0@, signature_key()) == obj->Object_0@.len(),
        sign_post(private_keys, obj, signed),
        verify_post(public_keys, signed->Ok_0, verified),
    ensures
        verified == Ok::<bool, CryptoError>(true),
{
    assert(signing_outcome(sk, obj, signed));
    let f = obj->Object_0@;
    let msg = object_text(f);
    let sig = ed25519_signature(sk, msg);
    let signed_obj = signed->Ok_0;
    let new = signed_obj->Object_0@;
    let n = f.len() as int;
    lemma_find_from(f, signature_key(), 0);
    assert(new.len() == n + 1);
    assert forall|m: int| 0 <= m < n implies new[m].0@ != signature_key() by {
        assert(new[m] == f[m]);
    }
    lemma_field_index_at(new, signature_key(), n);
    lemma_fields_well_formed_prefix(f, new, n as nat);
    assert(field_well_formed(new[n]));
    assert(fields_well_formed(new, (n + 1) as nat));
    assert(well_formed(signed_obj));
    assert(pk.len() == 32) by {
        assert(sk.subrange(32, 64).len() == 32);
    }
    assert(verifying_outcome(pk, signed_obj, verified));
    let s = new[n].1->Str_0;
    lemma_signature_text_body(sig);
    assert(decoded(s@) == Some(sig));
    assert(new.remove(n) =~= f);
    assert(signature_check(pk, new, n, sig, verified));
}

} // verus!
