use vstd::prelude::*;
use vstd::string::StrSliceExecFns;

use crate::crypto::{b64_decoded, base64_decode, ed25519_keypair_from_seed, is_keypair};

verus! {

/// Where a key comes from: the key text itself, or a container of key texts.
#[derive(Clone, Debug)]
pub enum KeyArg {
    Raw(String),
    Container { private: Option<String>, public: Option<String> },
}

/// The failures of the signing and sealing operations.
#[derive(Debug, PartialEq, Eq, Structural)]
pub enum CryptoError {
    /// An argument has the wrong shape: the object is not an object, or a
    /// number in the value is not written as JSON writes numbers.
    InvalidArgument,
    /// The key text is not base64.
    InvalidKeyEncoding,
    /// The decoded key has the wrong length, or a sealing key is too short.
    InvalidKeyLength,
    /// The key container lacks the field that the operation needs.
    MissingKeyField,
    /// The object has no `signature` field holding a string.
    MissingSignature,
    /// The signature text is not base64, or does not decode to 64 bytes.
    InvalidSignatureEncoding,
    /// The sealed bytes do not authenticate under the key.
    DecryptionFailed,
}

pub open spec fn is_sigil(c: char) -> bool {
    c == '@' || c == '%' || c == '&'
}

/// The index of the first `.` at or after `i`, or the length of `s`.
pub open spec fn dot_from(s: Seq<char>, i: int) -> int
    decreases s.len() - i,
{
    if i >= s.len() {
        s.len() as int
    } else if s[i] == '.' {
        i
    } else {
        dot_from(s, i + 1)
    }
}

pub open spec fn body_start(s: Seq<char>) -> int {
    if s.len() > 0 && is_sigil(s[0]) {
        1
    } else {
        0
    }
}

/// The base64 part of a key or signature text: without a leading sigil,
/// and up to the first `.` (which starts a suffix such as `.ed25519`).
pub open spec fn key_body(s: Seq<char>) -> Seq<char> {
    s.subrange(body_start(s), dot_from(s, 0))
}

/// The bytes that a key or signature text decodes to, if any.
pub open spec fn decoded(s: Seq<char>) -> Option<Seq<u8>> {
    b64_decoded(key_body(s))
}

pub open spec fn private_text(keys: KeyArg) -> Option<Seq<char>> {
    match keys {
        KeyArg::Raw(s) => Some(s@),
        KeyArg::Container { private, .. } => match private {
            Some(s) => Some(s@),
            None => None,
        },
    }
}

pub open spec fn public_text(keys: KeyArg) -> Option<Seq<char>> {
    match keys {
        KeyArg::Raw(s) => Some(s@),
        KeyArg::Container { public, .. } => match public {
            Some(s) => Some(s@),
            None => None,
        },
    }
}

pub proof fn lemma_dot_from_bounds(s: Seq<char>, i: int)
    requires
        0 <= i,
    ensures
        i <= s.len() ==> i <= dot_from(s, i) <= s.len(),
        i <= s.len() ==> dot_from(s, i) == s.len() || s[dot_from(s, i)] == '.',
        forall|k: int| i <= k < dot_from(s, i) ==> s[k] != '.',
    decreases s.len() - i,
{
    if i < s.len() && s[i] != '.' {
        lemma_dot_from_bounds(s, i + 1);
    }
}

/// The text of the key that signing uses.
pub fn private_key_text(keys: &KeyArg) -> (r: Option<&String>)
    ensures
        match r {
            Some(s) => private_text(*keys) == Some(s@),
            None => private_text(*keys) is None,
        },
{
    match keys {
        KeyArg::Raw(s) => Some(s),
        KeyArg::Container { private, .. } => match private {
            Some(s) => Some(s),
            None => None,
        },
    }
}

/// The text of the key that verifying uses.
pub fn public_key_text(keys: &KeyArg) -> (r: Option<&String>)
    ensures
        match r {
            Some(s) => public_text(*keys) == Some(s@),
            None => public_text(*keys) is None,
        },
{
    match keys {
        KeyArg::Raw(s) => Some(s),
        KeyArg::Container { public, .. } => match public {
            Some(s) => Some(s),
            None => None,
        },
    }
}

/// Decodes a key or signature text: drops a leading sigil and any suffix
/// from the first `.` on, then decodes the rest as base64.
pub fn decode_key(s: &str) -> (r: Option<Vec<u8>>)
    ensures
        match r {
            Some(v) => decoded(s@) == Some(v@),
            None => decoded(s@) is None,
        },
{
    let n = s.unicode_len();
    let mut start: usize = 0;
    if n > 0 {
        let c = s.get_char(0);
        if c == '@' || c == '%' || c == '&' {
            start = 1;
        }
    }
    let mut end: usize = 0;
    while end < n && s.get_char(end) != '.'
        invariant
            n == s@.len(),
            end <= n,
            dot_from(s@, end as int) == dot_from(s@, 0),
        decreases n - end,
    {
        end = end + 1;
    }
    proof {
        lemma_dot_from_bounds(s@, 0);
        if start == 1 {
            lemma_dot_from_bounds(s@, 1);
        }
    }
    let body = s.substring_char(start, end);
    assert(body@ == key_body(s@));
    base64_decode(body)
}

/// The ed25519 key pair of a 32-byte seed: the public key, then the 64-byte
/// secret key; `None` where the seed has another length.
pub fn keypair_from_seed(seed: &[u8]) -> (r: Option<(Vec<u8>, Vec<u8>)>)
    ensures
        r is Some <==> seed@.len() == 32,
        r is Some ==> is_keypair(r->Some_0.0@, r->Some_0.1@),
        r is Some ==> r->Some_0.1@.subrange(0, 32) == seed@,
{
    if seed.len() != 32 {
        return None;
    }
    let (pk, sk) = ed25519_keypair_from_seed(seed);
    assert(sk@.subrange(0, 32) =~= seed@);
    assert(sk@.subrange(32, 64) =~= pk@);
    Some((pk, sk))
}

} // verus!
