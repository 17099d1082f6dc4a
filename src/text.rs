use vstd::prelude::*;
use vstd::utf8::{
    encode_utf8, encode_utf8_valid_utf8, is_leading_byte_width_1, partial_valid_utf8,
    partial_valid_utf8_extend_ascii_block, valid_utf8, valid_utf8_concat,
};

use crate::json::{
    bool_text, compact, compact_field, compact_fields, compact_items, escape, escape_byte,
    hex_digit, null_text, quoted, Json, CLOSE_BRACE, CLOSE_BRACKET, COLON, COMMA, OPEN_BRACE,
    OPEN_BRACKET, QUOTE,
};

verus! {

pub open spec fn all_ascii(s: Seq<u8>) -> bool {
    forall|i: int| 0 <= i < s.len() ==> #[trigger] s[i] < 0x80
}

pub proof fn lemma_ascii_valid(s: Seq<u8>)
    requires
        all_ascii(s),
    ensures
        valid_utf8(s),
{
    assert(valid_utf8(s.subrange(0, 0)));
    assert(partial_valid_utf8(s, 0));
    assert forall|i: int| 0 <= 0 <= i < s.len() <= s.len() implies #[trigger] is_leading_byte_width_1(
        s[i],
    ) by {}
    partial_valid_utf8_extend_ascii_block(s, 0, s.len() as int);
    assert(s.subrange(0, s.len() as int) =~= s);
}

pub proof fn lemma_escape_concat(a: Seq<u8>, b: Seq<u8>)
    ensures
        escape(a + b) == escape(a) + escape(b),
    decreases b.len(),
{
    if b.len() == 0 {
        assert(a + b =~= a);
        assert(escape(a) + escape(b) =~= escape(a));
    } else {
        lemma_escape_concat(a, b.drop_last());
        assert((a + b).drop_last() =~= a + b.drop_last());
        assert((a + b).last() == b.last());
        assert(escape(a + b) =~= escape(a) + escape(b));
    }
}

pub proof fn lemma_escape_byte_ascii(b: u8)
    requires
        b < 0x80,
    ensures
        all_ascii(escape_byte(b)),
{
    assert(hex_digit(b / 16) < 0x80);
    assert(hex_digit(b % 16) < 0x80);
}

/// Bytes of a multi-byte character are kept as they are.
pub proof fn lemma_escape_high(s: Seq<u8>)
    requires
        forall|i: int| 0 <= i < s.len() ==> #[trigger] s[i] >= 0x80,
    ensures
        escape(s) == s,
    decreases s.len(),
{
    if s.len() > 0 {
        lemma_escape_high(s.drop_last());
        assert(escape(s) =~= s);
    }
}

/// Escaping keeps UTF-8 text valid.
pub proof fn lemma_escape_valid(e: Seq<u8>)
    requires
        valid_utf8(e),
    ensures
        valid_utf8(escape(e)),
    decreases e.len(),
{
    if e.len() > 0 {
        let l = vstd::utf8::length_of_first_scalar(e);
        assert(vstd::utf8::valid_first_scalar(e));
        assert(1 <= l <= e.len());
        let first = e.subrange(0, l);
        let rest = e.subrange(l, e.len() as int);
        assert(rest == vstd::utf8::pop_first_scalar(e));
        lemma_escape_valid(rest);
        assert(e =~= first + rest);
        lemma_escape_concat(first, rest);
        if l == 1 {
            assert(first =~= seq![e[0]]);
            assert(escape(first) =~= escape_byte(e[0])) by {
                assert(first.drop_last() =~= Seq::<u8>::empty());
                assert(first.last() == e[0]);
                assert(escape(Seq::<u8>::empty()) =~= Seq::<u8>::empty());
            }
            lemma_escape_byte_ascii(e[0]);
            lemma_ascii_valid(escape(first));
        } else {
            assert forall|i: int| 0 <= i < first.len() implies #[trigger] first[i] >= 0x80 by {
                assert(first[i] == e[i]);
            }
            lemma_escape_high(first);
            assert(first[0] == e[0]);
            assert(first[1] == e[1]);
            assert(l >= 3 ==> first[2] == e[2]);
            assert(l >= 4 ==> first[3] == e[3]);
            assert(vstd::utf8::valid_first_scalar(first));
            reveal_with_fuel(valid_utf8, 2);
            assert(vstd::utf8::pop_first_scalar(first) =~= Seq::<u8>::empty());
            assert(valid_utf8(first));
        }
        valid_utf8_concat(escape(first), escape(rest));
    }
}

pub proof fn lemma_quoted_valid(s: Seq<char>)
    ensures
        valid_utf8(quoted(s)),
{
    encode_utf8_valid_utf8(s);
    lemma_escape_valid(encode_utf8(s));
    lemma_ascii_valid(seq![QUOTE]);
    valid_utf8_concat(seq![QUOTE], escape(encode_utf8(s)));
    valid_utf8_concat(seq![QUOTE] + escape(encode_utf8(s)), seq![QUOTE]);
}

/// The compact rendering of every value is valid UTF-8.
pub proof fn lemma_compact_valid(v: Json)
    ensures
        valid_utf8(compact(v)),
    decreases v, 0nat,
{
    match v {
        Json::Null => lemma_ascii_valid(null_text()),
        Json::Bool(b) => lemma_ascii_valid(bool_text(b)),
        Json::Number(t) => encode_utf8_valid_utf8(t@),
        Json::Str(s) => lemma_quoted_valid(s@),
        Json::Array(items) => {
            lemma_compact_items_valid(items@, items@.len());
            lemma_ascii_valid(seq![OPEN_BRACKET]);
            lemma_ascii_valid(seq![CLOSE_BRACKET]);
            valid_utf8_concat(seq![OPEN_BRACKET], compact_items(items@, items@.len()));
            valid_utf8_concat(
                seq![OPEN_BRACKET] + compact_items(items@, items@.len()),
                seq![CLOSE_BRACKET],
            );
        },
        Json::Object(fields) => {
            lemma_compact_fields_valid(fields@, fields@.len());
            lemma_ascii_valid(seq![OPEN_BRACE]);
            lemma_ascii_valid(seq![CLOSE_BRACE]);
            valid_utf8_concat(seq![OPEN_BRACE], compact_fields(fields@, fields@.len()));
            valid_utf8_concat(
                seq![OPEN_BRACE] + compact_fields(fields@, fields@.len()),
                seq![CLOSE_BRACE],
            );
        },
    }
}

pub proof fn lemma_compact_items_valid(items: Seq<Json>, n: nat)
    ensures
        valid_utf8(compact_items(items, n)),
    decreases items, n,
{
    if n == 0 || n > items.len() {
    } else if n == 1 {
        lemma_compact_valid(items[0]);
    } else {
        lemma_compact_items_valid(items, (n - 1) as nat);
        lemma_compact_valid(items[n - 1]);
        lemma_ascii_valid(seq![COMMA]);
        valid_utf8_concat(compact_items(items, (n - 1) as nat), seq![COMMA]);
        valid_utf8_concat(compact_items(items, (n - 1) as nat) + seq![COMMA], compact(items[n - 1]));
    }
}

pub proof fn lemma_compact_field_valid(f: (String, Json))
    ensures
        valid_utf8(compact_field(f)),
    decreases f, 1nat,
{
    lemma_quoted_valid(f.0@);
    lemma_compact_valid(f.1);
    lemma_ascii_valid(seq![COLON]);
    valid_utf8_concat(quoted(f.0@), seq![COLON]);
    valid_utf8_concat(quoted(f.0@) + seq![COLON], compact(f.1));
}

pub proof fn lemma_compact_fields_valid(fields: Seq<(String, Json)>, n: nat)
    ensures
        valid_utf8(compact_fields(fields, n)),
    decreases fields, n,
{
    if n == 0 || n > fields.len() {
    } else if n == 1 {
        lemma_compact_field_valid(fields[0]);
    } else {
        lemma_compact_fields_valid(fields, (n - 1) as nat);
        lemma_compact_field_valid(fields[n - 1]);
        lemma_ascii_valid(seq![COMMA]);
        valid_utf8_concat(compact_fields(fields, (n - 1) as nat), seq![COMMA]);
        valid_utf8_concat(
            compact_fields(fields, (n - 1) as nat) + seq![COMMA],
            compact_field(fields[n - 1]),
        );
    }
}

} // verus!
