use vstd::prelude::*;
use vstd::utf8::encode_utf8;

use crate::json::{
    bool_text, compact, compact_field, compact_fields, compact_items, escape, escape_byte, hex_digit, null_text,
    pretty, pretty_field, pretty_fields, pretty_items, quoted, two_spaces, Json, BACKSLASH, CLOSE_BRACE,
    CLOSE_BRACKET, COLON, COMMA, CR, DIGIT_ZERO, LOWER_A, NEWLINE, OPEN_BRACE, OPEN_BRACKET, QUOTE,
    SPACE, TAB,
};

verus! {

fn push_slice(out: &mut Vec<u8>, s: &[u8])
    ensures
        final(out)@ == old(out)@ + s@,
{
    let mut i: usize = 0;
    while i < s.len()
        invariant
            i <= s@.len(),
            out@ == old(out)@ + s@.subrange(0, i as int),
        decreases s@.len() - i,
    {
        out.push(s[i]);
        i = i + 1;
        assert(s@.subrange(0, i as int) =~= s@.subrange(0, i - 1) + seq![s@[i - 1]]);
    }
    assert(s@.subrange(0, s@.len() as int) =~= s@);
}

fn push_hex_digit(out: &mut Vec<u8>, n: u8)
    requires
        n < 16,
    ensures
        final(out)@ == old(out)@.push(hex_digit(n)),
{
    if n < 10 {
        out.push(DIGIT_ZERO + n);
    } else {
        out.push(LOWER_A + n - 10);
    }
}

fn push_escaped_byte(out: &mut Vec<u8>, b: u8)
    ensures
        final(out)@ == old(out)@ + escape_byte(b),
{
    let ghost start = out@;
    if b == QUOTE || b == BACKSLASH {
        out.push(BACKSLASH);
        out.push(b);
    } else if b == 0x08 {
        out.push(BACKSLASH);
        out.push(98);
    } else if b == 0x0c {
        out.push(BACKSLASH);
        out.push(102);
    } else if b == NEWLINE {
        out.push(BACKSLASH);
        out.push(110);
    } else if b == CR {
        out.push(BACKSLASH);
        out.push(114);
    } else if b == TAB {
        out.push(BACKSLASH);
        out.push(116);
    } else if b < 0x20 {
        out.push(BACKSLASH);
        out.push(117);
        out.push(DIGIT_ZERO);
        out.push(DIGIT_ZERO);
        push_hex_digit(out, b / 16);
        push_hex_digit(out, b % 16);
    } else {
        out.push(b);
    }
    assert(out@ =~= start + escape_byte(b));
}

fn push_quoted(out: &mut Vec<u8>, s: &String)
    ensures
        final(out)@ == old(out)@ + quoted(s@),
{
    let bytes = s.as_str().as_bytes();
    let ghost start = out@;
    proof {
        assert(bytes@ == encode_utf8(s@));
    }
    out.push(QUOTE);
    let mut i: usize = 0;
    while i < bytes.len()
        invariant
            i <= bytes@.len(),
            out@ == start + seq![QUOTE] + escape(bytes@.subrange(0, i as int)),
        decreases bytes@.len() - i,
    {
        push_escaped_byte(out, bytes[i]);
        i = i + 1;
        assert(bytes@.subrange(0, i as int).drop_last() =~= bytes@.subrange(0, i - 1));
        assert(out@ =~= start + seq![QUOTE] + escape(bytes@.subrange(0, i as int)));
    }
    assert(bytes@.subrange(0, bytes@.len() as int) =~= bytes@);
    out.push(QUOTE);
    assert(out@ =~= start + quoted(s@));
}

fn push_text(out: &mut Vec<u8>, t: &String)
    ensures
        final(out)@ == old(out)@ + encode_utf8(t@),
{
    push_slice(out, t.as_str().as_bytes());
}

fn push_scalar(out: &mut Vec<u8>, v: &Json)
    requires
        !(v is Array),
        !(v is Object),
    ensures
        final(out)@ == old(out)@ + compact(*v),
        final(out)@ == old(out)@ + pretty(*v, seq![]),
{
    let ghost start = out@;
    match v {
        Json::Null => {
            out.push(110);
            out.push(117);
            out.push(108);
            out.push(108);
        },
        Json::Bool(b) => {
            if *b {
                out.push(116);
                out.push(114);
                out.push(117);
                out.push(101);
            } else {
                out.push(102);
                out.push(97);
                out.push(108);
                out.push(115);
                out.push(101);
            }
        },
        Json::Number(t) => push_text(out, t),
        Json::Str(s) => push_quoted(out, s),
        _ => {},
    }
    assert(out@ =~= start + compact(*v));
}

/// Appends the indented rendering of `v`, whose line is indented by `ind`.
pub fn write_pretty(out: &mut Vec<u8>, v: &Json, ind: &Vec<u8>)
    ensures
        final(out)@ == old(out)@ + pretty(*v, ind@),
    decreases v,
{
    let ghost start = out@;
    match v {
        Json::Array(items) => {
            if items.len() == 0 {
                out.push(OPEN_BRACKET);
                out.push(CLOSE_BRACKET);
                assert(out@ =~= start + pretty(*v, ind@));
                return;
            }
            let mut inner = ind.clone();
            inner.push(SPACE);
            inner.push(SPACE);
            assert(inner@ =~= ind@ + two_spaces());
            out.push(OPEN_BRACKET);
            out.push(NEWLINE);
            let mut i: usize = 0;
            while i < items.len()
                invariant
                    i <= items@.len(),
                    *v is Array,
                    v->Array_0 == *items,
                    inner@ == ind@ + two_spaces(),
                    out@ == start + seq![OPEN_BRACKET, NEWLINE] + pretty_items(items@, i as nat, inner@),
                decreases items@.len() - i,
            {
                if i > 0 {
                    out.push(COMMA);
                    out.push(NEWLINE);
                }
                push_slice(out, inner.as_slice());
                proof {
                    vstd::std_specs::vec::axiom_vec_index_decreases(*items, i as int);
                }
                write_pretty(out, &items[i], &inner);
                i = i + 1;
                assert(out@ =~= start + seq![OPEN_BRACKET, NEWLINE] + pretty_items(items@, i as nat, inner@));
            }
            out.push(NEWLINE);
            push_slice(out, ind.as_slice());
            out.push(CLOSE_BRACKET);
            assert(out@ =~= start + pretty(*v, ind@));
        },
        Json::Object(fields) => {
            if fields.len() == 0 {
                out.push(OPEN_BRACE);
                out.push(CLOSE_BRACE);
                assert(out@ =~= start + pretty(*v, ind@));
                return;
            }
            let mut inner = ind.clone();
            inner.push(SPACE);
            inner.push(SPACE);
            assert(inner@ =~= ind@ + two_spaces());
            out.push(OPEN_BRACE);
            out.push(NEWLINE);
            let mut i: usize = 0;
            while i < fields.len()
                invariant
                    i <= fields@.len(),
                    *v is Object,
                    v->Object_0 == *fields,
                    inner@ == ind@ + two_spaces(),
                    out@ == start + seq![OPEN_BRACE, NEWLINE] + pretty_fields(fields@, i as nat, inner@),
                decreases fields@.len() - i,
            {
                if i > 0 {
                    out.push(COMMA);
                    out.push(NEWLINE);
                }
                push_slice(out, inner.as_slice());
                push_quoted(out, &fields[i].0);
                out.push(COLON);
                out.push(SPACE);
                proof {
                    vstd::std_specs::vec::axiom_vec_index_decreases(*fields, i as int);
                }
                write_pretty(out, &fields[i].1, &inner);
                assert(pretty_field(fields@[i as int], inner@) == inner@ + quoted(fields@[i as int].0@)
                    + seq![COLON, SPACE] + pretty(fields@[i as int].1, inner@));
                i = i + 1;
                assert(out@ =~= start + seq![OPEN_BRACE, NEWLINE] + pretty_fields(fields@, i as nat, inner@));
            }
            out.push(NEWLINE);
            push_slice(out, ind.as_slice());
            out.push(CLOSE_BRACE);
            assert(out@ =~= start + pretty(*v, ind@));
        },
        _ => push_scalar(out, v),
    }
}

/// Appends the compact rendering of `v`.
pub fn write_compact(out: &mut Vec<u8>, v: &Json)
    ensures
        final(out)@ == old(out)@ + compact(*v),
    decreases v,
{
    let ghost start = out@;
    match v {
        Json::Array(items) => {
            out.push(OPEN_BRACKET);
            let mut i: usize = 0;
            while i < items.len()
                invariant
                    i <= items@.len(),
                    *v is Array,
                    v->Array_0 == *items,
                    out@ == start + seq![OPEN_BRACKET] + compact_items(items@, i as nat),
                decreases items@.len() - i,
            {
                if i > 0 {
                    out.push(COMMA);
                }
                proof {
                    vstd::std_specs::vec::axiom_vec_index_decreases(*items, i as int);
                }
                write_compact(out, &items[i]);
                i = i + 1;
                assert(out@ =~= start + seq![OPEN_BRACKET] + compact_items(items@, i as nat));
            }
            out.push(CLOSE_BRACKET);
            assert(out@ =~= start + compact(*v));
        },
        Json::Object(fields) => {
            out.push(OPEN_BRACE);
            let mut i: usize = 0;
            while i < fields.len()
                invariant
                    i <= fields@.len(),
                    *v is Object,
                    v->Object_0 == *fields,
                    out@ == start + seq![OPEN_BRACE] + compact_fields(fields@, i as nat),
                decreases fields@.len() - i,
            {
                if i > 0 {
                    out.push(COMMA);
                }
                push_quoted(out, &fields[i].0);
                out.push(COLON);
                proof {
                    vstd::std_specs::vec::axiom_vec_index_decreases(*fields, i as int);
                }
                write_compact(out, &fields[i].1);
                assert(compact_field(fields@[i as int]) == quoted(fields@[i as int].0@) + seq![COLON]
                    + compact(fields@[i as int].1));
                i = i + 1;
                assert(out@ =~= start + seq![OPEN_BRACE] + compact_fields(fields@, i as nat));
            }
            out.push(CLOSE_BRACE);
            assert(out@ =~= start + compact(*v));
        },
        _ => push_scalar(out, v),
    }
}

/// The indented rendering of `v` as bytes: the payload that gets signed.
pub fn canonical_bytes(v: &Json) -> (r: Vec<u8>)
    ensures
        r@ == pretty(*v, seq![]),
{
    let mut out: Vec<u8> = Vec::new();
    let ind: Vec<u8> = Vec::new();
    write_pretty(&mut out, v, &ind);
    assert(out@ =~= pretty(*v, seq![]));
    out
}

/// The compact rendering of `v` as bytes: the plaintext that gets sealed.
pub fn compact_bytes(v: &Json) -> (r: Vec<u8>)
    ensures
        r@ == compact(*v),
{
    let mut out: Vec<u8> = Vec::new();
    write_compact(&mut out, v);
    assert(out@ =~= compact(*v));
    out
}

} // verus!
