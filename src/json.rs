use vstd::prelude::*;
use vstd::string::StrSliceExecFns;
use vstd::utf8::encode_utf8;

verus! {

pub const BACKSLASH: u8 = 92;
pub const CLOSE_BRACE: u8 = 125;
pub const CLOSE_BRACKET: u8 = 93;
pub const COLON: u8 = 58;
pub const COMMA: u8 = 44;
pub const CR: u8 = 13;
pub const DIGIT_ZERO: u8 = 48;
pub const LOWER_A: u8 = 97;
pub const NEWLINE: u8 = 10;
pub const OPEN_BRACE: u8 = 123;
pub const OPEN_BRACKET: u8 = 91;
pub const QUOTE: u8 = 34;
pub const SPACE: u8 = 32;
pub const TAB: u8 = 9;

/// A structured value: what gets signed and what gets sealed.
#[derive(Debug)]
pub enum Json {
    Null,
    Bool(bool),
    /// A number, held as the decimal text that renders it.
    Number(String),
    Str(String),
    Array(Vec<Json>),
    /// Fields in insertion order; the order is part of the rendering.
    Object(Vec<(String, Json)>),
}

pub open spec fn null_text() -> Seq<u8> {
    seq![110u8, 117u8, 108u8, 108u8]
}

pub open spec fn bool_text(b: bool) -> Seq<u8> {
    if b {
        seq![116u8, 114u8, 117u8, 101u8]
    } else {
        seq![102u8, LOWER_A, 108u8, 115u8, 101u8]
    }
}

pub open spec fn hex_digit(n: u8) -> u8 {
    if n < 10 {
        (DIGIT_ZERO + n) as u8
    } else {
        (LOWER_A + n - 10) as u8
    }
}

/// How one byte of a UTF-8 string appears between the quotes.
pub open spec fn escape_byte(b: u8) -> Seq<u8> {
    if b == QUOTE {
        seq![BACKSLASH, QUOTE]
    } else if b == BACKSLASH {
        seq![BACKSLASH, BACKSLASH]
    } else if b == 0x08 {
        seq![BACKSLASH, 98u8]
    } else if b == 0x0c {
        seq![BACKSLASH, 102u8]
    } else if b == NEWLINE {
        seq![BACKSLASH, 110u8]
    } else if b == CR {
        seq![BACKSLASH, 114u8]
    } else if b == TAB {
        seq![BACKSLASH, 116u8]
    } else if b < 0x20 {
        seq![BACKSLASH, 117u8, DIGIT_ZERO, DIGIT_ZERO, hex_digit(b / 16), hex_digit(b % 16)]
    } else {
        seq![b]
    }
}

pub open spec fn escape(s: Seq<u8>) -> Seq<u8>
    decreases s.len(),
{
    if s.len() == 0 {
        seq![]
    } else {
        escape(s.drop_last()) + escape_byte(s.last())
    }
}

/// A string literal: the escaped UTF-8 bytes of `s` between double quotes.
pub open spec fn quoted(s: Seq<char>) -> Seq<u8> {
    seq![QUOTE] + escape(encode_utf8(s)) + seq![QUOTE]
}

pub open spec fn two_spaces() -> Seq<u8> {
    seq![SPACE, SPACE]
}

/// The indented rendering: nested entries on lines of their own, indented
/// by two spaces per level, `": "` after each key; `ind` is the indentation
/// of the line that holds `v`.
pub open spec fn pretty(v: Json, ind: Seq<u8>) -> Seq<u8>
    decreases v, 0nat,
{
    match v {
        Json::Null => null_text(),
        Json::Bool(b) => bool_text(b),
        Json::Number(t) => encode_utf8(t@),
        Json::Str(s) => quoted(s@),
        Json::Array(items) => {
            if items@.len() == 0 {
                seq![OPEN_BRACKET, CLOSE_BRACKET]
            } else {
                seq![OPEN_BRACKET, NEWLINE] + pretty_items(items@, items@.len(), ind + two_spaces()) + seq![
                    NEWLINE,
                ] + ind + seq![CLOSE_BRACKET]
            }
        },
        Json::Object(fields) => {
            if fields@.len() == 0 {
                seq![OPEN_BRACE, CLOSE_BRACE]
            } else {
                seq![OPEN_BRACE, NEWLINE] + pretty_fields(fields@, fields@.len(), ind + two_spaces())
                    + seq![NEWLINE] + ind + seq![CLOSE_BRACE]
            }
        },
    }
}

/// The first `n` items, one per line, each line indented by `ind`.
pub open spec fn pretty_items(items: Seq<Json>, n: nat, ind: Seq<u8>) -> Seq<u8>
    decreases items, n,
{
    if n == 0 || n > items.len() {
        seq![]
    } else if n == 1 {
        ind + pretty(items[0], ind)
    } else {
        pretty_items(items, (n - 1) as nat, ind) + seq![COMMA, NEWLINE] + ind + pretty(items[n - 1], ind)
    }
}

pub open spec fn pretty_field(f: (String, Json), ind: Seq<u8>) -> Seq<u8>
    decreases f, 0nat,
{
    ind + quoted(f.0@) + seq![COLON, SPACE] + pretty(f.1, ind)
}

/// The first `n` fields, one per line, each line indented by `ind`.
pub open spec fn pretty_fields(fields: Seq<(String, Json)>, n: nat, ind: Seq<u8>) -> Seq<u8>
    decreases fields, n,
{
    if n == 0 || n > fields.len() {
        seq![]
    } else if n == 1 {
        pretty_field(fields[0], ind)
    } else {
        pretty_fields(fields, (n - 1) as nat, ind) + seq![COMMA, NEWLINE] + pretty_field(
            fields[n - 1],
            ind,
        )
    }
}

/// The compact rendering: no whitespace at all, `":"` after each key.
pub open spec fn compact(v: Json) -> Seq<u8>
    decreases v, 0nat,
{
    match v {
        Json::Null => null_text(),
        Json::Bool(b) => bool_text(b),
        Json::Number(t) => encode_utf8(t@),
        Json::Str(s) => quoted(s@),
        Json::Array(items) => seq![OPEN_BRACKET] + compact_items(items@, items@.len()) + seq![
            CLOSE_BRACKET,
        ],
        Json::Object(fields) => seq![OPEN_BRACE] + compact_fields(fields@, fields@.len()) + seq![
            CLOSE_BRACE,
        ],
    }
}

/// The first `n` items, separated by commas.
pub open spec fn compact_items(items: Seq<Json>, n: nat) -> Seq<u8>
    decreases items, n,
{
    if n == 0 || n > items.len() {
        seq![]
    } else if n == 1 {
        compact(items[0])
    } else {
        compact_items(items, (n - 1) as nat) + seq![COMMA] + compact(items[n - 1])
    }
}

pub open spec fn compact_field(f: (String, Json)) -> Seq<u8>
    decreases f, 0nat,
{
    quoted(f.0@) + seq![COLON] + compact(f.1)
}

/// The first `n` fields, separated by commas.
pub open spec fn compact_fields(fields: Seq<(String, Json)>, n: nat) -> Seq<u8>
    decreases fields, n,
{
    if n == 0 || n > fields.len() {
        seq![]
    } else if n == 1 {
        compact_field(fields[0])
    } else {
        compact_fields(fields, (n - 1) as nat) + seq![COMMA] + compact_field(fields[n - 1])
    }
}

/// The indented rendering of an object with these fields, at the top level.
pub open spec fn object_text(fields: Seq<(String, Json)>) -> Seq<u8> {
    if fields.len() == 0 {
        seq![OPEN_BRACE, CLOSE_BRACE]
    } else {
        seq![OPEN_BRACE, NEWLINE] + pretty_fields(fields, fields.len(), two_spaces()) + seq![NEWLINE]
            + seq![CLOSE_BRACE]
    }
}

pub proof fn lemma_object_text(v: Json)
    requires
        v is Object,
    ensures
        pretty(v, seq![]) == object_text(v->Object_0@),
{
    assert(Seq::<u8>::empty() + two_spaces() =~= two_spaces());
    assert(seq![NEWLINE] + Seq::<u8>::empty() =~= seq![NEWLINE]);
}

/// One step of the automaton that reads a JSON number: optional `-`, an
/// integer part without leading zeros, optional fraction, optional exponent.
/// A negative state is a rejection.
pub open spec fn number_step(st: int, c: char) -> int {
    let digit = '0' <= c && c <= '9';
    if st == 0 {
        if c == '-' { 1 } else if c == '0' { 2 } else if digit { 3 } else { -1 }
    } else if st == 1 {
        if c == '0' { 2 } else if digit { 3 } else { -1 }
    } else if st == 2 || st == 3 || st == 5 {
        if st == 3 && digit {
            3
        } else if st == 5 && digit {
            5
        } else if c == '.' && st != 5 {
            4
        } else if c == 'e' || c == 'E' {
            6
        } else {
            -1
        }
    } else if st == 4 {
        if digit { 5 } else { -1 }
    } else if st == 6 {
        if c == '+' || c == '-' { 7 } else if digit { 8 } else { -1 }
    } else if st == 7 || st == 8 {
        if digit { 8 } else { -1 }
    } else {
        -1
    }
}

/// The state after reading `s` from index `i` on, starting in `st`.
pub open spec fn number_run(s: Seq<char>, i: int, st: int) -> int
    decreases s.len() - i,
{
    if i >= s.len() || st < 0 {
        st
    } else {
        number_run(s, i + 1, number_step(st, s[i]))
    }
}

/// `s` is a number as JSON writes it.
pub open spec fn is_json_number(s: Seq<char>) -> bool {
    let st = number_run(s, 0, 0);
    st == 2 || st == 3 || st == 5 || st == 8
}

/// Every number in `v` is a JSON number.
pub open spec fn well_formed(v: Json) -> bool
    decreases v, 0nat,
{
    match v {
        Json::Number(t) => is_json_number(t@),
        Json::Array(items) => items_well_formed(items@, items@.len()),
        Json::Object(fields) => fields_well_formed(fields@, fields@.len()),
        _ => true,
    }
}

pub open spec fn items_well_formed(items: Seq<Json>, n: nat) -> bool
    decreases items, n,
{
    if n == 0 || n > items.len() {
        true
    } else {
        items_well_formed(items, (n - 1) as nat) && well_formed(items[n - 1])
    }
}

pub open spec fn fields_well_formed(fields: Seq<(String, Json)>, n: nat) -> bool
    decreases fields, n,
{
    if n == 0 || n > fields.len() {
        true
    } else {
        fields_well_formed(fields, (n - 1) as nat) && field_well_formed(fields[n - 1])
    }
}

pub open spec fn field_well_formed(f: (String, Json)) -> bool
    decreases f, 0nat,
{
    well_formed(f.1)
}

/// Fields that agree on their first `n` entries agree on being well formed there.
pub proof fn lemma_fields_well_formed_prefix(a: Seq<(String, Json)>, b: Seq<(String, Json)>, n: nat)
    requires
        n <= a.len(),
        n <= b.len(),
        forall|i: int| 0 <= i < n ==> a[i] == b[i],
    ensures
        fields_well_formed(a, n) == fields_well_formed(b, n),
    decreases n,
{
    if n > 0 {
        lemma_fields_well_formed_prefix(a, b, (n - 1) as nat);
    }
}

pub proof fn lemma_items_well_formed_prefix(items: Seq<Json>, m: nat, n: nat)
    requires
        m <= n <= items.len(),
        items_well_formed(items, n),
    ensures
        items_well_formed(items, m),
    decreases n,
{
    if m < n {
        lemma_items_well_formed_prefix(items, m, (n - 1) as nat);
    }
}

pub proof fn lemma_fields_well_formed_shorter(fields: Seq<(String, Json)>, m: nat, n: nat)
    requires
        m <= n <= fields.len(),
        fields_well_formed(fields, n),
    ensures
        fields_well_formed(fields, m),
    decreases n,
{
    if m < n {
        lemma_fields_well_formed_shorter(fields, m, (n - 1) as nat);
    }
}

fn number_step_exec(st: i8, c: char) -> (r: i8)
    requires
        -1 <= st <= 8,
    ensures
        r == number_step(st as int, c),
        -1 <= r <= 8,
{
    let digit = '0' <= c && c <= '9';
    if st == 0 {
        if c == '-' { 1 } else if c == '0' { 2 } else if digit { 3 } else { -1 }
    } else if st == 1 {
        if c == '0' { 2 } else if digit { 3 } else { -1 }
    } else if st == 2 || st == 3 || st == 5 {
        if st == 3 && digit {
            3
        } else if st == 5 && digit {
            5
        } else if c == '.' && st != 5 {
            4
        } else if c == 'e' || c == 'E' {
            6
        } else {
            -1
        }
    } else if st == 4 {
        if digit { 5 } else { -1 }
    } else if st == 6 {
        if c == '+' || c == '-' { 7 } else if digit { 8 } else { -1 }
    } else if st == 7 || st == 8 {
        if digit { 8 } else { -1 }
    } else {
        -1
    }
}

/// Whether `s` is a number as JSON writes it.
pub fn json_number(s: &String) -> (r: bool)
    ensures
        r == is_json_number(s@),
{
    let n = s.as_str().unicode_len();
    let mut i: usize = 0;
    let mut st: i8 = 0;
    while i < n && st >= 0
        invariant
            n == s@.len(),
            i <= n,
            -1 <= st <= 8,
            number_run(s@, i as int, st as int) == number_run(s@, 0, 0),
        decreases n - i,
    {
        st = number_step_exec(st, s.as_str().get_char(i));
        i = i + 1;
    }
    st == 2 || st == 3 || st == 5 || st == 8
}

/// Whether every number in `v` is a JSON number.
pub fn is_well_formed(v: &Json) -> (r: bool)
    ensures
        r == well_formed(*v),
    decreases v,
{
    match v {
        Json::Number(t) => json_number(t),
        Json::Array(items) => {
            let mut i: usize = 0;
            while i < items.len()
                invariant
                    i <= items@.len(),
                    *v is Array,
                    v->Array_0 == *items,
                    items_well_formed(items@, i as nat),
                decreases items@.len() - i,
            {
                proof {
                    vstd::std_specs::vec::axiom_vec_index_decreases(*items, i as int);
                }
                if !is_well_formed(&items[i]) {
                    proof {
                        if items_well_formed(items@, items@.len()) {
                            lemma_items_well_formed_prefix(items@, (i + 1) as nat, items@.len());
                        }
                    }
                    return false;
                }
                i = i + 1;
            }
            true
        },
        Json::Object(fields) => {
            let mut i: usize = 0;
            while i < fields.len()
                invariant
                    i <= fields@.len(),
                    *v is Object,
                    v->Object_0 == *fields,
                    fields_well_formed(fields@, i as nat),
                decreases fields@.len() - i,
            {
                proof {
                    vstd::std_specs::vec::axiom_vec_index_decreases(*fields, i as int);
                }
                let ok = is_well_formed(&fields[i].1);
                assert(field_well_formed(fields@[i as int]) == well_formed(fields@[i as int].1));
                if !ok {
                    proof {
                        if fields_well_formed(fields@, fields@.len()) {
                            lemma_fields_well_formed_shorter(fields@, (i + 1) as nat, fields@.len());
                        }
                    }
                    return false;
                }
                i = i + 1;
            }
            true
        },
        _ => true,
    }
}

} // verus!
