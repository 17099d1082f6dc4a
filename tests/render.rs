use ssb_neon_keys::json::{is_well_formed, json_number, Json};
use ssb_neon_keys::render::{canonical_bytes, compact_bytes};

fn s(t: &str) -> String {
    t.to_string()
}

fn sample() -> Json {
    Json::Object(vec![
        (s("a"), Json::Number(s("1"))),
        (s("b"), Json::Str(s("x"))),
    ])
}

#[test]
fn canonical_text_of_flat_object() {
    let out = canonical_bytes(&sample());
    assert_eq!(String::from_utf8(out).unwrap(), "{\n  \"a\": 1,\n  \"b\": \"x\"\n}");
}

#[test]
fn canonical_text_of_nested_values() {
    let v = Json::Object(vec![
        (s("list"), Json::Array(vec![Json::Bool(true), Json::Null, Json::Array(vec![])])),
        (s("inner"), Json::Object(vec![(s("k"), Json::Bool(false))])),
        (s("empty"), Json::Object(vec![])),
    ]);
    let out = String::from_utf8(canonical_bytes(&v)).unwrap();
    let expected = "{\n  \"list\": [\n    true,\n    null,\n    []\n  ],\n  \"inner\": {\n    \"k\": false\n  },\n  \"empty\": {}\n}";
    assert_eq!(out, expected);
}

#[test]
fn canonical_text_keeps_field_order() {
    let v = Json::Object(vec![
        (s("b"), Json::Number(s("2"))),
        (s("a"), Json::Number(s("1"))),
    ]);
    let out = String::from_utf8(canonical_bytes(&v)).unwrap();
    assert_eq!(out, "{\n  \"b\": 2,\n  \"a\": 1\n}");
}

#[test]
fn canonical_text_is_deterministic() {
    assert_eq!(canonical_bytes(&sample()), canonical_bytes(&sample()));
}

#[test]
fn strings_are_escaped() {
    let v = Json::Str(s("q\"b\\n\nt\tc\u{1}é"));
    let out = String::from_utf8(compact_bytes(&v)).unwrap();
    assert_eq!(out, "\"q\\\"b\\\\n\\nt\\tc\\u0001é\"");
}

#[test]
fn compact_text_has_no_whitespace() {
    let v = Json::Object(vec![
        (s("a"), Json::Array(vec![Json::Number(s("1")), Json::Number(s("2.5"))])),
        (s("b"), Json::Null),
    ]);
    let out = String::from_utf8(compact_bytes(&v)).unwrap();
    assert_eq!(out, "{\"a\":[1,2.5],\"b\":null}");
}

#[test]
fn empty_containers_render_closed() {
    assert_eq!(canonical_bytes(&Json::Array(vec![])), b"[]".to_vec());
    assert_eq!(compact_bytes(&Json::Object(vec![])), b"{}".to_vec());
}

#[test]
fn json_numbers_are_recognised() {
    for good in ["0", "-0", "12", "-3.25", "1e5", "2.5E-3", "7e+10"] {
        assert!(json_number(&s(good)), "{}", good);
    }
    for bad in ["", "-", "01", "1.", ".5", "1e", "1e+", "+1", "1 ", "NaN", "1,2"] {
        assert!(!json_number(&s(bad)), "{}", bad);
    }
}

#[test]
fn well_formedness_looks_inside() {
    let good = Json::Array(vec![Json::Object(vec![(s("k"), Json::Number(s("4")))])]);
    let bad = Json::Array(vec![Json::Object(vec![(s("k"), Json::Number(s("4x")))])]);
    assert!(is_well_formed(&good));
    assert!(!is_well_formed(&bad));
}
