use ta_enhanced::codec::{read_json, write_json};
use ta_enhanced::json::{is_before, Json, JsonNumber};

fn text(s: &str) -> Json {
    Json::Text(s.to_string())
}

#[test]
fn documents_are_read_into_plain_values() {
    let read = |s: &str| read_json(s.as_bytes());
    assert_eq!(read("null"), Some(Json::Null));
    assert_eq!(read(" true\n"), Some(Json::Bool(true)));
    assert_eq!(read("7"), Some(Json::Number(JsonNumber::Unsigned(7))));
    assert_eq!(read("18446744073709551615"), Some(Json::Number(JsonNumber::Unsigned(u64::MAX))));
    assert_eq!(read("-7"), Some(Json::Number(JsonNumber::Negative(-7))));
    assert_eq!(read("\"a\\n\\u00e4\""), Some(text("a\nä")));
    assert_eq!(read("[1,[]]"), Some(Json::Array(vec![
        Json::Number(JsonNumber::Unsigned(1)),
        Json::Array(vec![]),
    ])));
    assert_eq!(
        read("{\"b\":null,\"a\":true,\"b\":\"x\"}"),
        Some(Json::Object(vec![
            ("a".to_string(), Json::Bool(true)),
            ("b".to_string(), text("x")),
        ]))
    );
    assert_eq!(read(""), None);
    assert_eq!(read("{"), None);
    assert_eq!(read("1 2"), None);
    assert_eq!(read_json(&[b'"', 0xff, b'"']), None);
}

#[test]
fn other_numbers_stand_for_themselves() {
    match read_json(b"1.5") {
        Some(Json::Number(JsonNumber::Float(n))) => assert_eq!(n.as_f64(), Some(1.5)),
        other => panic!("{other:?}"),
    }
    match read_json(b"1.0") {
        Some(Json::Number(JsonNumber::Float(n))) => assert_eq!(n.as_f64(), Some(1.0)),
        other => panic!("{other:?}"),
    }
    match read_json(b"18446744073709551616") {
        Some(Json::Number(JsonNumber::Float(_))) => {}
        other => panic!("{other:?}"),
    }
}

#[test]
fn documents_are_written_indented() {
    let document = Json::Object(vec![
        ("a".to_string(), Json::Array(vec![text("x\""), Json::Null])),
        ("b".to_string(), Json::Number(JsonNumber::Negative(-3))),
        ("c".to_string(), Json::Object(vec![])),
    ]);
    let written = write_json(&document);
    assert_eq!(
        String::from_utf8(written).unwrap(),
        "{\n  \"a\": [\n    \"x\\\"\",\n    null\n  ],\n  \"b\": -3,\n  \"c\": {}\n}"
    );
}

#[test]
fn written_documents_are_read_back() {
    let source = "{\"n\":-1,\"list\":[true,null,{\"deep\":[\"\\u0000ä\",0]}],\"m\":{}}";
    let document = read_json(source.as_bytes()).unwrap();
    let mut written = write_json(&document);
    assert_eq!(read_json(&written), Some(document));
    written.push(b'\n');
    assert_eq!(read_json(&written), read_json(source.as_bytes()));
}

#[test]
fn fractions_come_back_as_fractions() {
    let source = "{\"half\":0.5,\"large\":1e300,\"small\":-2.5e-10}";
    let document = read_json(source.as_bytes()).unwrap();
    let again = read_json(&write_json(&document)).unwrap();
    for key in ["half", "large", "small"] {
        assert!(matches!(again.get(key), Some(Json::Number(JsonNumber::Float(_)))));
    }
    assert_eq!(again.get("half"), document.get("half"));
}

#[test]
fn nesting_is_limited() {
    let nested = |n: usize| "[".repeat(n) + &"]".repeat(n);
    assert!(read_json(nested(127).as_bytes()).is_some());
    assert!(read_json(nested(128).as_bytes()).is_none());
}

#[test]
fn objects_keep_their_keys_in_order() {
    let mut object = Json::object(vec![
        ("b".to_string(), text("1")),
        ("a".to_string(), text("2")),
        ("b".to_string(), text("3")),
    ]);
    object.put("aa", text("4"));
    object.put("a", text("5"));
    assert_eq!(
        object,
        Json::Object(vec![
            ("a".to_string(), text("5")),
            ("aa".to_string(), text("4")),
            ("b".to_string(), text("3")),
        ])
    );
    assert!(object.get("c").is_none());
    assert!(object.get_mut("c").is_none());
    *object.get_mut("aa").unwrap() = Json::Null;
    assert_eq!(object.get("aa"), Some(&Json::Null));
    for (a, b) in [("", "a"), ("a", "b"), ("a", "aa"), ("Z", "a"), ("z", "ä"), ("\u{ffff}", "\u{10000}")] {
        assert_eq!(is_before(a, b), a < b);
        assert_eq!(is_before(b, a), b < a);
        assert!(!is_before(a, a));
    }
}

#[test]
fn every_fraction_that_is_written_is_read() {
    let largest = f64::MAX.to_bits();
    let samples = (0..2000)
        .map(|k| f64::from_bits(largest - k))
        .chain((1..2000).map(f64::from_bits))
        .chain((-300..300).map(|e| 1.2345678901234567 * 10f64.powi(e)))
        .chain([0.0, -0.0, 1e15, 1e16, 1e17, 9007199254740993.0, -f64::MAX, f64::MIN_POSITIVE]);
    for x in samples {
        let number = JsonNumber::Float(serde_json::Number::from_f64(x).unwrap());
        match read_json(&write_json(&Json::Number(number))) {
            Some(Json::Number(JsonNumber::Float(_))) => {}
            other => panic!("{x:e}: {other:?}"),
        }
    }
}
