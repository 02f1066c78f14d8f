//! JSON values and their texts.

use zaccounts_web::json::Json;

fn value(text: &str) -> serde_json::Value {
    serde_json::from_str(text).unwrap()
}

fn json(text: &str) -> Json {
    Json::parse_text(text).unwrap()
}

#[test]
fn every_kind_of_value_passes_both_ways() {
    let text = r#"{"a":[null,true,false,-3,2.5,"账"],"b":{"c":{}},"d":[]}"#;
    assert_eq!(json(text).to_value(), value(text));
    assert_eq!(Json::from_value(value(text)).to_value(), value(text));
    assert_eq!(json(text).copy().to_value(), value(text));
}

#[test]
fn a_later_entry_of_a_key_counts() {
    let twice = Json::Object(vec![
        ("k".to_string(), Json::Bool(false)),
        ("k".to_string(), Json::Bool(true)),
    ]);
    assert_eq!(twice.get_bool("k"), Some(true));
    assert_eq!(twice.to_value(), value(r#"{"k":true}"#));
    let more = Json::Object(vec![
        ("b".to_string(), Json::number(1)),
        ("a".to_string(), Json::number(2)),
        ("b".to_string(), Json::number(3)),
        ("c".to_string(), Json::number(4)),
        ("b".to_string(), Json::number(5)),
    ]);
    assert_eq!(more.to_text(), "{\"a\":2,\"b\":5,\"c\":4}");
    assert_eq!(json(r#"{"k":1,"k":2}"#).get_int("k"), Some(2));
}

#[test]
fn members_are_found_by_their_type() {
    let v = json(r#"{"s":"x","b":true,"i":-7,"big":18446744073709551615,"f":1.0,"n":null}"#);
    assert_eq!(v.get_text("s"), Some("x"));
    assert_eq!(v.get_text("b"), None);
    assert_eq!(v.get_text("missing"), None);
    assert_eq!(v.get_bool("b"), Some(true));
    assert_eq!(v.get_bool("s"), None);
    assert_eq!(v.get_int("i"), Some(-7));
    assert_eq!(v.get_int("big"), None);
    assert_eq!(v.get_int("f"), None);
    assert!(matches!(v.get("n"), Some(Json::Null)));
    assert!(json("[1]").get("0").is_none());
    assert!(json("\"s\"").get("s").is_none());
}

#[test]
fn numbers_are_made() {
    assert_eq!(Json::number(0).to_text(), "0");
    assert_eq!(Json::number(u64::MAX).to_text(), "18446744073709551615");
}

#[test]
fn text_is_compact_and_on_one_line() {
    let v = json("{\"b\": \"line\\nfeed\", \"a\": [1, 2]}");
    assert_eq!(v.to_text(), "{\"a\":[1,2],\"b\":\"line\\nfeed\"}");
    assert!(!v.to_text().contains('\n'));
}

#[test]
fn indented_text_is_read_back() {
    let v = json(r#"{"a":[1,{"b":"c"}],"d":{}}"#);
    let text = v.to_pretty_text();
    assert_eq!(
        text,
        "{\n  \"a\": [\n    1,\n    {\n      \"b\": \"c\"\n    }\n  ],\n  \"d\": {}\n}"
    );
    assert_eq!(json(&text).to_value(), v.to_value());
    assert_eq!(json(&(text + "\n")).to_value(), v.to_value());
}

#[test]
fn bytes_are_read() {
    assert_eq!(Json::parse(b" {\"a\": 1} ").unwrap().get_int("a"), Some(1));
    assert!(Json::parse(b"").is_none());
    assert!(Json::parse(b"{} {}").is_none());
    assert!(Json::parse(b"\"\xff\"").is_none());
}

#[test]
fn what_is_wrong_with_a_text_is_told() {
    assert_eq!(
        Json::parse_text("").unwrap_err(),
        "EOF while parsing a value at line 1 column 0"
    );
    assert_eq!(
        Json::parse_text("{]").unwrap_err(),
        "key must be a string at line 1 column 2"
    );
}

#[test]
fn nesting_is_read_up_to_its_depth() {
    let deep = |n: usize| "[".repeat(n) + &"]".repeat(n);
    let v = json(&deep(127));
    assert_eq!(v.to_text(), deep(127));
    assert!(Json::parse_text(&deep(128)).is_err());
}
