use crate_registry::digest::checksum;
use crate_registry::json::{find_member, parse, render, set_member, Json};

fn s(text: &str) -> Json {
    Json::Str(text.to_string())
}

fn object(members: Vec<(&str, Json)>) -> Json {
    Json::Object(members.into_iter().map(|(k, v)| (k.to_string(), v)).collect())
}

#[test]
fn parse_reads_every_kind_of_value() {
    let doc = parse(br#"{"a":null,"b":true,"c":"x","d":[1,"y"],"e":{"f":false}}"#).unwrap();
    assert_eq!(doc.get("a"), Some(&Json::Null));
    assert_eq!(doc.get("b"), Some(&Json::Bool(true)));
    assert_eq!(doc.get("c"), Some(&s("x")));
    assert_eq!(
        doc.get("d"),
        Some(&Json::Array(vec![Json::Number(serde_json::Number::from(1u64)), s("y")]))
    );
    assert_eq!(doc.get("e"), Some(&object(vec![("f", Json::Bool(false))])));
    assert_eq!(doc.get("z"), None);
}

#[test]
fn parse_rejects_what_is_no_json() {
    assert_eq!(parse(b""), None);
    assert_eq!(parse(b"{"), None);
    assert_eq!(parse(b"{\"a\":1} x"), None);
    assert_eq!(parse(&[0xff, 0xfe]), None);
}

#[test]
fn render_prints_compact_text_with_sorted_keys() {
    let doc = object(vec![("b", s("two")), ("a", Json::Array(vec![Json::Null, Json::Bool(false)]))]);
    assert_eq!(render(&doc), r#"{"a":[null,false],"b":"two"}"#);
}

#[test]
fn render_escapes_line_feeds() {
    let text = render(&object(vec![("a\nb", s("c\nd"))]));
    assert_eq!(text, "{\"a\\nb\":\"c\\nd\"}");
    assert!(!text.contains('\n'));
}

#[test]
fn render_then_parse_gives_the_document_back() {
    let doc = parse(br#"{"name":"abcde","deps":[{"version_req":"^1.0"}],"n":-3}"#).unwrap();
    assert_eq!(parse(render(&doc).as_bytes()), Some(doc));
}

#[test]
fn get_is_none_on_what_is_no_object() {
    assert_eq!(s("x").get("x"), None);
    assert_eq!(Json::Array(vec![]).get("0"), None);
    assert_eq!(Json::Null.get("a"), None);
}

#[test]
fn set_member_replaces_or_adds() {
    let mut members = vec![("a".to_string(), Json::Null)];
    set_member(&mut members, "b", Json::Bool(true));
    set_member(&mut members, "a", s("x"));
    assert_eq!(members, vec![("a".to_string(), s("x")), ("b".to_string(), Json::Bool(true))]);
}

#[test]
fn the_last_of_equal_keys_counts() {
    let members = vec![
        ("k".to_string(), s("first")),
        ("other".to_string(), Json::Null),
        ("k".to_string(), s("last")),
    ];
    assert_eq!(find_member(&members, "k"), Some(2));
    assert_eq!(find_member(&members, "none"), None);
    assert_eq!(Json::Object(members).get("k"), Some(&s("last")));
}

#[test]
fn deep_clone_copies_the_tree() {
    let doc = parse(br#"{"a":[1,2.5,{"b":"c"}],"d":null}"#).unwrap();
    assert_eq!(doc.deep_clone(), doc);
}

#[test]
fn checksum_is_the_sha256_in_hex() {
    assert_eq!(
        checksum(b"hello"),
        "2cf24dba5fb0a30e26e83b2ac5b9e29e1b161e5c1fa7425e73043362938b9824"
    );
    assert_eq!(
        checksum(b""),
        "e3b0c44298fc1c149afbf4c8996fb92427ae41e4649b934ca495991b7852b855"
    );
}
