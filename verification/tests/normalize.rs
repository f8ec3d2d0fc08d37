use crate_registry::error::RegistryError;
use crate_registry::json::{parse, Json};
use crate_registry::normalize::{normalize, normalize_dep, normalize_deps, normalize_document};

const HELLO: &str = "2cf24dba5fb0a30e26e83b2ac5b9e29e1b161e5c1fa7425e73043362938b9824";

fn text(bytes: Vec<u8>) -> String {
    String::from_utf8(bytes).unwrap()
}

fn malformed() -> RegistryError {
    RegistryError::MalformedPayload { offset: 4 }
}

#[test]
fn missing_cksum_gets_the_digest_of_the_archive() {
    let out = normalize(br#"{"name":"abcde","vers":"0.1.0"}"#, b"hello").unwrap();
    assert_eq!(
        text(out),
        format!(r#"{{"cksum":"{HELLO}","name":"abcde","vers":"0.1.0"}}"#)
    );
}

#[test]
fn present_cksum_is_left_untouched() {
    let out = normalize(br#"{"cksum":"mine","name":"abcde"}"#, b"hello").unwrap();
    assert_eq!(text(out), r#"{"cksum":"mine","name":"abcde"}"#);
    let out = normalize(br#"{"cksum":null}"#, b"hello").unwrap();
    assert_eq!(text(out), r#"{"cksum":null}"#);
}

#[test]
fn dependencies_get_req_from_version_req() {
    let out = normalize(
        br#"{"cksum":"c","deps":[{"name":"a","version_req":"^1.0"},{"name":"b","version_req":"=2"}]}"#,
        b"",
    )
    .unwrap();
    assert_eq!(
        text(out),
        r#"{"cksum":"c","deps":[{"name":"a","req":"^1.0","version_req":"^1.0"},{"name":"b","req":"=2","version_req":"=2"}]}"#
    );
}

#[test]
fn req_is_overwritten_and_null_without_version_req() {
    let out = normalize(
        br#"{"cksum":"c","deps":[{"req":"old","version_req":"^1.0"},{"req":"old"},null]}"#,
        b"",
    )
    .unwrap();
    assert_eq!(
        text(out),
        r#"{"cksum":"c","deps":[{"req":"^1.0","version_req":"^1.0"},{"req":null},{"req":null}]}"#
    );
}

#[test]
fn normalizing_twice_changes_nothing() {
    let once = normalize(
        br#"{"name":"abcde","deps":[{"version_req":"^1.0"}],"vers":"0.1.0"}"#,
        b"hello",
    )
    .unwrap();
    let twice = normalize(&once, b"another archive").unwrap();
    assert_eq!(twice, once);
}

#[test]
fn deps_that_are_no_array_are_kept() {
    let out = normalize(br#"{"cksum":"c","deps":{"version_req":"1"}}"#, b"").unwrap();
    assert_eq!(text(out), r#"{"cksum":"c","deps":{"version_req":"1"}}"#);
}

#[test]
fn null_stands_for_an_empty_record() {
    let out = normalize(b"null", b"hello").unwrap();
    assert_eq!(text(out), format!(r#"{{"cksum":"{HELLO}"}}"#));
}

#[test]
fn the_record_is_a_single_line() {
    let out = normalize(b"{\n  \"name\": \"a\\nb\",\n  \"vers\": \"1\"\n}\n", b"x").unwrap();
    assert!(!out.contains(&b'\n'));
}

#[test]
fn what_is_no_json_is_malformed() {
    assert_eq!(normalize(b"{\"name\":", b"hello"), Err(malformed()));
    assert_eq!(normalize(b"", b"hello"), Err(malformed()));
}

#[test]
fn what_is_no_record_is_malformed() {
    assert_eq!(normalize(b"[1,2]", b"hello"), Err(malformed()));
    assert_eq!(normalize(b"\"text\"", b"hello"), Err(malformed()));
    assert_eq!(normalize(br#"{"deps":[1]}"#, b"hello"), Err(malformed()));
    assert_eq!(normalize(br#"{"deps":[{"version_req":"1"},"x"]}"#, b"hello"), Err(malformed()));
}

#[test]
fn normalize_document_works_on_a_tree() {
    let doc = Json::Object(vec![
        ("deps".to_string(), Json::Array(vec![Json::Object(vec![(
            "version_req".to_string(),
            Json::Str("^1.0".to_string()),
        )])])),
    ]);
    let out = normalize_document(doc, "digest").unwrap();
    assert_eq!(out.get("cksum"), Some(&Json::Str("digest".to_string())));
    let deps = out.get("deps").unwrap();
    assert_eq!(
        deps,
        &Json::Array(vec![Json::Object(vec![
            ("version_req".to_string(), Json::Str("^1.0".to_string())),
            ("req".to_string(), Json::Str("^1.0".to_string())),
        ])])
    );
    assert_eq!(normalize_document(Json::Bool(true), "digest"), Err(malformed()));
}

#[test]
fn normalize_dep_and_deps() {
    let dep = parse(br#"{"version_req":"^1.0"}"#).unwrap();
    let normal = normalize_dep(&dep).unwrap();
    assert_eq!(normal.get("req"), Some(&Json::Str("^1.0".to_string())));
    assert_eq!(normalize_dep(&normal), Some(normal.deep_clone()));
    assert_eq!(normalize_dep(&Json::Bool(false)), None);
    assert_eq!(normalize_deps(&vec![dep, Json::Str("x".to_string())]), None);
    assert_eq!(normalize_deps(&vec![]), Some(vec![]));
}
