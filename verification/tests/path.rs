use crate_registry::error::RegistryError;
use crate_registry::path::{archive_path, is_valid_name, ledger_path, shard};

#[test]
fn paths_of_the_example_package() {
    assert_eq!(ledger_path("abcde").unwrap(), "ab/cd/abcde");
    assert_eq!(archive_path("abcde", "0.1.0").unwrap(), "abcde/0.1.0/download");
}

#[test]
fn shard_is_two_then_two() {
    assert_eq!(shard("serde").unwrap(), "se/rd");
    assert_eq!(shard("abcd").unwrap(), "ab/cd");
}

#[test]
fn shard_is_stable_across_calls() {
    assert_eq!(shard("tokio-util").unwrap(), shard("tokio-util").unwrap());
    assert_eq!(shard("tokio-util").unwrap(), shard("tokio").unwrap());
}

#[test]
fn short_names_are_invalid() {
    assert!(!is_valid_name("abc"));
    assert!(is_valid_name("abcd"));
    assert_eq!(shard("abc"), Err(RegistryError::InvalidName));
    assert_eq!(ledger_path(""), Err(RegistryError::InvalidName));
    assert_eq!(archive_path("ab", "1.0.0"), Err(RegistryError::InvalidName));
}

#[test]
fn names_are_measured_in_characters() {
    assert_eq!(shard("\u{e9}\u{e9}"), Err(RegistryError::InvalidName));
    assert_eq!(ledger_path("\u{e9}t\u{e9}s").unwrap(), "\u{e9}t/\u{e9}s/\u{e9}t\u{e9}s");
}

#[test]
fn version_is_taken_as_it_is() {
    assert_eq!(archive_path("abcd", "").unwrap(), "abcd//download");
    assert_eq!(archive_path("abcd", "1.0.0-rc.1+x").unwrap(), "abcd/1.0.0-rc.1+x/download");
}
