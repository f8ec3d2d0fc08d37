use crate_registry::error::RegistryError;
use crate_registry::memory::MemoryStore;
use crate_registry::storage::{Action, Step, Storage};
use crate_registry::store::{Reply, Request};

const HELLO: &str = "2cf24dba5fb0a30e26e83b2ac5b9e29e1b161e5c1fa7425e73043362938b9824";

fn meta(vers: &str) -> Vec<u8> {
    format!(r#"{{"name":"abcde","vers":"{vers}","deps":[{{"name":"d","version_req":"^1.0"}}]}}"#)
        .into_bytes()
}

fn record(vers: &str) -> String {
    format!(
        r#"{{"cksum":"{HELLO}","deps":[{{"name":"d","req":"^1.0","version_req":"^1.0"}}],"name":"abcde","vers":"{vers}"}}"#
    )
}

fn turn(store: &mut MemoryStore, step: Step) -> Step {
    match step.action {
        Action::Ask(request) => step.state.resume(store.serve(request)),
        Action::Finish(_) => step,
    }
}

fn result(step: &Step) -> Option<Result<(), RegistryError>> {
    match &step.action {
        Action::Finish(result) => Some(*result),
        Action::Ask(_) => None,
    }
}

#[test]
fn store_answers_as_a_store_should() {
    let mut store = MemoryStore::new();
    let path = "p".to_string();
    assert_eq!(
        store.serve(Request::Read { path: path.clone() }),
        Reply::Failed(RegistryError::NotFound)
    );
    assert_eq!(
        store.serve(Request::ConflictToken { path: path.clone() }),
        Reply::Failed(RegistryError::NotFound)
    );
    assert_eq!(
        store.serve(Request::Update { path: path.clone(), content: vec![], token: "+".into() }),
        Reply::Failed(RegistryError::TransportError)
    );
    assert_eq!(
        store.serve(Request::Create { path: path.clone(), content: vec![1] }),
        Reply::Written
    );
    assert_eq!(
        store.serve(Request::Create { path: path.clone(), content: vec![2] }),
        Reply::Failed(RegistryError::AlreadyExists)
    );
    assert_eq!(store.serve(Request::Read { path: path.clone() }), Reply::Content(vec![1]));
    assert_eq!(
        store.serve(Request::ConflictToken { path: path.clone() }),
        Reply::Token("+".to_string())
    );
    assert_eq!(
        store.serve(Request::Update { path: path.clone(), content: vec![3], token: "+".into() }),
        Reply::Written
    );
    assert_eq!(
        store.serve(Request::Update { path: path.clone(), content: vec![4], token: "+".into() }),
        Reply::Failed(RegistryError::Conflict)
    );
    assert_eq!(store.content("p"), Some(vec![3]));
    assert_eq!(
        store.serve(Request::ConflictToken { path }),
        Reply::Token("++".to_string())
    );
    assert_eq!(store.content("q"), None);
}

#[test]
fn two_versions_give_a_ledger_of_two_lines_in_order() {
    let mut store = MemoryStore::new();
    assert_eq!(store.publish("abcde", "0.1.0", meta("0.1.0"), b"hello".to_vec()), Ok(()));
    assert_eq!(store.publish("abcde", "0.2.0", meta("0.2.0"), b"hello".to_vec()), Ok(()));
    let ledger = String::from_utf8(store.content("ab/cd/abcde").unwrap()).unwrap();
    let lines: Vec<&str> = ledger.split('\n').collect();
    assert_eq!(lines, vec![record("0.1.0"), record("0.2.0")]);
    assert_eq!(store.content("abcde/0.1.0/download"), Some(b"hello".to_vec()));
    assert_eq!(store.content("abcde/0.2.0/download"), Some(b"hello".to_vec()));
}

#[test]
fn publishing_a_version_twice_already_exists_and_changes_nothing() {
    let mut store = MemoryStore::new();
    assert_eq!(store.publish("abcde", "0.1.0", meta("0.1.0"), b"hello".to_vec()), Ok(()));
    let ledger = store.content("ab/cd/abcde");
    let entries = store.entries.len();
    assert_eq!(
        store.publish("abcde", "0.1.0", meta("0.1.0"), b"other".to_vec()),
        Err(RegistryError::AlreadyExists)
    );
    assert_eq!(
        store.publish("abcde", "0.1.0", b"no json".to_vec(), b"other".to_vec()),
        Err(RegistryError::AlreadyExists)
    );
    assert_eq!(store.content("ab/cd/abcde"), ledger);
    assert_eq!(store.content("abcde/0.1.0/download"), Some(b"hello".to_vec()));
    assert_eq!(store.entries.len(), entries);
}

#[test]
fn failed_publishes_leave_the_store_empty() {
    let mut store = MemoryStore::new();
    assert_eq!(
        store.publish("abc", "0.1.0", meta("0.1.0"), vec![]),
        Err(RegistryError::InvalidName)
    );
    assert_eq!(
        store.publish("abcde", "0.1.0", b"[]".to_vec(), vec![]),
        Err(RegistryError::MalformedPayload { offset: 4 })
    );
    assert!(store.entries.is_empty());
}

#[test]
fn racing_publishes_one_wins_and_the_other_sees_conflict() {
    let mut store = MemoryStore::new();
    assert_eq!(store.publish("abcde", "0.1.0", meta("0.1.0"), b"hello".to_vec()), Ok(()));
    let mut a = Storage::save_crate("abcde", "0.2.0", meta("0.2.0"), b"hello".to_vec());
    let mut b = Storage::save_crate("abcde", "0.3.0", meta("0.3.0"), b"hello".to_vec());
    // Both read the ledger and fetch its token before either writes.
    for _ in 0..3 {
        a = turn(&mut store, a);
        b = turn(&mut store, b);
    }
    // The second writes first; the token of the first is stale from then on.
    b = turn(&mut store, b);
    a = turn(&mut store, a);
    assert_eq!(result(&a), Some(Err(RegistryError::Conflict)));
    b = turn(&mut store, b);
    assert_eq!(result(&b), Some(Ok(())));
    let ledger = String::from_utf8(store.content("ab/cd/abcde").unwrap()).unwrap();
    assert_eq!(ledger, format!("{}\n{}", record("0.1.0"), record("0.3.0")));
    assert_eq!(store.content("abcde/0.2.0/download"), None);
    assert_eq!(store.content("abcde/0.3.0/download"), Some(b"hello".to_vec()));
    // The loser publishes again from a fresh read and succeeds.
    assert_eq!(store.publish("abcde", "0.2.0", meta("0.2.0"), b"hello".to_vec()), Ok(()));
    let ledger = String::from_utf8(store.content("ab/cd/abcde").unwrap()).unwrap();
    assert_eq!(
        ledger,
        format!("{}\n{}\n{}", record("0.1.0"), record("0.3.0"), record("0.2.0"))
    );
}

#[test]
fn racing_for_a_new_ledger_one_wins_and_the_other_already_exists() {
    let mut store = MemoryStore::new();
    let mut a = Storage::save_crate("abcde", "0.1.0", meta("0.1.0"), b"hello".to_vec());
    let mut b = Storage::save_crate("abcde", "0.2.0", meta("0.2.0"), b"hello".to_vec());
    for _ in 0..2 {
        a = turn(&mut store, a);
        b = turn(&mut store, b);
    }
    a = turn(&mut store, a);
    b = turn(&mut store, b);
    assert_eq!(result(&b), Some(Err(RegistryError::AlreadyExists)));
    a = turn(&mut store, a);
    assert_eq!(result(&a), Some(Ok(())));
    assert_eq!(store.content("ab/cd/abcde"), Some(record("0.1.0").into_bytes()));
}

#[test]
fn publishes_in_turn_both_succeed() {
    let mut store = MemoryStore::new();
    let mut a = Storage::save_crate("abcde", "0.1.0", meta("0.1.0"), b"hello".to_vec());
    let mut b = Storage::save_crate("abcde", "0.2.0", meta("0.2.0"), b"hello".to_vec());
    a = turn(&mut store, a);
    b = turn(&mut store, b);
    for _ in 0..4 {
        a = turn(&mut store, a);
    }
    for _ in 0..5 {
        b = turn(&mut store, b);
    }
    assert_eq!(result(&a), Some(Ok(())));
    assert_eq!(result(&b), Some(Ok(())));
    let ledger = String::from_utf8(store.content("ab/cd/abcde").unwrap()).unwrap();
    assert_eq!(ledger, format!("{}\n{}", record("0.1.0"), record("0.2.0")));
}

#[test]
fn a_token_fetched_after_the_rival_wrote_is_not_stale() {
    let mut store = MemoryStore::new();
    assert_eq!(store.publish("abcde", "0.1.0", meta("0.1.0"), b"hello".to_vec()), Ok(()));
    let mut a = Storage::save_crate("abcde", "0.2.0", meta("0.2.0"), b"hello".to_vec());
    let mut b = Storage::save_crate("abcde", "0.3.0", meta("0.3.0"), b"hello".to_vec());
    // The first reads the ledger; then the second runs from start to end.
    a = turn(&mut store, a);
    a = turn(&mut store, a);
    for _ in 0..5 {
        b = turn(&mut store, b);
    }
    assert_eq!(result(&b), Some(Ok(())));
    // The first now fetches the token that the second left, so its update of
    // what it read earlier goes through.
    for _ in 0..3 {
        a = turn(&mut store, a);
    }
    assert_eq!(result(&a), Some(Ok(())));
    let ledger = String::from_utf8(store.content("ab/cd/abcde").unwrap()).unwrap();
    assert_eq!(ledger, format!("{}\n{}", record("0.1.0"), record("0.2.0")));
    assert_eq!(store.content("abcde/0.3.0/download"), Some(b"hello".to_vec()));
}
