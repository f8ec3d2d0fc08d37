use crate_registry::error::RegistryError;
use crate_registry::storage::{Action, Publish, Step, Storage};
use crate_registry::store::{Reply, Request};

const META: &[u8] = br#"{"cksum":"c","name":"abcde","vers":"0.1.0"}"#;

fn start() -> Step {
    Storage::save_crate("abcde", "0.1.0", META.to_vec(), b"archive".to_vec())
}

fn ask(step: &Step) -> &Request {
    match &step.action {
        Action::Ask(request) => request,
        Action::Finish(result) => panic!("finished with {result:?}"),
    }
}

fn ended(step: Step, result: Result<(), RegistryError>) {
    assert_eq!(step.state, Publish::Done);
    assert_eq!(step.action, Action::Finish(result));
}

fn not_found() -> Reply {
    Reply::Failed(RegistryError::NotFound)
}

#[test]
fn publish_starts_by_reading_the_archive_path() {
    let step = start();
    assert_eq!(ask(&step), &Request::Read { path: "abcde/0.1.0/download".to_string() });
}

#[test]
fn publish_of_a_short_name_ends_at_once() {
    ended(
        Storage::save_crate("abc", "0.1.0", META.to_vec(), vec![]),
        Err(RegistryError::InvalidName),
    );
}

#[test]
fn publish_creates_the_ledger_of_a_new_package() {
    let step = start().state.resume(not_found());
    assert_eq!(ask(&step), &Request::Read { path: "ab/cd/abcde".to_string() });
    let step = step.state.resume(not_found());
    assert_eq!(
        ask(&step),
        &Request::Create { path: "ab/cd/abcde".to_string(), content: META.to_vec() }
    );
    let step = step.state.resume(Reply::Written);
    assert_eq!(
        ask(&step),
        &Request::Create {
            path: "abcde/0.1.0/download".to_string(),
            content: b"archive".to_vec()
        }
    );
    ended(step.state.resume(Reply::Written), Ok(()));
}

#[test]
fn publish_appends_to_the_ledger_under_its_token() {
    let step = start().state.resume(not_found());
    let step = step.state.resume(Reply::Content(b"{\"old\":1}".to_vec()));
    assert_eq!(ask(&step), &Request::ConflictToken { path: "ab/cd/abcde".to_string() });
    let step = step.state.resume(Reply::Token("sha-1".to_string()));
    let mut ledger = b"{\"old\":1}\n".to_vec();
    ledger.extend_from_slice(META);
    assert_eq!(
        ask(&step),
        &Request::Update {
            path: "ab/cd/abcde".to_string(),
            content: ledger,
            token: "sha-1".to_string()
        }
    );
    let step = step.state.resume(Reply::Written);
    assert_eq!(
        ask(&step),
        &Request::Create {
            path: "abcde/0.1.0/download".to_string(),
            content: b"archive".to_vec()
        }
    );
    ended(step.state.resume(Reply::Written), Ok(()));
}

#[test]
fn publish_of_a_stored_version_already_exists() {
    ended(
        start().state.resume(Reply::Content(b"archive".to_vec())),
        Err(RegistryError::AlreadyExists),
    );
}

#[test]
fn publish_of_bad_metadata_is_malformed_after_the_archive_check() {
    let step = Storage::save_crate("abcde", "0.1.0", b"{".to_vec(), vec![]);
    assert_eq!(ask(&step), &Request::Read { path: "abcde/0.1.0/download".to_string() });
    ended(
        step.state.resume(not_found()),
        Err(RegistryError::MalformedPayload { offset: 4 }),
    );
}

#[test]
fn stale_token_ends_the_publish_with_conflict() {
    let step = start().state.resume(not_found());
    let step = step.state.resume(Reply::Content(vec![]));
    let step = step.state.resume(Reply::Token("t".to_string()));
    ended(
        step.state.resume(Reply::Failed(RegistryError::Conflict)),
        Err(RegistryError::Conflict),
    );
}

#[test]
fn lost_race_for_a_new_ledger_already_exists() {
    let step = start().state.resume(not_found());
    let step = step.state.resume(not_found());
    ended(
        step.state.resume(Reply::Failed(RegistryError::AlreadyExists)),
        Err(RegistryError::AlreadyExists),
    );
}

#[test]
fn missing_token_is_not_found() {
    let step = start().state.resume(not_found());
    let step = step.state.resume(Reply::Content(vec![]));
    ended(step.state.resume(not_found()), Err(RegistryError::NotFound));
}

#[test]
fn transport_errors_surface_at_every_step() {
    let fail = || Reply::Failed(RegistryError::TransportError);
    let e = Err(RegistryError::TransportError);
    ended(start().state.resume(fail()), e);
    let read = start().state.resume(not_found());
    ended(read.state.resume(fail()), e);
    let token = start().state.resume(not_found()).state.resume(Reply::Content(vec![]));
    ended(token.state.resume(fail()), e);
    let write = start().state.resume(not_found()).state.resume(not_found());
    ended(write.state.resume(fail()), e);
    let archive = start()
        .state
        .resume(not_found())
        .state
        .resume(not_found())
        .state
        .resume(Reply::Written);
    ended(archive.state.resume(fail()), e);
}

#[test]
fn failed_archive_write_surfaces_after_the_ledger_is_written() {
    let archive = start()
        .state
        .resume(not_found())
        .state
        .resume(not_found())
        .state
        .resume(Reply::Written);
    ended(
        archive.state.resume(Reply::Failed(RegistryError::AlreadyExists)),
        Err(RegistryError::AlreadyExists),
    );
}

#[test]
fn replies_out_of_protocol_are_transport_errors() {
    let e = Err(RegistryError::TransportError);
    ended(start().state.resume(Reply::Written), e);
    ended(start().state.resume(Reply::Token("t".to_string())), e);
    ended(start().state.resume(Reply::Failed(RegistryError::InvalidName)), e);
    let read = start().state.resume(not_found());
    ended(read.state.resume(Reply::Written), e);
    ended(Publish::Done.resume(Reply::Written), e);
    ended(Publish::WriteArchive.resume(Reply::Content(vec![])), e);
}

#[test]
fn get_crate_reads_the_ledger() {
    assert_eq!(
        Storage::get_crate("abcde"),
        Ok(Request::Read { path: "ab/cd/abcde".to_string() })
    );
    assert_eq!(Storage::get_crate("abc"), Err(RegistryError::InvalidName));
}

#[test]
fn down_crate_reads_the_archive() {
    assert_eq!(
        Storage::down_crate("abcde", "0.1.0"),
        Ok(Request::Read { path: "abcde/0.1.0/download".to_string() })
    );
    assert_eq!(Storage::down_crate("abc", "0.1.0"), Err(RegistryError::InvalidName));
}

#[test]
fn fetched_maps_the_reply() {
    assert_eq!(Storage::fetched(Reply::Content(vec![1, 2])), Ok(vec![1, 2]));
    assert_eq!(Storage::fetched(not_found()), Err(RegistryError::NotFound));
    assert_eq!(
        Storage::fetched(Reply::Failed(RegistryError::TransportError)),
        Err(RegistryError::TransportError)
    );
    assert_eq!(Storage::fetched(Reply::Written), Err(RegistryError::TransportError));
    assert_eq!(
        Storage::fetched(Reply::Failed(RegistryError::MalformedPayload { offset: 0 })),
        Err(RegistryError::TransportError)
    );
}
