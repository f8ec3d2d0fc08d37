use crate_registry::error::RegistryError;
use crate_registry::ledger::appended;
use crate_registry::store::{
    create_reply, read_reply, store_error, token_reply, update_reply, Reply,
};

#[test]
fn read_reply_joins_the_chunks_in_order() {
    assert_eq!(
        read_reply(200, vec![Some(vec![1, 2]), Some(vec![]), Some(vec![3])]),
        Reply::Content(vec![1, 2, 3])
    );
    assert_eq!(read_reply(200, vec![]), Reply::Content(vec![]));
}

#[test]
fn read_reply_without_success_status_is_not_found() {
    assert_eq!(read_reply(404, vec![]), Reply::Failed(RegistryError::NotFound));
    assert_eq!(read_reply(500, vec![Some(vec![1])]), Reply::Failed(RegistryError::NotFound));
    assert_eq!(read_reply(204, vec![None]), Reply::Failed(RegistryError::NotFound));
}

#[test]
fn read_reply_with_a_failed_chunk_is_a_transport_error() {
    assert_eq!(
        read_reply(200, vec![Some(vec![1]), None, Some(vec![2])]),
        Reply::Failed(RegistryError::TransportError)
    );
    assert_eq!(read_reply(200, vec![None]), Reply::Failed(RegistryError::TransportError));
}

#[test]
fn token_reply_takes_the_last_entry() {
    assert_eq!(
        token_reply(200, vec!["a".to_string(), "b".to_string()]),
        Reply::Token("b".to_string())
    );
    assert_eq!(token_reply(200, vec![]), Reply::Failed(RegistryError::NotFound));
}

#[test]
fn token_reply_goes_by_the_status_first() {
    let listed = || vec!["a".to_string()];
    assert_eq!(token_reply(404, listed()), Reply::Failed(RegistryError::NotFound));
    assert_eq!(token_reply(500, listed()), Reply::Failed(RegistryError::TransportError));
    assert_eq!(token_reply(201, listed()), Reply::Failed(RegistryError::TransportError));
}

#[test]
fn create_reply_goes_by_the_status() {
    assert_eq!(create_reply(201), Reply::Written);
    assert_eq!(create_reply(200), Reply::Written);
    assert_eq!(create_reply(422), Reply::Failed(RegistryError::AlreadyExists));
    assert_eq!(create_reply(409), Reply::Failed(RegistryError::TransportError));
    assert_eq!(create_reply(500), Reply::Failed(RegistryError::TransportError));
}

#[test]
fn update_reply_goes_by_the_status() {
    assert_eq!(update_reply(200), Reply::Written);
    assert_eq!(update_reply(201), Reply::Written);
    assert_eq!(update_reply(409), Reply::Failed(RegistryError::Conflict));
    assert_eq!(update_reply(422), Reply::Failed(RegistryError::TransportError));
    assert_eq!(update_reply(404), Reply::Failed(RegistryError::TransportError));
}

#[test]
fn store_error_keeps_the_errors_of_the_store() {
    assert_eq!(store_error(RegistryError::NotFound), RegistryError::NotFound);
    assert_eq!(store_error(RegistryError::AlreadyExists), RegistryError::AlreadyExists);
    assert_eq!(store_error(RegistryError::Conflict), RegistryError::Conflict);
    assert_eq!(store_error(RegistryError::TransportError), RegistryError::TransportError);
    assert_eq!(store_error(RegistryError::InvalidName), RegistryError::TransportError);
    assert_eq!(
        store_error(RegistryError::MalformedPayload { offset: 1 }),
        RegistryError::TransportError
    );
}

#[test]
fn appended_puts_a_line_feed_between() {
    assert_eq!(appended(b"a".to_vec(), b"b".to_vec()), b"a\nb".to_vec());
    assert_eq!(appended(vec![], b"b".to_vec()), b"\nb".to_vec());
    assert_eq!(appended(b"a".to_vec(), vec![]), b"a\n".to_vec());
}
