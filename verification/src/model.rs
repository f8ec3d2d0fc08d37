//! A model of the remote store, and what publishing does to it.
//!
//! The model is a store that never fails in transport: every request is
//! answered as the store's contract says. Against it, a publish has one
//! outcome, which the laws of this module state.

use vstd::prelude::*;
use crate::error::RegistryError;
use crate::ledger::{ledger_of, spec_appended};
use crate::normalize::spec_normalize;
use crate::path::{lemma_ledger_is_no_archive, spec_archive_path, spec_ledger_path, valid_name};
use crate::storage::{spec_resume, spec_save_crate, ActionView, StepView};
use crate::store::{ReplyView, RequestView};

verus! {

/// An object of the store: its content and its current conflict token.
pub struct StoredObject {
    pub content: Seq<u8>,
    pub token: Seq<char>,
}

/// The objects of a store by path.
pub type StoreModel = Map<Seq<char>, StoredObject>;

/// How a store picks the conflict token of an object that a request writes,
/// given its objects before the request.
pub type TokenScheme = spec_fn(StoreModel, RequestView) -> Seq<char>;

/// The store after a request, and its reply. A read or a token lookup finds
/// the object or reports `NotFound`; a create succeeds unless the object is
/// there; an update succeeds if the object is there and the token is its
/// current one, reports `Conflict` if the token is another, and a transport
/// error if the object is missing. Only a write that succeeds changes the
/// store.
pub open spec fn serve(store: StoreModel, request: RequestView, scheme: TokenScheme) -> (
    StoreModel,
    ReplyView,
) {
    let fresh = scheme(store, request);
    match request {
        RequestView::Read { path } => if store.contains_key(path) {
            (store, ReplyView::Content(store[path].content))
        } else {
            (store, ReplyView::Failed(RegistryError::NotFound))
        },
        RequestView::ConflictToken { path } => if store.contains_key(path) {
            (store, ReplyView::Token(store[path].token))
        } else {
            (store, ReplyView::Failed(RegistryError::NotFound))
        },
        RequestView::Create { path, content } => if store.contains_key(path) {
            (store, ReplyView::Failed(RegistryError::AlreadyExists))
        } else {
            (store.insert(path, StoredObject { content, token: fresh }), ReplyView::Written)
        },
        RequestView::Update { path, content, token } => if !store.contains_key(path) {
            (store, ReplyView::Failed(RegistryError::TransportError))
        } else if store[path].token != token {
            (store, ReplyView::Failed(RegistryError::Conflict))
        } else {
            (store.insert(path, StoredObject { content, token: fresh }), ReplyView::Written)
        },
    }
}

/// The contents of a store by path, without the tokens.
pub open spec fn contents(store: StoreModel) -> Map<Seq<char>, Seq<u8>> {
    store.map_values(|object: StoredObject| object.content)
}

/// Runs a publish against the store until it finishes, for at most `fuel`
/// requests.
pub open spec fn run(step: StepView, store: StoreModel, scheme: TokenScheme, fuel: nat) -> (
    StoreModel,
    Result<(), RegistryError>,
)
    decreases fuel,
{
    match step.action {
        ActionView::Finish(result) => (store, result),
        ActionView::Ask(request) => if fuel == 0 {
            (store, Err(RegistryError::TransportError))
        } else {
            let (next, reply) = serve(store, request, scheme);
            run(spec_resume(step.state, reply), next, scheme, (fuel - 1) as nat)
        },
    }
}

/// The most requests that a publish makes.
pub open spec fn publish_requests() -> nat {
    5
}

/// What a publish does to the contents of a store, and how it ends.
pub open spec fn publish_outcome(
    before: Map<Seq<char>, Seq<u8>>,
    name: Seq<char>,
    vers: Seq<char>,
    meta: Seq<u8>,
    archive: Seq<u8>,
) -> (Map<Seq<char>, Seq<u8>>, Result<(), RegistryError>) {
    let ledger_path = spec_ledger_path(name);
    let archive_path = spec_archive_path(name, vers);
    if !valid_name(name) {
        (before, Err(RegistryError::InvalidName))
    } else if before.contains_key(archive_path) {
        (before, Err(RegistryError::AlreadyExists))
    } else {
        match spec_normalize(meta, archive) {
            Err(e) => (before, Err(e)),
            Ok(record) => {
                let ledger = if before.contains_key(ledger_path) {
                    spec_appended(before[ledger_path], record)
                } else {
                    record
                };
                (before.insert(ledger_path, ledger).insert(archive_path, archive), Ok(()))
            },
        }
    }
}

/// Against a store that answers every request, a publish ends as
/// [`publish_outcome`] says and leaves the contents that it says; a publish
/// that fails leaves the store as it was.
pub proof fn lemma_publish_runs(
    store: StoreModel,
    scheme: TokenScheme,
    fuel: nat,
    name: Seq<char>,
    vers: Seq<char>,
    meta: Seq<u8>,
    archive: Seq<u8>,
)
    requires
        fuel >= publish_requests(),
    ensures
        ({
            let (after, result) = run(
                spec_save_crate(name, vers, meta, archive),
                store,
                scheme,
                fuel,
            );
            let outcome = publish_outcome(contents(store), name, vers, meta, archive);
            &&& result == outcome.1
            &&& contents(after) == outcome.0
            &&& result is Err ==> after == store
        }),
{
    reveal_with_fuel(run, 6);
    if valid_name(name) {
        lemma_ledger_is_no_archive(name, vers);
    }
}

/// A publish that succeeds appends its normalised record to the ledger, or
/// starts the ledger with it; it stores the archive; and it touches no
/// other object.
pub proof fn lemma_publish_appends(
    before: Map<Seq<char>, Seq<u8>>,
    name: Seq<char>,
    vers: Seq<char>,
    meta: Seq<u8>,
    archive: Seq<u8>,
)
    requires
        publish_outcome(before, name, vers, meta, archive).1 is Ok,
    ensures
        spec_normalize(meta, archive) is Ok,
        ({
            let after = publish_outcome(before, name, vers, meta, archive).0;
            let record = spec_normalize(meta, archive)->Ok_0;
            let ledger_path = spec_ledger_path(name);
            let archive_path = spec_archive_path(name, vers);
            &&& !before.contains_key(archive_path)
            &&& after.contains_key(archive_path) && after[archive_path] == archive
            &&& after.contains_key(ledger_path)
            &&& before.contains_key(ledger_path) ==> after[ledger_path] == spec_appended(
                before[ledger_path],
                record,
            )
            &&& !before.contains_key(ledger_path) ==> after[ledger_path] == record
            &&& forall|path: Seq<char>|
                path != ledger_path && path != archive_path ==> (after.contains_key(path)
                    <==> before.contains_key(path)) && (before.contains_key(path) ==> after[path]
                    == before[path])
        }),
{
    lemma_ledger_is_no_archive(name, vers);
}

/// A publish overwrites nothing: every object that was in the store is
/// still there, archives and all other objects with the content they had,
/// the ledger with its old content at the front.
pub proof fn lemma_publish_overwrites_nothing(
    store: StoreModel,
    scheme: TokenScheme,
    name: Seq<char>,
    vers: Seq<char>,
    meta: Seq<u8>,
    archive: Seq<u8>,
)
    ensures
        ({
            let after = run(
                spec_save_crate(name, vers, meta, archive),
                store,
                scheme,
                publish_requests(),
            ).0;
            forall|path: Seq<char>| #[trigger]
                store.contains_key(path) ==> after.contains_key(path) && if path
                    == spec_ledger_path(name) {
                    store[path].content.is_prefix_of(after[path].content)
                } else {
                    after[path].content == store[path].content
                }
        }),
{
    let outcome = publish_outcome(contents(store), name, vers, meta, archive);
    let after = run(spec_save_crate(name, vers, meta, archive), store, scheme, publish_requests()).0;
    lemma_publish_runs(store, scheme, publish_requests(), name, vers, meta, archive);
    assert forall|path: Seq<char>| #[trigger] store.contains_key(path) implies after.contains_key(
        path,
    ) && if path == spec_ledger_path(name) {
        store[path].content.is_prefix_of(after[path].content)
    } else {
        after[path].content == store[path].content
    } by {
        if outcome.1 is Ok {
            lemma_publish_appends(contents(store), name, vers, meta, archive);
            assert(contents(after)[path] == after[path].content);
        }
    }
}

/// Publishing one version of a package and then another leaves a ledger
/// that ends in the two normalised records, in the order of the publishes.
/// Where the package had no ledger, the ledger holds exactly these two.
pub proof fn lemma_two_versions_two_records(
    before: Map<Seq<char>, Seq<u8>>,
    name: Seq<char>,
    first_vers: Seq<char>,
    first_meta: Seq<u8>,
    first_archive: Seq<u8>,
    second_vers: Seq<char>,
    second_meta: Seq<u8>,
    second_archive: Seq<u8>,
)
    requires
        publish_outcome(before, name, first_vers, first_meta, first_archive).1 is Ok,
        publish_outcome(
            publish_outcome(before, name, first_vers, first_meta, first_archive).0,
            name,
            second_vers,
            second_meta,
            second_archive,
        ).1 is Ok,
    ensures
        first_vers != second_vers,
        spec_normalize(first_meta, first_archive) is Ok,
        spec_normalize(second_meta, second_archive) is Ok,
        ({
            let between = publish_outcome(before, name, first_vers, first_meta, first_archive).0;
            let after = publish_outcome(
                between,
                name,
                second_vers,
                second_meta,
                second_archive,
            ).0;
            let first = spec_normalize(first_meta, first_archive)->Ok_0;
            let second = spec_normalize(second_meta, second_archive)->Ok_0;
            let ledger_path = spec_ledger_path(name);
            &&& after.contains_key(ledger_path)
            &&& !before.contains_key(ledger_path) ==> after[ledger_path] == ledger_of(
                seq![first, second],
            )
            &&& before.contains_key(ledger_path) ==> after[ledger_path] == spec_appended(
                spec_appended(before[ledger_path], first),
                second,
            )
            &&& after[spec_archive_path(name, first_vers)] == first_archive
            &&& after[spec_archive_path(name, second_vers)] == second_archive
        }),
{
    lemma_ledger_is_no_archive(name, first_vers);
    lemma_ledger_is_no_archive(name, second_vers);
    let between = publish_outcome(before, name, first_vers, first_meta, first_archive).0;
    lemma_publish_appends(before, name, first_vers, first_meta, first_archive);
    lemma_publish_appends(between, name, second_vers, second_meta, second_archive);
    let first = spec_normalize(first_meta, first_archive)->Ok_0;
    let second = spec_normalize(second_meta, second_archive)->Ok_0;
    assert(ledger_of(seq![first, second]) == spec_appended(first, second)) by {
        reveal_with_fuel(ledger_of, 3);
    }
}

/// Publishing a version that is already published fails with
/// `AlreadyExists`, whatever metadata and archive come with it, and leaves
/// every object as it was.
pub proof fn lemma_republish_rejected(
    before: Map<Seq<char>, Seq<u8>>,
    name: Seq<char>,
    vers: Seq<char>,
    meta: Seq<u8>,
    archive: Seq<u8>,
    again_meta: Seq<u8>,
    again_archive: Seq<u8>,
)
    requires
        publish_outcome(before, name, vers, meta, archive).1 is Ok,
    ensures
        ({
            let published = publish_outcome(before, name, vers, meta, archive).0;
            publish_outcome(published, name, vers, again_meta, again_archive) == (
                published,
                Err::<(), RegistryError>(RegistryError::AlreadyExists),
            )
        }),
{
}

/// The same against the model store: the second publish of a version ends
/// with `AlreadyExists` and leaves the store, tokens included, as the first
/// left it.
pub proof fn lemma_republish_leaves_store(
    store: StoreModel,
    scheme: TokenScheme,
    name: Seq<char>,
    vers: Seq<char>,
    meta: Seq<u8>,
    archive: Seq<u8>,
    again_meta: Seq<u8>,
    again_archive: Seq<u8>,
)
    requires
        run(spec_save_crate(name, vers, meta, archive), store, scheme, publish_requests()).1 is Ok,
    ensures
        ({
            let published = run(
                spec_save_crate(name, vers, meta, archive),
                store,
                scheme,
                publish_requests(),
            ).0;
            run(
                spec_save_crate(name, vers, again_meta, again_archive),
                published,
                scheme,
                publish_requests(),
            ) == (published, Err::<(), RegistryError>(RegistryError::AlreadyExists))
        }),
{
    lemma_publish_runs(store, scheme, publish_requests(), name, vers, meta, archive);
    let published = run(
        spec_save_crate(name, vers, meta, archive),
        store,
        scheme,
        publish_requests(),
    ).0;
    lemma_republish_rejected(contents(store), name, vers, meta, archive, again_meta, again_archive);
    lemma_publish_runs(published, scheme, publish_requests(), name, vers, again_meta, again_archive);
}

/// Against the model store: after two publishes of a new package that both
/// succeed, the ledger holds the two normalised records, in the order of
/// the publishes, and nothing else.
pub proof fn lemma_two_publishes_two_records(
    store: StoreModel,
    scheme: TokenScheme,
    name: Seq<char>,
    first_vers: Seq<char>,
    first_meta: Seq<u8>,
    first_archive: Seq<u8>,
    second_vers: Seq<char>,
    second_meta: Seq<u8>,
    second_archive: Seq<u8>,
)
    requires
        !store.contains_key(spec_ledger_path(name)),
        run(
            spec_save_crate(name, first_vers, first_meta, first_archive),
            store,
            scheme,
            publish_requests(),
        ).1 is Ok,
        run(
            spec_save_crate(name, second_vers, second_meta, second_archive),
            run(
                spec_save_crate(name, first_vers, first_meta, first_archive),
                store,
                scheme,
                publish_requests(),
            ).0,
            scheme,
            publish_requests(),
        ).1 is Ok,
    ensures
        spec_normalize(first_meta, first_archive) is Ok,
        spec_normalize(second_meta, second_archive) is Ok,
        ({
            let between = run(
                spec_save_crate(name, first_vers, first_meta, first_archive),
                store,
                scheme,
                publish_requests(),
            ).0;
            let after = run(
                spec_save_crate(name, second_vers, second_meta, second_archive),
                between,
                scheme,
                publish_requests(),
            ).0;
            &&& after.contains_key(spec_ledger_path(name))
            &&& after[spec_ledger_path(name)].content == ledger_of(
                seq![
                    spec_normalize(first_meta, first_archive)->Ok_0,
                    spec_normalize(second_meta, second_archive)->Ok_0,
                ],
            )
        }),
{
    let between = run(
        spec_save_crate(name, first_vers, first_meta, first_archive),
        store,
        scheme,
        publish_requests(),
    ).0;
    lemma_publish_runs(store, scheme, publish_requests(), name, first_vers, first_meta, first_archive);
    lemma_publish_runs(
        between,
        scheme,
        publish_requests(),
        name,
        second_vers,
        second_meta,
        second_archive,
    );
    lemma_two_versions_two_records(
        contents(store),
        name,
        first_vers,
        first_meta,
        first_archive,
        second_vers,
        second_meta,
        second_archive,
    );
}

} // verus!
