//! A store that lives in memory and answers every request as the model
//! says. It serves to try the engine without a remote store.

use vstd::prelude::*;
use vstd::slice::slice_to_vec;
use vstd::string::*;
use crate::assoc::{
    absent_after, last_with_key, lemma_last_with_key, lemma_last_with_key_is, lemma_map_of,
    lemma_pairs_set, map_of, pairs_set, Key,
};
use crate::error::RegistryError;
use crate::model::{
    contents, lemma_publish_runs, publish_outcome, publish_requests, run, serve, StoreModel,
    StoredObject, TokenScheme,
};
use crate::storage::{spec_save_crate, Action, Step, Storage};
use crate::store::{Reply, Request, RequestView};

verus! {

/// An object of the in-memory store.
#[derive(Debug, PartialEq)]
pub struct Entry {
    pub path: String,
    pub content: Vec<u8>,
    pub token: String,
}

/// A store in memory.
#[derive(Debug, PartialEq)]
pub struct MemoryStore {
    pub entries: Vec<Entry>,
}

/// The entries by content.
pub open spec fn entry_pairs(entries: Seq<Entry>) -> Seq<(Key, StoredObject)> {
    Seq::new(
        entries.len(),
        |i: int|
            (entries[i].path@, StoredObject { content: entries[i].content@, token: entries[i].token@ }),
    )
}

/// The token of a new object is `+`; each update adds a `+` to the token
/// that the object had.
pub open spec fn memory_scheme() -> TokenScheme {
    |store: StoreModel, request: RequestView|
        match request {
            RequestView::Update { path, .. } => if store.contains_key(path) {
                store[path].token.push('+')
            } else {
                seq!['+']
            },
            _ => seq!['+'],
        }
}

impl MemoryStore {
    /// The objects of the store by path.
    pub open spec fn view(&self) -> StoreModel {
        map_of(entry_pairs(self.entries@))
    }

    /// An empty store.
    pub fn new() -> (store: MemoryStore)
        ensures
            store@ == Map::<Seq<char>, StoredObject>::empty(),
    {
        MemoryStore { entries: Vec::new() }
    }

    /// The index of the entry that counts for `path`.
    fn find(&self, path: &String) -> (found: Option<usize>)
        ensures
            match found {
                Some(i) => i as int == last_with_key(entry_pairs(self.entries@), path@),
                None => last_with_key(entry_pairs(self.entries@), path@) == -1,
            },
    {
        let mut i: usize = self.entries.len();
        while i > 0
            invariant
                i <= self.entries@.len(),
                absent_after(entry_pairs(self.entries@), path@, i as int - 1),
            decreases i,
        {
            i = i - 1;
            if self.entries[i].path == *path {
                proof {
                    lemma_last_with_key_is(entry_pairs(self.entries@), path@, i as int);
                }
                return Some(i);
            }
        }
        proof {
            lemma_last_with_key_is(entry_pairs(self.entries@), path@, -1);
        }
        None
    }

    /// The content of the object at `path`, if there is one.
    pub fn content(&self, path: &str) -> (bytes: Option<Vec<u8>>)
        ensures
            match bytes {
                Some(b) => self@.contains_key(path@) && self@[path@].content == b@,
                None => !self@.contains_key(path@),
            },
    {
        let wanted = String::from_str(path);
        proof {
            lemma_map_of(entry_pairs(self.entries@), path@);
            lemma_last_with_key(entry_pairs(self.entries@), path@);
        }
        match self.find(&wanted) {
            Some(at) => Some(slice_to_vec(self.entries[at].content.as_slice())),
            None => None,
        }
    }

    /// Performs a request and answers it.
    pub fn serve(&mut self, request: Request) -> (reply: Reply)
        ensures
            (final(self)@, reply@) == serve(old(self)@, request@, memory_scheme()),
    {
        let ghost pairs = entry_pairs(self.entries@);
        proof {
            reveal_strlit("+");
            assert("+"@ =~= seq!['+']);
        }
        match request {
            Request::Read { path } => {
                proof {
                    lemma_map_of(pairs, path@);
                    lemma_last_with_key(pairs, path@);
                }
                match self.find(&path) {
                    Some(at) => Reply::Content(slice_to_vec(self.entries[at].content.as_slice())),
                    None => Reply::Failed(RegistryError::NotFound),
                }
            },
            Request::ConflictToken { path } => {
                proof {
                    lemma_map_of(pairs, path@);
                    lemma_last_with_key(pairs, path@);
                }
                match self.find(&path) {
                    Some(at) => Reply::Token(self.entries[at].token.clone()),
                    None => Reply::Failed(RegistryError::NotFound),
                }
            },
            Request::Create { path, content } => {
                proof {
                    lemma_map_of(pairs, path@);
                    lemma_last_with_key(pairs, path@);
                }
                match self.find(&path) {
                    Some(_) => Reply::Failed(RegistryError::AlreadyExists),
                    None => {
                        let token = String::from_str("+");
                        let ghost object = StoredObject { content: content@, token: token@ };
                        proof {
                            lemma_pairs_set(pairs, path@, object);
                        }
                        self.entries.push(Entry { path, content, token });
                        assert(entry_pairs(self.entries@) =~= pairs_set(pairs, path@, object));
                        Reply::Written
                    },
                }
            },
            Request::Update { path, content, token } => {
                proof {
                    lemma_map_of(pairs, path@);
                    lemma_last_with_key(pairs, path@);
                }
                match self.find(&path) {
                    None => Reply::Failed(RegistryError::TransportError),
                    Some(at) => {
                        if self.entries[at].token != token {
                            Reply::Failed(RegistryError::Conflict)
                        } else {
                            let mut next = self.entries[at].token.clone();
                            next.append("+");
                            assert(next@ =~= self.entries@[at as int].token@.push('+'));
                            let ghost object = StoredObject { content: content@, token: next@ };
                            proof {
                                lemma_pairs_set(pairs, path@, object);
                            }
                            self.entries.set(at, Entry { path, content, token: next });
                            assert(entry_pairs(self.entries@) =~= pairs_set(pairs, path@, object));
                            Reply::Written
                        }
                    },
                }
            },
        }
    }

    /// Publishes a version into this store: runs the engine against it from
    /// the first request to the last.
    #[verifier::loop_isolation(false)]
    pub fn publish(&mut self, name: &str, vers: &str, meta: Vec<u8>, pkg: Vec<u8>) -> (result:
        Result<(), RegistryError>)
        ensures
            result == publish_outcome(contents(old(self)@), name@, vers@, meta@, pkg@).1,
            contents(final(self)@) == publish_outcome(
                contents(old(self)@),
                name@,
                vers@,
                meta@,
                pkg@,
            ).0,
            result is Err ==> final(self)@ == old(self)@,
    {
        let ghost start = spec_save_crate(name@, vers@, meta@, pkg@);
        let ghost before = self@;
        proof {
            lemma_publish_runs(
                before,
                memory_scheme(),
                publish_requests(),
                name@,
                vers@,
                meta@,
                pkg@,
            );
        }
        let mut step = Storage::save_crate(name, vers, meta, pkg);
        let mut fuel: u8 = 5;
        while fuel > 0
            invariant
                fuel <= 5,
                run(step@, self@, memory_scheme(), fuel as nat) == run(
                    start,
                    before,
                    memory_scheme(),
                    publish_requests(),
                ),
            decreases fuel,
        {
            let Step { state, action } = step;
            match action {
                Action::Finish(result) => {
                    return result;
                },
                Action::Ask(request) => {
                    let reply = self.serve(request);
                    step = state.resume(reply);
                    fuel = fuel - 1;
                },
            }
        }
        match step.action {
            Action::Finish(result) => result,
            Action::Ask(_) => Err(RegistryError::TransportError),
        }
    }
}

} // verus!
