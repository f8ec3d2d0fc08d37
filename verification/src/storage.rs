//! The registry's storage engine: publishing a version and fetching what was
//! published.
//!
//! Publishing is a conversation with the store. [`Storage::save_crate`]
//! opens it and [`Publish::resume`] continues it with each reply, until the
//! step says that it is finished.

use vstd::prelude::*;
use crate::error::RegistryError;
use crate::ledger::{appended, spec_appended};
use crate::normalize::{normalize, spec_normalize};
use crate::path::{archive_path, ledger_path, spec_archive_path, spec_ledger_path, valid_name};
use crate::store::{spec_store_error, store_error, Reply, ReplyView, Request, RequestView};

verus! {

/// Where a publish stands: which reply it waits for, and what it keeps for
/// the steps to come.
#[derive(Debug, PartialEq)]
pub enum Publish {
    /// Waits for the read of the archive path, which must find nothing.
    CheckArchive { ledger_path: String, archive_path: String, meta: Vec<u8>, archive: Vec<u8> },
    /// Waits for the read of the ledger.
    ReadLedger { ledger_path: String, archive_path: String, record: Vec<u8>, archive: Vec<u8> },
    /// Waits for the conflict token of the ledger; `ledger` is the content
    /// to write.
    FetchToken { ledger_path: String, archive_path: String, ledger: Vec<u8>, archive: Vec<u8> },
    /// Waits for the ledger to be written.
    WriteLedger { archive_path: String, archive: Vec<u8> },
    /// Waits for the archive to be written.
    WriteArchive,
    /// The publish is over.
    Done,
}

/// What the caller is to do next.
#[derive(Debug, PartialEq)]
pub enum Action {
    /// Perform the request and resume with the store's reply.
    Ask(Request),
    /// Stop: the publish ended with this result.
    Finish(Result<(), RegistryError>),
}

/// One step of a publish: its new state and what to do next.
#[derive(Debug, PartialEq)]
pub struct Step {
    pub state: Publish,
    pub action: Action,
}

/// The engine itself. It holds no state of its own: all of it is in the
/// store.
#[derive(Debug, PartialEq)]
pub struct Storage {}

/// A [`Publish`] by content.
pub enum PublishView {
    CheckArchive {
        ledger_path: Seq<char>,
        archive_path: Seq<char>,
        meta: Seq<u8>,
        archive: Seq<u8>,
    },
    ReadLedger {
        ledger_path: Seq<char>,
        archive_path: Seq<char>,
        record: Seq<u8>,
        archive: Seq<u8>,
    },
    FetchToken {
        ledger_path: Seq<char>,
        archive_path: Seq<char>,
        ledger: Seq<u8>,
        archive: Seq<u8>,
    },
    WriteLedger { archive_path: Seq<char>, archive: Seq<u8> },
    WriteArchive,
    Done,
}

/// An [`Action`] by content.
pub enum ActionView {
    Ask(RequestView),
    Finish(Result<(), RegistryError>),
}

/// A [`Step`] by content.
pub struct StepView {
    pub state: PublishView,
    pub action: ActionView,
}

impl Publish {
    pub open spec fn view(&self) -> PublishView {
        match self {
            Publish::CheckArchive { ledger_path, archive_path, meta, archive } => {
                PublishView::CheckArchive {
                    ledger_path: ledger_path@,
                    archive_path: archive_path@,
                    meta: meta@,
                    archive: archive@,
                }
            },
            Publish::ReadLedger { ledger_path, archive_path, record, archive } => {
                PublishView::ReadLedger {
                    ledger_path: ledger_path@,
                    archive_path: archive_path@,
                    record: record@,
                    archive: archive@,
                }
            },
            Publish::FetchToken { ledger_path, archive_path, ledger, archive } => {
                PublishView::FetchToken {
                    ledger_path: ledger_path@,
                    archive_path: archive_path@,
                    ledger: ledger@,
                    archive: archive@,
                }
            },
            Publish::WriteLedger { archive_path, archive } => PublishView::WriteLedger {
                archive_path: archive_path@,
                archive: archive@,
            },
            Publish::WriteArchive => PublishView::WriteArchive,
            Publish::Done => PublishView::Done,
        }
    }
}

impl Action {
    pub open spec fn view(&self) -> ActionView {
        match self {
            Action::Ask(request) => ActionView::Ask(request@),
            Action::Finish(result) => ActionView::Finish(*result),
        }
    }
}

impl Step {
    pub open spec fn view(&self) -> StepView {
        StepView { state: self.state@, action: self.action@ }
    }
}

/// The step that ends a publish with `result`.
pub open spec fn finished(result: Result<(), RegistryError>) -> StepView {
    StepView { state: PublishView::Done, action: ActionView::Finish(result) }
}

/// The error that a reply stands for where the publish cannot go on with it:
/// the store's error where it reported one, a transport error where the
/// reply answers another kind of request.
pub open spec fn reply_error(reply: ReplyView) -> RegistryError {
    match reply {
        ReplyView::Failed(e) => spec_store_error(e),
        _ => RegistryError::TransportError,
    }
}

/// The first step of a publish: a name that is too short ends it at once;
/// otherwise the archive path is read, to see that the version is new.
pub open spec fn spec_save_crate(
    name: Seq<char>,
    vers: Seq<char>,
    meta: Seq<u8>,
    archive: Seq<u8>,
) -> StepView {
    if !valid_name(name) {
        finished(Err(RegistryError::InvalidName))
    } else {
        StepView {
            state: PublishView::CheckArchive {
                ledger_path: spec_ledger_path(name),
                archive_path: spec_archive_path(name, vers),
                meta,
                archive,
            },
            action: ActionView::Ask(RequestView::Read { path: spec_archive_path(name, vers) }),
        }
    }
}

/// The step that follows a state and the reply it waited for.
pub open spec fn spec_resume(state: PublishView, reply: ReplyView) -> StepView {
    match state {
        PublishView::CheckArchive { ledger_path, archive_path, meta, archive } => match reply {
            ReplyView::Content(_) => finished(Err(RegistryError::AlreadyExists)),
            ReplyView::Failed(RegistryError::NotFound) => match spec_normalize(meta, archive) {
                Ok(record) => StepView {
                    state: PublishView::ReadLedger { ledger_path, archive_path, record, archive },
                    action: ActionView::Ask(RequestView::Read { path: ledger_path }),
                },
                Err(e) => finished(Err(e)),
            },
            _ => finished(Err(reply_error(reply))),
        },
        PublishView::ReadLedger { ledger_path, archive_path, record, archive } => match reply {
            ReplyView::Content(old) => StepView {
                state: PublishView::FetchToken {
                    ledger_path,
                    archive_path,
                    ledger: spec_appended(old, record),
                    archive,
                },
                action: ActionView::Ask(RequestView::ConflictToken { path: ledger_path }),
            },
            ReplyView::Failed(RegistryError::NotFound) => StepView {
                state: PublishView::WriteLedger { archive_path, archive },
                action: ActionView::Ask(
                    RequestView::Create { path: ledger_path, content: record },
                ),
            },
            _ => finished(Err(reply_error(reply))),
        },
        PublishView::FetchToken { ledger_path, archive_path, ledger, archive } => match reply {
            ReplyView::Token(token) => StepView {
                state: PublishView::WriteLedger { archive_path, archive },
                action: ActionView::Ask(
                    RequestView::Update { path: ledger_path, content: ledger, token },
                ),
            },
            _ => finished(Err(reply_error(reply))),
        },
        PublishView::WriteLedger { archive_path, archive } => match reply {
            ReplyView::Written => StepView {
                state: PublishView::WriteArchive,
                action: ActionView::Ask(
                    RequestView::Create { path: archive_path, content: archive },
                ),
            },
            _ => finished(Err(reply_error(reply))),
        },
        PublishView::WriteArchive => match reply {
            ReplyView::Written => finished(Ok(())),
            _ => finished(Err(reply_error(reply))),
        },
        PublishView::Done => finished(Err(RegistryError::TransportError)),
    }
}

/// Ends a publish with the error that `reply` stands for.
fn give_up(reply: Reply) -> (step: Step)
    ensures
        step@ == finished(Err(reply_error(reply@))),
{
    let e = match reply {
        Reply::Failed(e) => store_error(e),
        _ => RegistryError::TransportError,
    };
    Step { state: Publish::Done, action: Action::Finish(Err(e)) }
}

impl Storage {
    /// Opens the publish of version `vers` of package `name`, with the raw
    /// metadata and archive of the publish body.
    pub fn save_crate(name: &str, vers: &str, meta: Vec<u8>, pkg: Vec<u8>) -> (step: Step)
        ensures
            step@ == spec_save_crate(name@, vers@, meta@, pkg@),
    {
        let ledger = match ledger_path(name) {
            Ok(path) => path,
            Err(e) => {
                return Step { state: Publish::Done, action: Action::Finish(Err(e)) };
            },
        };
        let archive = match archive_path(name, vers) {
            Ok(path) => path,
            Err(e) => {
                return Step { state: Publish::Done, action: Action::Finish(Err(e)) };
            },
        };
        let request = Request::Read { path: archive.clone() };
        Step {
            state: Publish::CheckArchive {
                ledger_path: ledger,
                archive_path: archive,
                meta,
                archive: pkg,
            },
            action: Action::Ask(request),
        }
    }
}

impl Publish {
    /// Continues the publish with the store's reply to the request of the
    /// step before.
    pub fn resume(self, reply: Reply) -> (step: Step)
        ensures
            step@ == spec_resume(self@, reply@),
    {
        match self {
            Publish::CheckArchive { ledger_path, archive_path, meta, archive } => match reply {
                Reply::Content(_) => Step {
                    state: Publish::Done,
                    action: Action::Finish(Err(RegistryError::AlreadyExists)),
                },
                Reply::Failed(RegistryError::NotFound) => match normalize(
                    meta.as_slice(),
                    archive.as_slice(),
                ) {
                    Ok(record) => {
                        let request = Request::Read { path: ledger_path.clone() };
                        Step {
                            state: Publish::ReadLedger {
                                ledger_path,
                                archive_path,
                                record,
                                archive,
                            },
                            action: Action::Ask(request),
                        }
                    },
                    Err(e) => Step { state: Publish::Done, action: Action::Finish(Err(e)) },
                },
                other => give_up(other),
            },
            Publish::ReadLedger { ledger_path, archive_path, record, archive } => match reply {
                Reply::Content(old) => {
                    let request = Request::ConflictToken { path: ledger_path.clone() };
                    Step {
                        state: Publish::FetchToken {
                            ledger_path,
                            archive_path,
                            ledger: appended(old, record),
                            archive,
                        },
                        action: Action::Ask(request),
                    }
                },
                Reply::Failed(RegistryError::NotFound) => Step {
                    state: Publish::WriteLedger { archive_path, archive },
                    action: Action::Ask(Request::Create { path: ledger_path, content: record }),
                },
                other => give_up(other),
            },
            Publish::FetchToken { ledger_path, archive_path, ledger, archive } => match reply {
                Reply::Token(token) => Step {
                    state: Publish::WriteLedger { archive_path, archive },
                    action: Action::Ask(
                        Request::Update { path: ledger_path, content: ledger, token },
                    ),
                },
                other => give_up(other),
            },
            Publish::WriteLedger { archive_path, archive } => match reply {
                Reply::Written => Step {
                    state: Publish::WriteArchive,
                    action: Action::Ask(Request::Create { path: archive_path, content: archive }),
                },
                other => give_up(other),
            },
            Publish::WriteArchive => match reply {
                Reply::Written => Step {
                    state: Publish::Done,
                    action: Action::Finish(Ok(())),
                },
                other => give_up(other),
            },
            Publish::Done => Step {
                state: Publish::Done,
                action: Action::Finish(Err(RegistryError::TransportError)),
            },
        }
    }
}

/// The request that fetches the ledger of a package, or `InvalidName`.
pub open spec fn spec_get_crate(name: Seq<char>) -> Result<RequestView, RegistryError> {
    if valid_name(name) {
        Ok(RequestView::Read { path: spec_ledger_path(name) })
    } else {
        Err(RegistryError::InvalidName)
    }
}

/// The request that fetches the archive of a version, or `InvalidName`.
pub open spec fn spec_down_crate(name: Seq<char>, vers: Seq<char>) -> Result<
    RequestView,
    RegistryError,
> {
    if valid_name(name) {
        Ok(RequestView::Read { path: spec_archive_path(name, vers) })
    } else {
        Err(RegistryError::InvalidName)
    }
}

/// What a fetch returns for the store's reply to its read: the content, or
/// the error that the reply stands for.
pub open spec fn spec_fetched(reply: ReplyView) -> Result<Seq<u8>, RegistryError> {
    match reply {
        ReplyView::Content(bytes) => Ok(bytes),
        _ => Err(reply_error(reply)),
    }
}

impl Storage {
    /// The read that fetches the metadata ledger of package `name`.
    pub fn get_crate(name: &str) -> (request: Result<Request, RegistryError>)
        ensures
            match request {
                Ok(r) => spec_get_crate(name@) == Ok::<RequestView, RegistryError>(r@),
                Err(e) => spec_get_crate(name@) == Err::<RequestView, RegistryError>(e),
            },
    {
        match ledger_path(name) {
            Ok(path) => Ok(Request::Read { path }),
            Err(e) => Err(e),
        }
    }

    /// The read that fetches the archive of version `vers` of package `name`.
    pub fn down_crate(name: &str, vers: &str) -> (request: Result<Request, RegistryError>)
        ensures
            match request {
                Ok(r) => spec_down_crate(name@, vers@) == Ok::<RequestView, RegistryError>(r@),
                Err(e) => spec_down_crate(name@, vers@) == Err::<RequestView, RegistryError>(e),
            },
    {
        match archive_path(name, vers) {
            Ok(path) => Ok(Request::Read { path }),
            Err(e) => Err(e),
        }
    }

    /// The outcome of a fetch, given the store's reply to its read.
    pub fn fetched(reply: Reply) -> (content: Result<Vec<u8>, RegistryError>)
        ensures
            match content {
                Ok(bytes) => spec_fetched(reply@) == Ok::<Seq<u8>, RegistryError>(bytes@),
                Err(e) => spec_fetched(reply@) == Err::<Seq<u8>, RegistryError>(e),
            },
    {
        match reply {
            Reply::Content(bytes) => Ok(bytes),
            Reply::Failed(e) => Err(store_error(e)),
            _ => Err(RegistryError::TransportError),
        }
    }
}

/// Where a publish stands after a sequence of replies.
pub open spec fn resumed(step: StepView, replies: Seq<ReplyView>) -> StepView
    decreases replies.len(),
{
    if replies.len() == 0 {
        step
    } else {
        let before = resumed(step, replies.drop_last());
        match before.action {
            ActionView::Ask(_) => spec_resume(before.state, replies.last()),
            ActionView::Finish(_) => before,
        }
    }
}

/// The path that a request is about.
pub open spec fn path_of(request: RequestView) -> Seq<char> {
    match request {
        RequestView::Read { path } => path,
        RequestView::ConflictToken { path } => path,
        RequestView::Create { path, .. } => path,
        RequestView::Update { path, .. } => path,
    }
}

/// How far a publish has come: the number of replies that it has used.
pub open spec fn stage(step: StepView) -> nat {
    match step.state {
        PublishView::CheckArchive { .. } => 0,
        PublishView::ReadLedger { .. } => 1,
        PublishView::FetchToken { .. } => 2,
        PublishView::WriteLedger { .. } => 3,
        PublishView::WriteArchive => 4,
        PublishView::Done => 5,
    }
}

/// A step of the publish of a version keeps to the paths of that version,
/// and asks only where it has not finished.
pub open spec fn on_track(step: StepView, ledger: Seq<char>, own: Seq<char>) -> bool {
    match step.state {
        PublishView::CheckArchive { ledger_path, archive_path, .. } => ledger_path == ledger
            && archive_path == own && step.action == ActionView::Ask(
            RequestView::Read { path: own },
        ),
        PublishView::ReadLedger { ledger_path, archive_path, .. } => ledger_path == ledger
            && archive_path == own && step.action == ActionView::Ask(
            RequestView::Read { path: ledger },
        ),
        PublishView::FetchToken { ledger_path, archive_path, .. } => ledger_path == ledger
            && archive_path == own && step.action == ActionView::Ask(
            RequestView::ConflictToken { path: ledger },
        ),
        PublishView::WriteLedger { archive_path, .. } => archive_path == own
            && step.action is Ask && path_of(step.action->Ask_0) == ledger,
        PublishView::WriteArchive => step.action is Ask && path_of(step.action->Ask_0) == own,
        PublishView::Done => step.action is Finish,
    }
}

/// Every reply takes a publish at least one stage further, on its own
/// paths.
proof fn lemma_progress(
    start: StepView,
    name: Seq<char>,
    vers: Seq<char>,
    replies: Seq<ReplyView>,
)
    requires
        on_track(start, spec_ledger_path(name), spec_archive_path(name, vers)),
    ensures
        on_track(resumed(start, replies), spec_ledger_path(name), spec_archive_path(name, vers)),
        stage(resumed(start, replies)) >= stage(start) + replies.len() || resumed(
            start,
            replies,
        ).action is Finish,
    decreases replies.len(),
{
    if replies.len() > 0 {
        lemma_progress(start, name, vers, replies.drop_last());
    }
}

/// A publish has finished once it has had five replies, whatever they were,
/// and every request that it makes on the way is about the ledger of the
/// package or the archive of the version.
pub proof fn lemma_publish_is_bounded(
    name: Seq<char>,
    vers: Seq<char>,
    meta: Seq<u8>,
    archive: Seq<u8>,
    replies: Seq<ReplyView>,
)
    ensures
        replies.len() >= 5 ==> resumed(
            spec_save_crate(name, vers, meta, archive),
            replies,
        ).action is Finish,
        resumed(spec_save_crate(name, vers, meta, archive), replies).action matches ActionView::Ask(
            request,
        ) ==> path_of(request) == spec_ledger_path(name) || path_of(request) == spec_archive_path(
            name,
            vers,
        ),
{
    lemma_progress(spec_save_crate(name, vers, meta, archive), name, vers, replies);
}

} // verus!
