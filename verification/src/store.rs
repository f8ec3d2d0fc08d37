//! The protocol between the registry and the remote object store.
//!
//! The registry never talks to the store itself. It hands out a [`Request`],
//! and whoever runs it performs the operation and hands back a [`Reply`].

use vstd::prelude::*;
use vstd::slice::slice_to_vec;
use crate::error::RegistryError;

verus! {

/// An operation that the registry asks of the store.
#[derive(Debug, PartialEq)]
pub enum Request {
    /// Fetch the content of the object at `path`.
    Read { path: String },
    /// Fetch the conflict token of the object at `path`.
    ConflictToken { path: String },
    /// Create an object at `path`, which must not exist yet.
    Create { path: String, content: Vec<u8> },
    /// Overwrite the object at `path` if its conflict token is still `token`.
    Update { path: String, content: Vec<u8>, token: String },
}

/// The store's answer to a [`Request`].
#[derive(Debug, PartialEq)]
pub enum Reply {
    /// The content of the object that was read.
    Content(Vec<u8>),
    /// The conflict token that was asked for.
    Token(String),
    /// The object was created or updated.
    Written,
    /// The operation failed.
    Failed(RegistryError),
}

/// A [`Request`] by content.
pub enum RequestView {
    Read { path: Seq<char> },
    ConflictToken { path: Seq<char> },
    Create { path: Seq<char>, content: Seq<u8> },
    Update { path: Seq<char>, content: Seq<u8>, token: Seq<char> },
}

/// A [`Reply`] by content.
pub enum ReplyView {
    Content(Seq<u8>),
    Token(Seq<char>),
    Written,
    Failed(RegistryError),
}

impl Request {
    pub open spec fn view(&self) -> RequestView {
        match self {
            Request::Read { path } => RequestView::Read { path: path@ },
            Request::ConflictToken { path } => RequestView::ConflictToken { path: path@ },
            Request::Create { path, content } => RequestView::Create {
                path: path@,
                content: content@,
            },
            Request::Update { path, content, token } => RequestView::Update {
                path: path@,
                content: content@,
                token: token@,
            },
        }
    }
}

impl Reply {
    pub open spec fn view(&self) -> ReplyView {
        match self {
            Reply::Content(bytes) => ReplyView::Content(bytes@),
            Reply::Token(token) => ReplyView::Token(token@),
            Reply::Written => ReplyView::Written,
            Reply::Failed(e) => ReplyView::Failed(*e),
        }
    }
}

/// The error that a failed store operation is reported as: the store's own
/// errors as they are, anything else as a transport error.
pub open spec fn spec_store_error(e: RegistryError) -> RegistryError {
    match e {
        RegistryError::NotFound => e,
        RegistryError::AlreadyExists => e,
        RegistryError::Conflict => e,
        _ => RegistryError::TransportError,
    }
}

/// Computes [`spec_store_error`].
pub fn store_error(e: RegistryError) -> (out: RegistryError)
    ensures
        out == spec_store_error(e),
{
    match e {
        RegistryError::NotFound => e,
        RegistryError::AlreadyExists => e,
        RegistryError::Conflict => e,
        _ => RegistryError::TransportError,
    }
}

/// The status with which the store hands out an object.
pub const STATUS_OK: u16 = 200;

/// The chunks of a response body in order, or `None` where one of them
/// failed to arrive.
pub open spec fn joined(chunks: Seq<Option<Seq<u8>>>) -> Option<Seq<u8>>
    decreases chunks.len(),
{
    if chunks.len() == 0 {
        Some(Seq::empty())
    } else {
        match (joined(chunks.drop_last()), chunks.last()) {
            (Some(head), Some(tail)) => Some(head + tail),
            _ => None,
        }
    }
}

/// The chunks of a streamed body, by content.
pub open spec fn chunks_view(chunks: Seq<Option<Vec<u8>>>) -> Seq<Option<Seq<u8>>> {
    Seq::new(
        chunks.len(),
        |i: int|
            match chunks[i] {
                Some(bytes) => Some(bytes@),
                None => None,
            },
    )
}

/// What a read amounts to, given the response status and the chunks of the
/// body: the object is absent unless the status is 200; a chunk that failed
/// makes the read a transport failure; otherwise the content is the chunks
/// in order.
pub open spec fn spec_read_reply(status: u16, chunks: Seq<Option<Seq<u8>>>) -> ReplyView {
    if status != STATUS_OK {
        ReplyView::Failed(RegistryError::NotFound)
    } else {
        match joined(chunks) {
            Some(content) => ReplyView::Content(content),
            None => ReplyView::Failed(RegistryError::TransportError),
        }
    }
}

/// Turns the response to a raw read into a [`Reply`].
pub fn read_reply(status: u16, chunks: Vec<Option<Vec<u8>>>) -> (reply: Reply)
    ensures
        reply@ == spec_read_reply(status, chunks_view(chunks@)),
{
    if status != STATUS_OK {
        return Reply::Failed(RegistryError::NotFound);
    }
    let ghost views = chunks_view(chunks@);
    let mut content: Vec<u8> = Vec::new();
    let mut i: usize = 0;
    while i < chunks.len()
        invariant
            i <= chunks@.len(),
            status == STATUS_OK,
            views == chunks_view(chunks@),
            joined(views.take(i as int)) == Some(content@),
        decreases chunks@.len() - i,
    {
        proof {
            assert(views.take(i + 1).drop_last() =~= views.take(i as int));
        }
        match &chunks[i] {
            Some(bytes) => {
                let mut piece = slice_to_vec(bytes.as_slice());
                content.append(&mut piece);
            },
            None => {
                proof {
                    lemma_joined_prefix(views, i + 1);
                }
                return Reply::Failed(RegistryError::TransportError);
            },
        }
        i = i + 1;
    }
    proof {
        assert(views.take(i as int) =~= views);
    }
    Reply::Content(content)
}

/// Where a prefix of the chunks cannot be joined, neither can the whole.
pub proof fn lemma_joined_prefix(chunks: Seq<Option<Seq<u8>>>, n: int)
    requires
        0 <= n <= chunks.len(),
        joined(chunks.take(n)) is None,
    ensures
        joined(chunks) is None,
    decreases chunks.len(),
{
    if n < chunks.len() {
        assert(chunks.drop_last().take(n) =~= chunks.take(n));
        lemma_joined_prefix(chunks.drop_last(), n);
    } else {
        assert(chunks.take(n) =~= chunks);
    }
}

/// The status with which the store says that it has no object at a path.
pub const STATUS_NOT_FOUND: u16 = 404;

/// The tokens of a list of entries, by content.
pub open spec fn tokens_view(tokens: Seq<String>) -> Seq<Seq<char>> {
    Seq::new(tokens.len(), |i: int| tokens[i]@)
}

/// What a conflict-token lookup amounts to, given the response status and
/// the tokens of the entries that the store lists for the path: the token of
/// the last entry; `NotFound` where the status is 404 or no entry is
/// listed; a transport error on any other status than 200.
pub open spec fn spec_token_reply(status: u16, tokens: Seq<Seq<char>>) -> ReplyView {
    if status == STATUS_NOT_FOUND {
        ReplyView::Failed(RegistryError::NotFound)
    } else if status != STATUS_OK {
        ReplyView::Failed(RegistryError::TransportError)
    } else if tokens.len() == 0 {
        ReplyView::Failed(RegistryError::NotFound)
    } else {
        ReplyView::Token(tokens.last())
    }
}

/// Turns the response to a conflict-token lookup into a [`Reply`].
pub fn token_reply(status: u16, mut tokens: Vec<String>) -> (reply: Reply)
    ensures
        reply@ == spec_token_reply(status, tokens_view(tokens@)),
{
    if status == STATUS_NOT_FOUND {
        return Reply::Failed(RegistryError::NotFound);
    }
    if status != STATUS_OK {
        return Reply::Failed(RegistryError::TransportError);
    }
    match tokens.pop() {
        Some(token) => Reply::Token(token),
        None => Reply::Failed(RegistryError::NotFound),
    }
}

/// The status with which the store confirms that it created an object.
pub const STATUS_CREATED: u16 = 201;

/// The status with which the store refuses an update whose conflict token
/// is stale.
pub const STATUS_CONFLICT: u16 = 409;

/// The status with which the store refuses to create an object that is
/// there already.
pub const STATUS_UNPROCESSABLE: u16 = 422;

/// A write went through if the store answered 200 or 201.
pub open spec fn written(status: u16) -> bool {
    status == STATUS_OK || status == STATUS_CREATED
}

/// What a create amounts to, given the response status: written on 200 or
/// 201, `AlreadyExists` on 422, a transport error on anything else.
pub open spec fn spec_create_reply(status: u16) -> ReplyView {
    if written(status) {
        ReplyView::Written
    } else if status == STATUS_UNPROCESSABLE {
        ReplyView::Failed(RegistryError::AlreadyExists)
    } else {
        ReplyView::Failed(RegistryError::TransportError)
    }
}

/// What a conditional update amounts to, given the response status: written
/// on 200 or 201, `Conflict` on 409, a transport error on anything else.
pub open spec fn spec_update_reply(status: u16) -> ReplyView {
    if written(status) {
        ReplyView::Written
    } else if status == STATUS_CONFLICT {
        ReplyView::Failed(RegistryError::Conflict)
    } else {
        ReplyView::Failed(RegistryError::TransportError)
    }
}

/// Turns the response status of a create into a [`Reply`].
pub fn create_reply(status: u16) -> (reply: Reply)
    ensures
        reply@ == spec_create_reply(status),
{
    if status == STATUS_OK || status == STATUS_CREATED {
        Reply::Written
    } else if status == STATUS_UNPROCESSABLE {
        Reply::Failed(RegistryError::AlreadyExists)
    } else {
        Reply::Failed(RegistryError::TransportError)
    }
}

/// Turns the response status of a conditional update into a [`Reply`].
pub fn update_reply(status: u16) -> (reply: Reply)
    ensures
        reply@ == spec_update_reply(status),
{
    if status == STATUS_OK || status == STATUS_CREATED {
        Reply::Written
    } else if status == STATUS_CONFLICT {
        Reply::Failed(RegistryError::Conflict)
    } else {
        Reply::Failed(RegistryError::TransportError)
    }
}

} // verus!
