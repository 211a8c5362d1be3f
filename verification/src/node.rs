//! A node: its peer's address, its store, and the handling of the requests
//! that reach it.

use crate::codegen::normalized;
use crate::coordinator::{
    after_create, create, create_outcome, redirect_location, resolve, CreateOutcome, Creation,
    Resolution, WriteError, MAX_RETRIES,
};
use crate::decimal::{append_decimal, decimal};
use crate::model::{Entries, UrlMappingView};
use crate::replication::{message_for, Ack, ReplicationError, ReplicationMessage};
use crate::store::MappingStore;
use vstd::prelude::*;
use vstd::string::*;

verus! {

/// Status of a request that found an existing identical mapping.
pub const STATUS_OK: u16 = 200;

/// Status of a request that stored a new mapping.
pub const STATUS_CREATED: u16 = 201;

/// Status of a redirect to a stored URL.
pub const STATUS_MOVED_PERMANENTLY: u16 = 301;

/// Status of a write request without a usable URL.
pub const STATUS_BAD_REQUEST: u16 = 400;

/// Status of a read request for an unknown code.
pub const STATUS_NOT_FOUND: u16 = 404;

/// Status of a write request that failed on the node's side.
pub const STATUS_INTERNAL_SERVER_ERROR: u16 = 500;

/// What a node answers: a status, a `Location` header where it redirects,
/// and a body.
#[derive(Clone, Debug, PartialEq, Eq)]
pub struct Reply {
    pub status: u16,
    pub location: Option<String>,
    pub body: String,
}

/// The mathematical content of a [`Reply`].
pub struct ReplyView {
    pub status: u16,
    pub location: Option<Seq<char>>,
    pub body: Seq<char>,
}

impl View for Reply {
    type V = ReplyView;

    open spec fn view(&self) -> ReplyView {
        ReplyView {
            status: self.status,
            location: match self.location {
                Some(location) => Some(location@),
                None => None,
            },
            body: self.body@,
        }
    }
}

/// The state of one node: where its peer listens, and its store.
pub struct Main {
    pub remote_addr: String,
    pub db: MappingStore,
}

/// The address of the peer that listens on `port` of the local host.
pub open spec fn peer_address(port: u16) -> Seq<char> {
    "http://127.0.0.1:"@ + decimal(port as nat)
}

impl Main {
    /// A node with an empty store whose peer listens on port `rp` of the
    /// local host.
    pub fn new(rp: u16) -> (node: Main)
        ensures
            node.remote_addr@ == peer_address(rp),
            node.db@ == Entries::empty(),
            node.db@.dom().finite(),
    {
        let mut addr = String::from_str("http://127.0.0.1:");
        append_decimal(&mut addr, rp);
        Main { remote_addr: addr, db: MappingStore::new() }
    }
}

/// The answer to a read request for `code` on a node that holds `entries`.
pub open spec fn get_reply(entries: Entries, code: Seq<char>) -> ReplyView {
    if entries.dom().contains(code) {
        ReplyView {
            status: STATUS_MOVED_PERMANENTLY,
            location: Some(redirect_location(entries[code])),
            body: Seq::empty(),
        }
    } else {
        ReplyView { status: STATUS_NOT_FOUND, location: None, body: Seq::empty() }
    }
}

/// Answers a read request: a permanent redirect to the stored URL for a
/// known code, not-found with an empty body for any other.
pub fn do_get(main: &Main, short_url: &str) -> (reply: Reply)
    ensures
        reply@ == get_reply(main.db@, short_url@),
{
    match resolve(&main.db, short_url) {
        Resolution::Redirect(location) => Reply {
            status: STATUS_MOVED_PERMANENTLY,
            location: Some(location),
            body: String::new(),
        },
        Resolution::NotFound => Reply {
            status: STATUS_NOT_FOUND,
            location: None,
            body: String::new(),
        },
    }
}

/// The status that reports a failed write.
pub open spec fn error_status(error: WriteError) -> u16 {
    match error {
        WriteError::InputError => STATUS_BAD_REQUEST,
        WriteError::CollisionExhausted => STATUS_INTERNAL_SERVER_ERROR,
        WriteError::ReplicationError(_) => STATUS_INTERNAL_SERVER_ERROR,
    }
}

/// The answer to a write request that failed: the error's status and an
/// empty body.
pub open spec fn error_view(error: WriteError) -> ReplyView {
    ReplyView { status: error_status(error), location: None, body: Seq::empty() }
}

/// Builds the answer to a write request that failed.
pub fn error_reply(error: WriteError) -> (reply: Reply)
    ensures
        reply@ == error_view(error),
{
    let status = match error {
        WriteError::InputError => STATUS_BAD_REQUEST,
        WriteError::CollisionExhausted => STATUS_INTERNAL_SERVER_ERROR,
        WriteError::ReplicationError(_) => STATUS_INTERNAL_SERVER_ERROR,
    };
    Reply { status, location: None, body: String::new() }
}

/// What remains to be done for a write request once the local store has
/// been consulted.
#[derive(Clone, Debug, PartialEq, Eq)]
pub enum PostStep {
    /// The mapping was stored for the first time: push the message to the
    /// peer, then answer with [`finish_post`].
    Replicate(ReplicationMessage),
    /// The request is finished with this answer; nothing is pushed.
    Respond(Reply),
}

/// The mathematical content of a [`PostStep`].
pub enum PostStepView {
    /// Push this pair to the peer.
    Replicate(UrlMappingView),
    /// Answer with this reply.
    Respond(ReplyView),
}

impl View for PostStep {
    type V = PostStepView;

    open spec fn view(&self) -> PostStepView {
        match self {
            PostStep::Replicate(message) => PostStepView::Replicate(message@),
            PostStep::Respond(reply) => PostStepView::Respond(reply@),
        }
    }
}

/// The text of an optional string.
pub open spec fn option_view(text: Option<&str>) -> Option<Seq<char>> {
    match text {
        Some(text) => Some(text@),
        None => None,
    }
}

/// The step that follows a write request for `url` on a node that holds
/// `entries`.
pub open spec fn post_step(entries: Entries, url: Option<Seq<char>>) -> PostStepView {
    match url {
        None => PostStepView::Respond(error_view(WriteError::InputError)),
        Some(url) => match create_outcome(entries, normalized(url)) {
            CreateOutcome::Fresh { code } => PostStepView::Replicate(
                UrlMappingView { code, target: normalized(url) },
            ),
            CreateOutcome::Existing { code } => PostStepView::Respond(
                ReplyView { status: STATUS_OK, location: None, body: code },
            ),
            CreateOutcome::Exhausted => PostStepView::Respond(
                error_view(WriteError::CollisionExhausted),
            ),
        },
    }
}

/// The mapping of a node after a write request for `url`.
pub open spec fn after_post(entries: Entries, url: Option<Seq<char>>) -> Entries {
    match url {
        None => entries,
        Some(url) => after_create(entries, normalized(url)),
    }
}

/// Handles a write request up to the point where the peer has to be told.
/// A request without a URL is refused and changes nothing. A URL that is
/// already stored is answered with its code at once. A URL stored now for the
/// first time is handed back as the message to replicate; the answer to the
/// client waits for the push.
pub fn do_post(main: &mut Main, url: Option<&str>) -> (step: PostStep)
    ensures
        step@ == post_step(old(main).db@, option_view(url)),
        final(main).db@ == after_post(old(main).db@, option_view(url)),
        final(main).remote_addr == old(main).remote_addr,
        url is Some && old(main).db@.len() <= MAX_RETRIES ==> !(step matches PostStep::Respond(reply)
            && reply.status == STATUS_INTERNAL_SERVER_ERROR),
{
    match url {
        None => PostStep::Respond(error_reply(WriteError::InputError)),
        Some(url) => match create(&mut main.db, url) {
            Ok(Creation::Fresh(mapping)) => PostStep::Replicate(message_for(&mapping)),
            Ok(Creation::Existing(mapping)) => PostStep::Respond(
                Reply { status: STATUS_OK, location: None, body: mapping.code },
            ),
            Err(error) => PostStep::Respond(error_reply(error)),
        },
    }
}

/// The answer to a write request whose mapping was stored and then pushed
/// to the peer with the given result.
pub open spec fn finished_reply(code: Seq<char>, pushed: Result<Ack, ReplicationError>) -> ReplyView {
    match pushed {
        Ok(_) => ReplyView { status: STATUS_CREATED, location: None, body: code },
        Err(cause) => error_view(WriteError::ReplicationError(cause)),
    }
}

/// Answers a write request after the push to the peer: the new code once the
/// peer acknowledged, a server error where the push failed. The local store
/// keeps the mapping either way.
pub fn finish_post(message: &ReplicationMessage, pushed: Result<Ack, ReplicationError>) -> (reply:
    Reply)
    ensures
        reply@ == finished_reply(message.code@, pushed),
{
    match pushed {
        Ok(_) => Reply { status: STATUS_CREATED, location: None, body: message.code.clone() },
        Err(cause) => error_reply(WriteError::ReplicationError(cause)),
    }
}

} // verus!
