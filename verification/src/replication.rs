//! Replication between the two nodes: the message that carries an accepted
//! mapping to the peer, and what the peer does on receiving it.

use crate::model::{Entries, UrlMapping, UrlMappingView};
use crate::store::MappingStore;
use vstd::prelude::*;
use vstd::string::*;

verus! {

/// The wire form of a mapping, sent from the node that accepted it to its
/// peer.
#[derive(Clone, Debug, PartialEq, Eq)]
pub struct ReplicationMessage {
    pub code: String,
    pub target: String,
}

impl View for ReplicationMessage {
    type V = UrlMappingView;

    open spec fn view(&self) -> UrlMappingView {
        UrlMappingView { code: self.code@, target: self.target@ }
    }
}

/// The peer's answer to a replication message.
#[derive(Clone, Debug, PartialEq, Eq)]
pub struct Ack {
    pub message: String,
}

/// Why a push to the peer failed.
#[derive(Clone, Copy, Debug, PartialEq, Eq, Structural)]
pub enum ReplicationError {
    /// No connection to the peer could be made.
    Unreachable,
    /// The peer answered the push with an error.
    Rejected,
}

/// Puts a mapping into its wire form, unchanged.
pub fn message_for(mapping: &UrlMapping) -> (message: ReplicationMessage)
    ensures
        message@ == mapping@,
{
    ReplicationMessage { code: mapping.code.clone(), target: mapping.target.clone() }
}

/// The text of the acknowledgement for a received pair.
pub open spec fn ack_text(code: Seq<char>, target: Seq<char>) -> Seq<char> {
    "Got "@ + code + ":"@ + target
}

/// The mapping of a node after it received `message`: the pair is written
/// over whatever the node held for that code.
pub open spec fn after_add_url(entries: Entries, message: UrlMappingView) -> Entries {
    entries.insert(message.code, message.target)
}

/// Applies a replicated mapping to the local store. The pair always wins over
/// an existing mapping of the same code, and the message is always
/// acknowledged.
pub fn add_url(store: &mut MappingStore, message: &ReplicationMessage) -> (ack: Ack)
    ensures
        final(store)@ == after_add_url(old(store)@, message@),
        final(store)@.dom().finite(),
        ack.message@ == ack_text(message.code@, message.target@),
{
    store.force_insert(message.code.as_str(), message.target.as_str());
    let text = String::from_str("Got ").concat(message.code.as_str()).concat(":").concat(
        message.target.as_str(),
    );
    Ack { message: text }
}

} // verus!
