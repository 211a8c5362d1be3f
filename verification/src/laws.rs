//! What holds of a node across several requests, proved from the models of
//! the single operations. Where a law speaks of `target`s, these are
//! normalized URLs: a write request for `url` is a creation for
//! `normalized(url)`.

use crate::codegen::{
    code_of, is_url_safe, lemma_code_of_hash_short_and_safe, normalized, scheme, url_hash,
    MAX_CODE_LEN,
};
use crate::coordinator::{
    after_create, candidate, create_outcome, first_slot, lemma_candidates_differ,
    lemma_first_slot_found, lemma_first_slot_is, lemma_room_for_one_more, redirect_location,
    taken_by_other, CreateOutcome, MAX_RETRIES,
};
use crate::model::{Entries, UrlMappingView};
use crate::node::{
    after_post, get_reply, post_step, PostStepView, ReplyView, STATUS_MOVED_PERMANENTLY,
    STATUS_NOT_FOUND,
};
use crate::replication::after_add_url;
use vstd::prelude::*;

verus! {

/// The code that a creation ended with, if it did not run out of candidates.
pub open spec fn outcome_code(outcome: CreateOutcome) -> Option<Seq<char>> {
    match outcome {
        CreateOutcome::Fresh { code } => Some(code),
        CreateOutcome::Existing { code } => Some(code),
        CreateOutcome::Exhausted => None,
    }
}

/// Every code that a creation answers with is short and safe to put in a
/// URL: the initial code and the `X`s after it are letters and digits, and
/// there are at most `MAX_RETRIES` of the latter.
pub proof fn lemma_created_code_short_and_safe(entries: Entries, target: Seq<char>)
    ensures
        outcome_code(create_outcome(entries, target)) matches Some(code) ==> is_url_safe(code)
            && code.len() <= MAX_CODE_LEN + MAX_RETRIES,
{
    lemma_first_slot_found(entries, code_of(target), target, 0);
    lemma_code_of_hash_short_and_safe(url_hash(target));
}

/// Creating a mapping never touches what the node already held: every
/// earlier code keeps its URL.
pub proof fn lemma_create_keeps_entries(entries: Entries, target: Seq<char>, code: Seq<char>)
    requires
        entries.dom().contains(code),
    ensures
        after_create(entries, target).dom().contains(code),
        after_create(entries, target)[code] == entries[code],
{
}

/// After a creation that did not run out of candidates, the node maps the
/// code it answered with to the URL.
pub proof fn lemma_created_is_stored(entries: Entries, target: Seq<char>)
    requires
        create_outcome(entries, target) !is Exhausted,
    ensures
        outcome_code(create_outcome(entries, target)) matches Some(code) && after_create(
            entries,
            target,
        ).dom().contains(code) && after_create(entries, target)[code] == target,
{
    lemma_first_slot_found(entries, code_of(target), target, 0);
}

/// Round trip: once a write request for `url` ended with a code, a read
/// request for that code redirects to `http://` followed by the normalized
/// URL.
pub proof fn lemma_round_trip(entries: Entries, url: Seq<char>)
    requires
        create_outcome(entries, normalized(url)) !is Exhausted,
    ensures
        outcome_code(create_outcome(entries, normalized(url))) matches Some(code) && get_reply(
            after_create(entries, normalized(url)),
            code,
        ) == (ReplyView {
            status: STATUS_MOVED_PERMANENTLY,
            location: Some(scheme() + normalized(url)),
            body: Seq::empty(),
        }),
{
    lemma_created_is_stored(entries, normalized(url));
}

/// A redirect location leads back to the URL it was made from: normalizing
/// it strips exactly the scheme that was put in front.
pub proof fn lemma_location_normalizes_back(target: Seq<char>)
    ensures
        normalized(redirect_location(target)) == target,
{
    assert(redirect_location(target).subrange(0, scheme().len() as int) =~= scheme());
    assert(redirect_location(target).skip(scheme().len() as int) =~= target);
}

/// Repeating a write request: the second creation of the same URL finds the
/// mapping of the first, answers with the same code and stores nothing.
pub proof fn lemma_create_again(entries: Entries, target: Seq<char>)
    requires
        create_outcome(entries, target) !is Exhausted,
    ensures
        outcome_code(create_outcome(entries, target)) matches Some(code) && create_outcome(
            after_create(entries, target),
            target,
        ) == (CreateOutcome::Existing { code }),
        after_create(after_create(entries, target), target) == after_create(entries, target),
{
    let base = code_of(target);
    let after = after_create(entries, target);
    lemma_first_slot_found(entries, base, target, 0);
    let attempt = first_slot(entries, base, target, 0)->0;
    assert forall|i: nat| i < attempt implies taken_by_other(
        after,
        #[trigger] candidate(base, i),
        target,
    ) by {
        lemma_candidates_differ(base, i, attempt);
    }
    lemma_first_slot_is(after, base, target, 0, attempt);
}

/// Collision safety: two different URLs, created one after the other, end
/// under different codes, and afterwards each code still leads to its own
/// URL. This holds in particular where both URLs hash to the same initial
/// code.
pub proof fn lemma_distinct_urls_keep_apart(entries: Entries, first: Seq<char>, second: Seq<char>)
    requires
        first != second,
        create_outcome(entries, first) !is Exhausted,
        create_outcome(after_create(entries, first), second) !is Exhausted,
    ensures
        ({
            let middle = after_create(entries, first);
            let last = after_create(middle, second);
            &&& outcome_code(create_outcome(entries, first)) matches Some(first_code)
            &&& outcome_code(create_outcome(middle, second)) matches Some(second_code)
            &&& first_code != second_code
            &&& last.dom().contains(first_code) && last[first_code] == first
            &&& last.dom().contains(second_code) && last[second_code] == second
        }),
{
    let middle = after_create(entries, first);
    lemma_created_is_stored(entries, first);
    lemma_created_is_stored(middle, second);
    let first_code = outcome_code(create_outcome(entries, first))->0;
    lemma_create_keeps_entries(middle, second, first_code);
}

/// On a node that holds nothing, two different URLs with the same initial
/// code are both stored: the first under that code, the second under the
/// next candidate.
pub proof fn lemma_collision_on_empty_node(first: Seq<char>, second: Seq<char>)
    requires
        first != second,
        code_of(first) == code_of(second),
    ensures
        ({
            let middle = after_create(Entries::empty(), first);
            &&& create_outcome(Entries::empty(), first) == (CreateOutcome::Fresh {
                code: code_of(first),
            })
            &&& create_outcome(middle, second) == (CreateOutcome::Fresh {
                code: candidate(code_of(first), 1),
            })
        }),
{
    let base = code_of(first);
    let empty = Entries::empty();
    assert(candidate(base, 0) =~= base);
    assert(first_slot(empty, base, first, 0) == Some(0nat));
    let middle = after_create(empty, first);
    assert(middle == empty.insert(base, first));
    lemma_candidates_differ(base, 0, 1);
    assert(!middle.dom().contains(candidate(base, 1)));
    assert forall|i: nat| i < 1 implies taken_by_other(middle, #[trigger] candidate(base, i), second) by {
        assert(i == 0);
    }
    lemma_first_slot_is(middle, base, second, 0, 1);
}

/// Unknown codes: a read request for a code that the node does not hold is
/// answered with not-found and an empty body.
pub proof fn lemma_unknown_code_not_found(entries: Entries, code: Seq<char>)
    requires
        !entries.dom().contains(code),
    ensures
        get_reply(entries, code) == (ReplyView {
            status: STATUS_NOT_FOUND,
            location: None,
            body: Seq::empty(),
        }),
{
}

/// A write request makes known at most the code it answers with: any other
/// code that was unknown before stays unknown.
pub proof fn lemma_create_adds_only_its_code(entries: Entries, target: Seq<char>, code: Seq<char>)
    requires
        !entries.dom().contains(code),
        outcome_code(create_outcome(entries, target)) != Some(code),
    ensures
        !after_create(entries, target).dom().contains(code),
{
}

/// A replicated mapping makes known only its own code.
pub proof fn lemma_add_url_adds_only_its_code(
    entries: Entries,
    message: UrlMappingView,
    code: Seq<char>,
)
    requires
        !entries.dom().contains(code),
        message.code != code,
    ensures
        !after_add_url(entries, message).dom().contains(code),
{
}

/// Replication: where a write request on one node asks for a push, the
/// message carries the pair that the node stored, and the peer that applies
/// the message holds the same pair, so that a read request on the peer
/// redirects to the same location.
pub proof fn lemma_replication_converges(local: Entries, peer: Entries, url: Seq<char>)
    requires
        post_step(local, Some(url)) is Replicate,
    ensures
        post_step(local, Some(url)) matches PostStepView::Replicate(message) && ({
            let local_after = after_post(local, Some(url));
            let peer_after = after_add_url(peer, message);
            &&& message.target == normalized(url)
            &&& local_after.dom().contains(message.code) && local_after[message.code]
                == message.target
            &&& peer_after.dom().contains(message.code) && peer_after[message.code]
                == message.target
            &&& get_reply(peer_after, message.code) == get_reply(local_after, message.code)
            &&& get_reply(peer_after, message.code).location == Some(redirect_location(normalized(url)))
        }),
{
    lemma_created_is_stored(local, normalized(url));
}

/// One change to the mapping of a node: a write request for a normalized
/// URL, or a mapping pushed by the peer.
pub enum Change {
    /// A write request for the normalized URL `target`.
    Create { target: Seq<char> },
    /// The arrival of `message` from the peer.
    AddUrl { message: UrlMappingView },
}

/// The mapping of a node after one change.
pub open spec fn after_change(entries: Entries, change: Change) -> Entries {
    match change {
        Change::Create { target } => after_create(entries, target),
        Change::AddUrl { message } => after_add_url(entries, message),
    }
}

/// The mapping of a node after a run of changes, made one after the other.
/// A node admits one writer to its store at a time, so whatever requests and
/// pushes arrive together are served as such a run, in some order.
pub open spec fn after_changes(entries: Entries, changes: Seq<Change>) -> Entries
    decreases changes.len(),
{
    if changes.len() == 0 {
        entries
    } else {
        after_change(after_changes(entries, changes.drop_last()), changes.last())
    }
}

/// Whether `change` replaces the URL that `code` stands for: only a pushed
/// mapping for that very code with another URL does.
pub open spec fn overwrites(change: Change, code: Seq<char>, target: Seq<char>) -> bool {
    change matches Change::AddUrl { message } && message.code == code && message.target != target
}

/// A pair that a node holds lasts through every run of changes in which no
/// pushed mapping replaces it. Write requests never do.
pub proof fn lemma_changes_keep_pair(
    entries: Entries,
    changes: Seq<Change>,
    code: Seq<char>,
    target: Seq<char>,
)
    requires
        entries.dom().contains(code),
        entries[code] == target,
        forall|j: int| 0 <= j < changes.len() ==> !overwrites(#[trigger] changes[j], code, target),
    ensures
        after_changes(entries, changes).dom().contains(code),
        after_changes(entries, changes)[code] == target,
    decreases changes.len(),
{
    if changes.len() > 0 {
        lemma_changes_keep_pair(entries, changes.drop_last(), code, target);
        let before = after_changes(entries, changes.drop_last());
        assert(!overwrites(changes[changes.len() - 1], code, target));
        match changes.last() {
            Change::Create { target: created } => {
                lemma_create_keeps_entries(before, created, code);
            },
            Change::AddUrl { message } => {},
        }
    }
}

/// Making the changes `more` after `changes` is making their concatenation.
pub proof fn lemma_changes_append(entries: Entries, changes: Seq<Change>, more: Seq<Change>)
    ensures
        after_changes(after_changes(entries, changes), more) == after_changes(
            entries,
            changes + more,
        ),
    decreases more.len(),
{
    if more.len() == 0 {
        assert(changes + more =~= changes);
    } else {
        lemma_changes_append(entries, changes, more.drop_last());
        assert((changes + more).drop_last() =~= changes + more.drop_last());
        assert((changes + more).last() == more.last());
    }
}

/// No lost writes: in a run of changes, a write request that ended with a
/// code is still served under that code when the run is over, whatever write
/// requests came after it, as long as no later push replaced the pair.
pub proof fn lemma_no_lost_writes(entries: Entries, changes: Seq<Change>, i: int)
    requires
        0 <= i < changes.len(),
        changes[i] matches Change::Create { target } && ({
            let outcome = create_outcome(after_changes(entries, changes.take(i)), target);
            outcome_code(outcome) matches Some(code) && forall|j: int|
                i < j < changes.len() ==> !overwrites(#[trigger] changes[j], code, target)
        }),
    ensures
        changes[i] matches Change::Create { target } && ({
            let outcome = create_outcome(after_changes(entries, changes.take(i)), target);
            outcome_code(outcome) matches Some(code) && after_changes(entries, changes).dom().contains(
                code,
            ) && after_changes(entries, changes)[code] == target
        }),
{
    let target = changes[i]->target;
    let before = after_changes(entries, changes.take(i));
    let stored = after_create(before, target);
    lemma_created_is_stored(before, target);
    let code = outcome_code(create_outcome(before, target))->0;
    let upto = changes.take(i + 1);
    assert(upto.drop_last() =~= changes.take(i));
    assert(upto.last() == changes[i]);
    assert(after_changes(entries, upto) == stored);
    let rest = changes.skip(i + 1);
    lemma_changes_append(entries, upto, rest);
    assert(upto + rest =~= changes);
    assert forall|j: int| 0 <= j < rest.len() implies !overwrites(#[trigger] rest[j], code, target) by {
        assert(rest[j] == changes[i + 1 + j]);
    }
    lemma_changes_keep_pair(stored, rest, code, target);
}

/// In a run of changes, two write requests for different URLs whose pairs
/// were not replaced by later pushes ended with different codes.
pub proof fn lemma_distinct_urls_distinct_codes(
    entries: Entries,
    changes: Seq<Change>,
    i: int,
    j: int,
)
    requires
        0 <= i < changes.len(),
        0 <= j < changes.len(),
        changes[i] matches Change::Create { target } && ({
            let outcome = create_outcome(after_changes(entries, changes.take(i)), target);
            outcome_code(outcome) matches Some(code) && forall|k: int|
                i < k < changes.len() ==> !overwrites(#[trigger] changes[k], code, target)
        }),
        changes[j] matches Change::Create { target } && ({
            let outcome = create_outcome(after_changes(entries, changes.take(j)), target);
            outcome_code(outcome) matches Some(code) && forall|k: int|
                j < k < changes.len() ==> !overwrites(#[trigger] changes[k], code, target)
        }),
        changes[i]->target != changes[j]->target,
    ensures
        outcome_code(
            create_outcome(after_changes(entries, changes.take(i)), changes[i]->target),
        ) != outcome_code(
            create_outcome(after_changes(entries, changes.take(j)), changes[j]->target),
        ),
{
    lemma_no_lost_writes(entries, changes, i);
    lemma_no_lost_writes(entries, changes, j);
}

/// A replicated pair lasts: once the peer applied a pushed mapping, it keeps
/// serving it through every run of changes in which no later push replaces
/// it.
pub proof fn lemma_replicated_pair_lasts(
    peer: Entries,
    message: UrlMappingView,
    changes: Seq<Change>,
)
    requires
        forall|j: int|
            0 <= j < changes.len() ==> !overwrites(
                #[trigger] changes[j],
                message.code,
                message.target,
            ),
    ensures
        get_reply(after_changes(after_add_url(peer, message), changes), message.code) == (ReplyView {
            status: STATUS_MOVED_PERMANENTLY,
            location: Some(redirect_location(message.target)),
            body: Seq::empty(),
        }),
{
    lemma_changes_keep_pair(after_add_url(peer, message), changes, message.code, message.target);
}

/// A change adds at most one code to a node.
pub proof fn lemma_change_adds_at_most_one(entries: Entries, change: Change)
    requires
        entries.dom().finite(),
    ensures
        after_change(entries, change).dom().finite(),
        after_change(entries, change).len() <= entries.len() + 1,
{
}

/// A run of changes adds at most one code per change.
pub proof fn lemma_changes_add_at_most_one_each(entries: Entries, changes: Seq<Change>)
    requires
        entries.dom().finite(),
    ensures
        after_changes(entries, changes).dom().finite(),
        after_changes(entries, changes).len() <= entries.len() + changes.len(),
    decreases changes.len(),
{
    if changes.len() > 0 {
        lemma_changes_add_at_most_one_each(entries, changes.drop_last());
        lemma_change_adds_at_most_one(after_changes(entries, changes.drop_last()), changes.last());
    }
}

/// All succeed: in a run of changes that leaves the node with at most
/// `MAX_RETRIES + 1` codes even if every change adds one, no write request
/// runs out of candidates.
pub proof fn lemma_short_run_all_succeed(entries: Entries, changes: Seq<Change>, i: int)
    requires
        entries.dom().finite(),
        entries.len() + changes.len() <= MAX_RETRIES + 1,
        0 <= i < changes.len(),
        changes[i] is Create,
    ensures
        create_outcome(after_changes(entries, changes.take(i)), changes[i]->target) !is Exhausted,
{
    lemma_changes_add_at_most_one_each(entries, changes.take(i));
    lemma_room_for_one_more(after_changes(entries, changes.take(i)), changes[i]->target);
}

} // verus!
