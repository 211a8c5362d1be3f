//! The write path and the read path of a node: claiming a code for a URL
//! with bounded collision handling, and resolving a code.

use crate::codegen::{assign, code_of, normalize, normalized, scheme};
use crate::model::{Entries, UrlMapping};
use crate::replication::ReplicationError;
use crate::store::{InsertResult, MappingStore};
use vstd::prelude::*;
use vstd::string::*;

verus! {

/// How many further candidates are tried after the initial code collided.
pub const MAX_RETRIES: usize = 16;

/// The candidate code of the given attempt: the initial code followed by one
/// `X` for every earlier collision.
pub open spec fn candidate(code: Seq<char>, attempt: nat) -> Seq<char> {
    code + Seq::new(attempt, |i: int| 'X')
}

/// Whether `code` is held by a URL other than `target`.
pub open spec fn taken_by_other(entries: Entries, code: Seq<char>, target: Seq<char>) -> bool {
    entries.dom().contains(code) && entries[code] != target
}

/// The first attempt, from `from` up to the retry bound, whose candidate is
/// free or already holds `target`.
pub open spec fn first_slot(entries: Entries, code: Seq<char>, target: Seq<char>, from: nat) -> Option<
    nat,
>
    decreases MAX_RETRIES + 1 - from,
{
    if from > MAX_RETRIES {
        None
    } else if !taken_by_other(entries, candidate(code, from), target) {
        Some(from)
    } else {
        first_slot(entries, code, target, from + 1)
    }
}

/// Candidates of different attempts differ, since they differ in length.
pub proof fn lemma_candidates_differ(code: Seq<char>, i: nat, j: nat)
    requires
        i != j,
    ensures
        candidate(code, i) != candidate(code, j),
{
    assert(candidate(code, i).len() == code.len() + i);
    assert(candidate(code, j).len() == code.len() + j);
}

/// What the search for a slot found: the attempt it names is within the
/// bound, its candidate is usable, and every earlier candidate is held by
/// another URL. Where it names none, every candidate up to the bound is held
/// by another URL.
pub proof fn lemma_first_slot_found(entries: Entries, code: Seq<char>, target: Seq<char>, from: nat)
    ensures
        match first_slot(entries, code, target, from) {
            Some(attempt) => from <= attempt <= MAX_RETRIES && !taken_by_other(
                entries,
                candidate(code, attempt),
                target,
            ) && forall|i: nat|
                from <= i < attempt ==> taken_by_other(entries, #[trigger] candidate(code, i), target),
            None => forall|i: nat|
                from <= i <= MAX_RETRIES ==> taken_by_other(
                    entries,
                    #[trigger] candidate(code, i),
                    target,
                ),
        },
    decreases MAX_RETRIES + 1 - from,
{
    if from <= MAX_RETRIES && taken_by_other(entries, candidate(code, from), target) {
        lemma_first_slot_found(entries, code, target, from + 1);
    }
}

/// The search finds the attempt whose candidate is usable while all earlier
/// ones are held by other URLs.
pub proof fn lemma_first_slot_is(
    entries: Entries,
    code: Seq<char>,
    target: Seq<char>,
    from: nat,
    attempt: nat,
)
    requires
        from <= attempt <= MAX_RETRIES,
        !taken_by_other(entries, candidate(code, attempt), target),
        forall|i: nat|
            from <= i < attempt ==> taken_by_other(entries, #[trigger] candidate(code, i), target),
    ensures
        first_slot(entries, code, target, from) == Some(attempt),
    decreases attempt - from,
{
    if from < attempt {
        lemma_first_slot_is(entries, code, target, from + 1, attempt);
    }
}

/// The candidates of the attempts below `attempts`.
pub open spec fn candidates(code: Seq<char>, attempts: nat) -> Set<Seq<char>>
    decreases attempts,
{
    if attempts == 0 {
        Set::empty()
    } else {
        candidates(code, (attempts - 1) as nat).insert(candidate(code, (attempts - 1) as nat))
    }
}

/// There are as many candidates as attempts, and each is shorter than the
/// candidate of the next attempt.
pub proof fn lemma_candidates_count(code: Seq<char>, attempts: nat)
    ensures
        candidates(code, attempts).finite(),
        candidates(code, attempts).len() == attempts,
        forall|text: Seq<char>| #[trigger]
            candidates(code, attempts).contains(text) ==> text.len() < code.len() + attempts,
        forall|i: nat| i < attempts ==> candidates(code, attempts).contains(#[trigger] candidate(code, i)),
    decreases attempts,
{
    if attempts > 0 {
        lemma_candidates_count(code, (attempts - 1) as nat);
        assert(candidate(code, (attempts - 1) as nat).len() == code.len() + attempts - 1);
    }
}

/// Every member of the candidates is the candidate of an attempt.
pub proof fn lemma_candidates_member(code: Seq<char>, attempts: nat, text: Seq<char>)
    requires
        candidates(code, attempts).contains(text),
    ensures
        exists|i: nat| i < attempts && text == #[trigger] candidate(code, i),
    decreases attempts,
{
    if attempts > 0 {
        if text != candidate(code, (attempts - 1) as nat) {
            lemma_candidates_member(code, (attempts - 1) as nat, text);
        }
    }
}

/// A creation runs out of candidates only on a node that holds more than
/// `MAX_RETRIES` codes: with fewer, one of the candidates is free.
pub proof fn lemma_room_for_one_more(entries: Entries, target: Seq<char>)
    requires
        entries.dom().finite(),
        entries.len() <= MAX_RETRIES,
    ensures
        create_outcome(entries, target) !is Exhausted,
{
    let code = code_of(target);
    if first_slot(entries, code, target, 0) is None {
        let all = candidates(code, (MAX_RETRIES + 1) as nat);
        lemma_first_slot_found(entries, code, target, 0);
        lemma_candidates_count(code, (MAX_RETRIES + 1) as nat);
        assert forall|text: Seq<char>| all.contains(text) implies entries.dom().contains(text) by {
            lemma_candidates_member(code, (MAX_RETRIES + 1) as nat, text);
        }
        vstd::set_lib::lemma_len_subset(all, entries.dom());
    }
}

/// What creating a mapping for a normalized URL amounts to.
pub enum CreateOutcome {
    /// The URL was stored under `code` for the first time.
    Fresh { code: Seq<char> },
    /// The URL was already stored under `code`.
    Existing { code: Seq<char> },
    /// Every candidate within the retry bound is held by another URL.
    Exhausted,
}

/// The outcome of creating a mapping for the normalized URL `target` on a
/// node that holds `entries`.
pub open spec fn create_outcome(entries: Entries, target: Seq<char>) -> CreateOutcome {
    match first_slot(entries, code_of(target), target, 0) {
        None => CreateOutcome::Exhausted,
        Some(attempt) => {
            let code = candidate(code_of(target), attempt);
            if entries.dom().contains(code) {
                CreateOutcome::Existing { code }
            } else {
                CreateOutcome::Fresh { code }
            }
        },
    }
}

/// The mapping of a node after creating a mapping for `target`: it grows by
/// one pair on a fresh creation and is unchanged otherwise.
pub open spec fn after_create(entries: Entries, target: Seq<char>) -> Entries {
    match create_outcome(entries, target) {
        CreateOutcome::Fresh { code } => entries.insert(code, target),
        _ => entries,
    }
}

/// A mapping that a write request ended with.
#[derive(Clone, Debug, PartialEq, Eq)]
pub enum Creation {
    /// Stored now for the first time; it still has to reach the peer.
    Fresh(UrlMapping),
    /// Stored before with the same content; nothing is replicated again.
    Existing(UrlMapping),
}

/// Why a write request failed.
#[derive(Clone, Copy, Debug, PartialEq, Eq, Structural)]
pub enum WriteError {
    /// The request carried no usable URL.
    InputError,
    /// No free code was found within the retry bound.
    CollisionExhausted,
    /// The mapping was stored, but the push to the peer failed for the
    /// given reason.
    ReplicationError(ReplicationError),
}

/// Whether `result` tells what `outcome` tells of the URL `target`.
pub open spec fn reports(
    result: Result<Creation, WriteError>,
    outcome: CreateOutcome,
    target: Seq<char>,
) -> bool {
    match result {
        Ok(Creation::Fresh(mapping)) => outcome == (CreateOutcome::Fresh { code: mapping.code@ })
            && mapping.target@ == target,
        Ok(Creation::Existing(mapping)) => outcome == (CreateOutcome::Existing {
            code: mapping.code@,
        }) && mapping.target@ == target,
        Err(error) => outcome is Exhausted && error == WriteError::CollisionExhausted,
    }
}

/// Stores `url` under a short code. The URL is normalized, its initial code
/// is tried first, and each collision with another URL moves on to the next
/// candidate until the retry bound is reached. On a node that holds at most
/// `MAX_RETRIES` codes this always succeeds.
pub fn create(store: &mut MappingStore, url: &str) -> (result: Result<Creation, WriteError>)
    ensures
        reports(result, create_outcome(old(store)@, normalized(url@)), normalized(url@)),
        final(store)@ == after_create(old(store)@, normalized(url@)),
        old(store)@.len() <= MAX_RETRIES ==> result is Ok,
        old(store)@.dom().finite(),
        final(store)@.dom().finite(),
{
    let target = normalize(url);
    let mut code = assign(target.as_str());
    let ghost before = store@;
    let ghost base = code@;
    let mut attempt: usize = 0;
    assert(code@ =~= candidate(base, 0));
    loop
        invariant
            attempt <= MAX_RETRIES,
            store@ == before,
            before == old(store)@,
            target@ == normalized(url@),
            base == code_of(target@),
            code@ == candidate(base, attempt as nat),
            first_slot(before, base, target@, attempt as nat) == first_slot(
                before,
                base,
                target@,
                0,
            ),
        decreases MAX_RETRIES - attempt,
    {
        match store.try_insert(code.as_str(), target.as_str()) {
            InsertResult::Inserted => {
                return Ok(Creation::Fresh(UrlMapping { code, target }));
            },
            InsertResult::AlreadyPresentSame => {
                return Ok(Creation::Existing(UrlMapping { code, target }));
            },
            InsertResult::AlreadyPresentDifferent => {
                if attempt == MAX_RETRIES {
                    proof {
                        assert(first_slot(before, base, target@, (attempt + 1) as nat) is None);
                        if before.len() <= MAX_RETRIES {
                            lemma_room_for_one_more(before, target@);
                        }
                    }
                    return Err(WriteError::CollisionExhausted);
                }
                proof {
                    reveal_strlit("X");
                    assert(candidate(base, attempt as nat) + "X"@ =~= candidate(
                        base,
                        (attempt + 1) as nat,
                    ));
                }
                code.append("X");
                attempt += 1;
            },
        }
    }
}

/// Where a read request leads.
#[derive(Clone, Debug, PartialEq, Eq)]
pub enum Resolution {
    /// The code is known; the payload is the location to redirect to.
    Redirect(String),
    /// The store holds no such code.
    NotFound,
}

/// The location a stored URL redirects to: the URL with its scheme put back.
pub open spec fn redirect_location(target: Seq<char>) -> Seq<char> {
    scheme() + target
}

/// Looks `code` up. A known code leads to `http://` followed by the stored
/// URL; any other code is reported as not found. The store is not changed.
pub fn resolve(store: &MappingStore, code: &str) -> (resolution: Resolution)
    ensures
        match resolution {
            Resolution::Redirect(location) => store@.dom().contains(code@) && location@
                == redirect_location(store@[code@]),
            Resolution::NotFound => !store@.dom().contains(code@),
        },
{
    match store.get(code) {
        Some(target) => {
            proof {
                reveal_strlit("http://");
                assert("http://"@ =~= scheme());
            }
            Resolution::Redirect(String::from_str("http://").concat(target.as_str()))
        },
        None => Resolution::NotFound,
    }
}

} // verus!
