//! The store of one node: a map from short code to normalized URL.

use crate::model::Entries;
use vstd::hash_map::StringHashMap;
use vstd::prelude::*;
use vstd::string::*;

verus! {

/// What an attempt to claim a code for a URL found.
#[derive(Clone, Copy, Debug, PartialEq, Eq, Structural)]
pub enum InsertResult {
    /// The code was free and now maps to the URL.
    Inserted,
    /// The code already mapped to this very URL; nothing changed.
    AlreadyPresentSame,
    /// The code maps to another URL, which was left in place.
    AlreadyPresentDifferent,
}

/// The outcome of claiming `code` for `target` in the mapping `entries`.
pub open spec fn insert_result(entries: Entries, code: Seq<char>, target: Seq<char>) -> InsertResult {
    if !entries.dom().contains(code) {
        InsertResult::Inserted
    } else if entries[code] == target {
        InsertResult::AlreadyPresentSame
    } else {
        InsertResult::AlreadyPresentDifferent
    }
}

/// The mapping after `code` was claimed for `target`: extended by the pair
/// where the code was free, unchanged otherwise.
pub open spec fn after_try_insert(entries: Entries, code: Seq<char>, target: Seq<char>) -> Entries {
    if entries.dom().contains(code) {
        entries
    } else {
        entries.insert(code, target)
    }
}

/// The code-to-URL mapping of one node. Its view is the mathematical map from
/// code to normalized URL, so a code determines at most one URL. The map is
/// always finite; the operations that change a store say so of the store
/// before and after.
pub struct MappingStore {
    entries: StringHashMap<String>,
}

impl View for MappingStore {
    type V = Entries;

    closed spec fn view(&self) -> Entries {
        self.entries@.map_values(|target: String| target@)
    }
}

impl MappingStore {
    #[verifier::type_invariant]
    spec fn finite(&self) -> bool {
        self.entries@.dom().finite()
    }

    /// An empty store.
    pub fn new() -> (store: MappingStore)
        ensures
            store@ == Entries::empty(),
            store@.dom().finite(),
    {
        let store = MappingStore { entries: StringHashMap::new() };
        assert(store@ =~= Entries::empty());
        store
    }

    /// How many codes the store holds.
    pub fn len(&self) -> (count: usize)
        ensures
            count == self@.len(),
            self@.dom().finite(),
    {
        broadcast use vstd::hash_map::group_hash_map_axioms;

        proof {
            use_type_invariant(self);
        }
        assert(self@.dom() =~= self.entries@.dom());
        self.entries.len()
    }

    /// Whether the store holds no code at all.
    pub fn is_empty(&self) -> (empty: bool)
        ensures
            empty == self@.is_empty(),
    {
        assert(self@.dom() =~= self.entries@.dom());
        self.entries.is_empty()
    }

    /// Whether the store holds `code`.
    pub fn contains(&self, code: &str) -> (held: bool)
        ensures
            held == self@.dom().contains(code@),
    {
        self.entries.contains_key(code)
    }

    /// The URL that `code` maps to, if the store holds the code.
    pub fn get(&self, code: &str) -> (found: Option<String>)
        ensures
            found is Some <==> self@.dom().contains(code@),
            found matches Some(target) ==> target@ == self@[code@],
    {
        match self.entries.get(code) {
            Some(target) => Some(target.clone()),
            None => None,
        }
    }

    /// Claims `code` for `target` unless the code is taken: an existing
    /// mapping is never overwritten.
    pub fn try_insert(&mut self, code: &str, target: &str) -> (result: InsertResult)
        ensures
            result == insert_result(old(self)@, code@, target@),
            final(self)@ == after_try_insert(old(self)@, code@, target@),
            old(self)@.dom().finite(),
            final(self)@.dom().finite(),
    {
        proof {
            use_type_invariant(&*self);
            assert(self@.dom() =~= self.entries@.dom());
        }
        let wanted = String::from_str(target);
        match self.entries.get(code) {
            Some(current) => {
                if *current == wanted {
                    InsertResult::AlreadyPresentSame
                } else {
                    InsertResult::AlreadyPresentDifferent
                }
            },
            None => {
                self.put(String::from_str(code), wanted);
                InsertResult::Inserted
            },
        }
    }

    /// Maps `code` to `target` whatever the store held for the code before.
    pub fn force_insert(&mut self, code: &str, target: &str)
        ensures
            final(self)@ == old(self)@.insert(code@, target@),
            old(self)@.dom().finite(),
            final(self)@.dom().finite(),
    {
        self.put(String::from_str(code), String::from_str(target));
    }

    fn put(&mut self, code: String, target: String)
        ensures
            final(self)@ == old(self)@.insert(code@, target@),
            old(self)@.dom().finite(),
            final(self)@.dom().finite(),
    {
        proof {
            use_type_invariant(&*self);
            assert(self@.dom() =~= self.entries@.dom());
        }
        // The map is taken out while it changes, so that the store is whole
        // at every call.
        let mut entries = StringHashMap::new();
        std::mem::swap(&mut self.entries, &mut entries);
        entries.insert(code, target);
        std::mem::swap(&mut self.entries, &mut entries);
        assert(self@ =~= old(self)@.insert(code@, target@));
    }
}

} // verus!
