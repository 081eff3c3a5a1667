//! The table of usernames and stored password hashes.

use vstd::hash_map::StringHashMap;
use vstd::prelude::*;

verus! {

/// One username with the stored hash of its password.
#[derive(Debug, Clone, PartialEq, Eq)]
pub struct CredentialEntry {
    pub username: String,
    pub stored_hash: String,
}

impl View for CredentialEntry {
    type V = (Seq<char>, Seq<char>);

    open spec fn view(&self) -> (Seq<char>, Seq<char>) {
        (self.username@, self.stored_hash@)
    }
}

/// Usernames mapped to stored password hashes. A store is filled while the
/// credentials are loaded and only read afterwards: nothing outside this
/// crate can change one.
pub struct CredentialStore {
    entries: StringHashMap<String>,
}

impl View for CredentialStore {
    type V = Map<Seq<char>, Seq<char>>;

    closed spec fn view(&self) -> Map<Seq<char>, Seq<char>> {
        self.entries@.map_values(|stored_hash: String| stored_hash@)
    }
}

impl CredentialStore {
    /// A store holds finitely many entries.
    #[verifier::type_invariant]
    spec fn finite(self) -> bool {
        self.entries@.dom().finite()
    }

    /// A store without entries.
    pub fn new() -> (store: CredentialStore)
        ensures
            store@ == Map::<Seq<char>, Seq<char>>::empty(),
    {
        let store = CredentialStore { entries: StringHashMap::new() };
        assert(store@ =~= Map::<Seq<char>, Seq<char>>::empty());
        store
    }

    /// The store with `entry` in place of any earlier entry for the same
    /// username.
    pub(crate) fn with_entry(self, entry: CredentialEntry) -> (store: CredentialStore)
        ensures
            store@ == self@.insert(entry.username@, entry.stored_hash@),
    {
        proof {
            use_type_invariant(&self);
        }
        let mut entries = self.entries;
        entries.insert(entry.username, entry.stored_hash);
        let store = CredentialStore { entries };
        assert(store@ =~= self@.insert(entry.username@, entry.stored_hash@));
        store
    }

    /// The stored hash of `username`, which must match exactly: case and
    /// surrounding blanks count.
    pub fn lookup(&self, username: &str) -> (found: Option<&String>)
        ensures
            match found {
                Some(stored_hash) => self@.contains_key(username@) && stored_hash@
                    == self@[username@],
                None => !self@.contains_key(username@),
            },
    {
        self.entries.get(username)
    }

    /// Number of usernames in the store.
    pub fn len(&self) -> (n: usize)
        ensures
            n == self@.len(),
            self@.dom().finite(),
    {
        broadcast use vstd::hash_map::group_hash_map_axioms;

        proof {
            use_type_invariant(self);
            assert(self@.dom() =~= self.entries@.dom());
        }
        self.entries.len()
    }

    /// True when the store has no entry.
    pub fn is_empty(&self) -> (empty: bool)
        ensures
            empty <==> self@ == Map::<Seq<char>, Seq<char>>::empty(),
    {
        let empty = self.entries.is_empty();
        proof {
            if empty {
                assert(self@ =~= Map::<Seq<char>, Seq<char>>::empty());
            } else {
                assert(self.entries@.dom() =~= self@.dom());
            }
        }
        empty
    }
}

} // verus!
