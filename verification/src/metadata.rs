//! The ledger: which version of each tool is installed, and the run lock.
//! It is loaded at the start of a run, changed in memory, and written back
//! once at the end.

use crate::assoc::{
    find_key, keys_distinct, lemma_find_key, lemma_upsert, lemma_without_key, to_map, upsert,
    without_key, Entries,
};
use crate::text::same_text;
use vstd::prelude::*;

verus! {

/// The entries of a version list, each name and version by its view.
pub open spec fn version_entries(list: Seq<(String, String)>) -> Entries<Seq<char>> {
    list.map_values(|e: (String, String)| (e.0@, e.1@))
}

/// The persisted ledger.
#[derive(Debug)]
pub struct Metadata {
    versions: Vec<(String, String)>,
    is_locked: bool,
}

/// Mathematical value of a [`Metadata`]: the installed version of each tool
/// that has one, and the lock.
pub struct LedgerView {
    pub versions: Map<Seq<char>, Seq<char>>,
    pub is_locked: bool,
}

impl View for Metadata {
    type V = LedgerView;

    closed spec fn view(&self) -> LedgerView {
        LedgerView {
            versions: to_map(version_entries(self.versions@)),
            is_locked: self.is_locked,
        }
    }
}

/// Index of the entry of `list` that is stored under `name`.
fn position(list: &Vec<(String, String)>, name: &str) -> (at: Option<usize>)
    ensures
        match at {
            Some(i) => find_key(version_entries(list@), name@) == Some(i as int) && i < list@.len(),
            None => find_key(version_entries(list@), name@) is None,
        },
{
    let ghost entries = version_entries(list@);
    let mut i: usize = 0;
    while i < list.len()
        invariant
            i <= list.len(),
            entries == version_entries(list@),
            forall|j: int| 0 <= j < i ==> (#[trigger] entries[j]).0 != name@,
        decreases list.len() - i,
    {
        if same_text(list[i].0.as_str(), name) {
            proof {
                assert(entries[i as int].0 == name@);
                lemma_find_key(entries, name@);
            }
            return Some(i);
        }
        i = i + 1;
    }
    proof {
        lemma_find_key(entries, name@);
    }
    None
}

impl Metadata {
    #[verifier::type_invariant]
    spec fn names_unique(self) -> bool {
        keys_distinct(version_entries(self.versions@))
    }

    /// The ledger of a fresh installation: nothing installed, not locked.
    /// A missing ledger file stands for this value.
    pub fn new() -> (ledger: Self)
        ensures
            ledger@.versions == Map::<Seq<char>, Seq<char>>::empty(),
            !ledger@.is_locked,
    {
        let ledger = Metadata { versions: Vec::new(), is_locked: false };
        assert(version_entries(ledger.versions@) =~= Seq::empty());
        assert(to_map(version_entries(ledger.versions@)) =~= Map::empty());
        ledger
    }

    /// Whether the ledger freezes the installer.
    pub fn is_locked(&self) -> (locked: bool)
        ensures
            locked == self@.is_locked,
    {
        self.is_locked
    }

    /// The installed version of `name`, if the ledger records one.
    pub fn version_of(&self, name: &str) -> (version: Option<&String>)
        ensures
            match version {
                Some(v) => self@.versions.contains_key(name@) && self@.versions[name@] == v@,
                None => !self@.versions.contains_key(name@),
            },
    {
        match position(&self.versions, name) {
            Some(i) => Some(&self.versions[i].1),
            None => None,
        }
    }

    /// Number of tools with a recorded version.
    pub fn len(&self) -> (n: usize)
        ensures
            n == self@.versions.dom().len(),
            self@.versions.dom().finite(),
    {
        proof {
            use_type_invariant(self);
            lemma_dom_len(version_entries(self.versions@));
        }
        self.versions.len()
    }

    /// Every record of the ledger, each tool once with its version, in no
    /// particular order.
    pub fn entries(&self) -> (list: Vec<(String, String)>)
        ensures
            keys_distinct(version_entries(list@)),
            to_map(version_entries(list@)) == self@.versions,
            list@.len() == self@.versions.dom().len(),
    {
        proof {
            use_type_invariant(self);
            lemma_dom_len(version_entries(self.versions@));
        }
        let mut list: Vec<(String, String)> = Vec::new();
        let mut i: usize = 0;
        while i < self.versions.len()
            invariant
                i <= self.versions.len(),
                list@.len() == i,
                forall|j: int|
                    0 <= j < i ==> (#[trigger] list@[j]).0@ == self.versions@[j].0@ && list@[j].1@
                        == self.versions@[j].1@,
            decreases self.versions.len() - i,
        {
            let name = self.versions[i].0.clone();
            let version = self.versions[i].1.clone();
            list.push((name, version));
            i = i + 1;
        }
        assert(version_entries(list@) =~= version_entries(self.versions@));
        list
    }

    /// This ledger with `version` recorded for `name`.
    pub fn with_version(self, name: String, version: String) -> (ledger: Self)
        ensures
            ledger@.versions == self@.versions.insert(name@, version@),
            ledger@.is_locked == self@.is_locked,
    {
        proof {
            use_type_invariant(&self);
        }
        let Metadata { mut versions, is_locked } = self;
        let ghost before = version_entries(versions@);
        proof {
            lemma_upsert(before, name@, version@);
        }
        match position(&versions, name.as_str()) {
            Some(i) => {
                let key = versions[i].0.clone();
                versions.set(i, (key, version));
                assert(version_entries(versions@) =~= upsert(before, name@, version@));
            },
            None => {
                versions.push((name, version));
                assert(version_entries(versions@) =~= upsert(before, name@, version@));
            },
        }
        Metadata { versions, is_locked }
    }

    /// This ledger without a record for `name`.
    pub fn without_tool(self, name: &str) -> (ledger: Self)
        ensures
            ledger@.versions == self@.versions.remove(name@),
            ledger@.is_locked == self@.is_locked,
    {
        proof {
            use_type_invariant(&self);
        }
        let Metadata { mut versions, is_locked } = self;
        let ghost before = version_entries(versions@);
        proof {
            lemma_without_key(before, name@);
        }
        match position(&versions, name) {
            Some(i) => {
                versions.remove(i);
                assert(version_entries(versions@) =~= without_key(before, name@));
            },
            None => {},
        }
        Metadata { versions, is_locked }
    }

    /// This ledger with every record dropped.
    pub fn cleared(self) -> (ledger: Self)
        ensures
            ledger@.versions == Map::<Seq<char>, Seq<char>>::empty(),
            ledger@.is_locked == self@.is_locked,
    {
        let ledger = Metadata { versions: Vec::new(), is_locked: self.is_locked };
        assert(version_entries(ledger.versions@) =~= Seq::empty());
        assert(to_map(version_entries(ledger.versions@)) =~= Map::empty());
        ledger
    }

    /// This ledger with the lock set to `locked`.
    pub fn with_lock(self, locked: bool) -> (ledger: Self)
        ensures
            ledger@.versions == self@.versions,
            ledger@.is_locked == locked,
    {
        proof {
            use_type_invariant(&self);
        }
        let Metadata { versions, is_locked: _ } = self;
        Metadata { versions, is_locked: locked }
    }
}

impl Clone for Metadata {
    fn clone(&self) -> (out: Self)
        ensures
            out@ == self@,
    {
        proof {
            use_type_invariant(self);
        }
        let mut versions: Vec<(String, String)> = Vec::new();
        let mut i: usize = 0;
        while i < self.versions.len()
            invariant
                i <= self.versions.len(),
                versions@.len() == i,
                forall|j: int|
                    0 <= j < i ==> (#[trigger] versions@[j]).0@ == self.versions@[j].0@
                        && versions@[j].1@ == self.versions@[j].1@,
            decreases self.versions.len() - i,
        {
            let name = self.versions[i].0.clone();
            let version = self.versions[i].1.clone();
            versions.push((name, version));
            i = i + 1;
        }
        assert(version_entries(versions@) =~= version_entries(self.versions@));
        Metadata { versions, is_locked: self.is_locked }
    }
}

impl Default for Metadata {
    fn default() -> (ledger: Self)
        ensures
            ledger@.versions == Map::<Seq<char>, Seq<char>>::empty(),
            !ledger@.is_locked,
    {
        Metadata::new()
    }
}

/// A list with distinct keys denotes a map with as many keys as the list has
/// entries.
proof fn lemma_dom_len(s: Entries<Seq<char>>)
    requires
        keys_distinct(s),
    ensures
        to_map(s).dom().finite(),
        to_map(s).dom().len() == s.len(),
    decreases s.len(),
{
    if s.len() == 0 {
        assert(to_map(s).dom() =~= Set::empty());
    } else {
        let rest = s.drop_last();
        let last = s.last();
        assert(keys_distinct(rest)) by {
            assert forall|i: int, j: int| 0 <= i < j < rest.len() implies (#[trigger] rest[i]).0
                != (#[trigger] rest[j]).0 by {
                assert(s[i].0 != s[j].0);
            }
        }
        lemma_dom_len(rest);
        lemma_find_key(rest, last.0);
        assert(find_key(rest, last.0) is None) by {
            if find_key(rest, last.0) is Some {
                let k = find_key(rest, last.0).unwrap();
                assert(s[k].0 != s[s.len() - 1].0);
            }
        }
        lemma_upsert(rest, last.0, last.1);
        assert(upsert(rest, last.0, last.1) =~= s);
        assert(to_map(s).dom() =~= to_map(rest).dom().insert(last.0));
        assert(!to_map(rest).dom().contains(last.0));
    }
}

} // verus!
