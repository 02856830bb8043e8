//! The sandbox cache: one session per validator name for a whole build.

use vstd::prelude::*;
use crate::text::{chars_of, seq_eq};

verus! {

#[derive(Debug)]
struct CacheEntry {
    name: String,
    session: String,
}

/// The sessions that have been started, by validator name. A name is bound
/// once and keeps its session from then on.
#[derive(Debug)]
pub struct SandboxCache {
    entries: Vec<CacheEntry>,
}

spec fn entry_names(entries: Seq<CacheEntry>) -> Seq<Seq<char>> {
    Seq::new(entries.len(), |i: int| entries[i].name@)
}

proof fn lemma_index_of_unique(names: Seq<Seq<char>>, i: int)
    requires
        names.no_duplicates(),
        0 <= i < names.len(),
    ensures
        names.contains(names[i]),
        names.index_of(names[i]) == i,
{
    let j = names.index_of(names[i]);
    assert(names[j] == names[i]);
}

impl SandboxCache {
    #[verifier::type_invariant]
    spec fn distinct(self) -> bool {
        entry_names(self.entries@).no_duplicates()
    }

    /// The session identifier of each validator name that has a sandbox.
    pub closed spec fn view(&self) -> Map<Seq<char>, Seq<char>> {
        Map::new(
            |name: Seq<char>| entry_names(self.entries@).contains(name),
            |name: Seq<char>| self.entries@[entry_names(self.entries@).index_of(name)].session@,
        )
    }

    /// A cache without sessions.
    pub fn new() -> (r: Self)
        ensures
            r@ == Map::<Seq<char>, Seq<char>>::empty(),
    {
        let entries: Vec<CacheEntry> = Vec::new();
        let r = SandboxCache { entries };
        assert(r@ =~= Map::<Seq<char>, Seq<char>>::empty());
        r
    }

    fn position(&self, name: &Vec<char>) -> (r: Option<usize>)
        ensures
            match r {
                Some(i) => i < self.entries.len() && self@.contains_key(name@) && self@[name@]
                    == self.entries@[i as int].session@,
                None => !self@.contains_key(name@),
            },
    {
        proof {
            use_type_invariant(self);
        }
        let ghost names = entry_names(self.entries@);
        let mut i: usize = 0;
        while i < self.entries.len()
            invariant
                i <= self.entries.len(),
                names == entry_names(self.entries@),
                names.no_duplicates(),
                forall|k: int| 0 <= k < i ==> names[k] != name@,
            decreases self.entries.len() - i,
        {
            let entry_name = chars_of(self.entries[i].name.as_str());
            if seq_eq(&entry_name, name) {
                proof {
                    lemma_index_of_unique(names, i as int);
                }
                return Some(i);
            }
            i += 1;
        }
        None
    }

    /// The session of the validator called `name`, if its sandbox has been
    /// started.
    pub fn get(&self, name: &str) -> (r: Option<String>)
        ensures
            match r {
                Some(session) => self@.contains_key(name@) && self@[name@] == session@,
                None => !self@.contains_key(name@),
            },
    {
        match self.position(&chars_of(name)) {
            Some(i) => Some(self.entries[i].session.clone()),
            None => None,
        }
    }

    /// Binds `name` to `session` unless it is bound already: a name keeps the
    /// session it was first given.
    pub fn remember(&mut self, name: &str, session: &str)
        ensures
            final(self)@ == if old(self)@.contains_key(name@) {
                old(self)@
            } else {
                old(self)@.insert(name@, session@)
            },
    {
        proof {
            use_type_invariant(&*self);
        }
        let ghost before = entry_names(self.entries@);
        match self.position(&chars_of(name)) {
            Some(_) => {},
            None => {
                let mut entries: Vec<CacheEntry> = Vec::new();
                std::mem::swap(&mut entries, &mut self.entries);
                let ghost old_entries = entries@;
                entries.push(CacheEntry { name: name.to_owned(), session: session.to_owned() });
                let ghost after = entry_names(entries@);
                proof {
                    assert(after =~= before.push(name@));
                    let n = before.len() as int;
                    assert forall|k: Seq<char>| before.contains(k) implies after.contains(k)
                        && after.index_of(k) == before.index_of(k) by {
                        let j = before.index_of(k);
                        assert(after[j] == k);
                        lemma_index_of_unique(after, j);
                    }
                    assert forall|k: Seq<char>| k != name@ && after.contains(k)
                        implies before.contains(k) by {
                        let j = after.index_of(k);
                        assert(before[j] == k);
                    }
                    lemma_index_of_unique(after, n);
                }
                self.entries = entries;
                proof {
                    assert(final(self)@ =~= old(self)@.insert(name@, session@));
                }
            },
        }
    }

    /// The number of sandboxes that have been started.
    pub fn len(&self) -> (r: usize)
        ensures
            r == self@.dom().len(),
            self@.dom().finite(),
    {
        proof {
            use_type_invariant(self);
            lemma_dom_len(self.entries@);
            assert(self@.dom() =~= entry_names(self.entries@).to_set());
        }
        self.entries.len()
    }
}

proof fn lemma_dom_len(entries: Seq<CacheEntry>)
    requires
        entry_names(entries).no_duplicates(),
    ensures
        entry_names(entries).to_set().finite(),
        entry_names(entries).to_set().len() == entries.len(),
{
    entry_names(entries).unique_seq_to_set();
}

} // verus!
