//! The registry of live connection pools: the map from database identifier to
//! the open, ready-to-use pool for it.
//!
//! A pool is an opaque, internally synchronized handle owned by the embedding
//! layer, so the registry is generic over the handle type; this core verifies
//! the map itself. One identifier maps to at most one live pool at a time.
//! Closing an explicitly named database that is not loaded is an error, while
//! closing everything silently drains whatever is present — the two paths are
//! deliberately asymmetric.

use vstd::prelude::*;
use crate::assoc::{
    contains_key, find_key, insert_entry, lemma_insert_entry, lemma_key_index_unique,
    lemma_remove_entry, remove_entry, unique_keys, value_of,
};
use crate::error::Error;

verus! {

/// The map from database identifier to its live connection pool handle.
#[derive(Debug)]
pub struct DbInstances<P> {
    entries: Vec<(String, P)>,
}

impl<P> View for DbInstances<P> {
    type V = Seq<(Seq<char>, P)>;

    closed spec fn view(&self) -> Seq<(Seq<char>, P)> {
        self.entries@.map_values(|e: (String, P)| (e.0@, e.1))
    }
}

impl<P> DbInstances<P> {
    /// The identifiers are pairwise distinct.
    pub open spec fn wf(&self) -> bool {
        unique_keys(self@)
    }

    /// An empty registry.
    pub fn new() -> (r: DbInstances<P>)
        ensures
            r@ == Seq::<(Seq<char>, P)>::empty(),
            r.wf(),
    {
        let r = DbInstances { entries: Vec::new() };
        proof {
            assert(r@ =~= Seq::<(Seq<char>, P)>::empty());
        }
        r
    }

    /// How many databases are loaded.
    pub fn len(&self) -> (r: usize)
        ensures
            r == self@.len(),
    {
        self.entries.len()
    }

    /// Registers the pool for an identifier, replacing any previous one.
    /// Called only after the identifier's pending migrations were applied, so
    /// a pool is never visible to a query caller before its migrations ran.
    pub fn insert(&mut self, db_url: String, pool: P)
        requires
            old(self).wf(),
        ensures
            final(self).wf(),
            final(self)@ == insert_entry(old(self)@, db_url@, pool),
    {
        proof {
            lemma_insert_entry(old(self)@, db_url@, pool);
        }
        match find_key(&self.entries, db_url.as_str()) {
            Some(i) => {
                let ghost old_view = self@;
                proof {
                    assert(old_view[i as int].0 == db_url@);
                    lemma_key_index_unique(old_view, db_url@, i as int);
                }
                let _replaced = self.entries.remove(i);
                self.entries.insert(i, (db_url, pool));
                proof {
                    assert(self@ =~= old_view.update(i as int, (db_url@, pool)));
                }
            },
            None => {
                let ghost old_view = self@;
                proof {
                    assert forall|j: int| 0 <= j < old_view.len() implies old_view[j].0
                        != db_url@ by {
                        assert(old_view[j].0 == old(self).entries@[j].0@);
                    }
                    assert(!contains_key(old_view, db_url@));
                }
                self.entries.push((db_url, pool));
                proof {
                    assert(self@ =~= old_view.push((db_url@, pool)));
                }
            },
        }
    }

    /// The read path of every query call: the pool for an identifier, or
    /// `DatabaseNotLoaded` naming it — exactly when no pool is registered
    /// under it.
    pub fn lookup(&self, db_url: &str) -> (r: Result<&P, Error>)
        requires
            self.wf(),
        ensures
            contains_key(self@, db_url@) ==> (r matches Ok(p) && *p == value_of(self@, db_url@)),
            !contains_key(self@, db_url@) ==> (r matches Err(e)
                && e matches Error::DatabaseNotLoaded(s) && s@ == db_url@),
    {
        match find_key(&self.entries, db_url) {
            Some(i) => {
                proof {
                    assert(self@[i as int].0 == db_url@);
                    lemma_key_index_unique(self@, db_url@, i as int);
                }
                Ok(&self.entries[i].1)
            },
            None => {
                proof {
                    assert forall|j: int| 0 <= j < self@.len() implies self@[j].0 != db_url@ by {
                        assert(self@[j].0 == self.entries@[j].0@);
                    }
                    assert(!contains_key(self@, db_url@));
                }
                Err(Error::DatabaseNotLoaded(db_url.to_owned()))
            },
        }
    }

    /// Unregisters an identifier and hands its pool back for shutdown, or
    /// reports `DatabaseNotLoaded` — exactly when no pool is registered under
    /// it — leaving the registry unchanged.
    pub fn remove(&mut self, db_url: &str) -> (r: Result<P, Error>)
        requires
            old(self).wf(),
        ensures
            final(self).wf(),
            contains_key(old(self)@, db_url@) ==> (r matches Ok(p) && p == value_of(
                old(self)@,
                db_url@,
            ) && final(self)@ == remove_entry(old(self)@, db_url@)),
            !contains_key(old(self)@, db_url@) ==> (r matches Err(e)
                && e matches Error::DatabaseNotLoaded(s) && s@ == db_url@ && final(self)@ == old(
                self,
            )@),
            !contains_key(final(self)@, db_url@),
    {
        proof {
            lemma_remove_entry(old(self)@, db_url@);
        }
        match find_key(&self.entries, db_url) {
            Some(i) => {
                let ghost old_view = self@;
                proof {
                    assert(old_view[i as int].0 == db_url@);
                    lemma_key_index_unique(old_view, db_url@, i as int);
                }
                let (_name, pool) = self.entries.remove(i);
                proof {
                    assert(self@ =~= old_view.remove(i as int));
                    assert(pool == old_view[i as int].1);
                }
                Ok(pool)
            },
            None => {
                proof {
                    assert forall|j: int| 0 <= j < self@.len() implies self@[j].0 != db_url@ by {
                        assert(self@[j].0 == self.entries@[j].0@);
                    }
                    assert(!contains_key(self@, db_url@));
                }
                Err(Error::DatabaseNotLoaded(db_url.to_owned()))
            },
        }
    }

    /// Drains the whole registry for shutdown: every pool is handed back, in
    /// registration order, and nothing stays loaded. Absent identifiers are
    /// no error here — closing everything closes whatever is present.
    pub fn remove_all(&mut self) -> (r: Vec<(String, P)>)
        requires
            old(self).wf(),
        ensures
            final(self)@ == Seq::<(Seq<char>, P)>::empty(),
            final(self).wf(),
            r@.len() == old(self)@.len(),
            forall|i: int| 0 <= i < r@.len() ==> (#[trigger] r@[i].0@, r@[i].1) == old(self)@[i],
    {
        let mut out: Vec<(String, P)> = Vec::new();
        core::mem::swap(&mut self.entries, &mut out);
        proof {
            assert(self@ =~= Seq::<(Seq<char>, P)>::empty());
        }
        out
    }
}

/// The close-all law: once every pool was drained the registry is empty, so a
/// later lookup of any identifier at all reports it as not loaded.
pub proof fn lemma_drained_registry_has_nothing<P>(db_url: Seq<char>)
    ensures
        !contains_key(Seq::<(Seq<char>, P)>::empty(), db_url),
{
}

} // verus!
