//! Versioned schema migrations: the migration records an embedding
//! application registers, the pending sets keyed by database identifier, and
//! the resolution of a registered list into the ordered batch the engine is
//! asked to apply.
//!
//! A pending set is consumed exactly once: it is removed from the map the
//! moment its identifier is first connected, so a retried load finds nothing
//! left to apply.

use vstd::prelude::*;
use crate::assoc::{
    contains_key, find_key, insert_entry, lemma_insert_entry, lemma_key_index_unique,
    lemma_remove_entry, remove_entry, unique_keys, value_of,
};

verus! {

broadcast use vstd::seq_lib::group_to_multiset_ensures;

/// The direction of a migration script.
#[derive(Debug, Clone, Copy, PartialEq, Eq, Structural)]
pub enum MigrationKind {
    /// A forward migration, applied at startup.
    Up,
    /// A rollback migration, stored but never applied at startup.
    Down,
}

/// The mathematical content of a [`Migration`].
pub struct MigrationModel {
    pub version: int,
    pub description: Seq<char>,
    pub sql: Seq<char>,
    pub kind: MigrationKind,
}

/// A migration definition: an immutable, versioned schema-change script.
#[derive(Debug, Clone, Copy)]
pub struct Migration {
    /// The version number; unique within one database's migration list.
    pub version: i64,
    /// A human-readable description.
    pub description: &'static str,
    /// The SQL body of the script.
    pub sql: &'static str,
    /// The direction of the script.
    pub kind: MigrationKind,
}

impl View for Migration {
    type V = MigrationModel;

    open spec fn view(&self) -> MigrationModel {
        MigrationModel {
            version: self.version as int,
            description: self.description@,
            sql: self.sql@,
            kind: self.kind,
        }
    }
}

/// The mathematical content of a sequence of migrations.
pub open spec fn migration_models(s: Seq<Migration>) -> Seq<MigrationModel> {
    s.map_values(|m: Migration| m@)
}

/// Only the forward migrations of a list, in their original order.
pub open spec fn up_only(s: Seq<MigrationModel>) -> Seq<MigrationModel> {
    s.filter(|m: MigrationModel| m.kind is Up)
}

/// The versions never decrease along the sequence.
pub open spec fn sorted_by_version(s: Seq<MigrationModel>) -> bool {
    forall|i: int, j: int| 0 <= i <= j < s.len() ==> s[i].version <= s[j].version
}

/// The ordered migration list registered for one database identifier.
#[derive(Debug, Clone)]
pub struct MigrationList(pub Vec<Migration>);

impl View for MigrationList {
    type V = Seq<MigrationModel>;

    open spec fn view(&self) -> Seq<MigrationModel> {
        migration_models(self.0@)
    }
}

impl MigrationList {
    /// Resolves the registered list into the batch the engine is asked to
    /// apply: only forward migrations, in ascending version order.
    ///
    /// The result holds exactly the forward migrations of the list, and its
    /// versions never decrease; with the unique versions the data model asks
    /// for, that order is strictly ascending.
    #[verifier::loop_isolation(false)]
    pub fn resolve(self) -> (r: Vec<Migration>)
        ensures
            sorted_by_version(migration_models(r@)),
            migration_models(r@).to_multiset() == up_only(self@).to_multiset(),
    {
        let ghost mm = self@;
        let list = self.0;
        let n = list.len();
        let mut ups: Vec<Migration> = Vec::new();
        let mut i: usize = 0;
        proof {
            reveal(Seq::filter);
            assert(mm.take(0) =~= Seq::<MigrationModel>::empty());
            assert(migration_models(ups@) =~= up_only(mm.take(0)));
        }
        while i < n
            invariant
                0 <= i <= n,
                n == list@.len(),
                mm == migration_models(list@),
                migration_models(ups@) =~= up_only(mm.take(i as int)),
            decreases n - i,
        {
            let m = list[i];
            proof {
                reveal(Seq::filter);
                assert(mm.take(i + 1).drop_last() =~= mm.take(i as int));
                assert(mm.take(i + 1).last() == mm[i as int]);
                assert(mm[i as int] == m@);
            }
            if matches!(m.kind, MigrationKind::Up) {
                ups.push(m);
            }
            proof {
                reveal(Seq::filter);
                assert(migration_models(ups@) =~= up_only(mm.take(i + 1)));
            }
            i = i + 1;
        }
        proof {
            assert(mm.take(n as int) =~= mm);
        }
        // Selection sort by version: repeatedly move a migration of least
        // version over to the result.
        let mut rest = ups;
        let ghost up_ms = migration_models(rest@).to_multiset();
        let mut sorted: Vec<Migration> = Vec::new();
        while rest.len() > 0
            invariant
                migration_models(sorted@).to_multiset().add(
                    migration_models(rest@).to_multiset(),
                ) =~= up_ms,
                sorted_by_version(migration_models(sorted@)),
                forall|a: int, b: int|
                    0 <= a < sorted@.len() && 0 <= b < rest@.len() ==> migration_models(
                        sorted@,
                    )[a].version <= migration_models(rest@)[b].version,
            decreases rest@.len(),
        {
            let mut mi: usize = 0;
            let mut j: usize = 1;
            while j < rest.len()
                invariant
                    0 <= mi < rest@.len(),
                    1 <= j <= rest@.len(),
                    forall|t: int| 0 <= t < j ==> migration_models(rest@)[mi as int].version
                        <= migration_models(rest@)[t].version,
                decreases rest@.len() - j,
            {
                if rest[j].version < rest[mi].version {
                    mi = j;
                }
                j = j + 1;
            }
            let ghost old_rest = rest@;
            let ghost old_sorted = sorted@;
            let v = rest.remove(mi);
            sorted.push(v);
            proof {
                assert(v@ == migration_models(old_rest)[mi as int]);
                assert(migration_models(rest@) =~= migration_models(old_rest).remove(mi as int));
                assert(migration_models(sorted@) =~= migration_models(old_sorted).push(v@));
                assert(migration_models(old_rest).contains(v@));
                assert(migration_models(old_rest).to_multiset().count(v@) > 0);
                assert(migration_models(sorted@).to_multiset().add(
                    migration_models(rest@).to_multiset(),
                ) =~= up_ms);
                assert forall|a: int, b: int|
                    0 <= a < sorted@.len() && 0 <= b < rest@.len() implies migration_models(
                    sorted@,
                )[a].version <= migration_models(rest@)[b].version by {
                    let ob: int = if b < mi { b } else { b + 1 };
                    assert(migration_models(rest@)[b] == migration_models(old_rest)[ob]);
                    if a < old_sorted.len() {
                        assert(migration_models(sorted@)[a] == migration_models(old_sorted)[a]);
                    } else {
                        assert(migration_models(sorted@)[a] == v@);
                    }
                }
            }
        }
        sorted
    }
}

/// The map from database identifier to its registered, not yet applied
/// migration list.
#[derive(Debug)]
pub struct PendingMigrations {
    entries: Vec<(String, MigrationList)>,
}

impl View for PendingMigrations {
    type V = Seq<(Seq<char>, Seq<MigrationModel>)>;

    closed spec fn view(&self) -> Seq<(Seq<char>, Seq<MigrationModel>)> {
        self.entries@.map_values(|e: (String, MigrationList)| (e.0@, e.1@))
    }
}

impl PendingMigrations {
    /// The identifiers are pairwise distinct.
    pub open spec fn wf(&self) -> bool {
        unique_keys(self@)
    }

    /// An empty pending map.
    pub fn new() -> (r: PendingMigrations)
        ensures
            r@ == Seq::<(Seq<char>, Seq<MigrationModel>)>::empty(),
            r.wf(),
    {
        let r = PendingMigrations { entries: Vec::new() };
        proof {
            assert(r@ =~= Seq::<(Seq<char>, Seq<MigrationModel>)>::empty());
        }
        r
    }

    /// How many identifiers still have a pending list.
    pub fn len(&self) -> (r: usize)
        ensures
            r == self@.len(),
    {
        self.entries.len()
    }

    /// Registers (or replaces) the pending list for an identifier. Meaningful
    /// only before that identifier is first connected: after the first
    /// connect the entry has been taken and the map no longer holds it.
    pub fn register(&mut self, db_url: String, list: MigrationList)
        requires
            old(self).wf(),
        ensures
            final(self).wf(),
            final(self)@ == insert_entry(old(self)@, db_url@, list@),
    {
        proof {
            lemma_insert_entry(old(self)@, db_url@, list@);
        }
        match find_key(&self.entries, db_url.as_str()) {
            Some(i) => {
                let ghost old_view = self@;
                proof {
                    assert(old_view[i as int].0 == db_url@);
                    lemma_key_index_unique(old_view, db_url@, i as int);
                }
                let _replaced = self.entries.remove(i);
                self.entries.insert(i, (db_url, list));
                proof {
                    assert(self@ =~= old_view.update(i as int, (db_url@, list@)));
                }
            },
            None => {
                let ghost old_view = self@;
                proof {
                    assert forall|j: int| 0 <= j < old_view.len() implies old_view[j].0
                        != db_url@ by {
                        assert(old_view[j].0 == old(self).entries@[j].0@);
                    }
                    assert(!contains_key(old_view, db_url@));
                }
                self.entries.push((db_url, list));
                proof {
                    assert(self@ =~= old_view.push((db_url@, list@)));
                }
            },
        }
    }

    /// Atomically removes and returns the pending list for an identifier.
    /// Whatever was registered before, the identifier has no pending list
    /// afterwards: the set is consumed at most once.
    pub fn take(&mut self, db_url: &str) -> (r: Option<MigrationList>)
        requires
            old(self).wf(),
        ensures
            final(self).wf(),
            contains_key(old(self)@, db_url@) ==> (r matches Some(l) && l@ == value_of(
                old(self)@,
                db_url@,
            ) && final(self)@ == remove_entry(old(self)@, db_url@)),
            !contains_key(old(self)@, db_url@) ==> r is None && final(self)@ == old(self)@,
            !contains_key(final(self)@, db_url@),
    {
        proof {
            lemma_remove_entry(old(self)@, db_url@);
        }
        match find_key(&self.entries, db_url) {
            Some(i) => {
                let ghost old_view = self@;
                proof {
                    assert(old_view[i as int].0 == db_url@);
                    lemma_key_index_unique(old_view, db_url@, i as int);
                }
                let (_name, list) = self.entries.remove(i);
                proof {
                    assert(self@ =~= old_view.remove(i as int));
                    assert(list@ == old_view[i as int].1);
                }
                Some(list)
            },
            None => {
                proof {
                    assert forall|j: int| 0 <= j < self@.len() implies self@[j].0 != db_url@ by {
                        assert(self@[j].0 == self.entries@[j].0@);
                    }
                    assert(!contains_key(self@, db_url@));
                }
                None
            },
        }
    }
}

/// Gathers the migration lists an embedding application registers before the
/// bridge starts accepting connections.
#[derive(Debug)]
pub struct Builder {
    migrations: Option<PendingMigrations>,
}

impl Builder {
    /// The pending map gathered so far; empty while nothing was registered.
    pub closed spec fn pending(&self) -> Seq<(Seq<char>, Seq<MigrationModel>)> {
        match self.migrations {
            Some(p) => p@,
            None => Seq::empty(),
        }
    }

    /// The gathered map's identifiers are pairwise distinct.
    pub closed spec fn wf(&self) -> bool {
        match self.migrations {
            Some(p) => p.wf(),
            None => true,
        }
    }

    /// Registers (or replaces) the migration list for one database
    /// identifier.
    #[must_use]
    pub fn add_migrations(self, db_url: &str, migrations: Vec<Migration>) -> (r: Builder)
        requires
            self.wf(),
        ensures
            r.wf(),
            r.pending() == insert_entry(
                self.pending(),
                db_url@,
                migration_models(migrations@),
            ),
    {
        let mut p = match self.migrations {
            Some(p) => p,
            None => PendingMigrations::new(),
        };
        p.register(db_url.to_owned(), MigrationList(migrations));
        Builder { migrations: Some(p) }
    }

    /// Hands the gathered pending map over to the running bridge, consuming
    /// the builder.
    pub fn into_pending(self) -> (r: PendingMigrations)
        requires
            self.wf(),
        ensures
            r.wf(),
            r@ == self.pending(),
    {
        match self.migrations {
            Some(p) => p,
            None => PendingMigrations::new(),
        }
    }
}

impl Default for Builder {
    /// A builder with nothing registered.
    fn default() -> (r: Builder)
        ensures
            r.wf(),
            r.pending() == Seq::<(Seq<char>, Seq<MigrationModel>)>::empty(),
    {
        Builder { migrations: None }
    }
}

/// The one-shot law of the pending map: once an identifier's list was taken,
/// the map no longer holds it, so a second take of the same identifier finds
/// nothing and applies nothing again.
pub proof fn lemma_take_is_one_shot(m: Seq<(Seq<char>, Seq<MigrationModel>)>, k: Seq<char>)
    requires
        unique_keys(m),
    ensures
        !contains_key(remove_entry(m, k), k),
        remove_entry(remove_entry(m, k), k) == remove_entry(m, k),
{
    lemma_remove_entry(m, k);
}

} // verus!
