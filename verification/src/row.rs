//! Result rows: ordered maps from column name to dynamic value, and the
//! decode path that turns raw engine rows into them.
//!
//! A row preserves the column order the query returned — position matters to
//! positional consumers — while lookup is by name. A single unsupported
//! column type fails the whole fetch; no partial row is ever returned.

use vstd::prelude::*;
use crate::assoc::{
    contains_key, find_key, insert_entry, key_index, lemma_insert_entry, lemma_key_index_unique,
    unique_keys, value_of,
};
use crate::error::Error;
use crate::value::{spec_decode, decode, ColumnModel, ColumnValue, DynValue, ValueModel};

verus! {

/// An ordered mapping from column name to dynamic value.
#[derive(Debug, Clone)]
pub struct Row {
    entries: Vec<(String, DynValue)>,
}

impl View for Row {
    type V = Seq<(Seq<char>, ValueModel)>;

    closed spec fn view(&self) -> Seq<(Seq<char>, ValueModel)> {
        self.entries@.map_values(|e: (String, DynValue)| (e.0@, e.1@))
    }
}

impl Row {
    /// The row's column names are pairwise distinct.
    pub open spec fn wf(&self) -> bool {
        unique_keys(self@)
    }

    /// An empty row.
    pub fn new() -> (r: Row)
        ensures
            r@ == Seq::<(Seq<char>, ValueModel)>::empty(),
            r.wf(),
    {
        let r = Row { entries: Vec::new() };
        proof {
            assert(r@ =~= Seq::<(Seq<char>, ValueModel)>::empty());
        }
        r
    }

    /// How many columns the row has.
    pub fn len(&self) -> (r: usize)
        ensures
            r == self@.len(),
    {
        self.entries.len()
    }

    /// The name and value at a position, in the column order of the query.
    pub fn entry_at(&self, i: usize) -> (r: (&String, &DynValue))
        requires
            i < self@.len(),
        ensures
            r.0@ == self@[i as int].0,
            r.1@ == self@[i as int].1,
    {
        (&self.entries[i].0, &self.entries[i].1)
    }

    /// Inserts a column: a name already present keeps its position and gets
    /// the new value; a new name is appended.
    pub fn insert(&mut self, name: String, value: DynValue)
        requires
            old(self).wf(),
        ensures
            final(self).wf(),
            final(self)@ == insert_entry(old(self)@, name@, value@),
    {
        proof {
            lemma_insert_entry(old(self)@, name@, value@);
        }
        match find_key(&self.entries, name.as_str()) {
            Some(i) => {
                let ghost old_view = self@;
                proof {
                    assert(old_view[i as int].0 == name@);
                    lemma_key_index_unique(old_view, name@, i as int);
                }
                let _replaced = self.entries.remove(i);
                self.entries.insert(i, (name, value));
                proof {
                    assert(self@ =~= old_view.update(i as int, (name@, value@)));
                }
            },
            None => {
                let ghost old_view = self@;
                proof {
                    assert forall|j: int| 0 <= j < old_view.len() implies old_view[j].0
                        != name@ by {
                        assert(old_view[j].0 == old(self).entries@[j].0@);
                    }
                    assert(!contains_key(old_view, name@));
                }
                self.entries.push((name, value));
                proof {
                    assert(self@ =~= old_view.push((name@, value@)));
                }
            },
        }
    }

    /// The value bound to a column name, if the row has that column.
    pub fn get(&self, name: &str) -> (r: Option<&DynValue>)
        requires
            self.wf(),
        ensures
            contains_key(self@, name@) ==> (r matches Some(v) && v@ == value_of(self@, name@)),
            !contains_key(self@, name@) ==> r is None,
    {
        match find_key(&self.entries, name) {
            Some(i) => {
                proof {
                    assert(self@[i as int].0 == name@);
                    lemma_key_index_unique(self@, name@, i as int);
                }
                Some(&self.entries[i].1)
            },
            None => {
                proof {
                    assert forall|j: int| 0 <= j < self@.len() implies self@[j].0 != name@ by {
                        assert(self@[j].0 == self.entries@[j].0@);
                    }
                }
                None
            },
        }
    }
}

/// The mathematical content of one raw engine row: each column's name and raw
/// value.
pub open spec fn column_models(s: Seq<(String, ColumnValue)>) -> Seq<(Seq<char>, ColumnModel)> {
    s.map_values(|e: (String, ColumnValue)| (e.0@, e.1@))
}

/// What decoding one raw row yields: the decoded ordered row, or the type
/// name of the first unsupported column.
pub open spec fn spec_decode_row(m: Seq<(Seq<char>, ColumnModel)>) -> Result<
    Seq<(Seq<char>, ValueModel)>,
    Seq<char>,
>
    decreases m.len(),
{
    if m.len() == 0 {
        Ok(Seq::empty())
    } else {
        match spec_decode_row(m.drop_last()) {
            Ok(acc) => match spec_decode(m.last().1) {
                Ok(v) => Ok(insert_entry(acc, m.last().0, v)),
                Err(name) => Err(name),
            },
            Err(name) => Err(name),
        }
    }
}

/// A failing column fails the whole row, whatever follows it: if the columns
/// before position `k` decode and the column at `k` does not, the row decodes
/// to that column's error.
pub proof fn lemma_decode_row_error(m: Seq<(Seq<char>, ColumnModel)>, k: int, name: Seq<char>)
    requires
        0 <= k < m.len(),
        spec_decode_row(m.take(k)) is Ok,
        spec_decode(m[k].1) == Err::<ValueModel, Seq<char>>(name),
    ensures
        spec_decode_row(m) == Err::<Seq<(Seq<char>, ValueModel)>, Seq<char>>(name),
    decreases m.len(),
{
    if m.len() == k + 1 {
        assert(m.drop_last() =~= m.take(k));
    } else {
        assert(m.drop_last().take(k) =~= m.take(k));
        lemma_decode_row_error(m.drop_last(), k, name);
    }
}

/// Decodes one raw engine row into an ordered row, aborting on the first
/// column whose native type the dynamic value model does not cover.
#[verifier::loop_isolation(false)]
pub fn decode_row(cols: Vec<(String, ColumnValue)>) -> (r: Result<Row, Error>)
    ensures
        match spec_decode_row(column_models(cols@)) {
            Ok(entries) => r matches Ok(row) && row@ == entries && row.wf(),
            Err(name) => r matches Err(e) && e matches Error::UnsupportedDatatype(s) && s@
                == name,
        },
{
    let ghost full = cols@;
    let ghost m = column_models(cols@);
    let mut cols = cols;
    let mut row = Row::new();
    let ghost mut k: int = 0;
    proof {
        assert(m.take(0) =~= Seq::<(Seq<char>, ColumnModel)>::empty());
    }
    while cols.len() > 0
        invariant
            0 <= k <= m.len(),
            m == column_models(full),
            m.len() == full.len(),
            k + cols@.len() == full.len(),
            cols@ =~= full.subrange(k, full.len() as int),
            spec_decode_row(m.take(k)) == Ok::<Seq<(Seq<char>, ValueModel)>, Seq<char>>(row@),
            row.wf(),
        decreases cols@.len(),
    {
        let ghost prev = cols@;
        let (name, raw) = cols.remove(0);
        proof {
            assert(prev[0] == full[k]);
            assert(m[k] == (full[k].0@, full[k].1@));
            assert(m[k] == (name@, raw@));
        }
        match decode(raw) {
            Ok(v) => {
                proof {
                    assert(m.take(k + 1).drop_last() =~= m.take(k));
                    assert(m.take(k + 1).last() == m[k]);
                }
                row.insert(name, v);
                proof {
                    k = k + 1;
                    assert(cols@ =~= full.subrange(k, full.len() as int));
                }
            },
            Err(e) => {
                proof {
                    match spec_decode(m[k].1) {
                        Ok(_) => {
                            assert(false);
                        },
                        Err(fail_name) => {
                            lemma_decode_row_error(m, k, fail_name);
                        },
                    }
                }
                return Err(e);
            },
        }
    }
    proof {
        assert(m.take(k) =~= m);
    }
    Ok(row)
}

/// The mathematical content of a sequence of raw engine rows.
pub open spec fn rows_models(s: Seq<Vec<(String, ColumnValue)>>) -> Seq<
    Seq<(Seq<char>, ColumnModel)>,
> {
    s.map_values(|r: Vec<(String, ColumnValue)>| column_models(r@))
}

/// What decoding a whole result set yields: every row decoded, or the error
/// of the first failing column of the first failing row.
pub open spec fn spec_decode_rows(ms: Seq<Seq<(Seq<char>, ColumnModel)>>) -> Result<
    Seq<Seq<(Seq<char>, ValueModel)>>,
    Seq<char>,
>
    decreases ms.len(),
{
    if ms.len() == 0 {
        Ok(Seq::empty())
    } else {
        match spec_decode_rows(ms.drop_last()) {
            Ok(acc) => match spec_decode_row(ms.last()) {
                Ok(row) => Ok(acc.push(row)),
                Err(name) => Err(name),
            },
            Err(name) => Err(name),
        }
    }
}

/// A failing row fails the whole fetch, whatever follows it.
pub proof fn lemma_decode_rows_error(
    ms: Seq<Seq<(Seq<char>, ColumnModel)>>,
    k: int,
    name: Seq<char>,
)
    requires
        0 <= k < ms.len(),
        spec_decode_rows(ms.take(k)) is Ok,
        spec_decode_row(ms[k]) == Err::<Seq<(Seq<char>, ValueModel)>, Seq<char>>(name),
    ensures
        spec_decode_rows(ms) == Err::<Seq<Seq<(Seq<char>, ValueModel)>>, Seq<char>>(name),
    decreases ms.len(),
{
    if ms.len() == k + 1 {
        assert(ms.drop_last() =~= ms.take(k));
    } else {
        assert(ms.drop_last().take(k) =~= ms.take(k));
        lemma_decode_rows_error(ms.drop_last(), k, name);
    }
}

/// Decodes a whole result set, row by row and column by column, aborting on
/// the first unsupported column anywhere in it: no partial result is ever
/// returned.
#[verifier::loop_isolation(false)]
pub fn decode_rows(rows: Vec<Vec<(String, ColumnValue)>>) -> (r: Result<Vec<Row>, Error>)
    ensures
        match spec_decode_rows(rows_models(rows@)) {
            Ok(decoded) => r matches Ok(out) && out@.len() == decoded.len() && (forall|i: int|
                0 <= i < decoded.len() ==> #[trigger] out@[i]@ == decoded[i] && out@[i].wf()),
            Err(name) => r matches Err(e) && e matches Error::UnsupportedDatatype(s) && s@
                == name,
        },
{
    let ghost full = rows@;
    let ghost ms = rows_models(rows@);
    let mut rows = rows;
    let mut out: Vec<Row> = Vec::new();
    let ghost mut k: int = 0;
    proof {
        assert(ms.take(0) =~= Seq::<Seq<(Seq<char>, ColumnModel)>>::empty());
    }
    while rows.len() > 0
        invariant
            0 <= k <= ms.len(),
            ms == rows_models(full),
            ms.len() == full.len(),
            k + rows@.len() == full.len(),
            rows@ =~= full.subrange(k, full.len() as int),
            spec_decode_rows(ms.take(k)) matches Ok(decoded) && decoded.len() == out@.len() && (
            forall|i: int| 0 <= i < out@.len() ==> #[trigger] out@[i]@ == decoded[i]
                && out@[i].wf()),
        decreases rows@.len(),
    {
        let ghost prev = rows@;
        let raw_row = rows.remove(0);
        proof {
            assert(prev[0] == full[k]);
            assert(ms[k] == column_models(full[k]@));
            assert(ms[k] == column_models(raw_row@));
        }
        match decode_row(raw_row) {
            Ok(row) => {
                proof {
                    assert(ms.take(k + 1).drop_last() =~= ms.take(k));
                    assert(ms.take(k + 1).last() == ms[k]);
                }
                out.push(row);
                proof {
                    k = k + 1;
                    assert(rows@ =~= full.subrange(k, full.len() as int));
                }
            },
            Err(e) => {
                proof {
                    match spec_decode_row(ms[k]) {
                        Ok(_) => {
                            assert(false);
                        },
                        Err(fail_name) => {
                            lemma_decode_rows_error(ms, k, fail_name);
                        },
                    }
                }
                return Err(e);
            },
        }
    }
    proof {
        assert(ms.take(k) =~= ms);
    }
    Ok(out)
}

} // verus!
