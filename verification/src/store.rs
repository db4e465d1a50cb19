//! Tables of rows in executable form: the lookup over a vector of rows, and a table
//! held in memory.

use crate::record::{Record, Row, RowView};
use crate::table::{
    answers, count, distinct_identities, find_live, identity_of, is_best, lemma_distinct_counts,
    lemma_filter_all_but_one, lemma_filter_everything, lemma_filter_keeps_distinct,
    lemma_filter_nothing, lemma_filter_only_one, lemma_find_live_is_best,
    lemma_replace_keeps_distinct, lemma_replace_leaves_one, replace, stored_elsewhere,
    stored_under,
};
use vstd::prelude::*;

verus! {

/// The table that a vector of rows stands for.
pub open spec fn table_of(rows: Seq<Row>) -> Seq<RowView> {
    rows.map_values(|row: Row| row@)
}

/// Finds, among `rows`, the live row for the identity `(url, method)` at `now`.
///
/// Rows of other identities and rows that have expired are passed over, whatever
/// else `rows` holds. The rows are taken in insertion order.
pub fn find_live_row(rows: &Vec<Row>, url: &String, method: &String, now: i64) -> (found: Option<
    Row,
>)
    ensures
        match found {
            Some(row) => find_live(table_of(rows@), identity_of(url@, method@), now as int)
                == Some(row@),
            None => find_live(table_of(rows@), identity_of(url@, method@), now as int) is None,
        },
{
    let ghost table = table_of(rows@);
    let ghost id = identity_of(url@, method@);
    let mut best: Option<usize> = None;
    let mut i: usize = 0;
    while i < rows.len()
        invariant
            i <= rows.len(),
            table == table_of(rows@),
            id == identity_of(url@, method@),
            match best {
                Some(b) => b < i && is_best(table.take(i as int), id, now as int, b as int),
                None => forall|j: int| 0 <= j < i ==> !answers(#[trigger] table[j], id, now as int),
            },
        decreases rows.len() - i,
    {
        let row = &rows[i];
        if row.request == *url && row.method == *method && row.expires > now {
            let later = match best {
                Some(b) => rows[b].expires < row.expires,
                None => true,
            };
            if later {
                best = Some(i);
            }
        }
        i += 1;
    }
    assert(table.take(i as int) == table);
    match best {
        Some(b) => {
            proof {
                lemma_find_live_is_best(table, id, now as int, b as int);
            }
            Some(rows[b].clone())
        },
        None => None,
    }
}

/// A table of cached rows held in memory.
///
/// The only way to add a row is `replace`, so no two rows of a store ever share an
/// identity.
pub struct CacheStore {
    rows: Vec<Row>,
}

impl View for CacheStore {
    type V = Seq<RowView>;

    closed spec fn view(&self) -> Seq<RowView> {
        table_of(self.rows@)
    }
}

impl CacheStore {
    #[verifier::type_invariant]
    spec fn one_row_per_identity(&self) -> bool {
        distinct_identities(table_of(self.rows@))
    }

    /// An empty table.
    pub fn new() -> (store: CacheStore)
        ensures
            store@ == Seq::<RowView>::empty(),
    {
        CacheStore { rows: Vec::new() }
    }

    /// The number of rows in the table, whatever their identity.
    pub fn len(&self) -> (n: usize)
        ensures
            n == self@.len(),
    {
        self.rows.len()
    }

    /// The rows of the table in insertion order.
    pub fn rows(&self) -> (rows: &Vec<Row>)
        ensures
            table_of(rows@) == self@,
            distinct_identities(self@),
    {
        proof {
            use_type_invariant(self);
        }
        &self.rows
    }

    /// Where the row of the identity `(url, method)` stands, if the table has one.
    fn position(&self, url: &String, method: &String) -> (at: Option<usize>)
        ensures
            match at {
                Some(k) => k < self@.len() && self@[k as int].identity() == identity_of(
                    url@,
                    method@,
                ),
                None => forall|i: int|
                    0 <= i < self@.len() ==> (#[trigger] self@[i]).identity() != identity_of(
                        url@,
                        method@,
                    ),
            },
    {
        let mut i: usize = 0;
        while i < self.rows.len()
            invariant
                i <= self.rows.len(),
                forall|j: int|
                    0 <= j < i ==> (#[trigger] self@[j]).identity() != identity_of(url@, method@),
            decreases self.rows.len() - i,
        {
            let row = &self.rows[i];
            if row.request == *url && row.method == *method {
                return Some(i);
            }
            i += 1;
        }
        None
    }

    /// The rows stored for the identity `(url, method)`, in insertion order: what a
    /// driver reads for a lookup.
    pub fn select(&self, url: &String, method: &String) -> (rows: Vec<Row>)
        ensures
            table_of(rows@) == self@.filter(stored_under(identity_of(url@, method@))),
            rows@.len() <= 1,
    {
        let ghost id = identity_of(url@, method@);
        proof {
            use_type_invariant(self);
        }
        let mut rows: Vec<Row> = Vec::new();
        match self.position(url, method) {
            Some(k) => {
                proof {
                    lemma_filter_only_one(self@, stored_under(id), k as int);
                }
                rows.push(self.rows[k].clone());
            },
            None => {
                proof {
                    lemma_filter_nothing(self@, stored_under(id));
                }
            },
        }
        rows
    }

    /// The number of rows stored for the identity `(url, method)`: never more than one.
    pub fn count(&self, url: &String, method: &String) -> (n: usize)
        ensures
            n == count(self@, identity_of(url@, method@)),
            n <= 1,
    {
        let ghost id = identity_of(url@, method@);
        proof {
            use_type_invariant(self);
            lemma_distinct_counts(self@, id);
        }
        match self.position(url, method) {
            Some(k) => {
                proof {
                    self@.lemma_filter_contains(stored_under(id), k as int);
                }
                1
            },
            None => {
                proof {
                    lemma_filter_nothing(self@, stored_under(id));
                }
                0
            },
        }
    }

    /// Looks up the live entry for the identity `(url, method)` at `now` and tags it as
    /// served from the cache. An expired row is never handed out, though it stays in
    /// the table until the next `replace` for its identity.
    pub fn find_live(&self, url: &String, method: &String, now: i64) -> (found: Option<Record>)
        ensures
            match found {
                Some(record) => find_live(self@, identity_of(url@, method@), now as int) == Some(
                    record@.row(),
                ) && record@.cached == Some(true),
                None => find_live(self@, identity_of(url@, method@), now as int) is None,
            },
    {
        match find_live_row(&self.rows, url, method, now) {
            Some(row) => Some(row.into_cached()),
            None => None,
        }
    }

    /// Makes `row` the sole row of its identity: the row stored under that identity is
    /// deleted, then `row` is inserted. Rows of other identities are untouched.
    pub fn replace(&mut self, row: Row)
        ensures
            final(self)@ == replace(old(self)@, row@),
            count(final(self)@, row@.identity()) == 1,
    {
        let ghost table = self@;
        let ghost keep = stored_elsewhere(row@.identity());
        proof {
            use_type_invariant(&*self);
            lemma_filter_keeps_distinct(table, keep);
            lemma_replace_keeps_distinct(table, row@);
            lemma_replace_leaves_one(table, row@);
        }
        let superseded = self.position(&row.request, &row.method);
        let mut rows: Vec<Row> = Vec::new();
        core::mem::swap(&mut self.rows, &mut rows);
        match superseded {
            Some(k) => {
                proof {
                    lemma_filter_all_but_one(table, keep, k as int);
                    assert(table_of(rows@.remove(k as int)) == table.remove(k as int));
                }
                rows.remove(k);
            },
            None => {
                proof {
                    lemma_filter_everything(table, keep);
                }
            },
        }
        assert(table_of(rows@.push(row)) == table_of(rows@).push(row@));
        rows.push(row);
        self.rows = rows;
    }
}

} // verus!
