//! The table of cached rows as a mathematical object: what a lookup finds in it and
//! how a new row supersedes the old ones.
//!
//! A table is the sequence of its rows in insertion order.

use crate::record::{Identity, RowView};
use vstd::prelude::*;

verus! {

/// The identity made of a URL and a method token.
pub open spec fn identity_of(url: Seq<char>, method: Seq<char>) -> Identity {
    Identity { url, method }
}

/// A row can answer a lookup of `id` at `now`: it is stored under exactly that
/// identity and has not expired.
pub open spec fn answers(row: RowView, id: Identity, now: int) -> bool {
    row.identity() == id && row.live_at(now)
}

/// Some row of the table answers a lookup of `id` at `now`.
pub open spec fn some_row_answers(table: Seq<RowView>, id: Identity, now: int) -> bool {
    exists|j: int| 0 <= j < table.len() && answers(#[trigger] table[j], id, now)
}

/// Row `i` is the one a lookup of `id` at `now` hands out: it answers the lookup, no
/// answering row expires later, and every answering row inserted before it expires
/// earlier. Among several candidates the longest-lived wins, and among equally
/// long-lived ones the first inserted.
pub open spec fn is_best(table: Seq<RowView>, id: Identity, now: int, i: int) -> bool {
    &&& 0 <= i < table.len()
    &&& answers(table[i], id, now)
    &&& forall|j: int|
        0 <= j < table.len() && answers(#[trigger] table[j], id, now) ==> table[j].expires
            <= table[i].expires
    &&& forall|j: int|
        0 <= j < i && answers(#[trigger] table[j], id, now) ==> table[j].expires
            < table[i].expires
}

/// The live row for `id` at `now`, or `None` on a clean miss.
pub open spec fn find_live(table: Seq<RowView>, id: Identity, now: int) -> Option<RowView> {
    if exists|i: int| is_best(table, id, now, i) {
        Some(table[choose|i: int| is_best(table, id, now, i)])
    } else {
        None
    }
}

/// Selects the rows stored under any identity but `id`.
pub open spec fn stored_elsewhere(id: Identity) -> spec_fn(RowView) -> bool {
    |row: RowView| row.identity() != id
}

/// Selects the rows stored under `id`.
pub open spec fn stored_under(id: Identity) -> spec_fn(RowView) -> bool {
    |row: RowView| row.identity() == id
}

/// The table after `row` has superseded every row of its identity: those rows are
/// gone, all others keep their order, and `row` is the newest.
pub open spec fn replace(table: Seq<RowView>, row: RowView) -> Seq<RowView> {
    table.filter(stored_elsewhere(row.identity())).push(row)
}

/// How many rows the table holds for `id`.
pub open spec fn count(table: Seq<RowView>, id: Identity) -> nat {
    table.filter(stored_under(id)).len()
}

/// No two rows share an identity.
pub open spec fn distinct_identities(table: Seq<RowView>) -> bool {
    forall|i: int, j: int|
        0 <= i < j < table.len() ==> (#[trigger] table[i]).identity() != (
        #[trigger] table[j]).identity()
}

/// What a lookup finds in a table that was extended by one row at its end: the new
/// row if it answers the lookup and outlives what was found before, else what was
/// found before.
pub open spec fn find_live_after_push(
    earlier: Option<RowView>,
    row: RowView,
    id: Identity,
    now: int,
) -> Option<RowView> {
    if answers(row, id, now) && (earlier is None || earlier->0.expires < row.expires) {
        Some(row)
    } else {
        earlier
    }
}

/// At most one row can be the best answer to a lookup.
pub proof fn lemma_best_is_unique(table: Seq<RowView>, id: Identity, now: int, i: int, j: int)
    requires
        is_best(table, id, now, i),
        is_best(table, id, now, j),
    ensures
        i == j,
{
}

/// A lookup finds exactly the best row, where there is one.
pub proof fn lemma_find_live_is_best(table: Seq<RowView>, id: Identity, now: int, i: int)
    requires
        is_best(table, id, now, i),
    ensures
        find_live(table, id, now) == Some(table[i]),
{
    let chosen = choose|k: int| is_best(table, id, now, k);
    lemma_best_is_unique(table, id, now, i, chosen);
}

/// A lookup misses exactly where no row answers it, and a lookup in an extended table
/// follows from the lookup in the table before.
pub proof fn lemma_find_live_push(table: Seq<RowView>, row: RowView, id: Identity, now: int)
    ensures
        find_live(table, id, now) is Some <==> some_row_answers(table, id, now),
        find_live(table.push(row), id, now) == find_live_after_push(
            find_live(table, id, now),
            row,
            id,
            now,
        ),
    decreases table.len(),
{
    if table.len() > 0 {
        // what the table finds follows from what it found before its last row came
        let shorter = table.drop_last();
        assert(shorter.push(table.last()) == table);
        lemma_find_live_push(shorter, table.last(), id, now);
    }
    let longer = table.push(row);
    let n = table.len() as int;
    if find_live(table, id, now) is Some {
        let b = choose|b: int| is_best(table, id, now, b);
        lemma_find_live_is_best(table, id, now, b);
        if answers(row, id, now) && table[b].expires < row.expires {
            // the new row outlives the best so far
            lemma_find_live_is_best(longer, id, now, n);
        } else {
            // the best so far stays the best
            lemma_find_live_is_best(longer, id, now, b);
        }
    } else if answers(row, id, now) {
        // the new row is the first to answer
        lemma_find_live_is_best(longer, id, now, n);
    }
}

/// A hit comes from a row of the table: one stored under the identity that was
/// looked up and live at the time of the lookup.
pub proof fn lemma_hit_is_stored(table: Seq<RowView>, id: Identity, now: int)
    requires
        find_live(table, id, now) is Some,
    ensures
        table.contains(find_live(table, id, now)->0),
        answers(find_live(table, id, now)->0, id, now),
        count(table, id) >= 1,
{
    let b = choose|b: int| is_best(table, id, now, b);
    table.lemma_filter_contains(stored_under(id), b);
}

/// An identity without a row is a miss at any time.
pub proof fn lemma_no_row_no_hit(table: Seq<RowView>, id: Identity, now: int)
    requires
        count(table, id) == 0,
    ensures
        find_live(table, id, now) is None,
{
    if find_live(table, id, now) is Some {
        lemma_hit_is_stored(table, id, now);
    }
}

/// Selecting from a table that was extended by one row at its end.
pub proof fn lemma_filter_push(table: Seq<RowView>, row: RowView, keep: spec_fn(RowView) -> bool)
    ensures
        table.push(row).filter(keep) == if keep(row) {
            table.filter(keep).push(row)
        } else {
            table.filter(keep)
        },
{
    reveal(Seq::filter);
    assert(table.push(row).drop_last() == table);
}

/// A selection holds only rows of the table, and only selected ones.
proof fn lemma_filter_members(table: Seq<RowView>, keep: spec_fn(RowView) -> bool, i: int)
    requires
        0 <= i < table.filter(keep).len(),
    ensures
        keep(table.filter(keep)[i]),
        table.contains(table.filter(keep)[i]),
{
    table.lemma_filter_pred(keep, i);
    let kept = table.filter(keep);
    table.lemma_filter_contains_rev(keep, kept[i]);
}

/// A selection that nothing in the table meets is empty.
pub proof fn lemma_filter_nothing(table: Seq<RowView>, keep: spec_fn(RowView) -> bool)
    requires
        forall|i: int| 0 <= i < table.len() ==> !keep(#[trigger] table[i]),
    ensures
        table.filter(keep).len() == 0,
{
    if table.filter(keep).len() > 0 {
        lemma_filter_members(table, keep, 0);
    }
}

/// A selection that every row of the table meets is the table.
pub proof fn lemma_filter_everything(table: Seq<RowView>, keep: spec_fn(RowView) -> bool)
    requires
        forall|i: int| 0 <= i < table.len() ==> keep(#[trigger] table[i]),
    ensures
        table.filter(keep) == table,
    decreases table.len(),
{
    reveal(Seq::filter);
    if table.len() > 0 {
        lemma_filter_everything(table.drop_last(), keep);
    }
}

/// A selection that every row of the table meets but row `k` is the table without
/// that row.
pub proof fn lemma_filter_all_but_one(
    table: Seq<RowView>,
    keep: spec_fn(RowView) -> bool,
    k: int,
)
    requires
        0 <= k < table.len(),
        !keep(table[k]),
        forall|i: int| 0 <= i < table.len() && i != k ==> keep(#[trigger] table[i]),
    ensures
        table.filter(keep) == table.remove(k),
    decreases table.len(),
{
    reveal(Seq::filter);
    let earlier = table.drop_last();
    if k == table.len() - 1 {
        lemma_filter_everything(earlier, keep);
    } else {
        lemma_filter_all_but_one(earlier, keep, k);
    }
}

/// A selection that no row of the table meets but row `k` is that row alone.
pub proof fn lemma_filter_only_one(table: Seq<RowView>, keep: spec_fn(RowView) -> bool, k: int)
    requires
        0 <= k < table.len(),
        keep(table[k]),
        forall|i: int| 0 <= i < table.len() && i != k ==> !keep(#[trigger] table[i]),
    ensures
        table.filter(keep) == seq![table[k]],
    decreases table.len(),
{
    reveal(Seq::filter);
    let earlier = table.drop_last();
    if k == table.len() - 1 {
        lemma_filter_nothing(earlier, keep);
    } else {
        lemma_filter_only_one(earlier, keep, k);
    }
}

/// Selecting twice: rows that pass `first` and then `second`, where every row that
/// passes `second` passes `first` too, are the rows that pass `second`.
proof fn lemma_filter_narrows(
    table: Seq<RowView>,
    first: spec_fn(RowView) -> bool,
    second: spec_fn(RowView) -> bool,
)
    requires
        forall|row: RowView| #[trigger] second(row) ==> first(row),
    ensures
        table.filter(first).filter(second) == table.filter(second),
    decreases table.len(),
{
    reveal(Seq::filter);
    if table.len() > 0 {
        let earlier = table.drop_last();
        let last = table.last();
        lemma_filter_narrows(earlier, first, second);
        if first(last) {
            lemma_filter_push(earlier.filter(first), last, second);
        }
    }
}

/// Leaving rows out cannot make two rows share an identity.
pub proof fn lemma_filter_keeps_distinct(table: Seq<RowView>, keep: spec_fn(RowView) -> bool)
    requires
        distinct_identities(table),
    ensures
        distinct_identities(table.filter(keep)),
    decreases table.len(),
{
    reveal(Seq::filter);
    if table.len() > 0 {
        let earlier = table.drop_last();
        let last = table.last();
        lemma_filter_keeps_distinct(earlier, keep);
        let kept = earlier.filter(keep);
        if keep(last) {
            let longer = kept.push(last);
            assert forall|i: int, j: int| 0 <= i < j < longer.len() implies (
            #[trigger] longer[i]).identity() != (#[trigger] longer[j]).identity() by {
                if j == kept.len() {
                    lemma_filter_members(earlier, keep, i);
                }
            }
        }
    }
}

/// A lookup sees only the rows of its identity: rows of other identities can be
/// left out of the table, in any number, without changing what it finds.
pub proof fn lemma_lookup_skips_other_rows(
    table: Seq<RowView>,
    keep: spec_fn(RowView) -> bool,
    id: Identity,
    now: int,
)
    requires
        forall|i: int|
            0 <= i < table.len() && (#[trigger] table[i]).identity() == id ==> keep(table[i]),
    ensures
        find_live(table.filter(keep), id, now) == find_live(table, id, now),
    decreases table.len(),
{
    reveal(Seq::filter);
    if table.len() > 0 {
        let earlier = table.drop_last();
        let last = table.last();
        assert(earlier.push(last) == table);
        lemma_lookup_skips_other_rows(earlier, keep, id, now);
        lemma_find_live_push(earlier, last, id, now);
        if keep(last) {
            lemma_find_live_push(earlier.filter(keep), last, id, now);
        }
    }
}

/// In a table of distinct identities no identity has more than one row.
pub proof fn lemma_distinct_counts(table: Seq<RowView>, id: Identity)
    requires
        distinct_identities(table),
    ensures
        count(table, id) <= 1,
    decreases table.len(),
{
    reveal(Seq::filter);
    if table.len() > 0 {
        let earlier = table.drop_last();
        let last = table.last();
        lemma_distinct_counts(earlier, id);
        if stored_under(id)(last) {
            lemma_filter_nothing(earlier, stored_under(id));
        }
    }
}

/// After a row has superseded the others, it is the newest row of the table and the
/// only row of its identity.
pub proof fn lemma_replace_leaves_one(table: Seq<RowView>, row: RowView)
    ensures
        count(replace(table, row), row.identity()) == 1,
        replace(table, row).last() == row,
{
    let id = row.identity();
    let kept = table.filter(stored_elsewhere(id));
    assert forall|i: int| 0 <= i < kept.len() implies !stored_under(id)(#[trigger] kept[i]) by {
        lemma_filter_members(table, stored_elsewhere(id), i);
    }
    lemma_filter_nothing(kept, stored_under(id));
    lemma_filter_push(kept, row, stored_under(id));
}

/// Superseding keeps the identities of a table distinct.
pub proof fn lemma_replace_keeps_distinct(table: Seq<RowView>, row: RowView)
    requires
        distinct_identities(table),
    ensures
        distinct_identities(replace(table, row)),
{
    let keep = stored_elsewhere(row.identity());
    let kept = table.filter(keep);
    let longer = kept.push(row);
    lemma_filter_keeps_distinct(table, keep);
    assert forall|i: int, j: int| 0 <= i < j < longer.len() implies (
    #[trigger] longer[i]).identity() != (#[trigger] longer[j]).identity() by {
        if j == kept.len() {
            lemma_filter_members(table, keep, i);
        }
    }
}

/// A lookup of the identity that was just superseded finds the new row for as long as
/// it is live, and nothing afterwards.
pub proof fn lemma_lookup_after_replace(table: Seq<RowView>, row: RowView, now: int)
    ensures
        find_live(replace(table, row), row.identity(), now) == if row.live_at(now) {
            Some(row)
        } else {
            None
        },
{
    let id = row.identity();
    let kept = table.filter(stored_elsewhere(id));
    lemma_find_live_push(kept, row, id, now);
    if some_row_answers(kept, id, now) {
        let j = choose|j: int| 0 <= j < kept.len() && answers(#[trigger] kept[j], id, now);
        lemma_filter_members(table, stored_elsewhere(id), j);
    }
}

/// Superseding the row of one identity changes no lookup of another.
pub proof fn lemma_lookup_elsewhere_after_replace(
    table: Seq<RowView>,
    row: RowView,
    id: Identity,
    now: int,
)
    requires
        id != row.identity(),
    ensures
        find_live(replace(table, row), id, now) == find_live(table, id, now),
{
    let keep = stored_elsewhere(row.identity());
    lemma_lookup_skips_other_rows(table, keep, id, now);
    lemma_find_live_push(table.filter(keep), row, id, now);
}

/// Superseding the row of one identity changes the number of rows of no other.
pub proof fn lemma_count_elsewhere_after_replace(table: Seq<RowView>, row: RowView, id: Identity)
    requires
        id != row.identity(),
    ensures
        count(replace(table, row), id) == count(table, id),
{
    let keep = stored_elsewhere(row.identity());
    lemma_filter_push(table.filter(keep), row, stored_under(id));
    lemma_filter_narrows(table, keep, stored_under(id));
}

/// The last writer wins: of two rows that supersede one after the other under the same
/// identity, the table keeps no trace of the first.
pub proof fn lemma_last_writer_wins(table: Seq<RowView>, first: RowView, second: RowView)
    requires
        first.identity() == second.identity(),
    ensures
        replace(replace(table, first), second) == replace(table, second),
{
    let keep = stored_elsewhere(second.identity());
    lemma_filter_push(table.filter(keep), first, keep);
    lemma_filter_narrows(table, keep, keep);
}

} // verus!
