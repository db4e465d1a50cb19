//! What holds of fetches that follow one another, proved from the contract of a
//! single fetch.

use crate::error::CacheErrorView;
use crate::fetch::fetch;
use crate::header::sendable;
use crate::machine::{next, EventView, RequestView, StateView};
use crate::record::{fetched_from_network, Identity, RecordView, RowView};
use crate::table::{
    count, distinct_identities, find_live, lemma_count_elsewhere_after_replace,
    lemma_hit_is_stored, lemma_last_writer_wins, lemma_lookup_after_replace,
    lemma_lookup_elsewhere_after_replace, lemma_lookup_skips_other_rows, lemma_no_row_no_hit,
    lemma_replace_keeps_distinct, lemma_replace_leaves_one, replace, stored_under,
};
use vstd::prelude::*;

verus! {

/// Miss, then hit. A fetch for an identity that has no row goes to the network and
/// returns the response tagged as fetched. A second fetch for the same identity that
/// forces no refresh and comes before the entry expires is served from the cache with
/// the same body, whatever the network would answer, and leaves the table as it is.
pub proof fn theorem_miss_then_hit(
    table: Seq<RowView>,
    first: RequestView,
    now: int,
    body: Seq<char>,
    second: RequestView,
    later: int,
    answer: Result<Seq<char>, Seq<char>>,
)
    requires
        count(table, first.identity()) == 0,
        first.ttl_seconds > 0,
        sendable(first.user_agent),
        second.identity() == first.identity(),
        !second.force_refresh,
        now <= later < now + first.ttl_seconds,
    ensures
        ({
            let (cached, got) = fetch(table, first, now, Ok(body));
            let (cached_again, got_again) = fetch(cached, second, later, answer);
            &&& got == Ok::<RecordView, CacheErrorView>(
                fetched_from_network(first.identity(), body, now, first.ttl_seconds),
            )
            &&& got->Ok_0.cached == Some(false)
            &&& got_again is Ok
            &&& got_again->Ok_0.cached == Some(true)
            &&& got_again->Ok_0.response == body
            &&& got_again->Ok_0.expires == now + first.ttl_seconds
            &&& cached_again == cached
        }),
{
    lemma_no_row_no_hit(table, first.identity(), now);
    let record = fetched_from_network(first.identity(), body, now, first.ttl_seconds);
    lemma_lookup_after_replace(table, record.row(), later);
}

/// Expiry. Once an entry that was fetched from the network has reached its expiry, a
/// fetch for its identity goes to the network again, and afterwards the identity
/// still has exactly one row.
pub proof fn theorem_expired_entry_is_fetched_again(
    table: Seq<RowView>,
    first: RequestView,
    now: int,
    body: Seq<char>,
    second: RequestView,
    later: int,
    body_again: Seq<char>,
)
    requires
        fetch(table, first, now, Ok(body)).1 is Ok,
        fetch(table, first, now, Ok(body)).1->Ok_0.cached == Some(false),
        second.identity() == first.identity(),
        sendable(second.user_agent),
        later >= now + first.ttl_seconds,
    ensures
        ({
            let (cached, got) = fetch(table, first, now, Ok(body));
            let (cached_again, got_again) = fetch(cached, second, later, Ok(body_again));
            &&& got_again == Ok::<RecordView, CacheErrorView>(
                fetched_from_network(second.identity(), body_again, later, second.ttl_seconds),
            )
            &&& got_again->Ok_0.cached == Some(false)
            &&& count(cached, first.identity()) == 1
            &&& count(cached_again, first.identity()) == 1
        }),
{
    let record = fetched_from_network(first.identity(), body, now, first.ttl_seconds);
    lemma_lookup_after_replace(table, record.row(), later);
    lemma_replace_leaves_one(table, record.row());
    let cached = replace(table, record.row());
    let record_again = fetched_from_network(
        second.identity(),
        body_again,
        later,
        second.ttl_seconds,
    );
    lemma_replace_leaves_one(cached, record_again.row());
}

/// Forced refresh. Whatever the table holds, a fetch that forces a refresh is never
/// served from the cache. Where the network answers with a body, the fetch returns it
/// tagged as fetched and overwrites the stored entry: the new row is the only one of
/// its identity, and it is what a lookup finds until it expires.
pub proof fn theorem_forced_refresh_bypasses_cache(
    table: Seq<RowView>,
    req: RequestView,
    now: int,
    answer: Result<Seq<char>, Seq<char>>,
    later: int,
)
    requires
        req.force_refresh,
    ensures
        ({
            let (cached, got) = fetch(table, req, now, answer);
            &&& got is Ok ==> got->Ok_0.cached == Some(false)
            &&& sendable(req.user_agent) && answer is Ok ==> {
                let record = fetched_from_network(
                    req.identity(),
                    answer->Ok_0,
                    now,
                    req.ttl_seconds,
                );
                &&& got == Ok::<RecordView, CacheErrorView>(record)
                &&& cached == replace(table, record.row())
                &&& count(cached, req.identity()) == 1
                &&& find_live(cached, req.identity(), later) == if later < now
                    + req.ttl_seconds {
                    Some(record.row())
                } else {
                    None
                }
            }
        }),
{
    if sendable(req.user_agent) && answer is Ok {
        let record = fetched_from_network(req.identity(), answer->Ok_0, now, req.ttl_seconds);
        lemma_replace_leaves_one(table, record.row());
        lemma_lookup_after_replace(table, record.row(), later);
    }
}

/// A fetch that fails writes nothing, and a fetch that is served from the cache
/// writes nothing either: a hit neither extends nor resets an expiry.
pub proof fn theorem_only_a_fetched_response_is_written(
    table: Seq<RowView>,
    req: RequestView,
    now: int,
    answer: Result<Seq<char>, Seq<char>>,
)
    ensures
        ({
            let (cached, got) = fetch(table, req, now, answer);
            &&& got is Err ==> cached == table
            &&& got is Ok && got->Ok_0.cached == Some(true) ==> cached == table
            &&& got is Ok ==> got->Ok_0.cached is Some && got->Ok_0.identity() == req.identity()
            &&& got is Ok && got->Ok_0.cached == Some(false) ==> cached == replace(
                table,
                got->Ok_0.row(),
            ) && got->Ok_0.expires == now + req.ttl_seconds
            &&& got is Err ==> got->Err_0.nothing_obtained()
        }),
{
    if !req.force_refresh && find_live(table, req.identity(), now) is Some {
        lemma_hit_is_stored(table, req.identity(), now);
    }
}

/// An entry that has expired is never served: the entry of a hit expires strictly
/// after the time of the fetch.
pub proof fn theorem_stale_entry_is_never_served(
    table: Seq<RowView>,
    req: RequestView,
    now: int,
    answer: Result<Seq<char>, Seq<char>>,
)
    ensures
        ({
            let got = fetch(table, req, now, answer).1;
            got is Ok && got->Ok_0.cached == Some(true) ==> got->Ok_0.expires > now
                && table.contains(got->Ok_0.row()) && !req.force_refresh
        }),
{
    if !req.force_refresh && find_live(table, req.identity(), now) is Some {
        lemma_hit_is_stored(table, req.identity(), now);
    }
}

/// One row per identity, one fetch at a time. A fetch never gives an identity a
/// second row, and a fetch that succeeds leaves its identity with exactly one.
pub proof fn theorem_fetch_keeps_one_row(
    table: Seq<RowView>,
    req: RequestView,
    now: int,
    answer: Result<Seq<char>, Seq<char>>,
    id: Identity,
)
    ensures
        ({
            let (cached, got) = fetch(table, req, now, answer);
            &&& count(cached, id) == count(table, id) || count(cached, id) == 1
            &&& distinct_identities(table) ==> distinct_identities(cached)
            &&& got is Ok && count(table, req.identity()) <= 1 ==> count(cached, req.identity())
                == 1
        }),
{
    let (cached, got) = fetch(table, req, now, answer);
    if cached != table {
        let record = got->Ok_0;
        lemma_replace_leaves_one(table, record.row());
        if id != req.identity() {
            lemma_count_elsewhere_after_replace(table, record.row(), id);
        }
        if distinct_identities(table) {
            lemma_replace_keeps_distinct(table, record.row());
        }
    } else if got is Ok {
        if !req.force_refresh && find_live(table, req.identity(), now) is Some {
            lemma_hit_is_stored(table, req.identity(), now);
        } else {
            let record = got->Ok_0;
            lemma_replace_leaves_one(table, record.row());
        }
    }
}

/// One fetch of a sequence: the request, the time at which it is made, and what the
/// network answers if it is asked.
pub struct Call {
    pub req: RequestView,
    pub now: int,
    pub answer: Result<Seq<char>, Seq<char>>,
}

/// The table after the fetches `calls` were made one after another, starting from
/// `table`.
pub open spec fn fetch_all(table: Seq<RowView>, calls: Seq<Call>) -> Seq<RowView>
    decreases calls.len(),
{
    if calls.len() == 0 {
        table
    } else {
        let call = calls.last();
        fetch(fetch_all(table, calls.drop_last()), call.req, call.now, call.answer).0
    }
}

/// One row per identity, always. Whatever fetches are made, in whatever order and
/// for whatever identities, an identity that had at most one row has at most one
/// afterwards, one that had exactly one keeps exactly one, and a table in which no two
/// rows shared an identity stays so.
pub proof fn theorem_single_row_invariant(table: Seq<RowView>, calls: Seq<Call>, id: Identity)
    ensures
        count(table, id) <= 1 ==> count(fetch_all(table, calls), id) <= 1,
        count(table, id) == 1 ==> count(fetch_all(table, calls), id) == 1,
        distinct_identities(table) ==> distinct_identities(fetch_all(table, calls)),
    decreases calls.len(),
{
    if calls.len() > 0 {
        let call = calls.last();
        theorem_single_row_invariant(table, calls.drop_last(), id);
        theorem_fetch_keeps_one_row(
            fetch_all(table, calls.drop_last()),
            call.req,
            call.now,
            call.answer,
            id,
        );
    }
}

/// Identities are independent. A fetch for one identity changes nothing for any
/// other: not what a lookup of the other finds, at any time, not how many rows it
/// has, and not what a later fetch for it returns.
pub proof fn theorem_identities_are_independent(
    table: Seq<RowView>,
    req: RequestView,
    now: int,
    answer: Result<Seq<char>, Seq<char>>,
    other: RequestView,
    later: int,
    other_answer: Result<Seq<char>, Seq<char>>,
)
    requires
        other.identity() != req.identity(),
    ensures
        ({
            let cached = fetch(table, req, now, answer).0;
            &&& find_live(cached, other.identity(), later) == find_live(
                table,
                other.identity(),
                later,
            )
            &&& count(cached, other.identity()) == count(table, other.identity())
            &&& fetch(cached, other, later, other_answer).1 == fetch(
                table,
                other,
                later,
                other_answer,
            ).1
        }),
{
    let (cached, got) = fetch(table, req, now, answer);
    if cached != table {
        let record = got->Ok_0;
        lemma_lookup_elsewhere_after_replace(table, record.row(), other.identity(), later);
        lemma_count_elsewhere_after_replace(table, record.row(), other.identity());
    }
}

/// The table after the rows `writes` were stored one after another, each as one unit.
pub open spec fn store_all(table: Seq<RowView>, writes: Seq<RowView>) -> Seq<RowView>
    decreases writes.len(),
{
    if writes.len() == 0 {
        table
    } else {
        replace(store_all(table, writes.drop_last()), writes.last())
    }
}

/// Fetches that overlap. However many fetches run at the same time, and in whatever
/// order their writes reach the store, every write supersedes as one unit, so an
/// identity never has a second row. Where all the writes are for one identity, the
/// table ends as if only the last writer had written.
pub proof fn theorem_overlapping_writes_keep_one_row(
    table: Seq<RowView>,
    writes: Seq<RowView>,
    id: Identity,
)
    ensures
        count(table, id) <= 1 ==> count(store_all(table, writes), id) <= 1,
        distinct_identities(table) ==> distinct_identities(store_all(table, writes)),
        writes.len() > 0 && (forall|i: int|
            0 <= i < writes.len() ==> (#[trigger] writes[i]).identity() == id) ==> store_all(
            table,
            writes,
        ) == replace(table, writes.last()) && count(store_all(table, writes), id) == 1,
    decreases writes.len(),
{
    if writes.len() > 0 {
        let earlier = writes.drop_last();
        let last = writes.last();
        let before = store_all(table, earlier);
        theorem_overlapping_writes_keep_one_row(table, earlier, id);
        lemma_replace_leaves_one(before, last);
        if last.identity() != id {
            lemma_count_elsewhere_after_replace(before, last, id);
        }
        if distinct_identities(table) {
            lemma_replace_keeps_distinct(before, last);
        }
        if earlier.len() > 0 && earlier.last().identity() == last.identity() {
            lemma_last_writer_wins(table, earlier.last(), last);
        }
    }
}

/// A lookup needs only the rows of its identity. The machine decides the same whether
/// its driver reports the whole table or only the rows stored under the identity that
/// it was asked to look up.
pub proof fn theorem_lookup_needs_only_own_rows(table: Seq<RowView>, req: RequestView, now: int)
    ensures
        next(
            req,
            StateView::CacheCheck,
            EventView::Rows(table.filter(stored_under(req.identity()))),
            now,
        ) == next(req, StateView::CacheCheck, EventView::Rows(table), now),
{
    lemma_lookup_skips_other_rows(table, stored_under(req.identity()), req.identity(), now);
}

} // verus!
