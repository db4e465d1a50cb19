//! The fetch as a whole: what it returns and what it leaves in the table, and the
//! state machine run against a table held in memory.

use crate::error::{CacheError, CacheErrorView};
use crate::header::{sendable, text_of};
use crate::machine::{
    asked, expiry_fits, next, step, Action, ActionView, Event, EventView, Request, RequestView,
    State, StateView,
};
use crate::record::{fetched_from_network, served_from_cache, Record, RecordView, RowView};
use crate::store::CacheStore;
use crate::table::{find_live, identity_of, lemma_lookup_skips_other_rows, replace, stored_under};
use vstd::prelude::*;

verus! {

/// What the network answered: a body, or the cause of a failure.
pub open spec fn answer_of(response: Result<String, String>) -> Result<Seq<char>, Seq<char>> {
    match response {
        Ok(body) => Ok(body@),
        Err(cause) => Err(cause@),
    }
}

/// How a fetch ended.
pub open spec fn outcome_of(result: Result<Record, CacheError>) -> Result<
    RecordView,
    CacheErrorView,
> {
    match result {
        Ok(record) => Ok(record@),
        Err(error) => Err(error@),
    }
}

/// The contract of a fetch at `now` against `table`, where `response` is what the
/// network answers if it is asked: the table that the fetch leaves, and what the
/// caller gets.
///
/// Unless a refresh is forced, a live entry is served from the cache: the network is
/// not asked and the table stays as it is, expiry included. Otherwise the request goes
/// to the network. If that fails, the failure is the result and nothing is written. If
/// it succeeds, the response becomes the sole row of its identity, valid until
/// `now + ttl_seconds`, and is returned as fetched from the network.
pub open spec fn fetch(
    table: Seq<RowView>,
    req: RequestView,
    now: int,
    response: Result<Seq<char>, Seq<char>>,
) -> (Seq<RowView>, Result<RecordView, CacheErrorView>) {
    let hit = if req.force_refresh {
        None
    } else {
        find_live(table, req.identity(), now)
    };
    match hit {
        Some(row) => (table, Ok(served_from_cache(row))),
        None => if !sendable(req.user_agent) {
            (table, Err(CacheErrorView::InvalidUserAgent))
        } else {
            match response {
                Ok(body) => {
                    let record = fetched_from_network(req.identity(), body, now, req.ttl_seconds);
                    (replace(table, record.row()), Ok(record))
                },
                Err(cause) => (table, Err(CacheErrorView::Fetch { cause })),
            }
        },
    }
}

/// The fetch writes a response: it goes to the network, and the network answers with
/// a body.
pub open spec fn writes(
    table: Seq<RowView>,
    req: RequestView,
    now: int,
    response: Result<Seq<char>, Seq<char>>,
) -> bool {
    &&& req.force_refresh || find_live(table, req.identity(), now) is None
    &&& sendable(req.user_agent)
    &&& response is Ok
}

/// An upper bound on the steps that the machine can still take from `state`.
pub open spec fn steps_left(state: StateView) -> nat {
    match state {
        StateView::Start => 4,
        StateView::CacheCheck => 3,
        StateView::Network => 2,
        StateView::Persist(_) => 1,
        StateView::Done => 0,
    }
}

/// The event by which a driver reports what the network answered.
pub open spec fn reported(response: Result<Seq<char>, Seq<char>>) -> EventView {
    match response {
        Ok(body) => EventView::Body(body),
        Err(cause) => EventView::TransportFailed(cause),
    }
}

/// Every step that does not end the fetch brings the machine closer to its end.
pub proof fn lemma_step_makes_progress(
    req: RequestView,
    state: StateView,
    event: EventView,
    now: int,
)
    ensures
        !next(req, state, event, now).1.is_final() ==> steps_left(next(req, state, event, now).0)
            < steps_left(state),
{
}

/// The machine run to its end from `state` on `event`, by a driver over a table in
/// memory: the table it leaves and what the caller gets. For a lookup the driver reads
/// the rows of the identity that the action names, from the network it gets
/// `response`, and it stores by `replace`; its store never fails.
pub open spec fn run(
    table: Seq<RowView>,
    req: RequestView,
    state: StateView,
    event: EventView,
    now: int,
    response: Result<Seq<char>, Seq<char>>,
) -> (Seq<RowView>, Result<RecordView, CacheErrorView>)
    decreases steps_left(state),
{
    let (after, action) = next(req, state, event, now);
    match action {
        ActionView::Return(record) => (table, Ok(record)),
        ActionView::Fail(error) => (table, Err(error)),
        ActionView::Lookup { url, method } => run(
            table,
            req,
            after,
            EventView::Rows(table.filter(stored_under(identity_of(url, method)))),
            now,
            response,
        ),
        ActionView::Fetch { .. } => run(table, req, after, reported(response), now, response),
        ActionView::Store(row) => run(
            replace(table, row),
            req,
            after,
            EventView::Stored,
            now,
            response,
        ),
    }
}

/// The machine, run from its start, does what the contract of a fetch says.
pub proof fn lemma_machine_implements_fetch(
    table: Seq<RowView>,
    req: RequestView,
    now: int,
    response: Result<Seq<char>, Seq<char>>,
)
    ensures
        run(table, req, StateView::Start, EventView::Begin, now, response) == fetch(
            table,
            req,
            now,
            response,
        ),
{
    reveal_with_fuel(run, 5);
    lemma_lookup_skips_other_rows(table, stored_under(req.identity()), req.identity(), now);
}

fn report(response: &Result<String, String>) -> (event: Event)
    ensures
        event@ == reported(answer_of(*response)),
{
    match response {
        Ok(body) => Event::Body(body.clone()),
        Err(cause) => Event::TransportFailed(cause.clone()),
    }
}


/// Fetches `url` with `method` through the cache in `store`, at the time `now` (seconds
/// since the Unix epoch). `response` is what the network answers if it is asked: the
/// body, or the cause of the failure. It is looked at only where the contract of a
/// fetch goes to the network.
///
/// A freshly fetched response stays valid for `timeout` seconds. A `force_refresh`
/// that is left out means no. Where a response is written, its expiry has to fit into
/// an `i64`.
#[verifier::loop_isolation(false)]
pub fn request(
    store: &mut CacheStore,
    url: String,
    method: String,
    timeout: i64,
    force_refresh: Option<bool>,
    user_agent: Option<String>,
    now: i64,
    response: Result<String, String>,
) -> (result: Result<Record, CacheError>)
    requires
        writes(
            old(store)@,
            asked(url@, method@, timeout as int, force_refresh, text_of(user_agent)),
            now as int,
            answer_of(response),
        ) ==> expiry_fits(now as int, timeout as int),
    ensures
        (final(store)@, outcome_of(result)) == fetch(
            old(store)@,
            asked(url@, method@, timeout as int, force_refresh, text_of(user_agent)),
            now as int,
            answer_of(response),
        ),
{
    let ghost before = store@;
    let ghost view = asked(url@, method@, timeout as int, force_refresh, text_of(user_agent));
    let ghost answer = answer_of(response);
    let req = Request::new(url, method, timeout, force_refresh, user_agent);
    proof {
        lemma_machine_implements_fetch(before, view, now as int, answer);
    }
    let mut state = State::Start;
    let mut event = Event::Begin;
    loop
        invariant
            run(store@, view, state@, event@, now as int, answer) == fetch(
                before,
                view,
                now as int,
                answer,
            ),
            state@ is Start ==> event@ is Begin && store@ == before,
            state@ is CacheCheck ==> event@ == EventView::Rows(
                before.filter(stored_under(view.identity())),
            ) && store@ == before && !view.force_refresh,
            state@ is Network ==> event@ == reported(answer) && sendable(view.user_agent) && (
            view.force_refresh || find_live(before, view.identity(), now as int) is None),
        decreases steps_left(state@),
    {
        proof {
            lemma_step_makes_progress(view, state@, event@, now as int);
            lemma_lookup_skips_other_rows(
                before,
                stored_under(view.identity()),
                view.identity(),
                now as int,
            );
        }
        let (after, action) = step(&req, state, event, now);
        match action {
            Action::Return(record) => {
                return Ok(record);
            },
            Action::Fail(error) => {
                return Err(error);
            },
            Action::Lookup { url, method } => {
                event = Event::Rows(store.select(&url, &method));
            },
            Action::Fetch { .. } => {
                event = report(&response);
            },
            Action::Store(row) => {
                store.replace(row);
                event = Event::Stored;
            },
        }
        state = after;
    }
}

/// Where the durable store lies when the caller names no place.
pub open spec fn default_location() -> Seq<char> {
    "request_cache_db"@
}

/// The place of the durable store for a caller that may have named one.
pub fn storage_location(db_path: Option<String>) -> (path: String)
    ensures
        path@ == match db_path {
            Some(named) => named@,
            None => default_location(),
        },
{
    match db_path {
        Some(named) => named,
        None => "request_cache_db".to_owned(),
    }
}

} // verus!
