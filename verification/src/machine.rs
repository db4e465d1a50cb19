//! One fetch as a state machine.
//!
//! The machine decides; its driver does the outside work. The driver hands the
//! machine an event, the machine answers with the next state and an action, the
//! driver performs the action and comes back with the event that reports how it
//! went. No state survives a fetch: everything durable lives in the store.
//!
//! ```text
//! Start --> CacheCheck --hit--> Done
//!   |           |
//!   | forced    | miss
//!   v           v
//!   +------> Network --body--> Persist --> Done
//!               |
//!               +--failure--> Done
//! ```

use crate::error::{CacheError, CacheErrorView};
use crate::header::{sendable, text_of, user_agent_sendable};
use crate::record::{
    fetched_from_network, served_from_cache, Identity, Record, RecordView, Row, RowView,
};
use crate::store::{find_live_row, table_of};
use crate::table::find_live;
use vstd::prelude::*;

verus! {

/// What a caller asks for.
#[derive(Debug, PartialEq, Eq)]
pub struct Request {
    pub url: String,
    pub method: String,
    /// For how many seconds a freshly fetched response stays valid.
    pub ttl_seconds: i64,
    /// Skip the cache lookup and go to the network in any case.
    pub force_refresh: bool,
    pub user_agent: Option<String>,
}

/// What a `Request` holds, as plain mathematical values.
pub struct RequestView {
    pub url: Seq<char>,
    pub method: Seq<char>,
    pub ttl_seconds: int,
    pub force_refresh: bool,
    pub user_agent: Option<Seq<char>>,
}

impl RequestView {
    pub open spec fn identity(self) -> Identity {
        Identity { url: self.url, method: self.method }
    }
}

impl View for Request {
    type V = RequestView;

    open spec fn view(&self) -> RequestView {
        RequestView {
            url: self.url@,
            method: self.method@,
            ttl_seconds: self.ttl_seconds as int,
            force_refresh: self.force_refresh,
            user_agent: text_of(self.user_agent),
        }
    }
}

/// The request that a caller makes with these arguments. A `force_refresh` that is
/// left out means no.
pub open spec fn asked(
    url: Seq<char>,
    method: Seq<char>,
    timeout: int,
    force_refresh: Option<bool>,
    user_agent: Option<Seq<char>>,
) -> RequestView {
    RequestView {
        url,
        method,
        ttl_seconds: timeout,
        force_refresh: force_refresh == Some(true),
        user_agent,
    }
}

impl Request {
    /// A request for `url` with `method`, whose response is to stay valid for
    /// `timeout` seconds. A `force_refresh` that is left out means no.
    pub fn new(
        url: String,
        method: String,
        timeout: i64,
        force_refresh: Option<bool>,
        user_agent: Option<String>,
    ) -> (request: Request)
        ensures
            request@ == asked(url@, method@, timeout as int, force_refresh, text_of(user_agent)),
    {
        let force_refresh = match force_refresh {
            Some(flag) => flag,
            None => false,
        };
        Request { url, method, ttl_seconds: timeout, force_refresh, user_agent }
    }
}

/// Where a fetch stands.
#[derive(Debug, PartialEq, Eq)]
pub enum State {
    /// Nothing has happened yet.
    Start,
    /// The store was asked for the rows of the identity.
    CacheCheck,
    /// The transport was asked to perform the request.
    Network,
    /// The store was asked to persist the fetched entry, which is held here.
    Persist(Record),
    /// The fetch is over.
    Done,
}

/// What a `State` holds, as plain mathematical values.
pub enum StateView {
    Start,
    CacheCheck,
    Network,
    Persist(RecordView),
    Done,
}

impl View for State {
    type V = StateView;

    open spec fn view(&self) -> StateView {
        match *self {
            State::Start => StateView::Start,
            State::CacheCheck => StateView::CacheCheck,
            State::Network => StateView::Network,
            State::Persist(record) => StateView::Persist(record@),
            State::Done => StateView::Done,
        }
    }
}

/// What the driver reports to the machine.
#[derive(Debug, PartialEq, Eq)]
pub enum Event {
    /// The caller asked for the fetch.
    Begin,
    /// The store was read: these are the rows it holds, in insertion order. Rows of
    /// other identities may be among them.
    Rows(Vec<Row>),
    /// The store could not be read or written.
    StorageFailed(String),
    /// The transport delivered this body. Any response counts, whatever its status.
    Body(String),
    /// The transport produced no usable body.
    TransportFailed(String),
    /// The store has made the row the sole row of its identity.
    Stored,
}

/// What an `Event` holds, as plain mathematical values.
pub enum EventView {
    Begin,
    Rows(Seq<RowView>),
    StorageFailed(Seq<char>),
    Body(Seq<char>),
    TransportFailed(Seq<char>),
    Stored,
}

impl View for Event {
    type V = EventView;

    open spec fn view(&self) -> EventView {
        match *self {
            Event::Begin => EventView::Begin,
            Event::Rows(rows) => EventView::Rows(table_of(rows@)),
            Event::StorageFailed(cause) => EventView::StorageFailed(cause@),
            Event::Body(body) => EventView::Body(body@),
            Event::TransportFailed(cause) => EventView::TransportFailed(cause@),
            Event::Stored => EventView::Stored,
        }
    }
}

/// What the machine asks of the driver.
#[derive(Debug, PartialEq, Eq)]
pub enum Action {
    /// Read the rows stored for this identity and report them with `Event::Rows`.
    Lookup { url: String, method: String },
    /// Perform the request over the network and report `Event::Body`.
    Fetch { url: String, method: String, user_agent: Option<String> },
    /// Delete every row of this row's identity and insert the row, as one unit, and
    /// report `Event::Stored`.
    Store(Row),
    /// Hand this entry to the caller: the fetch succeeded.
    Return(Record),
    /// Hand this error to the caller: the fetch failed.
    Fail(CacheError),
}

/// What an `Action` holds, as plain mathematical values.
pub enum ActionView {
    Lookup { url: Seq<char>, method: Seq<char> },
    Fetch { url: Seq<char>, method: Seq<char>, user_agent: Option<Seq<char>> },
    Store(RowView),
    Return(RecordView),
    Fail(CacheErrorView),
}

impl View for Action {
    type V = ActionView;

    open spec fn view(&self) -> ActionView {
        match *self {
            Action::Lookup { url, method } => ActionView::Lookup { url: url@, method: method@ },
            Action::Fetch { url, method, user_agent } => ActionView::Fetch {
                url: url@,
                method: method@,
                user_agent: text_of(user_agent),
            },
            Action::Store(row) => ActionView::Store(row@),
            Action::Return(record) => ActionView::Return(record@),
            Action::Fail(error) => ActionView::Fail(error@),
        }
    }
}

impl ActionView {
    /// The action ends the fetch.
    pub open spec fn is_final(self) -> bool {
        self is Return || self is Fail
    }
}

/// The step into the network: the request is sent if its user agent can be, and
/// fails before any request is made if not.
pub open spec fn enter_network(req: RequestView) -> (StateView, ActionView) {
    if sendable(req.user_agent) {
        (
            StateView::Network,
            ActionView::Fetch { url: req.url, method: req.method, user_agent: req.user_agent },
        )
    } else {
        (StateView::Done, ActionView::Fail(CacheErrorView::InvalidUserAgent))
    }
}

/// The transition function: the state that follows `state` on `event` at `now`, and the
/// action that the driver has to perform next.
pub open spec fn next(req: RequestView, state: StateView, event: EventView, now: int) -> (
    StateView,
    ActionView,
) {
    match (state, event) {
        (StateView::Start, EventView::Begin) => if req.force_refresh {
            enter_network(req)
        } else {
            (StateView::CacheCheck, ActionView::Lookup { url: req.url, method: req.method })
        },
        (StateView::CacheCheck, EventView::Rows(rows)) => match find_live(
            rows,
            req.identity(),
            now,
        ) {
            Some(row) => (StateView::Done, ActionView::Return(served_from_cache(row))),
            None => enter_network(req),
        },
        (StateView::CacheCheck, EventView::StorageFailed(cause)) => (
            StateView::Done,
            ActionView::Fail(CacheErrorView::Storage { cause }),
        ),
        (StateView::Network, EventView::Body(body)) => {
            let record = fetched_from_network(req.identity(), body, now, req.ttl_seconds);
            (StateView::Persist(record), ActionView::Store(record.row()))
        },
        (StateView::Network, EventView::TransportFailed(cause)) => (
            StateView::Done,
            ActionView::Fail(CacheErrorView::Fetch { cause }),
        ),
        (StateView::Persist(record), EventView::Stored) => (
            StateView::Done,
            ActionView::Return(record),
        ),
        (StateView::Persist(record), EventView::StorageFailed(cause)) => (
            StateView::Done,
            ActionView::Fail(CacheErrorView::NotCached { record, cause }),
        ),
        _ => (StateView::Done, ActionView::Fail(CacheErrorView::UnexpectedEvent)),
    }
}

/// The expiry of an entry fetched at `now` can be held in an `i64`.
pub open spec fn expiry_fits(now: int, ttl_seconds: int) -> bool {
    i64::MIN <= now + ttl_seconds <= i64::MAX
}

/// The expiry of an entry that is fetched at `now` and stays valid for `ttl_seconds`,
/// where an `i64` can hold it.
pub fn expiry(now: i64, ttl_seconds: i64) -> (expires: Option<i64>)
    ensures
        match expires {
            Some(at) => at == now + ttl_seconds,
            None => !expiry_fits(now as int, ttl_seconds as int),
        },
{
    now.checked_add(ttl_seconds)
}

fn copy_of(text: &Option<String>) -> (copy: Option<String>)
    ensures
        text_of(copy) == text_of(*text),
{
    match text {
        Some(s) => Some(s.clone()),
        None => None,
    }
}

fn go_to_network(req: &Request) -> (out: (State, Action))
    ensures
        (out.0@, out.1@) == enter_network(req@),
{
    if user_agent_sendable(&req.user_agent) {
        (
            State::Network,
            Action::Fetch {
                url: req.url.clone(),
                method: req.method.clone(),
                user_agent: copy_of(&req.user_agent),
            },
        )
    } else {
        (State::Done, Action::Fail(CacheError::InvalidUserAgent))
    }
}

/// Takes the machine one step: from `state`, on `event`, at the time `now` (seconds
/// since the Unix epoch), to the next state and the action to perform.
///
/// An event that does not answer the pending action ends the fetch with
/// `CacheError::UnexpectedEvent`.
pub fn step(req: &Request, state: State, event: Event, now: i64) -> (out: (State, Action))
    requires
        state@ is Network && event@ is Body ==> expiry_fits(now as int, req@.ttl_seconds),
    ensures
        (out.0@, out.1@) == next(req@, state@, event@, now as int),
{
    match (state, event) {
        (State::Start, Event::Begin) => {
            if req.force_refresh {
                go_to_network(req)
            } else {
                (
                    State::CacheCheck,
                    Action::Lookup { url: req.url.clone(), method: req.method.clone() },
                )
            }
        },
        (State::CacheCheck, Event::Rows(rows)) => {
            match find_live_row(&rows, &req.url, &req.method, now) {
                Some(row) => (State::Done, Action::Return(row.into_cached())),
                None => go_to_network(req),
            }
        },
        (State::CacheCheck, Event::StorageFailed(cause)) => (
            State::Done,
            Action::Fail(CacheError::Storage { cause }),
        ),
        (State::Network, Event::Body(body)) => {
            let record = Record {
                request: req.url.clone(),
                method: req.method.clone(),
                response: body,
                expires: now + req.ttl_seconds,
                cached: Some(false),
            };
            let row = record.to_row();
            (State::Persist(record), Action::Store(row))
        },
        (State::Network, Event::TransportFailed(cause)) => (
            State::Done,
            Action::Fail(CacheError::Fetch { cause }),
        ),
        (State::Persist(record), Event::Stored) => (State::Done, Action::Return(record)),
        (State::Persist(record), Event::StorageFailed(cause)) => (
            State::Done,
            Action::Fail(CacheError::NotCached { record, cause }),
        ),
        _ => (State::Done, Action::Fail(CacheError::UnexpectedEvent)),
    }
}

} // verus!
