use request_cache::{
    expiry, step, user_agent_sendable, Action, CacheError, CacheStore, Event, Record, Request, Row,
    State,
};

const T0: i64 = 1_700_000_000;

fn text(s: &str) -> String {
    s.to_string()
}

fn plain(ttl: i64) -> Request {
    Request::new(text("http://example.com"), text("GET"), ttl, None, None)
}

fn row(method: &str, url: &str, body: &str, expires: i64) -> Row {
    Row {
        method: method.to_string(),
        request: url.to_string(),
        response: body.to_string(),
        expires,
    }
}

fn fetched(body: &str, expires: i64) -> Record {
    Record {
        request: text("http://example.com"),
        method: text("GET"),
        response: text(body),
        expires,
        cached: Some(false),
    }
}

#[test]
fn request_new_reads_a_missing_force_refresh_as_no() {
    assert!(!Request::new(text("u"), text("GET"), 5, None, None).force_refresh);
    assert!(!Request::new(text("u"), text("GET"), 5, Some(false), None).force_refresh);
    assert!(Request::new(text("u"), text("GET"), 5, Some(true), None).force_refresh);
    let req = Request::new(text("u"), text("PUT"), -5, None, Some(text("agent")));
    assert_eq!(req.url, "u");
    assert_eq!(req.method, "PUT");
    assert_eq!(req.ttl_seconds, -5);
    assert_eq!(req.user_agent, Some(text("agent")));
}

#[test]
fn start_asks_for_a_lookup() {
    let (state, action) = step(&plain(10), State::Start, Event::Begin, T0);
    assert_eq!(state, State::CacheCheck);
    assert_eq!(action, Action::Lookup { url: text("http://example.com"), method: text("GET") });
}

#[test]
fn start_with_forced_refresh_skips_the_lookup() {
    let req =
        Request::new(text("http://example.com"), text("GET"), 10, Some(true), Some(text("dummy")));
    let (state, action) = step(&req, State::Start, Event::Begin, T0);
    assert_eq!(state, State::Network);
    assert_eq!(
        action,
        Action::Fetch {
            url: text("http://example.com"),
            method: text("GET"),
            user_agent: Some(text("dummy")),
        }
    );
}

#[test]
fn live_row_is_returned_without_a_network_call() {
    let rows = vec![row("GET", "http://example.com", "cached body", T0 + 1)];
    let (state, action) = step(&plain(10), State::CacheCheck, Event::Rows(rows), T0);
    assert_eq!(state, State::Done);
    assert_eq!(
        action,
        Action::Return(Record {
            request: text("http://example.com"),
            method: text("GET"),
            response: text("cached body"),
            expires: T0 + 1,
            cached: Some(true),
        })
    );
}

#[test]
fn miss_goes_to_the_network() {
    let (state, action) = step(&plain(10), State::CacheCheck, Event::Rows(Vec::new()), T0);
    assert_eq!(state, State::Network);
    assert_eq!(
        action,
        Action::Fetch { url: text("http://example.com"), method: text("GET"), user_agent: None }
    );
    let stale = vec![row("GET", "http://example.com", "old", T0)];
    let (state, _) = step(&plain(10), State::CacheCheck, Event::Rows(stale), T0);
    assert_eq!(state, State::Network);
    let other = vec![row("GET", "http://example.org", "other", T0 + 100)];
    let (state, _) = step(&plain(10), State::CacheCheck, Event::Rows(other), T0);
    assert_eq!(state, State::Network);
}

#[test]
fn unreadable_store_is_a_storage_error() {
    let (state, action) =
        step(&plain(10), State::CacheCheck, Event::StorageFailed(text("disk I/O error")), T0);
    assert_eq!(state, State::Done);
    assert_eq!(action, Action::Fail(CacheError::Storage { cause: text("disk I/O error") }));
}

#[test]
fn body_is_stored_with_its_expiry() {
    let (state, action) = step(&plain(10000), State::Network, Event::Body(text("<html>")), 1000);
    assert_eq!(state, State::Persist(fetched("<html>", 11000)));
    assert_eq!(action, Action::Store(row("GET", "http://example.com", "<html>", 11000)));
}

#[test]
fn expiry_is_none_where_it_does_not_fit() {
    assert_eq!(expiry(1000, 10000), Some(11000));
    assert_eq!(expiry(T0, 0), Some(T0));
    assert_eq!(expiry(T0, -T0), Some(0));
    assert_eq!(expiry(i64::MAX - 1, 1), Some(i64::MAX));
    assert_eq!(expiry(i64::MAX, 1), None);
    assert_eq!(expiry(T0, i64::MAX), None);
    assert_eq!(expiry(i64::MIN, -1), None);
    assert_eq!(expiry(i64::MIN, 0), Some(i64::MIN));
}

#[test]
fn transport_failure_ends_the_fetch() {
    let (state, action) =
        step(&plain(10), State::Network, Event::TransportFailed(text("timed out")), T0);
    assert_eq!(state, State::Done);
    assert_eq!(action, Action::Fail(CacheError::Fetch { cause: text("timed out") }));
}

#[test]
fn stored_entry_is_returned_as_fetched() {
    let (state, action) = step(&plain(10), State::Persist(fetched("b", 7)), Event::Stored, T0);
    assert_eq!(state, State::Done);
    assert_eq!(action, Action::Return(fetched("b", 7)));
}

#[test]
fn failed_write_hands_the_fetched_entry_over() {
    let (state, action) = step(
        &plain(10),
        State::Persist(fetched("b", 7)),
        Event::StorageFailed(text("database is locked")),
        T0,
    );
    assert_eq!(state, State::Done);
    let error = match action {
        Action::Fail(error) => error,
        other => panic!("unexpected action {:?}", other),
    };
    assert_eq!(error.fetched(), Some(&fetched("b", 7)));
    assert_eq!(
        error,
        CacheError::NotCached { record: fetched("b", 7), cause: text("database is locked") }
    );
}

#[test]
fn only_a_failed_write_carries_an_entry() {
    assert_eq!(CacheError::Storage { cause: text("x") }.fetched(), None);
    assert_eq!(CacheError::Fetch { cause: text("x") }.fetched(), None);
    assert_eq!(CacheError::InvalidUserAgent.fetched(), None);
    assert_eq!(CacheError::UnexpectedEvent.fetched(), None);
}

#[test]
fn event_that_answers_nothing_ends_the_fetch() {
    let unexpected = Action::Fail(CacheError::UnexpectedEvent);
    let (state, action) = step(&plain(10), State::Start, Event::Stored, T0);
    assert_eq!((state, &action), (State::Done, &unexpected));
    let (_, action) = step(&plain(10), State::Start, Event::Body(text("b")), T0);
    assert_eq!(action, unexpected);
    let (_, action) = step(&plain(10), State::CacheCheck, Event::Begin, T0);
    assert_eq!(action, unexpected);
    let (_, action) = step(&plain(10), State::CacheCheck, Event::TransportFailed(text("x")), T0);
    assert_eq!(action, unexpected);
    let (_, action) = step(&plain(10), State::Network, Event::Rows(Vec::new()), T0);
    assert_eq!(action, unexpected);
    let (_, action) = step(&plain(10), State::Network, Event::StorageFailed(text("x")), T0);
    assert_eq!(action, unexpected);
    let (_, action) = step(&plain(10), State::Persist(fetched("b", 7)), Event::Body(text("b")), T0);
    assert_eq!(action, unexpected);
    let (_, action) = step(&plain(10), State::Done, Event::Begin, T0);
    assert_eq!(action, unexpected);
    let (state, action) = step(&plain(10), State::Done, Event::Stored, T0);
    assert_eq!((state, action), (State::Done, unexpected));
}

#[test]
fn user_agent_is_checked_as_a_header_value() {
    assert!(user_agent_sendable(&None));
    assert!(user_agent_sendable(&Some(text(""))));
    assert!(user_agent_sendable(&Some(text("dummy"))));
    assert!(user_agent_sendable(&Some(text("Mozilla/5.0 (X11; Linux x86_64)"))));
    assert!(user_agent_sendable(&Some(text("tab\tseparated"))));
    assert!(user_agent_sendable(&Some(text("caf\u{e9} \u{1f600}"))));
    assert!(user_agent_sendable(&Some(text("\u{80}"))));
    assert!(user_agent_sendable(&Some(text("~"))));
    assert!(!user_agent_sendable(&Some(text("line\nbreak"))));
    assert!(!user_agent_sendable(&Some(text("carriage\rreturn"))));
    assert!(!user_agent_sendable(&Some(text("nul\u{0}"))));
    assert!(!user_agent_sendable(&Some(text("\u{1f}"))));
    assert!(!user_agent_sendable(&Some(text("delete\u{7f}"))));
}

#[test]
fn unsendable_user_agent_fails_where_the_network_would_be_asked() {
    let req = Request::new(text("http://example.com"), text("GET"), 10, None, Some(text("a\nb")));
    let (state, action) = step(&req, State::Start, Event::Begin, T0);
    assert_eq!(state, State::CacheCheck);
    assert!(matches!(action, Action::Lookup { .. }));
    let (state, action) = step(&req, State::CacheCheck, Event::Rows(Vec::new()), T0);
    assert_eq!(state, State::Done);
    assert_eq!(action, Action::Fail(CacheError::InvalidUserAgent));
    let live = vec![row("GET", "http://example.com", "cached", T0 + 5)];
    let (_, action) = step(&req, State::CacheCheck, Event::Rows(live), T0);
    assert!(matches!(action, Action::Return(_)));
    let forced =
        Request::new(text("http://example.com"), text("GET"), 10, Some(true), Some(text("a\nb")));
    let (state, action) = step(&forced, State::Start, Event::Begin, T0);
    assert_eq!(state, State::Done);
    assert_eq!(action, Action::Fail(CacheError::InvalidUserAgent));
}

/// Drives one fetch against a store in memory whose writes can be made to fail.
fn drive(
    store: &mut CacheStore,
    req: &Request,
    now: i64,
    answer: Result<&str, &str>,
    writable: bool,
) -> (Result<Record, CacheError>, Vec<&'static str>) {
    let mut trace: Vec<&'static str> = Vec::new();
    let mut state = State::Start;
    let mut event = Event::Begin;
    loop {
        let (next, action) = step(req, state, event, now);
        state = next;
        event = match action {
            Action::Lookup { url, method } => {
                trace.push("lookup");
                Event::Rows(store.select(&url, &method))
            }
            Action::Fetch { .. } => {
                trace.push("fetch");
                match answer {
                    Ok(body) => Event::Body(body.to_string()),
                    Err(cause) => Event::TransportFailed(cause.to_string()),
                }
            }
            Action::Store(row) => {
                trace.push("store");
                if writable {
                    store.replace(row);
                    Event::Stored
                } else {
                    Event::StorageFailed(text("readonly database"))
                }
            }
            Action::Return(record) => return (Ok(record), trace),
            Action::Fail(error) => return (Err(error), trace),
        };
    }
}

#[test]
fn driver_walks_the_machine_through_miss_hit_and_refresh() {
    let mut store = CacheStore::new();
    let req = plain(10000);
    let (got, trace) = drive(&mut store, &req, T0, Ok("one"), true);
    assert_eq!(got.unwrap().cached, Some(false));
    assert_eq!(trace, vec!["lookup", "fetch", "store"]);
    assert_eq!(store.len(), 1);
    let (got, trace) = drive(&mut store, &req, T0, Ok("two"), true);
    let hit = got.unwrap();
    assert_eq!(hit.cached, Some(true));
    assert_eq!(hit.response, "one");
    assert_eq!(trace, vec!["lookup"]);
    assert_eq!(store.len(), 1);
    let forced = Request::new(text("http://example.com"), text("GET"), 10000, Some(true), None);
    let (got, trace) = drive(&mut store, &forced, T0, Ok("three"), true);
    assert_eq!(got.unwrap().cached, Some(false));
    assert_eq!(trace, vec!["fetch", "store"]);
    assert_eq!(store.len(), 1);
    assert_eq!(store.rows()[0].response, "three");
}

#[test]
fn driver_does_not_retry_a_failed_transport() {
    let mut store = CacheStore::new();
    let (got, trace) = drive(&mut store, &plain(10), T0, Err("dns failure"), true);
    assert_eq!(got, Err(CacheError::Fetch { cause: text("dns failure") }));
    assert_eq!(trace, vec!["lookup", "fetch"]);
    assert_eq!(store.len(), 0);
}

#[test]
fn driver_reports_a_response_that_could_not_be_cached() {
    let mut store = CacheStore::new();
    let (got, trace) = drive(&mut store, &plain(10), T0, Ok("body"), false);
    assert_eq!(trace, vec!["lookup", "fetch", "store"]);
    let error = got.unwrap_err();
    let kept = error.fetched().unwrap();
    assert_eq!(kept.response, "body");
    assert_eq!(kept.cached, Some(false));
    assert_eq!(kept.expires, T0 + 10);
    assert_eq!(store.len(), 0);
}
