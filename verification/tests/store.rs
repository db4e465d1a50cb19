use request_cache::{find_live_row, CacheStore, Row};

fn row(method: &str, url: &str, body: &str, expires: i64) -> Row {
    Row {
        method: method.to_string(),
        request: url.to_string(),
        response: body.to_string(),
        expires,
    }
}

fn text(s: &str) -> String {
    s.to_string()
}

#[test]
fn new_store_is_empty() {
    let store = CacheStore::new();
    assert_eq!(store.len(), 0);
    assert_eq!(store.rows().len(), 0);
    assert_eq!(store.count(&text("http://example.com"), &text("GET")), 0);
    assert!(store.find_live(&text("http://example.com"), &text("GET"), 0).is_none());
}

#[test]
fn lookup_in_no_rows_is_a_miss() {
    let rows: Vec<Row> = Vec::new();
    assert_eq!(find_live_row(&rows, &text("http://example.com"), &text("GET"), 0), None);
}

#[test]
fn lookup_finds_the_live_row() {
    let rows = vec![row("GET", "http://example.com", "body", 11)];
    let found = find_live_row(&rows, &text("http://example.com"), &text("GET"), 10);
    assert_eq!(found, Some(row("GET", "http://example.com", "body", 11)));
}

#[test]
fn row_that_expires_now_is_stale() {
    let rows = vec![row("GET", "http://example.com", "body", 10)];
    assert_eq!(find_live_row(&rows, &text("http://example.com"), &text("GET"), 10), None);
    assert_eq!(find_live_row(&rows, &text("http://example.com"), &text("GET"), 11), None);
    assert!(find_live_row(&rows, &text("http://example.com"), &text("GET"), 9).is_some());
}

#[test]
fn lookup_prefers_the_longest_lived_row() {
    let rows = vec![
        row("GET", "http://example.com", "short", 20),
        row("GET", "http://example.com", "long", 40),
        row("GET", "http://example.com", "middle", 30),
    ];
    let found = find_live_row(&rows, &text("http://example.com"), &text("GET"), 10).unwrap();
    assert_eq!(found.response, "long");
    assert_eq!(found.expires, 40);
}

#[test]
fn lookup_breaks_ties_by_insertion_order() {
    let rows = vec![
        row("GET", "http://example.com", "stale", 5),
        row("GET", "http://example.com", "first", 40),
        row("GET", "http://example.com", "second", 40),
    ];
    let found = find_live_row(&rows, &text("http://example.com"), &text("GET"), 10).unwrap();
    assert_eq!(found.response, "first");
}

#[test]
fn lookup_passes_over_expired_rows_that_were_inserted_later() {
    let rows = vec![
        row("GET", "http://example.com", "live", 40),
        row("GET", "http://example.com", "expired", 10),
    ];
    let found = find_live_row(&rows, &text("http://example.com"), &text("GET"), 10).unwrap();
    assert_eq!(found.response, "live");
}

#[test]
fn lookup_passes_over_other_identities() {
    let rows = vec![
        row("POST", "http://example.com", "post", 90),
        row("GET", "http://example.org", "org", 90),
        row("GET", "http://example.com", "wanted", 20),
    ];
    let found = find_live_row(&rows, &text("http://example.com"), &text("GET"), 10).unwrap();
    assert_eq!(found.response, "wanted");
}

#[test]
fn identity_is_exact_string_equality() {
    let rows = vec![row("GET", "http://example.com", "body", 90)];
    assert!(find_live_row(&rows, &text("http://example.com"), &text("GET"), 10).is_some());
    assert_eq!(find_live_row(&rows, &text("http://example.com/"), &text("GET"), 10), None);
    assert_eq!(find_live_row(&rows, &text("http://EXAMPLE.com"), &text("GET"), 10), None);
    assert_eq!(find_live_row(&rows, &text("http://example.com"), &text("get"), 10), None);
    assert_eq!(find_live_row(&rows, &text("http://example.com "), &text("GET"), 10), None);
    assert_eq!(find_live_row(&rows, &text("GET"), &text("http://example.com"), 10), None);
}

#[test]
fn lookup_works_with_negative_times() {
    let rows = vec![row("GET", "u", "body", -5)];
    assert!(find_live_row(&rows, &text("u"), &text("GET"), -6).is_some());
    assert_eq!(find_live_row(&rows, &text("u"), &text("GET"), -5), None);
    let rows = vec![row("GET", "u", "body", i64::MAX)];
    assert!(find_live_row(&rows, &text("u"), &text("GET"), i64::MAX - 1).is_some());
    assert_eq!(find_live_row(&rows, &text("u"), &text("GET"), i64::MAX), None);
}

#[test]
fn replace_inserts_a_first_row() {
    let mut store = CacheStore::new();
    store.replace(row("GET", "http://example.com", "one", 100));
    assert_eq!(store.len(), 1);
    assert_eq!(store.count(&text("http://example.com"), &text("GET")), 1);
    assert_eq!(store.rows()[0], row("GET", "http://example.com", "one", 100));
}

#[test]
fn replace_supersedes_the_row_of_the_same_identity() {
    let mut store = CacheStore::new();
    store.replace(row("GET", "http://example.com", "one", 100));
    store.replace(row("GET", "http://example.com", "two", 50));
    assert_eq!(store.len(), 1);
    assert_eq!(store.count(&text("http://example.com"), &text("GET")), 1);
    assert_eq!(store.rows()[0], row("GET", "http://example.com", "two", 50));
}

#[test]
fn replace_leaves_other_identities_in_place_and_in_order() {
    let mut store = CacheStore::new();
    store.replace(row("GET", "a", "a1", 100));
    store.replace(row("GET", "b", "b1", 100));
    store.replace(row("POST", "a", "pa1", 100));
    store.replace(row("GET", "a", "a2", 200));
    assert_eq!(store.len(), 3);
    assert_eq!(
        store.rows(),
        &vec![row("GET", "b", "b1", 100), row("POST", "a", "pa1", 100), row("GET", "a", "a2", 200)]
    );
    assert_eq!(store.count(&text("a"), &text("GET")), 1);
    assert_eq!(store.count(&text("b"), &text("GET")), 1);
    assert_eq!(store.count(&text("a"), &text("POST")), 1);
    assert_eq!(store.count(&text("b"), &text("POST")), 0);
}

#[test]
fn select_hands_out_the_rows_of_one_identity() {
    let mut store = CacheStore::new();
    assert_eq!(store.select(&text("a"), &text("GET")), Vec::<Row>::new());
    store.replace(row("GET", "a", "a1", 100));
    store.replace(row("POST", "a", "pa1", 5));
    store.replace(row("GET", "b", "b1", 100));
    assert_eq!(store.select(&text("a"), &text("GET")), vec![row("GET", "a", "a1", 100)]);
    assert_eq!(store.select(&text("a"), &text("POST")), vec![row("POST", "a", "pa1", 5)]);
    assert_eq!(store.select(&text("b"), &text("GET")), vec![row("GET", "b", "b1", 100)]);
    assert_eq!(store.select(&text("b"), &text("POST")), Vec::<Row>::new());
    assert_eq!(store.select(&text("A"), &text("GET")), Vec::<Row>::new());
    assert_eq!(store.len(), 3);
}

#[test]
fn replace_of_an_expired_row_still_leaves_one_row() {
    let mut store = CacheStore::new();
    store.replace(row("GET", "a", "old", 10));
    assert!(store.find_live(&text("a"), &text("GET"), 10).is_none());
    assert_eq!(store.count(&text("a"), &text("GET")), 1);
    store.replace(row("GET", "a", "new", 30));
    assert_eq!(store.count(&text("a"), &text("GET")), 1);
    assert_eq!(store.len(), 1);
}

#[test]
fn store_lookup_tags_the_entry_as_cached() {
    let mut store = CacheStore::new();
    store.replace(row("GET", "http://example.com", "body", 100));
    let record = store.find_live(&text("http://example.com"), &text("GET"), 99).unwrap();
    assert_eq!(record.cached, Some(true));
    assert_eq!(record.request, "http://example.com");
    assert_eq!(record.method, "GET");
    assert_eq!(record.response, "body");
    assert_eq!(record.expires, 100);
    assert!(store.find_live(&text("http://example.com"), &text("GET"), 100).is_none());
    assert_eq!(store.len(), 1);
}

#[test]
fn row_and_record_convert_into_each_other() {
    let stored = row("GET", "http://example.com", "body", 7);
    let record = stored.clone().into_cached();
    assert_eq!(record.cached, Some(true));
    assert_eq!(record.to_row(), stored);
    let copy = record.clone();
    assert_eq!(copy, record);
}
