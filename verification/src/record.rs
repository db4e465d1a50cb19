//! The cached entry, the row it is stored as, and the identity that names both.

use vstd::prelude::*;

verus! {

/// The natural key of a cacheable request: the URL and the method token, compared
/// character for character. No case folding, no trimming, no reordering of query
/// parameters: two spellings are two identities.
pub struct Identity {
    pub url: Seq<char>,
    pub method: Seq<char>,
}

/// One stored row, its fields in the order of the table's columns: the method, the
/// URL, the body of the response, and the Unix time in seconds at which the row
/// expires. Nothing else is persisted.
#[derive(Debug, PartialEq, Eq)]
pub struct Row {
    pub method: String,
    pub request: String,
    pub response: String,
    pub expires: i64,
}

/// What a `Row` holds, as plain mathematical values.
pub struct RowView {
    pub method: Seq<char>,
    pub request: Seq<char>,
    pub response: Seq<char>,
    pub expires: int,
}

impl RowView {
    pub open spec fn identity(self) -> Identity {
        Identity { url: self.request, method: self.method }
    }

    /// A row is live for as long as its expiry lies strictly in the future.
    pub open spec fn live_at(self, now: int) -> bool {
        self.expires > now
    }
}

impl View for Row {
    type V = RowView;

    open spec fn view(&self) -> RowView {
        RowView {
            method: self.method@,
            request: self.request@,
            response: self.response@,
            expires: self.expires as int,
        }
    }
}

impl Clone for Row {
    fn clone(&self) -> (copy: Row)
        ensures
            copy@ == self@,
    {
        Row {
            method: self.method.clone(),
            request: self.request.clone(),
            response: self.response.clone(),
            expires: self.expires,
        }
    }
}

/// An entry as a caller sees it: the stored columns and, in `cached`, how the entry
/// reached the caller on this call. `Some(true)` is an entry served from the cache,
/// `Some(false)` one that was just fetched from the network, `None` an entry that did
/// not come out of a fetch. The tag is never stored.
#[derive(Debug, PartialEq, Eq)]
pub struct Record {
    pub request: String,
    pub method: String,
    pub response: String,
    pub expires: i64,
    pub cached: Option<bool>,
}

/// What a `Record` holds, as plain mathematical values.
pub struct RecordView {
    pub request: Seq<char>,
    pub method: Seq<char>,
    pub response: Seq<char>,
    pub expires: int,
    pub cached: Option<bool>,
}

impl RecordView {
    pub open spec fn identity(self) -> Identity {
        Identity { url: self.request, method: self.method }
    }

    /// The stored part of the entry: everything but the tag.
    pub open spec fn row(self) -> RowView {
        RowView {
            method: self.method,
            request: self.request,
            response: self.response,
            expires: self.expires,
        }
    }
}

impl View for Record {
    type V = RecordView;

    open spec fn view(&self) -> RecordView {
        RecordView {
            request: self.request@,
            method: self.method@,
            response: self.response@,
            expires: self.expires as int,
            cached: self.cached,
        }
    }
}

impl Clone for Record {
    fn clone(&self) -> (copy: Record)
        ensures
            copy@ == self@,
    {
        Record {
            request: self.request.clone(),
            method: self.method.clone(),
            response: self.response.clone(),
            expires: self.expires,
            cached: self.cached,
        }
    }
}

/// The entry that a lookup hands out for a stored row.
pub open spec fn served_from_cache(row: RowView) -> RecordView {
    RecordView {
        request: row.request,
        method: row.method,
        response: row.response,
        expires: row.expires,
        cached: Some(true),
    }
}

/// The entry that a successful network fetch at `now` produces.
pub open spec fn fetched_from_network(
    id: Identity,
    body: Seq<char>,
    now: int,
    ttl_seconds: int,
) -> RecordView {
    RecordView {
        request: id.url,
        method: id.method,
        response: body,
        expires: now + ttl_seconds,
        cached: Some(false),
    }
}

impl Row {
    /// Tags a row that a lookup found.
    pub fn into_cached(self) -> (record: Record)
        ensures
            record@ == served_from_cache(self@),
    {
        Record {
            request: self.request,
            method: self.method,
            response: self.response,
            expires: self.expires,
            cached: Some(true),
        }
    }
}

impl Record {
    /// The row under which this entry is stored: the tag is dropped.
    pub fn to_row(&self) -> (row: Row)
        ensures
            row@ == self@.row(),
    {
        Row {
            method: self.method.clone(),
            request: self.request.clone(),
            response: self.response.clone(),
            expires: self.expires,
        }
    }
}

} // verus!
