//! How a fetch can fail.

use crate::record::{Record, RecordView};
use vstd::prelude::*;

verus! {

/// The failure of a fetch. The first three variants mean that nothing could be
/// obtained; `NotCached` means that the response was obtained but could not be
/// written to the store, and hands the response over.
#[derive(Debug, PartialEq, Eq)]
pub enum CacheError {
    /// The store could not be read. `cause` is what the store reported.
    Storage { cause: String },
    /// The transport failed and produced no usable body. `cause` is what it reported.
    Fetch { cause: String },
    /// The user agent cannot be sent as a header value, so no request was made.
    InvalidUserAgent,
    /// The response was fetched, but the store could not persist it.
    NotCached { record: Record, cause: String },
    /// An event arrived that does not answer the action that was pending.
    UnexpectedEvent,
}

/// What a `CacheError` holds, as plain mathematical values.
pub enum CacheErrorView {
    Storage { cause: Seq<char> },
    Fetch { cause: Seq<char> },
    InvalidUserAgent,
    NotCached { record: RecordView, cause: Seq<char> },
    UnexpectedEvent,
}

impl View for CacheError {
    type V = CacheErrorView;

    open spec fn view(&self) -> CacheErrorView {
        match *self {
            CacheError::Storage { cause } => CacheErrorView::Storage { cause: cause@ },
            CacheError::Fetch { cause } => CacheErrorView::Fetch { cause: cause@ },
            CacheError::InvalidUserAgent => CacheErrorView::InvalidUserAgent,
            CacheError::NotCached { record, cause } => CacheErrorView::NotCached {
                record: record@,
                cause: cause@,
            },
            CacheError::UnexpectedEvent => CacheErrorView::UnexpectedEvent,
        }
    }
}

impl CacheErrorView {
    /// Whether the failure left the caller with nothing at all.
    pub open spec fn nothing_obtained(self) -> bool {
        !(self is NotCached)
    }
}

impl CacheError {
    /// The response that was fetched but not cached, where there is one.
    pub fn fetched(&self) -> (kept: Option<&Record>)
        ensures
            match kept {
                Some(entry) => self@ matches CacheErrorView::NotCached { record, .. } && record
                    == entry@,
                None => self@.nothing_obtained(),
            },
    {
        match self {
            CacheError::NotCached { record, .. } => Some(record),
            _ => None,
        }
    }
}

} // verus!
