//! A lookaside cache for outbound HTTP requests.
//!
//! Given the identity of a request, its URL and method, the cache hands out a
//! response that was obtained earlier and is still valid; otherwise the request goes
//! to the network, and the response is remembered for as long as the caller says.
//!
//! The crate holds the decisions and leaves the outside work to its caller:
//!
//! - [`machine`] is one fetch as a state machine. Its driver reads and writes the
//!   durable store and talks to the network; [`machine::step`] says what to do next.
//! - [`table`] is the table of cached rows as a mathematical object: what a lookup
//!   finds and how a new row supersedes the old ones.
//! - [`store`] is the lookup over rows in executable form, and [`store::CacheStore`],
//!   a table held in memory.
//! - [`fetch`] states what a fetch as a whole returns and leaves behind, and runs the
//!   machine against a table in memory.
//! - [`coherence`] proves what holds of fetches that follow one another.

pub mod coherence;
pub mod error;
pub mod fetch;
pub mod header;
pub mod machine;
pub mod record;
pub mod store;
pub mod table;

pub use error::CacheError;
pub use fetch::{request, storage_location};
pub use header::user_agent_sendable;
pub use machine::{expiry, step, Action, Event, Request, State};
pub use record::{Record, Row};
pub use store::{find_live_row, CacheStore};
