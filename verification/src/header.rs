//! Which strings the HTTP transport takes as the value of a request header.

use vstd::prelude::*;

verus! {

/// A character that may stand in a header value: a tab, or anything from the space
/// upwards but the delete character.
pub open spec fn header_char(c: char) -> bool {
    c == '\t' || (c >= ' ' && c != '\u{7f}')
}

/// A string that can be sent as a header value: all its characters may stand in one.
pub open spec fn header_text(text: Seq<char>) -> bool {
    forall|i: int| 0 <= i < text.len() ==> header_char(#[trigger] text[i])
}

/// The characters of an optional string.
pub open spec fn text_of(text: Option<String>) -> Option<Seq<char>> {
    match text {
        Some(s) => Some(s@),
        None => None,
    }
}

/// A user agent that can be sent: none at all, or one that is a header value.
pub open spec fn sendable(user_agent: Option<Seq<char>>) -> bool {
    match user_agent {
        Some(text) => header_text(text),
        None => true,
    }
}

/// Asks `reqwest::header::HeaderValue::from_str` whether it takes `value`.
///
/// Trusted, not proved. That function (of the `http` crate, which `reqwest` hands on)
/// walks the bytes of `value` and refuses it if and only if some byte is below 32 and
/// not a tab, or is 127. Its documentation speaks of visible ASCII only; its code also
/// passes the tab and every byte from 128 upwards. A character of 128 or above is
/// encoded in bytes of 128 or above, and a character below 128 is its own single
/// byte, so the test on bytes is the test on characters that `header_text` states.
#[verifier::external_body]
fn header_value_accepts(value: &str) -> (accepted: bool)
    ensures
        accepted == header_text(value@),
{
    reqwest::header::HeaderValue::from_str(value).is_ok()
}

/// Whether a request that carries this user agent can be sent.
pub fn user_agent_sendable(user_agent: &Option<String>) -> (ok: bool)
    ensures
        ok == sendable(text_of(*user_agent)),
{
    match user_agent {
        Some(text) => header_value_accepts(text.as_str()),
        None => true,
    }
}

} // verus!
