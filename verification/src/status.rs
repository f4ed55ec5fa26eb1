//! The status of a response: whether it is a success, and how it is
//! written out.

use vstd::prelude::*;
use crate::error::{opt_text, ErrorKind, ProviderError};
use crate::text::{decimal, decimal_text, owned};

verus! {

/// Whether a status is a success.
pub open spec fn is_success(status: u16) -> bool {
    200 <= status <= 299
}

/// Tells whether a status is a success.
pub fn succeeded(status: u16) -> (r: bool)
    ensures
        r == is_success(status),
{
    200 <= status && status <= 299
}

/// The reason phrase that `reqwest::StatusCode::canonical_reason` gives for
/// a status, `None` where it knows none. Only statuses from 100 to 999 are
/// asked.
pub uninterp spec fn reason_phrase(status: u16) -> Option<Seq<char>>;

/// Asks `reqwest::StatusCode::canonical_reason` for the reason phrase of a
/// status. `StatusCode::from_u16` takes exactly the statuses from 100 to
/// 999, which is what this asks of its caller; the phrase depends on the
/// status alone and is named `reason_phrase`.
#[verifier::external_body]
fn canonical_reason(status: u16) -> (r: Option<String>)
    requires
        100 <= status <= 999,
    ensures
        opt_text(r) == reason_phrase(status),
{
    match reqwest::StatusCode::from_u16(status) {
        Ok(code) => match code.canonical_reason() {
            Some(phrase) => Some(phrase.to_string()),
            None => None,
        },
        Err(_) => None,
    }
}

/// The reason phrase of a status, if it has one: none outside 100 to 999,
/// and what `reason_phrase` gives inside.
pub open spec fn reason_of(status: u16) -> Option<Seq<char>> {
    if 100 <= status <= 999 {
        reason_phrase(status)
    } else {
        None
    }
}

/// A status as it is written out, given its reason phrase: the number, a
/// space, and the phrase, or `<unknown status code>` where there is none.
pub open spec fn status_line(status: u16, reason: Option<Seq<char>>) -> Seq<char> {
    decimal(status as nat) + " "@ + match reason {
        Some(phrase) => phrase,
        None => "<unknown status code>"@,
    }
}

/// The reason phrase of a status, if it has one.
pub fn reason_text(status: u16) -> (r: Option<String>)
    ensures
        opt_text(r) == reason_of(status),
{
    if 100 <= status && status <= 999 {
        canonical_reason(status)
    } else {
        None
    }
}

/// Writes a status out with the given reason phrase.
pub fn status_text(status: u16, reason: &Option<String>) -> (r: String)
    ensures
        r@ == status_line(status, opt_text(*reason)),
{
    let mut r = decimal_text(status as u64);
    r.append(" ");
    match reason {
        Some(phrase) => {
            r.append(phrase.as_str());
        },
        None => {
            r.append("<unknown status code>");
        },
    }
    r
}

/// The message of an upstream failure: who answered, and with what status.
pub open spec fn upstream_message(
    who: Seq<char>,
    status: u16,
    reason: Option<Seq<char>>,
) -> Seq<char> {
    who + " answered "@ + status_line(status, reason)
}

/// Decides on a response by its status, given the status's reason phrase. A
/// status from 200 to 299 passes; any other is an `UpstreamError` that
/// names who answered and carries the status and the body.
pub fn judge_status(who: &str, status: u16, reason: &Option<String>, body: &str) -> (r: Result<
    (),
    ProviderError,
>)
    ensures
        match r {
            Ok(_) => is_success(status),
            Err(e) => {
                &&& !is_success(status)
                &&& e.kind == ErrorKind::UpstreamError
                &&& e.message@ == upstream_message(who@, status, opt_text(*reason))
                &&& e.status == Some(status)
                &&& opt_text(e.body) == Some(body@)
            },
        },
{
    if 200 <= status && status <= 299 {
        Ok(())
    } else {
        let mut message = owned(who);
        message.append(" answered ");
        message.append(status_text(status, reason).as_str());
        Err(
            ProviderError {
                kind: ErrorKind::UpstreamError,
                message,
                status: Some(status),
                body: Some(owned(body)),
            },
        )
    }
}

} // verus!
