//! HTTP status handling: which statuses count as success, and the error
//! a failed status is answered with.
use vstd::prelude::*;
use crate::error::{DataView, ErrorCode, ErrorView, ToolError, number_entry, text_entry, two_entries};
use crate::text::{dec_digits, push_decimal};

verus! {

/// The reason phrase that `http::StatusCode::canonical_reason` gives a
/// status (from the IANA registry table of the `http` crate).
pub uninterp spec fn canonical_reason_of(code: u16) -> Option<Seq<char>>;

/// Whether a status is a success (`StatusCode::is_success`: 200 to 299).
pub open spec fn spec_is_success(code: u16) -> bool {
    200 <= code < 300
}

/// `StatusCode::is_success`, on the status number.
pub fn is_success(code: u16) -> (r: bool)
    ensures
        r == spec_is_success(code),
{
    200 <= code && code < 300
}

/// The reason phrase of a status: `StatusCode::from_u16` then
/// `StatusCode::canonical_reason`; `None` for numbers that are not a
/// status (below 100 or above 999) and for statuses without a phrase.
#[verifier::external_body]
pub(crate) fn canonical_reason(code: u16) -> (r: Option<String>)
    ensures
        match r {
            Some(s) => canonical_reason_of(code) == Some(s@),
            None => canonical_reason_of(code) is None,
        },
{
    match reqwest::StatusCode::from_u16(code) {
        Ok(status) => match status.canonical_reason() {
            Some(phrase) => Some(phrase.to_string()),
            None => None,
        },
        Err(_) => None,
    }
}

/// The phrase shown for a status: its reason phrase, or `Unknown`.
pub open spec fn shown_reason(reason: Option<Seq<char>>) -> Seq<char> {
    match reason {
        Some(r) => r,
        None => "Unknown"@,
    }
}

/// `HTTP <status>: <reason>`.
pub open spec fn http_error_message(code: u16, reason: Option<Seq<char>>) -> Seq<char> {
    "HTTP "@ + dec_digits(code as nat) + ": "@ + shown_reason(reason)
}

/// The error that answers a fetch of `url` whose response had a failed status.
pub open spec fn http_error_view(url: Seq<char>, code: u16, reason: Option<Seq<char>>) -> ErrorView {
    ErrorView {
        code: ErrorCode::InternalError,
        message: http_error_message(code, reason),
        data: seq![("url"@, DataView::Text(url)), ("status"@, DataView::Number(code as u64))],
    }
}

/// The error for a failed status, given the status's reason phrase.
pub fn http_error(url: &str, code: u16, reason: Option<String>) -> (r: ToolError)
    ensures
        r@ == http_error_view(
            url@,
            code,
            match reason {
                Some(s) => Some(s@),
                None => None,
            },
        ),
{
    let mut message = String::from_str("HTTP ");
    push_decimal(&mut message, code as u64);
    message.append(": ");
    match &reason {
        Some(phrase) => message.append(phrase.as_str()),
        None => message.append("Unknown"),
    }
    let data = two_entries(text_entry("url", url), number_entry("status", code as u64));
    ToolError { code: ErrorCode::InternalError, message, data }
}

/// The error for a failed status of a response to a fetch of `url`.
pub fn status_error(url: &str, code: u16) -> (r: ToolError)
    ensures
        r@ == http_error_view(url@, code, canonical_reason_of(code)),
{
    let reason = canonical_reason(code);
    http_error(url, code, reason)
}

/// The server's text for a failed status:
/// `HTTP error <status>: <reason>. The server returned an error response.`
pub open spec fn server_http_error_message(code: u16, reason: Option<Seq<char>>) -> Seq<char> {
    "HTTP error "@ + dec_digits(code as nat) + ": "@ + shown_reason(reason)
        + ". The server returned an error response."@
}

/// The server's error for a fetch of `url` whose response had a failed status.
pub open spec fn server_http_error_view(url: Seq<char>, code: u16, reason: Option<Seq<char>>) -> ErrorView {
    ErrorView {
        code: ErrorCode::InternalError,
        message: server_http_error_message(code, reason),
        data: seq![("url"@, DataView::Text(url)), ("status"@, DataView::Number(code as u64))],
    }
}

/// The server's error for a failed status, given the status's reason phrase.
pub fn server_http_error(url: &str, code: u16, reason: Option<String>) -> (r: ToolError)
    ensures
        r@ == server_http_error_view(
            url@,
            code,
            match reason {
                Some(s) => Some(s@),
                None => None,
            },
        ),
{
    let mut message = String::from_str("HTTP error ");
    push_decimal(&mut message, code as u64);
    message.append(": ");
    match &reason {
        Some(phrase) => message.append(phrase.as_str()),
        None => message.append("Unknown"),
    }
    message.append(". The server returned an error response.");
    let data = two_entries(text_entry("url", url), number_entry("status", code as u64));
    ToolError { code: ErrorCode::InternalError, message, data }
}

/// The server's error for a failed status of a response to a fetch of `url`.
pub fn server_status_error(url: &str, code: u16) -> (r: ToolError)
    ensures
        r@ == server_http_error_view(url@, code, canonical_reason_of(code)),
{
    let reason = canonical_reason(code);
    server_http_error(url, code, reason)
}

} // verus!
