//! What the HTTP fetch adapter decides: how a client is to be set up and
//! which responses count. The request itself is made by the caller.

use crate::error::{Error, ErrorView};
use vstd::prelude::*;

verus! {

/// How many redirects a fetch follows before it gives up.
pub const MAX_REDIRECTS: usize = 5;

/// Body and content type of a response, or why there is none, as plain values.
pub type ResponseView = Result<(Seq<u8>, Seq<char>), ErrorView>;

/// The view of what a fetch handed back.
pub open spec fn response_view(r: Result<(Vec<u8>, String), Error>) -> ResponseView {
    match r {
        Ok((body, content_type)) => Ok((body@, content_type@)),
        Err(e) => Err(e@),
    }
}

/// A status in 200..=299.
pub open spec fn is_success(status: u16) -> bool {
    200 <= status < 300
}

/// What a response with the given status, `Content-Type` header and body
/// amounts to: on success the body with the content type, the empty text
/// standing for a missing header; else the error that holds the status.
pub open spec fn response_outcome(
    status: u16,
    content_type: Option<Seq<char>>,
    body: Seq<u8>,
) -> ResponseView {
    if is_success(status) {
        Ok(
            (
                body,
                match content_type {
                    Some(t) => t,
                    None => Seq::empty(),
                },
            ),
        )
    } else {
        Err(ErrorView::HttpStatus(status))
    }
}

/// The user agent every request names.
pub fn user_agent() -> (r: &'static str)
    ensures
        r@ == "Mozilla/5.0 (X11; Linux x86_64)"@,
{
    "Mozilla/5.0 (X11; Linux x86_64)"
}

/// Whether a response with this status is a success, whose body is worth reading.
pub fn succeeded(status: u16) -> (r: bool)
    ensures
        r == is_success(status),
{
    200 <= status && status < 300
}

/// Judges a response that arrived.
pub fn accept_response(status: u16, content_type: Option<String>, body: Vec<u8>) -> (r: Result<
    (Vec<u8>, String),
    Error,
>)
    ensures
        response_view(r) == response_outcome(
            status,
            match content_type {
                Some(t) => Some(t@),
                None => None,
            },
            body@,
        ),
{
    if succeeded(status) {
        let content_type = match content_type {
            Some(t) => t,
            None => String::new(),
        };
        Ok((body, content_type))
    } else {
        Err(Error::HttpStatus(status))
    }
}

} // verus!
