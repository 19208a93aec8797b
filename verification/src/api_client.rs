//! The remote half of the dual store, seen from the core: the envelope every
//! endpoint answers with, the description of a single POST for the
//! application to perform, and the uniform classification of responses.
//!
//! The core never performs network I/O itself.  A repository operation that
//! wants a remote call hands back a [`RemotePost`]; the surrounding
//! application sends it and, for remote-exclusive reads, feeds the decoded
//! envelope back in.

use vstd::prelude::*;
use vstd::string::*;

verus! {

/// The `{data, message}` envelope in which the remote service answers every
/// call.
pub struct ApiResponse<T> {
    pub data: Option<T>,
    pub message: Option<String>,
}

/// A body for calls that carry no payload, and the answer to calls whose
/// `data` is of no interest.
pub struct EmptyData;

/// How a remote call fails: the configured base address did not parse, or the
/// single POST attempt failed (transport failure or a non-2xx status, both
/// carrying a human-readable detail), or the response body was not a valid
/// envelope.
#[derive(Debug)]
pub enum ApiClientError {
    UrlParseError,
    PostError(String),
    DecodeError,
}

/// One remote call for the application to perform: POST `body` (a JSON
/// document) to `path` under the configured base address.
pub struct RemotePost {
    pub path: String,
    pub body: String,
}

/// What a repository `read` decided: the local answer, or the remote call to
/// perform instead.  The two are exclusive — a remote read never falls back
/// to the local store, nor the other way round.
pub enum ReadOutcome<T> {
    Local(Option<T>),
    Remote(RemotePost),
}

/// What a repository `list` decided, with the same exclusivity.
pub enum ListOutcome<T> {
    Local(Vec<T>),
    Remote(RemotePost),
}

impl ApiClientError {
    /// A short human-readable description, with the transport detail where
    /// one was recorded.
    pub fn message(&self) -> (r: String)
        ensures
            self is PostError ==> r@ == "Failed to POST: "@ + self->PostError_0@,
            self is UrlParseError ==> r@ == "Failed to parse Base Server URL."@,
            self is DecodeError ==> r@ == "Failed to decode response body."@,
    {
        match self {
            ApiClientError::UrlParseError => String::from_str("Failed to parse Base Server URL."),
            ApiClientError::PostError(detail) => {
                let mut out = String::from_str("Failed to POST: ");
                out.append(detail.as_str());
                out
            },
            ApiClientError::DecodeError => String::from_str("Failed to decode response body."),
        }
    }
}

/// Whether an HTTP status is a success, per the 2xx class the remote client
/// accepts; everything else is classified as a failed request.
pub fn status_is_success(status: u16) -> (r: bool)
    ensures
        r == (200 <= status && status < 300),
{
    200 <= status && status < 300
}

/// What a remote-exclusive `read` returns for a decoded envelope: exactly the
/// record the remote reported, and absence as an empty result, not an error.
pub fn remote_find_result<T>(resp: ApiResponse<T>) -> (r: Option<T>)
    ensures
        r == resp.data,
{
    resp.data
}

/// What a remote-exclusive `list` returns for a decoded envelope: the
/// reported records, and a missing `data` field as the empty list.
pub fn remote_list_result<T>(resp: ApiResponse<Vec<T>>) -> (r: Vec<T>)
    ensures
        match resp.data {
            Some(items) => r == items,
            None => r@ == Seq::<T>::empty(),
        },
{
    match resp.data {
        Some(items) => items,
        None => Vec::new(),
    }
}

} // verus!
