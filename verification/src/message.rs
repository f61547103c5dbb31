//! Requests and responses as the pipeline sees them, with their models.

use vstd::prelude::*;
use crate::headers::{HeaderSeq, Headers};

verus! {

/// Request methods; the ones that no route of this server tells apart are `Other`.
#[derive(Clone, Copy, Debug, PartialEq, Eq, Structural)]
pub enum Method {
    Get,
    Head,
    Post,
    Put,
    Delete,
    Other,
}

/// An inbound request. The pipeline reads it and never changes it.
pub struct Request {
    pub method: Method,
    pub path: Vec<u8>,
    pub headers: Headers,
    pub body: Vec<u8>,
}

/// The model of a request.
pub struct RequestView {
    pub method: Method,
    pub path: Seq<u8>,
    pub headers: HeaderSeq,
    pub body: Seq<u8>,
}

impl View for Request {
    type V = RequestView;

    open spec fn view(&self) -> RequestView {
        RequestView {
            method: self.method,
            path: self.path@,
            headers: self.headers@,
            body: self.body@,
        }
    }
}

/// An outbound response. `sized` tells whether the exact number of body bytes
/// is known before sending; a stream of unknown length has `sized == false`.
pub struct Response {
    pub status: u16,
    pub headers: Headers,
    pub body: Vec<u8>,
    pub sized: bool,
}

/// The model of a response.
pub struct ResponseView {
    pub status: u16,
    pub headers: HeaderSeq,
    pub body: Seq<u8>,
    pub sized: bool,
}

impl View for Response {
    type V = ResponseView;

    open spec fn view(&self) -> ResponseView {
        ResponseView {
            status: self.status,
            headers: self.headers@,
            body: self.body@,
            sized: self.sized,
        }
    }
}

/// The response that has only a status: no headers, an empty body of known size.
pub open spec fn bare(status: u16) -> ResponseView {
    ResponseView { status, headers: Seq::empty(), body: Seq::empty(), sized: true }
}

impl Response {
    /// A response with the given status, no headers and an empty body.
    pub fn with_status(status: u16) -> (r: Response)
        ensures
            r@ == bare(status),
    {
        Response { status, headers: Headers::new(), body: Vec::new(), sized: true }
    }

    /// Whether the status is one of the 500 class.
    pub fn is_server_error(&self) -> (r: bool)
        ensures
            r == (500 <= self@.status <= 599),
    {
        500 <= self.status && self.status <= 599
    }
}

} // verus!
