//! Plain data models for the requests and responses that the dispatch core
//! works on.  The transport layer is expected to materialize an inbound
//! request into a [`Request`] (reading the body up front; `None` stands for a
//! body that could not be read) and to serialize the returned [`Response`]
//! back onto the wire.
use vstd::prelude::*;

verus! {

use vstd::string::*;

/// The request methods that routes can be registered for.
#[derive(Clone, Copy, Debug, PartialEq, Eq, Structural)]
pub enum Method {
    Get,
    Post,
    Put,
    Delete,
}

/// An inbound request: a method, a path, and the body already materialized
/// into a string (`None` when the transport failed to read it).
pub struct Request {
    pub method: Method,
    pub path: String,
    pub body: Option<String>,
}

/// An outbound response: a status code and a body.
pub struct Response {
    pub status: u16,
    pub body: String,
}

/// The mathematical value of a [`Request`].
pub struct ReqView {
    pub method: Method,
    pub path: Seq<char>,
    pub body: Option<Seq<char>>,
}

/// The mathematical value of a [`Response`].
pub struct RespView {
    pub status: u16,
    pub body: Seq<char>,
}

impl View for Request {
    type V = ReqView;

    open spec fn view(&self) -> ReqView {
        ReqView {
            method: self.method,
            path: self.path@,
            body: match self.body {
                Some(b) => Some(b@),
                None => None,
            },
        }
    }
}

impl View for Response {
    type V = RespView;

    open spec fn view(&self) -> RespView {
        RespView { status: self.status, body: self.body@ }
    }
}

/// The value of the fixed response that dispatch returns when no route
/// matches.
pub open spec fn not_found_view() -> RespView {
    RespView { status: 404, body: "Not Found"@ }
}

/// The value of the fixed response that a resource-generated handler returns
/// when the trailing path segment is missing or is not an integer.
pub open spec fn bad_request_view() -> RespView {
    RespView { status: 400, body: "Bad Request"@ }
}

/// The fixed response for a request that matched no route.
pub fn not_found() -> (r: Response)
    ensures
        r@ == not_found_view(),
{
    Response { status: 404, body: String::from_str("Not Found") }
}

/// The fixed response for a malformed trailing id segment.
pub fn bad_request() -> (r: Response)
    ensures
        r@ == bad_request_view(),
{
    Response { status: 400, body: String::from_str("Bad Request") }
}

} // verus!
