//! The HTTP surface: the two routes and the responses that the service sends.

use vstd::prelude::*;
use vstd::string::*;

verus! {

/// An HTTP response: a status and a plain-text body.
#[derive(Clone, Debug, PartialEq, Eq)]
pub struct Response {
    pub status: u16,
    pub body: String,
}

/// The mathematical value of a [`Response`].
pub struct ResponseView {
    pub status: u16,
    pub body: Seq<char>,
}

impl View for Response {
    type V = ResponseView;

    open spec fn view(&self) -> ResponseView {
        ResponseView { status: self.status, body: self.body@ }
    }
}

/// Where a request goes.
#[derive(Clone, Copy, Debug, PartialEq, Eq, Structural)]
pub enum Route {
    /// `POST /receive`: a webhook delivery.
    Receive,
    /// `GET /health`: a liveness probe.
    Health,
    /// Anything else.
    NotFound,
}

/// The response that acknowledges a delivery or a probe: 200 with body `OK`.
pub open spec fn ok_response() -> ResponseView {
    ResponseView { status: 200, body: "OK"@ }
}

/// The response to a request that no route serves: 404.
pub open spec fn not_found_response() -> ResponseView {
    ResponseView { status: 404, body: "not found"@ }
}

/// Where a request with the given method and path goes.
pub open spec fn route_of(method: Seq<char>, path: Seq<char>) -> Route {
    if method == "POST"@ && path == "/receive"@ {
        Route::Receive
    } else if method == "GET"@ && path == "/health"@ {
        Route::Health
    } else {
        Route::NotFound
    }
}

/// Whether two texts are the same.
fn same_text(a: &str, b: &str) -> (same: bool)
    ensures
        same == (a@ == b@),
{
    let left: String = String::from_str(a);
    let right: String = String::from_str(b);
    left == right
}

/// Picks the route of a request. Method and path are matched exactly.
pub fn route(method: &str, path: &str) -> (picked: Route)
    ensures
        picked == route_of(method@, path@),
{
    if same_text(method, "POST") && same_text(path, "/receive") {
        Route::Receive
    } else if same_text(method, "GET") && same_text(path, "/health") {
        Route::Health
    } else {
        Route::NotFound
    }
}

/// The response that acknowledges a delivery.
pub fn acknowledgment() -> (response: Response)
    ensures
        response@ == ok_response(),
{
    Response { status: 200, body: String::from_str("OK") }
}

/// The answer to a liveness probe. It reads no state and cannot fail: whatever
/// the process holds and however many deliveries are in flight, it is 200 with
/// body `OK`.
pub fn health_response() -> (response: Response)
    ensures
        response@ == ok_response(),
{
    Response { status: 200, body: String::from_str("OK") }
}

/// The answer to a request that no route serves.
pub fn not_found() -> (response: Response)
    ensures
        response@ == not_found_response(),
{
    Response { status: 404, body: String::from_str("not found") }
}

} // verus!
