//! What one connection does with the bytes of its single read: the handler
//! it selects, or the text it writes back at once; and the text it writes
//! once the handler has answered.
use vstd::prelude::*;
use crate::message::{HttpError, Request, Response};
use crate::parser::{http_request_head, parse_request, request_outcome, request_view, ParseError};
use crate::router::Router;
use crate::serializer::{decimal, error_line, error_text, response_text, serialize_response};

verus! {

/// The line written back when no route matches a request.
pub open spec fn fallback_text() -> Seq<char> {
    "HTTP/1.1 "@ + decimal(500) + " "@ + "Internal Server Error"@
}

/// The next step of a connection after its read.
pub enum Dispatch<'a, H> {
    /// Call this handler with this request.
    Invoke(&'a H, Request),
    /// Write this text back and close.
    Reply(String),
    /// The read held no request: close without an answer.
    Close(ParseError),
}

/// Selects the handler bound to the request's method and path; where none is
/// bound, the answer is an internal server error.
pub fn handle_route<'a, H>(request: Request, routes: &'a Router<H>) -> (r: Result<(&'a H, Request), HttpError>)
    requires
        routes.wf(),
    ensures
        routes@.contains_key((request.method@, request.uri@)) ==> (r matches Ok((h, q))
            && *h == routes@[(request.method@, request.uri@)] && q == request),
        !routes@.contains_key((request.method@, request.uri@)) ==> (r matches Err(e)
            && e.status_code == 500 && e.message@ == "Internal Server Error"@),
{
    match routes.lookup(&request.method, request.uri.as_str()) {
        Some(h) => Ok((h, request)),
        None => Err(HttpError::internal_server_error()),
    }
}

/// Decides what a connection does with the bytes of its read: close when
/// they hold no request, answer with the fallback line when no route
/// matches, and otherwise hand the request to the bound handler.
pub fn dispatch<'a, H>(routes: &'a Router<H>, buf: &[u8]) -> (r: Dispatch<'a, H>)
    requires
        routes.wf(),
    ensures
        match request_outcome(http_request_head(buf@), buf@) {
            Err(e) => r matches Dispatch::Close(c) && c == e,
            Ok(q) => if routes@.contains_key((q.method, q.uri)) {
                r matches Dispatch::Invoke(h, req) && *h == routes@[(q.method, q.uri)]
                    && request_view(req) == q && req.headers.wf()
            } else {
                r matches Dispatch::Reply(s) && s@ == fallback_text()
            },
        },
{
    match parse_request(buf) {
        Err(e) => Dispatch::Close(e),
        Ok(request) => match handle_route(request, routes) {
            Ok((h, q)) => Dispatch::Invoke(h, q),
            Err(e) => {
                let s = error_line(&e);
                assert(s@ =~= fallback_text());
                Dispatch::Reply(s)
            },
        },
    }
}

/// The text written back once the handler has answered: the response in
/// full, or a single status line for an error.
pub fn respond(result: &Result<Response, HttpError>) -> (out: String)
    ensures
        match result {
            Ok(resp) => out@ == response_text(*resp),
            Err(e) => out@ == error_text(*e),
        },
{
    match result {
        Ok(resp) => serialize_response(resp),
        Err(e) => error_line(e),
    }
}

} // verus!
