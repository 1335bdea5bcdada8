//! Handlers: what answers a request once its route is known.
use crate::http::headers::{Headers, headers_wf};
use crate::http::request::Request;
use crate::http::response::Response;
use crate::http::status::Status;
use vstd::prelude::*;

verus! {

/// A function from a request to a response and an optional body.
pub struct Handler<F>(F);

impl<F> Handler<F> {
    /// The function.
    pub closed spec fn func(&self) -> F {
        self.0
    }
}

/// Wraps a function as a handler.
pub fn primitive<F: Fn(Request) -> (Response, Option<Vec<u8>>)>(func: F) -> (r: Handler<F>)
    ensures
        r.func() == func,
{
    Handler(func)
}

impl<F: Fn(Request) -> (Response, Option<Vec<u8>>)> Handler<F> {
    /// Calls the function on `req`.
    pub fn handle(&self, req: Request) -> (r: (Response, Option<Vec<u8>>))
        requires
            call_requires(self.func(), (req,)),
        ensures
            call_ensures(self.func(), (req,), r),
    {
        (self.0)(req)
    }
}

/// The answer of `not_found_404`.
fn not_found_response(req: Request) -> (out: (Response, Option<Vec<u8>>))
    ensures
        out.0.version == req.version,
        out.0.status == Status::NotFound404,
        out.0.headers@.len() == 0,
        out.1 is None,
{
    let headers = Headers::default();
    let resp = Response { version: req.version, status: Status::NotFound404, headers };
    (resp, None)
}

/// A handler that answers every request with `404 Not Found` in the request's version, no
/// headers and no body.
pub fn not_found_404() -> (r: Handler<impl Fn(Request) -> (Response, Option<Vec<u8>>)>)
    ensures
        forall|req: Request| call_requires(r.func(), (req,)),
        forall|req: Request, out: (Response, Option<Vec<u8>>)|
            call_ensures(r.func(), (req,), out) ==> {
                &&& out.0.version == req.version
                &&& out.0.status == Status::NotFound404
                &&& out.0.headers@.len() == 0
                &&& out.1 is None
            },
{
    primitive(not_found_response)
}

} // verus!
