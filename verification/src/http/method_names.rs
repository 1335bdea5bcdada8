//! The request method names, as they are written on the request line.
use vstd::prelude::*;

verus! {

pub const GET: &'static str = "GET";

pub const HEAD: &'static str = "HEAD";

pub const POST: &'static str = "POST";

pub const PUT: &'static str = "PUT";

pub const DELETE: &'static str = "DELETE";

pub const CONNECT: &'static str = "CONNECT";

pub const OPTIONS: &'static str = "OPTIONS";

pub const TRACE: &'static str = "TRACE";

pub const PATCH: &'static str = "PATCH";

} // verus!
