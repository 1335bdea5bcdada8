//! The protocol version names, as a request or status line writes them.
use vstd::prelude::*;

verus! {

pub const HTTP10: &'static str = "HTTP/1.0";

pub const HTTP11: &'static str = "HTTP/1.1";

pub const HTTP20: &'static str = "HTTP/2.0";

} // verus!
