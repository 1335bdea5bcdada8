//! A small HTTP server library: message parsing and serialisation, routing of request
//! paths to handlers, and the buffering that sits between a TCP stream and the parser.
use crate::http::cibstr::{find_pattern, find_pattern_from, slice_range};
use crate::http::error::{Error, ErrorView};
use crate::http::request::{
    content_length_of, parse_request, Request, RequestPolicy, RequestTarget, RequestTargetView, RequestView,
};
use crate::route::{lookup_node, segments, Node, Routes};
use crate::text::{owned, str_from_utf8};
use vstd::utf8::{decode_utf8, valid_utf8};
use crate::util::StreamBuffer;
use vstd::prelude::*;

pub mod text;
pub mod http;
pub mod maht;
pub mod route;
pub mod handler;
pub mod util;
pub mod ext;
pub mod query;

verus! {

/// A response and its body.
pub struct Response {
    pub http: http::response::Response,
    pub body: Option<Vec<u8>>,
}

impl Response {
    /// The bytes that are sent for the response: its status line and header lines, then,
    /// when it has a body, CR LF and the body.
    pub fn to_wire(&self) -> (r: Vec<u8>)
        ensures
            r@ == http::response::response_bytes(self.http.version, self.http.status, self.http.headers@) + match self.body {
                Some(b) => seq![0x0du8, 0x0au8] + b@,
                None => Seq::<u8>::empty(),
            },
    {
        let mut out = self.http.to_bytes();
        let ghost head = out@;
        match &self.body {
            Some(b) => {
                out.push(0x0d);
                out.push(0x0a);
                crate::text::extend_bytes(&mut out, b.as_slice());
                assert(out@ =~= head + (seq![0x0du8, 0x0au8] + b@));
            },
            None => {
                assert(out@ =~= head + Seq::<u8>::empty());
            },
        }
        out
    }
}

/// CR LF CR LF, which ends a header block.
pub open spec fn double_crlf() -> Seq<u8> {
    seq![0x0du8, 0x0au8, 0x0du8, 0x0au8]
}

/// Where the header block in `buf` ends: just after its first CR LF CR LF.
pub open spec fn header_end(buf: Seq<u8>) -> Option<int> {
    match find_pattern_from(buf, double_crlf(), true, 0) {
        Some(i) => Some(i + 4),
        None => None,
    }
}

/// The length of the header block at the start of `buf`, blank line included, if `buf`
/// holds a whole one.
pub fn identify_header(buf: &[u8]) -> (r: Option<usize>)
    ensures
        match header_end(buf@) {
            Some(n) => r matches Some(x) && x == n,
            None => r is None,
        },
        r matches Some(x) ==> x <= buf@.len(),
{
    let pat: [u8; 4] = [0x0d, 0x0a, 0x0d, 0x0a];
    let p = pat.as_slice();
    assert(p@ =~= double_crlf());
    let i = find_pattern(true, buf, p);
    if i < buf.len() {
        Some(i + 4)
    } else {
        None
    }
}

/// What to do next while waiting for a whole header block.
#[derive(Debug, PartialEq, Eq, Structural)]
pub enum HeaderSniff {
    /// The header block ends here (its length, blank line included).
    Found(usize),
    /// The buffer reached its limit without one.
    TooLarge,
    /// The time allowed ran out without one.
    TimedOut,
    /// Read more from the stream.
    ReadMore,
}

/// One step of waiting for a header block: look for its end from four bytes before the
/// bytes that the last read added, then give up if the buffer is as long as `len_buf_bail`
/// or the time is out, and otherwise read more.
pub fn sniff_header<R>(buf: &StreamBuffer<R>, len_buf_bail: usize, timed_out: bool) -> (r: HeaderSniff)
    requires
        buf.len <= buf.buf@.len(),
        buf.len_old <= buf.len,
    ensures
        ({
            let start = if buf.len_old >= 4 { buf.len_old - 4 } else { 0 };
            match header_end(buf.buf@.subrange(start as int, buf.len as int)) {
                Some(k) => r == HeaderSniff::Found((start + k) as usize),
                None => if buf.len == len_buf_bail {
                    r == HeaderSniff::TooLarge
                } else if timed_out {
                    r == HeaderSniff::TimedOut
                } else {
                    r == HeaderSniff::ReadMore
                },
            }
        }),
{
    let start = buf.len_old.saturating_sub(4);
    let eff = buf.buf_eff();
    let window = slice_range(eff, start, buf.len);
    assert(window@ =~= buf.buf@.subrange(start as int, buf.len as int));
    if let Some(k) = identify_header(window) {
        return HeaderSniff::Found(start + k);
    }
    if buf.len == len_buf_bail {
        return HeaderSniff::TooLarge;
    }
    if timed_out {
        return HeaderSniff::TimedOut;
    }
    HeaderSniff::ReadMore
}

/// Why a request whose header block has arrived cannot be served.
#[derive(Debug)]
pub enum PlanError {
    /// The header block is not UTF-8.
    NotUtf8,
    /// The request does not parse.
    Malformed(Error),
    /// The target is not a path.
    NotOrigin(RequestTarget),
    /// No route takes the path (the path).
    NoRoute(String),
    /// The `Content-Length` is not usable.
    ContentLength(Error),
}

/// The mathematical content of a `PlanError`.
pub enum PlanErrorView {
    NotUtf8,
    Malformed(ErrorView),
    NotOrigin(RequestTargetView),
    NoRoute(Seq<char>),
    ContentLength(ErrorView),
}

impl View for PlanError {
    type V = PlanErrorView;

    open spec fn view(&self) -> PlanErrorView {
        match self {
            PlanError::NotUtf8 => PlanErrorView::NotUtf8,
            PlanError::Malformed(e) => PlanErrorView::Malformed(e@),
            PlanError::NotOrigin(t) => PlanErrorView::NotOrigin(t@),
            PlanError::NoRoute(p) => PlanErrorView::NoRoute(p@),
            PlanError::ContentLength(e) => PlanErrorView::ContentLength(e@),
        }
    }
}

/// What serving the header block `head` comes to: the request it parses to, the handler
/// that the route tree below `root` gives for its path, and the length of the body that
/// its headers announce (0 without one).
pub open spec fn request_plan<H>(
    root: Node<H>,
    head: Seq<char>,
    allow_untrimmed: bool,
    dup: http::request::RequestDuplicatSingletonPolicy,
) -> Result<(H, RequestView, u64), PlanErrorView> {
    match parse_request(head, allow_untrimmed) {
        Err(e) => Err(PlanErrorView::Malformed(e)),
        Ok(req) => match req.target {
            RequestTargetView::Origin(path) => match lookup_node(root, segments(path)) {
                None => Err(PlanErrorView::NoRoute(path)),
                Some((h, _)) => match content_length_of(req.headers, dup) {
                    Err(e) => Err(PlanErrorView::ContentLength(e)),
                    Ok(n) => Ok((h, req, match n { Some(k) => k, None => 0 })),
                },
            },
            other => Err(PlanErrorView::NotOrigin(other)),
        },
    }
}

/// Once a header block `head` (without its blank line) has arrived: decodes it as UTF-8,
/// parses the request, requires its target to be a path, finds the handler for the path,
/// and reads the length of the body from the headers. The header block must not be empty.
pub fn plan_request<'a, H>(routes: &'a Routes<H>, head: &[u8], policy: &RequestPolicy) -> (r: Result<
    (&'a H, Request, u64),
    PlanError,
>)
    requires
        head@.len() > 0,
    ensures
        !valid_utf8(head@) ==> (r matches Err(x) && x@ == PlanErrorView::NotUtf8),
        valid_utf8(head@) ==> match request_plan(
            routes.root,
            decode_utf8(head@),
            policy.header.allows_untrimmed_key(),
            policy.duplicate_singleton,
        ) {
            Ok((h, req, n)) => r matches Ok(x) && *x.0 == h && x.1@ == req && x.2 == n,
            Err(e) => r matches Err(x) && x@ == e,
        },
{
    let head = match str_from_utf8(head) {
        Ok(text) => text,
        Err(_) => {
            return Err(PlanError::NotUtf8);
        },
    };
    assert(head@.len() > 0);
    let request = match Request::parse(head, policy) {
        Ok(req) => req,
        Err(e) => {
            return Err(PlanError::Malformed(e));
        },
    };
    let path = match &request.target {
        RequestTarget::Origin(p) => owned(p.as_str()),
        _ => {
            return Err(PlanError::NotOrigin(request.target));
        },
    };
    let handler = match routes.lookup(path.as_str()) {
        Some((h, _)) => h,
        None => {
            return Err(PlanError::NoRoute(path));
        },
    };
    let len_body = match request.content_length(policy) {
        Ok(Some(n)) => n,
        Ok(None) => 0,
        Err(e) => {
            return Err(PlanError::ContentLength(e));
        },
    };
    Ok((handler, request, len_body))
}

/// The body that follows a header block of `len_req` bytes in `buf`: `None` when it is
/// announced empty, else its `len_body` bytes.
pub fn take_body(buf: &[u8], len_req: usize, len_body: usize) -> (r: Option<Vec<u8>>)
    requires
        len_req + len_body <= buf@.len(),
    ensures
        len_body == 0 ==> r is None,
        len_body > 0 ==> (r matches Some(b) && b@ == buf@.subrange(len_req as int, len_req + len_body)),
{
    assert(len_req + len_body <= buf.len());
    if len_body == 0 {
        None
    } else {
        Some(vstd::slice::slice_to_vec(slice_range(buf, len_req, len_req + len_body)))
    }
}

} // verus!