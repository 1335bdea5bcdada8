//! Requests: the request line, the target, the header block, and the body length.
use super::cistr::{AsCaseInsensitive, CaseInsensitiveStr};
use super::error::{Error, ErrorView};
use super::headers::{header_values, headers_wf, parse_header_lines, HeaderPolicy, Headers, HeadersView};
use super::method::{parse_method, Method};
use super::version::{parse_version, Version};
use crate::text::{
    chars_of, find_char, index_of, lemma_index_of_props, lines, owned, parse_u16, parse_u64,
    parse_unsigned, slices, split, split_ranges, str_range, strip_cr,
};
use vstd::prelude::*;

verus! {

/// The target of a request, as its request line gives it.
#[derive(Debug, PartialEq, Eq)]
pub enum RequestTarget {
    /// A path, starting with `/`.
    Origin(String),
    /// Anything else that is not an authority.
    Absolute(String),
    /// A host and a port, as in `CONNECT example.com:443`.
    Authority(String, u16),
}

/// The mathematical content of a `RequestTarget`.
pub enum RequestTargetView {
    Origin(Seq<char>),
    Absolute(Seq<char>),
    Authority(Seq<char>, u16),
}

impl View for RequestTarget {
    type V = RequestTargetView;

    open spec fn view(&self) -> RequestTargetView {
        match self {
            RequestTarget::Origin(s) => RequestTargetView::Origin(s@),
            RequestTarget::Absolute(s) => RequestTargetView::Absolute(s@),
            RequestTarget::Authority(h, p) => RequestTargetView::Authority(h@, *p),
        }
    }
}

/// What `RequestTarget::parse` gives for `s`.
pub open spec fn parse_target(s: Seq<char>) -> Result<RequestTargetView, ErrorView> {
    if s.len() > 0 && s[0] == '/' {
        Ok(RequestTargetView::Origin(s))
    } else if index_of(s, ':') is Some && index_of(s, '/') is None {
        let i = index_of(s, ':')->0;
        let port = s.subrange(i + 1, s.len() as int);
        match parse_unsigned(port, u16::MAX as nat) {
            Some(p) => Ok(RequestTargetView::Authority(s.subrange(0, i), p as u16)),
            None => Err(ErrorView::InvalidPort(port)),
        }
    } else {
        Ok(RequestTargetView::Absolute(s))
    }
}

impl RequestTarget {
    /// A target starting with `/` is a path; one with a `:` and no `/` is a host and a port
    /// (the port must be a `u16`); anything else is absolute.
    pub fn parse(src: &str) -> (r: Result<Self, Error>)
        ensures
            match parse_target(src@) {
                Ok(t) => r matches Ok(x) && x@ == t,
                Err(e) => r matches Err(x) && x@ == e,
            },
    {
        let v = chars_of(src);
        if v.len() > 0 && v[0] == '/' {
            return Ok(RequestTarget::Origin(owned(src)));
        }
        assert(v@.subrange(0, v@.len() as int) =~= v@);
        let colon = find_char(&v, 0, v.len(), ':');
        let slash = find_char(&v, 0, v.len(), '/');
        match colon {
            Some(i) => {
                if slash.is_none() {
                    assert(index_of(src@, ':') == Some(i as int));
                    assert(index_of(src@, '/') is None);
                    let port = str_range(src, i + 1, v.len());
                    return match parse_u16(port) {
                        Some(p) => Ok(RequestTarget::Authority(owned(str_range(src, 0, i)), p)),
                        None => Err(Error::InvalidPort(owned(port))),
                    };
                }
            },
            None => {},
        }
        Ok(RequestTarget::Absolute(owned(src)))
    }
}

/// What to do when a header that may appear once appears more often.
#[derive(Debug, Copy, Clone, PartialEq, Eq, Structural)]
pub enum RequestDuplicatSingletonPolicy {
    /// reject the request
    Reject,
    /// use the first value
    First,
    /// use the last value
    Last,
}

impl Default for RequestDuplicatSingletonPolicy {
    fn default() -> (r: Self)
        ensures
            r == RequestDuplicatSingletonPolicy::Reject,
    {
        RequestDuplicatSingletonPolicy::Reject
    }
}

/// How requests are read.
#[derive(Clone)]
pub struct RequestPolicy {
    pub duplicate_singleton: RequestDuplicatSingletonPolicy,
    pub header: HeaderPolicy,
}

impl Default for RequestPolicy {
    /// Duplicates are refused and so are untrimmed header names.
    fn default() -> (r: Self)
        ensures
            r.duplicate_singleton == RequestDuplicatSingletonPolicy::Reject,
            !r.header.allows_untrimmed_key(),
    {
        RequestPolicy {
            duplicate_singleton: RequestDuplicatSingletonPolicy::default(),
            header: HeaderPolicy::default(),
        }
    }
}

/// A request without its body.
pub struct Request {
    pub method: Method,
    pub target: RequestTarget,
    pub version: Version,
    pub headers: Headers,
}

/// The mathematical content of a `Request`.
pub struct RequestView {
    pub method: Method,
    pub target: RequestTargetView,
    pub version: Version,
    pub headers: HeadersView,
}

impl View for Request {
    type V = RequestView;

    open spec fn view(&self) -> RequestView {
        RequestView {
            method: self.method,
            target: self.target@,
            version: self.version,
            headers: self.headers@,
        }
    }
}

/// What `parse_start` gives for a request line: the method, the target text and the version.
pub open spec fn parse_start_line(line: Seq<char>) -> Result<(Method, Seq<char>, Version), ErrorView> {
    let parts = split(line, ' ');
    if parts.len() != 3 {
        Err(ErrorView::MalformedRequestLine(line))
    } else {
        match parse_method(parts[0]) {
            None => Err(ErrorView::UnknownMethod(parts[0])),
            Some(m) => match parse_version(parts[2]) {
                None => Err(ErrorView::UnknownVersion(parts[2])),
                Some(v) => Ok((m, parts[1], v)),
            },
        }
    }
}

/// The text after the first line ending of `s`.
pub open spec fn after_first_line(s: Seq<char>) -> Seq<char> {
    match index_of(s, '\n') {
        Some(i) => s.subrange(i + 1, s.len() as int),
        None => Seq::empty(),
    }
}

/// What `Request::parse` gives for `s`: the first line is the request line, the lines after
/// it the header block.
pub open spec fn parse_request(s: Seq<char>, allow_untrimmed: bool) -> Result<RequestView, ErrorView> {
    match parse_start_line(lines(s)[0]) {
        Err(e) => Err(e),
        Ok((m, path, v)) => match parse_target(path) {
            Err(e) => Err(e),
            Ok(t) => match parse_header_lines(Seq::empty(), lines(after_first_line(s)), allow_untrimmed) {
                Err(e) => Err(e),
                Ok(h) => Ok(RequestView { method: m, target: t, version: v, headers: h }),
            },
        },
    }
}

/// The name `content-length`.
pub open spec fn content_length_name() -> Seq<char> {
    seq!['c', 'o', 'n', 't', 'e', 'n', 't', '-', 'l', 'e', 'n', 'g', 't', 'h']
}

/// A `Content-Length` value read as a `u64`.
pub open spec fn parse_length_value(s: Seq<char>) -> Result<Option<u64>, ErrorView> {
    match parse_unsigned(s, u64::MAX as nat) {
        Some(n) => Ok(Some(n as u64)),
        None => Err(ErrorView::InvalidContentLength(s)),
    }
}

/// What `Request::content_length` gives for a header map.
pub open spec fn content_length_of(h: HeadersView, dup: RequestDuplicatSingletonPolicy) -> Result<Option<u64>, ErrorView> {
    match header_values(h, content_length_name()) {
        None => Ok(None),
        Some(vs) => if vs.len() == 1 {
            parse_length_value(vs[0])
        } else {
            match dup {
                RequestDuplicatSingletonPolicy::Reject => Err(ErrorView::DuplicateContentLength),
                RequestDuplicatSingletonPolicy::First => parse_length_value(vs[0]),
                RequestDuplicatSingletonPolicy::Last => parse_length_value(vs.last()),
            }
        },
    }
}

/// Splits a request line into method, target text and version.
fn parse_start(line: &str) -> (r: Result<(Method, &str, Version), Error>)
    ensures
        match parse_start_line(line@) {
            Ok((m, p, v)) => r matches Ok(x) && x.0 == m && x.1@ == p && x.2 == v,
            Err(e) => r matches Err(x) && x@ == e,
        },
{
    let cs = chars_of(line);
    assert(cs@.subrange(0, cs@.len() as int) =~= cs@);
    let parts = split_ranges(&cs, 0, cs.len(), ' ');
    let ghost ps = split(line@, ' ');
    assert(slices(cs@, parts@)[0] == cs@.subrange(parts@[0].0 as int, parts@[0].1 as int));
    if parts.len() != 3 {
        return Err(Error::MalformedRequestLine(owned(line)));
    }
    assert(ps[0] == cs@.subrange(parts@[0].0 as int, parts@[0].1 as int));
    assert(ps[1] == cs@.subrange(parts@[1].0 as int, parts@[1].1 as int));
    assert(ps[2] == cs@.subrange(parts@[2].0 as int, parts@[2].1 as int));
    let (a0, b0) = parts[0];
    let (a1, b1) = parts[1];
    let (a2, b2) = parts[2];
    let m_text = str_range(line, a0, b0);
    let path = str_range(line, a1, b1);
    let v_text = str_range(line, a2, b2);
    let method = match Method::parse(m_text.case_insensitive()) {
        Some(m) => m,
        None => {
            return Err(Error::UnknownMethod(owned(m_text)));
        },
    };
    let version = match Version::parse(v_text.case_insensitive()) {
        Some(v) => v,
        None => {
            return Err(Error::UnknownVersion(owned(v_text)));
        },
    };
    Ok((method, path, version))
}

impl Request {
    /// Reads a request without its body: the first line is the request line (method,
    /// target and version separated by single spaces), and the lines after it are the
    /// header block. The text must not be empty.
    pub fn parse(value: &str, policy: &RequestPolicy) -> (r: Result<Self, Error>)
        requires
            value@.len() > 0,
        ensures
            match parse_request(value@, policy.header.allows_untrimmed_key()) {
                Ok(req) => r matches Ok(x) && x@ == req,
                Err(e) => r matches Err(x) && x@ == e,
            },
    {
        let v = chars_of(value);
        assert(v@.subrange(0, v@.len() as int) =~= v@);
        proof {
            lemma_index_of_props(value@, '\n');
        }
        let (start, rest) = match find_char(&v, 0, v.len(), '\n') {
            Some(i) => {
                let end = if i > 0 && v[i - 1] == '\r' {
                    i - 1
                } else {
                    i
                };
                assert(v@.subrange(0, end as int) =~= strip_cr(v@.subrange(0, i as int)));
                (str_range(value, 0, end), str_range(value, i + 1, v.len()))
            },
            None => {
                assert(v@.subrange(v@.len() as int, v@.len() as int) =~= Seq::<char>::empty());
                (value, str_range(value, v.len(), v.len()))
            },
        };
        assert(start@ == lines(value@)[0]);
        assert(rest@ == after_first_line(value@));
        let (method, path, version) = parse_start(start)?;
        let target = RequestTarget::parse(path)?;
        let headers = Headers::parse(rest, &policy.header)?;
        Ok(Request { method, target, version, headers })
    }

    /// The length of the body that the headers announce: `None` without `Content-Length`;
    /// the value read as a `u64` when there is one; with several, an error or the first or
    /// the last value, as the policy says.
    pub fn content_length(&self, policy: &RequestPolicy) -> (r: Result<Option<u64>, Error>)
        ensures
            match content_length_of(self.headers@, policy.duplicate_singleton) {
                Ok(n) => r matches Ok(x) && x == n,
                Err(e) => r matches Err(x) && x@ == e,
            },
    {
        proof {
            reveal_strlit("content-length");
        }
        let values = match self.headers.get("content-length".case_insensitive()) {
            Some(values) => values,
            None => {
                return Ok(None);
            },
        };
        let ghost vs = values@.map_values(|s: String| s@);
        assert(vs.len() > 0);
        if values.len() == 1 {
            return parse_length(&values[0]);
        }
        match policy.duplicate_singleton {
            RequestDuplicatSingletonPolicy::Reject => Err(Error::DuplicateContentLength),
            RequestDuplicatSingletonPolicy::First => parse_length(&values[0]),
            RequestDuplicatSingletonPolicy::Last => {
                assert(vs.last() == values@[values@.len() - 1]@);
                parse_length(&values[values.len() - 1])
            },
        }
    }
}

/// Reads a `Content-Length` value.
fn parse_length(value: &String) -> (r: Result<Option<u64>, Error>)
    ensures
        match parse_length_value(value@) {
            Ok(n) => r matches Ok(x) && x == n,
            Err(e) => r matches Err(x) && x@ == e,
        },
{
    match parse_u64(value.as_str()) {
        Some(n) => Ok(Some(n)),
        None => Err(Error::InvalidContentLength(value.clone())),
    }
}

} // verus!
