//! Requests on byte strings, their body length, and how they are read.
use super::byte_string::{ByteStr, ByteString, ToByteStr};
use super::error::{Error, ErrorView};
use super::headers::{find_key, HeaderPolicy, Headers, HeadersView};
use crate::http::method::Method;
use crate::http::version::Version;
use crate::text::{parse_u64, parse_unsigned, str_from_utf8};
use vstd::prelude::*;
use vstd::slice::slice_to_vec;
use vstd::utf8::{decode_utf8, valid_utf8};

verus! {

/// What to do when a header that may appear once appears more often.
#[derive(Debug, Copy, Clone, PartialEq, Eq, Structural)]
pub enum RequestDuplicatSingletonPolicy {
    /// reject the request
    Reject,
    /// use the first value
    First,
    /// use the last value
    Last,
}

impl Default for RequestDuplicatSingletonPolicy {
    fn default() -> (r: Self)
        ensures
            r == RequestDuplicatSingletonPolicy::Reject,
    {
        RequestDuplicatSingletonPolicy::Reject
    }
}

/// How requests are read.
#[derive(Clone)]
pub struct RequestPolicy {
    pub duplicate_singleton: RequestDuplicatSingletonPolicy,
    pub header: HeaderPolicy,
}

impl Default for RequestPolicy {
    /// Duplicates are refused and so are untrimmed header names.
    fn default() -> (r: Self)
        ensures
            r.duplicate_singleton == RequestDuplicatSingletonPolicy::Reject,
            !r.header.allows_untrimmed_key(),
    {
        RequestPolicy {
            duplicate_singleton: RequestDuplicatSingletonPolicy::default(),
            header: HeaderPolicy::default(),
        }
    }
}

/// A request without its body: method, path, version and header fields.
pub struct Request {
    pub method: Method,
    pub path: ByteString<true>,
    pub version: Version,
    pub headers: Headers,
}

/// The name `content-length`, in bytes.
pub open spec fn content_length_key() -> Seq<u8> {
    seq![0x63u8, 0x6fu8, 0x6eu8, 0x74u8, 0x65u8, 0x6eu8, 0x74u8, 0x2du8, 0x6cu8, 0x65u8, 0x6eu8, 0x67u8, 0x74u8, 0x68u8]
}

/// A `Content-Length` value read as a `u64`: its bytes as UTF-8 text, read as `str::parse`
/// reads an unsigned number.
pub open spec fn length_value(v: Seq<u8>) -> Result<Option<u64>, ErrorView> {
    if valid_utf8(v) {
        match parse_unsigned(decode_utf8(v), u64::MAX as nat) {
            Some(n) => Ok(Some(n as u64)),
            None => Err(ErrorView::InvalidContentLength(v)),
        }
    } else {
        Err(ErrorView::InvalidContentLength(v))
    }
}

/// What `Request::content_length` gives for a header map.
pub open spec fn content_length_of(h: HeadersView, dup: RequestDuplicatSingletonPolicy) -> Result<Option<u64>, ErrorView> {
    match find_key(h, content_length_key(), 0) {
        None => Ok(None),
        Some(i) => {
            let vs = h[i].1;
            if vs.len() == 1 {
                length_value(vs[0])
            } else {
                match dup {
                    RequestDuplicatSingletonPolicy::Reject => Err(ErrorView::DuplicateContentLength),
                    RequestDuplicatSingletonPolicy::First => length_value(vs[0]),
                    RequestDuplicatSingletonPolicy::Last => length_value(vs.last()),
                }
            }
        },
    }
}

/// Reads one `Content-Length` value.
fn parse_length(v: ByteStr<'_, true>) -> (r: Result<Option<u64>, Error>)
    ensures
        match length_value(v@) {
            Ok(n) => r matches Ok(x) && x == n,
            Err(e) => r matches Err(x) && x@ == e,
        },
{
    let b = v.bytes_of();
    match str_from_utf8(b) {
        Ok(s) => match parse_u64(s) {
            Some(n) => Ok(Some(n)),
            None => Err(Error::InvalidContentLength(slice_to_vec(b))),
        },
        Err(_) => Err(Error::InvalidContentLength(slice_to_vec(b))),
    }
}

impl Request {
    /// The length of the body that the headers announce: `None` without `Content-Length`;
    /// the value read as a `u64` when there is one; with several, an error or the first or
    /// the last value, as the policy says.
    pub fn content_length(&self, policy: &RequestPolicy) -> (r: Result<Option<u64>, Error>)
        ensures
            match content_length_of(self.headers@, policy.duplicate_singleton) {
                Ok(n) => r matches Ok(x) && x == n,
                Err(e) => r matches Err(x) && x@ == e,
            },
    {
        let key: [u8; 14] = [0x63, 0x6f, 0x6e, 0x74, 0x65, 0x6e, 0x74, 0x2d, 0x6c, 0x65, 0x6e, 0x67, 0x74, 0x68];
        let k = key.as_slice();
        assert(k@ =~= content_length_key());
        let values = match self.headers.get(k.to_byte_str::<false>()) {
            Some(values) => values,
            None => {
                return Ok(None);
            },
        };
        let ghost i = find_key(self.headers@, content_length_key(), 0)->0;
        proof {
            super::headers::lemma_find_key_bounds(self.headers@, content_length_key(), 0);
            assert(values@.len() == self.headers@[i].1.len());
        }
        if values.len() == 1 {
            assert(values@[0]@ == self.headers@[i].1[0]);
            return parse_length(values[0]);
        }
        match policy.duplicate_singleton {
            RequestDuplicatSingletonPolicy::Reject => Err(Error::DuplicateContentLength),
            RequestDuplicatSingletonPolicy::First => {
                assert(values@[0]@ == self.headers@[i].1[0]);
                parse_length(values[0])
            },
            RequestDuplicatSingletonPolicy::Last => {
                let n = values.len();
                assert(values@[n - 1]@ == self.headers@[i].1.last());
                parse_length(values[n - 1])
            },
        }
    }
}

} // verus!
