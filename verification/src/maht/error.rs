//! Why reading a header block or a body length, or writing a response, failed.
use vstd::prelude::*;

verus! {

/// The ways in which reading a header block or writing a response can fail.
#[derive(Debug)]
pub enum Error {
    /// A header line without a `:` (the line).
    MalformedHeaderLine(Vec<u8>),
    /// A header name with a space around it, which the header policy refuses.
    UntrimmedHeaderKey,
    /// A response header name with a character outside ASCII (the name).
    NonAsciiKey(String),
    /// A response header value with a character outside ASCII (the value).
    NonAsciiValue(String),
    /// A `Content-Length` value that is not a `u64` (the value).
    InvalidContentLength(Vec<u8>),
    /// More than one `Content-Length` value, which the request policy refuses.
    DuplicateContentLength,
}

/// The mathematical content of an `Error`.
pub enum ErrorView {
    MalformedHeaderLine(Seq<u8>),
    UntrimmedHeaderKey,
    NonAsciiKey(Seq<char>),
    NonAsciiValue(Seq<char>),
    InvalidContentLength(Seq<u8>),
    DuplicateContentLength,
}

impl View for Error {
    type V = ErrorView;

    open spec fn view(&self) -> ErrorView {
        match self {
            Error::MalformedHeaderLine(l) => ErrorView::MalformedHeaderLine(l@),
            Error::UntrimmedHeaderKey => ErrorView::UntrimmedHeaderKey,
            Error::NonAsciiKey(k) => ErrorView::NonAsciiKey(k@),
            Error::NonAsciiValue(v) => ErrorView::NonAsciiValue(v@),
            Error::InvalidContentLength(v) => ErrorView::InvalidContentLength(v@),
            Error::DuplicateContentLength => ErrorView::DuplicateContentLength,
        }
    }
}

} // verus!
