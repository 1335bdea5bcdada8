//! Why parsing a message or a part of one failed.
use vstd::prelude::*;

verus! {

/// The ways in which parsing a request, a header block, a request target or an encoded URL
/// component can fail.
#[derive(Debug)]
pub enum Error {
    /// A header line without a `:` (the line).
    MalformedHeaderLine(String),
    /// A header name with ASCII whitespace around it, which the header policy refuses.
    UntrimmedHeaderKey,
    /// An encoded URL component that ends in the middle of a three-byte group (the component).
    InvalidEncodedUrl(String),
    /// A byte that is not a hexadecimal digit where one is expected (the byte).
    InvalidHexDigit(u8),
    /// Decoded bytes that are not UTF-8.
    InvalidUtf8,
    /// A port that is not a `u16` (the port text).
    InvalidPort(String),
    /// A request line that is not three parts separated by single spaces (the line).
    MalformedRequestLine(String),
    /// A method name that is not known (the name).
    UnknownMethod(String),
    /// A version name that is not known (the name).
    UnknownVersion(String),
    /// A `Content-Length` value that is not a `u64` (the value).
    InvalidContentLength(String),
    /// More than one `Content-Length` value, which the request policy refuses.
    DuplicateContentLength,
}

/// The mathematical content of an `Error`: strings as character sequences.
pub enum ErrorView {
    MalformedHeaderLine(Seq<char>),
    UntrimmedHeaderKey,
    InvalidEncodedUrl(Seq<char>),
    InvalidHexDigit(u8),
    InvalidUtf8,
    InvalidPort(Seq<char>),
    MalformedRequestLine(Seq<char>),
    UnknownMethod(Seq<char>),
    UnknownVersion(Seq<char>),
    InvalidContentLength(Seq<char>),
    DuplicateContentLength,
}

impl View for Error {
    type V = ErrorView;

    open spec fn view(&self) -> ErrorView {
        match self {
            Error::MalformedHeaderLine(s) => ErrorView::MalformedHeaderLine(s@),
            Error::UntrimmedHeaderKey => ErrorView::UntrimmedHeaderKey,
            Error::InvalidEncodedUrl(s) => ErrorView::InvalidEncodedUrl(s@),
            Error::InvalidHexDigit(b) => ErrorView::InvalidHexDigit(*b),
            Error::InvalidUtf8 => ErrorView::InvalidUtf8,
            Error::InvalidPort(s) => ErrorView::InvalidPort(s@),
            Error::MalformedRequestLine(s) => ErrorView::MalformedRequestLine(s@),
            Error::UnknownMethod(s) => ErrorView::UnknownMethod(s@),
            Error::UnknownVersion(s) => ErrorView::UnknownVersion(s@),
            Error::InvalidContentLength(s) => ErrorView::InvalidContentLength(s@),
            Error::DuplicateContentLength => ErrorView::DuplicateContentLength,
        }
    }
}

} // verus!
