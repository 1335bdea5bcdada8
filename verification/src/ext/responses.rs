//! Ready-made responses.
use crate::http::cistr::AsCaseInsensitive;
use crate::http::headers::{header_insert, header_values, headers_wf, lemma_get_after_insert, Headers, HeadersView};
use crate::http::request::{content_length_name, content_length_of, parse_length_value, Request, RequestDuplicatSingletonPolicy};
use crate::http::response::Response as HttpResponse;
use crate::http::status::Status;
use crate::text::{ci_eq, decimal, decimal_string, lemma_parse_decimal};
use crate::Response;
use vstd::prelude::*;

verus! {

/// The name `Content-Type`.
pub open spec fn content_type_name() -> Seq<char> {
    seq!['C', 'o', 'n', 't', 'e', 'n', 't', '-', 'T', 'y', 'p', 'e']
}

/// The name `Content-Length`, as `ok` writes it.
pub open spec fn content_length_title() -> Seq<char> {
    seq!['C', 'o', 'n', 't', 'e', 'n', 't', '-', 'L', 'e', 'n', 'g', 't', 'h']
}

/// The headers of `ok`: the content type, then the length of the content in decimal.
pub open spec fn ok_headers(mime: Seq<char>, len: nat) -> HeadersView {
    header_insert(
        header_insert(Seq::empty(), content_type_name(), mime),
        content_length_title(),
        decimal(len),
    )
}

/// `200 OK` in the request's version, with `Content-Type` and `Content-Length` headers and
/// `content` as the body.
pub fn ok(req: &Request, mime: String, content: Vec<u8>) -> (r: Response)
    ensures
        r.http.version == req.version,
        r.http.status == Status::Ok200,
        r.http.headers@ == ok_headers(mime@, content@.len()),
        r.body == Some(content),
{
    proof {
        reveal_strlit("Content-Type");
        reveal_strlit("Content-Length");
    }
    let mut headers = Headers::default();
    let ct = "Content-Type";
    let cl = "Content-Length";
    assert(ct@ =~= content_type_name());
    assert(cl@ =~= content_length_title());
    let ghost m = mime@;
    headers.insert(ct.case_insensitive(), mime);
    let length = decimal_string(content.len());
    headers.insert(cl.case_insensitive(), length);
    assert(headers@ == ok_headers(m, content@.len()));
    Response {
        http: HttpResponse { version: req.version, status: Status::Ok200, headers },
        body: Some(content),
    }
}

/// The `Content-Length` that `ok` writes is read back, under any duplicate policy, as the
/// length of the content.
pub proof fn lemma_ok_content_length(mime: Seq<char>, len: nat, dup: RequestDuplicatSingletonPolicy)
    requires
        len <= u64::MAX,
    ensures
        content_length_of(ok_headers(mime, len), dup) == Ok::<Option<u64>, crate::http::error::ErrorView>(Some(len as u64)),
{
    let empty = Seq::<(Seq<char>, Seq<Seq<char>>)>::empty();
    let h1 = header_insert(empty, content_type_name(), mime);
    assert(headers_wf(empty));
    lemma_get_after_insert(empty, content_type_name(), mime, content_length_title());
    assert(!ci_eq(content_type_name(), content_length_title())) by {
        assert(content_type_name().len() != content_length_title().len());
    }
    crate::http::headers::lemma_insert_wf(empty, content_type_name(), mime);
    lemma_get_after_insert(h1, content_length_title(), decimal(len), content_length_name());
    assert(ci_eq(content_length_title(), content_length_name()));
    assert(!ci_eq(content_type_name(), content_length_name())) by {
        assert(content_type_name().len() != content_length_name().len());
    }
    lemma_get_after_insert(empty, content_type_name(), mime, content_length_name());
    assert(header_values(empty, content_length_name()) is None);
    assert(header_values(h1, content_length_name()) is None);
    assert(header_values(ok_headers(mime, len), content_length_name()) == Some(seq![decimal(len)]));
    lemma_parse_decimal(len, u64::MAX as nat);
}

} // verus!
