use maws::ext::responses::ok;
use maws::handler::{not_found_404, primitive};
use maws::http::cistr::{AsCaseInsensitive, CaseInsensitiveString, GetWithStr};
use maws::http::error::Error;
use maws::http::headers::{HeaderPolicy, Headers};
use maws::http::method::Method;
use maws::http::pub_util::url_decode;
use maws::http::request::{Request, RequestDuplicatSingletonPolicy, RequestPolicy, RequestTarget};
use maws::http::response::Response;
use maws::http::status::Status;
use maws::http::version::Version;
use maws::maht::byte_string::{ToByteStr, ToByteString};
use maws::maht::headers::{HeaderPolicy as ByteHeaderPolicy, Headers as ByteHeaders};
use maws::maht::request::{Request as ByteRequest, RequestDuplicatSingletonPolicy as ByteDup, RequestPolicy as BytePolicy};
use maws::maht::error::Error as MahtError;
use maws::maht::response::Response as AsciiResponse;
use maws::route::{pattern, Routes};
use maws::{plan_request, take_body, PlanError};
use std::cmp::Ordering;

fn request_of(text: &str) -> Result<Request, Error> {
    Request::parse(text, &RequestPolicy::default())
}

#[test]
fn method_names_read_back() {
    let all = [
        Method::GET,
        Method::HEAD,
        Method::POST,
        Method::PUT,
        Method::DELETE,
        Method::CONNECT,
        Method::OPTIONS,
        Method::TRACE,
        Method::PATCH,
    ];
    for m in all {
        assert_eq!(Method::parse(m.as_str().case_insensitive()), Some(m));
    }
    assert_eq!(Method::parse("pAtCh".case_insensitive()), Some(Method::PATCH));
    assert_eq!(Method::GET.as_str(), "GET");
    assert_eq!(Method::parse("FETCH".case_insensitive()), None);
    assert_eq!(Method::parse("".case_insensitive()), None);
}

#[test]
fn version_names_read_back() {
    for v in [Version::Http10, Version::Http11, Version::Http20] {
        assert_eq!(Version::parse(v.as_str().case_insensitive()), Some(v));
    }
    assert_eq!(Version::Http11.as_str(), "HTTP/1.1");
    assert_eq!(Version::parse("http/2.0".case_insensitive()), Some(Version::Http20));
    assert_eq!(Version::parse("HTTP/3".case_insensitive()), None);
}

#[test]
fn status_text_and_code_read_back() {
    let some = [
        Status::Continue100,
        Status::Ok200,
        Status::Created201,
        Status::NotFound404,
        Status::ImATeapot418,
        Status::HttpVersionNotSupported505,
        Status::NetworkAuthenticationRequired511,
    ];
    for s in some {
        assert_eq!(Status::parse(s.as_str().case_insensitive()), Some(s));
        assert_eq!(Status::parse_u16(s.as_u16()), Some(s));
    }
    assert_eq!(Status::NotFound404.as_str(), "404 Not Found");
    assert_eq!(Status::ImATeapot418.as_u16(), 418);
    assert_eq!(Status::parse("404 NOT FOUND".case_insensitive()), Some(Status::NotFound404));
    assert_eq!(Status::parse("404 Gone".case_insensitive()), None);
    assert_eq!(Status::parse("4x4 Not Found".case_insensitive()), None);
    assert_eq!(Status::parse("".case_insensitive()), None);
    assert_eq!(Status::parse_u16(299), None);
}

#[test]
fn case_insensitive_strings_compare_by_folded_ascii() {
    let a = "Content-Type".case_insensitive();
    let b = "content-TYPE".case_insensitive();
    let c = "content-length".case_insensitive();
    assert!(a == b);
    assert!(b == a);
    assert!(a != c);
    assert_eq!(a.cmp(&b), Ordering::Equal);
    assert_eq!(a.cmp(&c), Ordering::Greater);
    assert_eq!(c.cmp(&a), Ordering::Less);
    assert_eq!("abc".case_insensitive().cmp(&"ABD".case_insensitive()), Ordering::Less);
    assert_eq!("ab".case_insensitive().cmp(&"AB_".case_insensitive()), Ordering::Less);
    let owned: CaseInsensitiveString = String::from("Host").case_insensitive();
    assert!(owned == "HOST".case_insensitive().to_owned());
    assert_eq!(owned.as_ci_str().case_sensitive(), "Host");
    assert_eq!(owned.case_sensitive(), "Host".to_string());
}

#[test]
fn headers_keep_values_of_equal_names_together() {
    let h = Headers::parse("Host: a\r\nAccept: x\nHOST:   b  ", &HeaderPolicy::default()).unwrap();
    assert_eq!(h.get("host".case_insensitive()).unwrap(), &["a".to_string(), "b".to_string()]);
    assert_eq!(h.get("accept".case_insensitive()).unwrap(), &["x".to_string()]);
    assert!(h.get("missing".case_insensitive()).is_none());
    let entries = h.iter();
    assert_eq!(entries.len(), 2);
    assert_eq!(entries[0].0.case_sensitive_ref(), "Host");
    assert_eq!(entries[1].0.case_sensitive_ref(), "Accept");
}

#[test]
fn headers_get_after_insert() {
    let mut h = Headers::default();
    h.insert("X-One".case_insensitive(), "1".to_string());
    h.insert("x-two".case_insensitive(), "2".to_string());
    h.insert("X-ONE".case_insensitive(), "3".to_string());
    assert_eq!(h.get("x-one".case_insensitive()).unwrap(), &["1".to_string(), "3".to_string()]);
    assert_eq!(h.get("X-Two".case_insensitive()).unwrap(), &["2".to_string()]);
    assert_eq!(h.iter().len(), 2);
}

#[test]
fn headers_refuse_a_line_without_colon() {
    let e = Headers::parse("Host: a\r\nbroken line", &HeaderPolicy::default()).err().unwrap();
    assert!(matches!(e, Error::MalformedHeaderLine(ref l) if l == "broken line"));
}

#[test]
fn headers_refuse_an_untrimmed_name() {
    let e = Headers::parse("Host : a", &HeaderPolicy::default()).err().unwrap();
    assert!(matches!(e, Error::UntrimmedHeaderKey));
    let e = Headers::parse("\tHost: a", &HeaderPolicy::default()).err().unwrap();
    assert!(matches!(e, Error::UntrimmedHeaderKey));
}

#[test]
fn headers_of_an_empty_block() {
    let h = Headers::parse("", &HeaderPolicy::default()).unwrap();
    assert_eq!(h.iter().len(), 0);
}

#[test]
fn request_targets_of_each_kind() {
    assert_eq!(RequestTarget::parse("/a/b?c").unwrap(), RequestTarget::Origin("/a/b?c".to_string()));
    assert_eq!(
        RequestTarget::parse("example.com:443").unwrap(),
        RequestTarget::Authority("example.com".to_string(), 443)
    );
    assert_eq!(
        RequestTarget::parse("http://example.com/").unwrap(),
        RequestTarget::Absolute("http://example.com/".to_string())
    );
    assert_eq!(RequestTarget::parse("*").unwrap(), RequestTarget::Absolute("*".to_string()));
    let e = RequestTarget::parse("example.com:65536").err().unwrap();
    assert!(matches!(e, Error::InvalidPort(ref p) if p == "65536"));
    let e = RequestTarget::parse("example.com:").err().unwrap();
    assert!(matches!(e, Error::InvalidPort(ref p) if p.is_empty()));
}

#[test]
fn request_line_with_connect_target() {
    let req = request_of("CONNECT example.com:443 HTTP/1.0\r\n").unwrap();
    assert_eq!(req.method, Method::CONNECT);
    assert_eq!(req.target, RequestTarget::Authority("example.com".to_string(), 443));
    assert_eq!(req.version, Version::Http10);
    assert_eq!(req.headers.iter().len(), 0);
}

#[test]
fn request_line_without_newline() {
    let req = request_of("get /x http/2.0").unwrap();
    assert_eq!(req.method, Method::GET);
    assert_eq!(req.target, RequestTarget::Origin("/x".to_string()));
    assert_eq!(req.version, Version::Http20);
}

#[test]
fn request_errors_on_each_part_of_the_request_line() {
    let e = request_of("GET /\r\n").err().unwrap();
    assert!(matches!(e, Error::MalformedRequestLine(ref l) if l == "GET /"));
    let e = request_of("GET  / HTTP/1.1\r\n").err().unwrap();
    assert!(matches!(e, Error::MalformedRequestLine(_)));
    let e = request_of("FETCH / HTTP/1.1\r\n").err().unwrap();
    assert!(matches!(e, Error::UnknownMethod(ref m) if m == "FETCH"));
    let e = request_of("GET / HTTP/3\r\n").err().unwrap();
    assert!(matches!(e, Error::UnknownVersion(ref v) if v == "HTTP/3"));
    let e = request_of("GET host:70000 HTTP/1.1\r\n").err().unwrap();
    assert!(matches!(e, Error::InvalidPort(ref p) if p == "70000"));
    let e = request_of("GET / HTTP/1.1\r\nno colon\r\n").err().unwrap();
    assert!(matches!(e, Error::MalformedHeaderLine(ref l) if l == "no colon"));
}

#[test]
fn content_length_absent_invalid_and_duplicated() {
    let pol = RequestPolicy::default();
    let req = request_of("GET / HTTP/1.1\r\nHost: a\r\n").unwrap();
    assert_eq!(req.content_length(&pol).unwrap(), None);

    let req = request_of("GET / HTTP/1.1\r\nContent-Length: ten\r\n").unwrap();
    let e = req.content_length(&pol).err().unwrap();
    assert!(matches!(e, Error::InvalidContentLength(ref v) if v == "ten"));

    let req = request_of("GET / HTTP/1.1\r\nContent-Length: 3\r\ncontent-length: 7\r\n").unwrap();
    let e = req.content_length(&pol).err().unwrap();
    assert!(matches!(e, Error::DuplicateContentLength));
    let first = RequestPolicy {
        duplicate_singleton: RequestDuplicatSingletonPolicy::First,
        header: HeaderPolicy::default(),
    };
    assert_eq!(req.content_length(&first).unwrap(), Some(3));
    let last = RequestPolicy {
        duplicate_singleton: RequestDuplicatSingletonPolicy::Last,
        header: HeaderPolicy::default(),
    };
    assert_eq!(req.content_length(&last).unwrap(), Some(7));
}

#[test]
fn response_bytes_are_status_line_and_header_lines() {
    let mut headers = Headers::default();
    headers.insert("Content-Type".case_insensitive(), "application/json".to_string());
    headers.insert("Set-Cookie".case_insensitive(), "a=1".to_string());
    headers.insert("set-cookie".case_insensitive(), "b=2".to_string());
    let resp = Response { version: Version::Http11, status: Status::Created201, headers };
    assert_eq!(
        resp.to_bytes(),
        b"HTTP/1.1 201 Created\r\nContent-Type: application/json\r\nSet-Cookie: a=1\r\nSet-Cookie: b=2\r\n".to_vec()
    );
    let bare = Response { version: Version::Http10, status: Status::NotFound404, headers: Headers::default() };
    assert_eq!(bare.to_bytes(), b"HTTP/1.0 404 Not Found\r\n".to_vec());
}

#[test]
fn ok_response_announces_its_length() {
    let req = request_of("GET / HTTP/1.0\r\n").unwrap();
    let resp = ok(&req, "text/plain".to_string(), b"hello, world".to_vec());
    assert_eq!(resp.http.version, Version::Http10);
    assert_eq!(resp.http.status, Status::Ok200);
    assert_eq!(resp.body, Some(b"hello, world".to_vec()));
    assert_eq!(resp.http.headers.get("content-type".case_insensitive()).unwrap(), &["text/plain".to_string()]);
    assert_eq!(resp.http.headers.get("content-length".case_insensitive()).unwrap(), &["12".to_string()]);
    assert_eq!(
        resp.http.to_bytes(),
        b"HTTP/1.0 200 OK\r\nContent-Type: text/plain\r\nContent-Length: 12\r\n".to_vec()
    );
    let read_back = Request {
        method: Method::GET,
        target: RequestTarget::Origin("/".to_string()),
        version: Version::Http10,
        headers: resp.http.headers,
    };
    assert_eq!(read_back.content_length(&RequestPolicy::default()).unwrap(), Some(12));
}

#[test]
fn ok_response_of_empty_content() {
    let req = request_of("GET / HTTP/1.1").unwrap();
    let resp = ok(&req, "text/html".to_string(), Vec::new());
    assert_eq!(resp.http.headers.get("Content-Length".case_insensitive()).unwrap(), &["0".to_string()]);
}

#[test]
fn not_found_handler_answers_404() {
    let h = not_found_404();
    let req = request_of("POST /nowhere HTTP/1.1\r\nHost: a\r\n").unwrap();
    let (resp, body) = h.handle(req);
    assert_eq!(resp.status, Status::NotFound404);
    assert_eq!(resp.version, Version::Http11);
    assert_eq!(resp.headers.iter().len(), 0);
    assert!(body.is_none());
}

#[test]
fn primitive_handler_calls_its_function() {
    let h = primitive(|req: Request| {
        (Response { version: req.version, status: Status::NoContent204, headers: Headers::default() }, Some(vec![1u8]))
    });
    let (resp, body) = h.handle(request_of("GET / HTTP/2.0").unwrap());
    assert_eq!(resp.status, Status::NoContent204);
    assert_eq!(resp.version, Version::Http20);
    assert_eq!(body, Some(vec![1u8]));
}

#[test]
fn url_decode_reads_groups_of_three() {
    assert_eq!(url_decode("").unwrap(), "");
    assert_eq!(url_decode("%20").unwrap(), " ");
    assert_eq!(url_decode("%30%10").unwrap(), "0\u{10}");
    assert_eq!(url_decode("a00").unwrap(), "a\u{0}");
    assert_eq!(url_decode("x31").unwrap(), "x`");
}

#[test]
fn url_decode_errors() {
    let e = url_decode("%4").err().unwrap();
    assert!(matches!(e, Error::InvalidEncodedUrl(ref s) if s == "%4"));
    let e = url_decode("ab").err().unwrap();
    assert!(matches!(e, Error::InvalidEncodedUrl(ref s) if s == "ab"));
    let e = url_decode("%g0").err().unwrap();
    assert!(matches!(e, Error::InvalidHexDigit(b'g')));
    let e = url_decode("%0z").err().unwrap();
    assert!(matches!(e, Error::InvalidHexDigit(b'z')));
    let e = url_decode("%13").err().unwrap();
    assert!(matches!(e, Error::InvalidUtf8));
}

#[test]
fn lookups_by_plain_string_ignore_case() {
    let mut m: Vec<(CaseInsensitiveString, u32)> = vec![
        (String::from("Host").case_insensitive(), 1),
        (String::from("Accept").case_insensitive(), 2),
        (String::from("HOST").case_insensitive(), 3),
    ];
    assert_eq!(m.get_with_str("host"), Some(&1));
    assert_eq!(m.get_with_str("ACCEPT"), Some(&2));
    assert_eq!(m.get_with_str("missing"), None);
    let mut key = String::from("accept");
    *m.get_mut_with_str(key.as_mut_str()).unwrap() = 20;
    assert_eq!(key, "accept");
    assert_eq!(m.get_with_str("Accept"), Some(&20));
    assert_eq!(m.get_with_str("host"), Some(&1));
    let mut absent = String::from("x");
    assert!(m.get_mut_with_str(absent.as_mut_str()).is_none());
}

#[test]
fn plan_request_finds_handler_and_body_length() {
    let mut routes: Routes<u8> = Routes::empty();
    routes.insert(pattern("/users"), 1);
    let pol = RequestPolicy::default();
    let (h, req, n) = plan_request(&routes, b"POST /users HTTP/1.1\r\nContent-Length: 4", &pol).unwrap();
    assert_eq!(*h, 1);
    assert_eq!(req.method, Method::POST);
    assert_eq!(n, 4);
    let (_, _, n) = plan_request(&routes, b"GET /users HTTP/1.1", &pol).unwrap();
    assert_eq!(n, 0);
    let e = plan_request(&routes, b"GET /nope HTTP/1.1", &pol).err().unwrap();
    assert!(matches!(e, PlanError::NoRoute(ref p) if p == "/nope"));
    let e = plan_request(&routes, b"CONNECT a:1 HTTP/1.1", &pol).err().unwrap();
    assert!(matches!(e, PlanError::NotOrigin(RequestTarget::Authority(_, 1))));
    let e = plan_request(&routes, b"GET /users", &pol).err().unwrap();
    assert!(matches!(e, PlanError::Malformed(Error::MalformedRequestLine(_))));
    let e = plan_request(&routes, b"GET /users HTTP/1.1\r\nContent-Length: x", &pol).err().unwrap();
    assert!(matches!(e, PlanError::ContentLength(Error::InvalidContentLength(_))));
    let e = plan_request(&routes, b"GET /\xff HTTP/1.1", &pol).err().unwrap();
    assert!(matches!(e, PlanError::NotUtf8));
    let buf = b"HEAD\r\n\r\nbodyrest";
    assert_eq!(take_body(buf, 8, 4), Some(b"body".to_vec()));
    assert_eq!(take_body(buf, 8, 0), None);
}

#[test]
fn ascii_response_head_bytes() {
    let resp = AsciiResponse {
        version: Version::Http11,
        status: Status::Ok200,
        headers: vec![
            (" Content-Type ".to_string(), vec!["text/plain\t".to_string()]),
            ("X-A".to_string(), vec!["1".to_string(), " 2".to_string()]),
            ("X-None".to_string(), vec![]),
        ],
        body: b"ignored".to_vec(),
    };
    assert_eq!(
        resp.to_bytes().unwrap(),
        b"HTTP/1.1 200 OK\r\nContent-Type: text/plain\r\nX-A: 1\r\nX-A: 2\r\n".to_vec()
    );
    let bad_key = AsciiResponse {
        version: Version::Http10,
        status: Status::Ok200,
        headers: vec![("Ünicode".to_string(), vec![])],
        body: vec![],
    };
    assert!(matches!(bad_key.to_bytes().err().unwrap(), MahtError::NonAsciiKey(ref k) if k == "Ünicode"));
    let bad_value = AsciiResponse {
        version: Version::Http10,
        status: Status::Ok200,
        headers: vec![("A".to_string(), vec!["ok".to_string(), "é".to_string()])],
        body: vec![],
    };
    assert!(matches!(bad_value.to_bytes().err().unwrap(), MahtError::NonAsciiValue(ref v) if v == "é"));
}

#[test]
fn byte_split_returns_the_last_piece() {
    let s = b"POST /users HTTP/1.1"[..].case_sensitive();
    let mut it = s.split_pat_naive(b" "[..].case_sensitive());
    assert!(it.next().unwrap() == b"POST"[..].case_sensitive());
    assert!(it.next().unwrap() == b"/users"[..].case_sensitive());
    assert!(it.next().unwrap() == b"HTTP/1.1"[..].case_sensitive());
    assert!(it.next().is_none());
}

#[test]
fn response_wire_bytes() {
    let req = request_of("GET / HTTP/1.1").unwrap();
    let resp = ok(&req, "text/plain".to_string(), b"hi".to_vec());
    assert_eq!(
        resp.to_wire(),
        b"HTTP/1.1 200 OK\r\nContent-Type: text/plain\r\nContent-Length: 2\r\n\r\nhi".to_vec()
    );
    let bare = maws::Response {
        http: Response { version: Version::Http10, status: Status::NotFound404, headers: Headers::default() },
        body: None,
    };
    assert_eq!(bare.to_wire(), b"HTTP/1.0 404 Not Found\r\n".to_vec());
}

fn byte_request(block: &[u8]) -> ByteRequest {
    ByteRequest {
        method: Method::POST,
        path: b"/users".to_vec().case_sensitive(),
        version: Version::Http11,
        headers: ByteHeaders::parse(block, &ByteHeaderPolicy::default()).unwrap(),
    }
}

#[test]
fn byte_request_content_length() {
    let pol = BytePolicy::default();
    assert_eq!(byte_request(b"Host: a\r\n").content_length(&pol).unwrap(), None);
    assert_eq!(byte_request(b"Content-Length: 49\r\n").content_length(&pol).unwrap(), Some(49));
    let e = byte_request(b"content-length: 4x\r\n").content_length(&pol).err().unwrap();
    assert!(matches!(e, MahtError::InvalidContentLength(ref v) if v == b"4x"));
    let e = byte_request(b"content-length: \xff\r\n").content_length(&pol).err().unwrap();
    assert!(matches!(e, MahtError::InvalidContentLength(_)));
    let twice = byte_request(b"Content-Length: 1\r\nCONTENT-LENGTH: 2\r\n");
    assert!(matches!(twice.content_length(&pol).err().unwrap(), MahtError::DuplicateContentLength));
    let first = BytePolicy { duplicate_singleton: ByteDup::First, header: ByteHeaderPolicy::default() };
    assert_eq!(twice.content_length(&first).unwrap(), Some(1));
    let last = BytePolicy { duplicate_singleton: ByteDup::Last, header: ByteHeaderPolicy::default() };
    assert_eq!(twice.content_length(&last).unwrap(), Some(2));
}
