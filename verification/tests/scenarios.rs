use maws::handler;
use maws::http::cistr::AsCaseInsensitive;
use maws::http::method::Method;
use maws::http::request::{Request, RequestPolicy, RequestTarget};
use maws::http::version::Version;
use maws::identify_header;
use maws::route::{pattern, Routes};

// quote from https://developer.mozilla.org/en-US/docs/Web/HTTP/Guides/Messages
const REQUEST: &str = "\
    POST /users HTTP/1.1\r\n\
    Host: example.com\r\n\
    Content-Type: application/x-www-form-urlencoded\r\n\
    Content-Length: 49\r\n\
    ";

#[test]
fn request_test_parse() {
    let pol = RequestPolicy::default();
    let req = Request::parse(REQUEST, &pol).unwrap();
    assert_eq!(req.content_length(&pol).unwrap().unwrap(), 49);
    let Request {
        method,
        target,
        version,
        headers,
    } = req;
    assert_eq!(method, Method::POST);
    assert_eq!(target, RequestTarget::Origin("/users".to_string()));
    assert_eq!(version, Version::Http11);
    assert_eq!(
        headers.get("content-type".case_insensitive()).unwrap(),
        &["application/x-www-form-urlencoded".to_string()]
    );
}

// quote from https://developer.mozilla.org/en-US/docs/Web/HTTP/Guides/Messages
#[allow(dead_code)]
const RESPONSE: &[u8] = b"\
    HTTP/1.1 201 Created\r\n\
    Content-Type: application/json\r\n\
    Location: http://example.com/users/123\r\n\
    \r\n\
    {\n\
      \"message\": \"New user created\",\n\
      \"user\": {\n\
        \"id\": 123,\n\
        \"firstName\": \"Example\",\n\
        \"lastName\": \"Person\",\n\
        \"email\": \"bsmth@example.com\"\n\
      }\n\
    }\n\
    ";

#[test]
fn response_test_parse() {
    // nothing is parsed from a response here yet
}

#[test]
fn test_identify_header() {
    let with_double_crlf = b"\
        hello, world\n, no, \ractually, hello, world\r\n\
        hello, world!!!\r\n\r\n!!!\
        ";
    assert_eq!(
        identify_header(with_double_crlf),
        Some(with_double_crlf.len() - 3)
    );
    let without_double_crlf = b"\
        hello, world\n, no, \ractually, hello, world\r\n\
        hello, world!!!\r\r\n\nlook at me!\
        ";
    assert_eq!(identify_header(without_double_crlf), None);
}

#[test]
fn test_routes() {
    let mut routes = Routes::empty();
    let end1 = handler::not_found_404();
    let end2 = handler::not_found_404();
    let end3 = handler::not_found_404();
    let end4 = handler::not_found_404();
    let end5 = handler::not_found_404();
    routes.insert(pattern("/"), end1);
    routes.insert(pattern("/*"), end2);
    routes.insert(pattern("/*/one"), end3);
    routes.insert(pattern("/*/:/two"), end4);
    routes.insert(pattern("/**"), end5);
    assert!(routes.lookup("").is_some());
    assert!(routes.lookup("/something").is_some());
    assert!(routes.lookup("something").is_some());
    assert!(routes.lookup("two/one").is_some());
    assert_eq!(routes.lookup("four/1/two").unwrap().1, ["1"]);
    assert!(routes.lookup("one/two").is_some());
    assert!(routes.lookup("/one/two/three").is_some());
}
