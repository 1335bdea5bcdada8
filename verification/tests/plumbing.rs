use maws::http::cibstr::{ByteStr, ToByteStr, ToByteString};
use maws::http::error::Error;
use maws::query::{parse, QueryError};
use maws::route::{pattern, Fragment, Routes};
use maws::text::{decimal_string, parse_u16, parse_u64};
use maws::util::StreamBuffer;
use maws::{identify_header, sniff_header, HeaderSniff};
use std::io::Read;

#[test]
fn patterns_of_each_fragment() {
    assert_eq!(
        pattern("/a/:/*/**"),
        vec![Fragment::Static("a".to_string()), Fragment::Argument, Fragment::Wildcard, Fragment::SuperWildcard]
    );
    assert_eq!(pattern("a/b"), vec![Fragment::Static("a".to_string()), Fragment::Static("b".to_string())]);
    assert_eq!(pattern("/"), vec![Fragment::Static(String::new())]);
    assert_eq!(pattern(""), vec![Fragment::Static(String::new())]);
    assert_eq!(pattern("/a/"), vec![Fragment::Static("a".to_string()), Fragment::Static(String::new())]);
}

#[test]
fn routes_insert_gives_back_the_replaced_handler() {
    let mut routes: Routes<u32> = Routes::empty();
    assert_eq!(routes.insert(pattern("/a/b"), 1), None);
    assert_eq!(routes.insert(pattern("/a"), 2), None);
    assert_eq!(routes.insert(pattern("a/b"), 3), Some(1));
    let (h, args) = routes.lookup("/a/b").unwrap();
    assert_eq!(*h, 3);
    assert!(args.is_empty());
    assert_eq!(*routes.lookup("a").unwrap().0, 2);
    assert!(routes.lookup("/a/c").is_none());
    assert!(routes.lookup("").is_none());
}

#[test]
fn routes_static_path_finds_its_handler() {
    let mut routes: Routes<&str> = Routes::empty();
    routes.insert(pattern("/users/list"), "list");
    routes.insert(pattern("/users/:"), "one");
    assert_eq!(*routes.lookup("/users/list").unwrap().0, "list");
    let (h, args) = routes.lookup("/users/42").unwrap();
    assert_eq!(*h, "one");
    assert_eq!(args, vec!["42"]);
}

#[test]
fn routes_backtrack_past_a_static_dead_end() {
    let mut routes: Routes<u8> = Routes::empty();
    routes.insert(pattern("/a/x"), 1);
    routes.insert(pattern("/*/y"), 2);
    routes.insert(pattern("/:/:/z"), 3);
    assert_eq!(*routes.lookup("a/x").unwrap().0, 1);
    assert_eq!(*routes.lookup("a/y").unwrap().0, 2);
    let (h, args) = routes.lookup("/a/b/z").unwrap();
    assert_eq!(*h, 3);
    assert_eq!(args, vec!["a", "b"]);
    assert!(routes.lookup("/a/b/w").is_none());
}

#[test]
fn routes_super_wildcard_takes_the_rest() {
    let mut routes: Routes<u8> = Routes::empty();
    routes.insert(pattern("/files/**"), 7);
    assert_eq!(*routes.lookup("/files/a/b/c").unwrap().0, 7);
    assert_eq!(*routes.lookup("/files/").unwrap().0, 7);
    assert!(routes.lookup("/files").is_none());
    assert!(routes.lookup("/other").is_none());
}

#[test]
fn identify_header_edges() {
    assert_eq!(identify_header(b"\r\n\r\n"), Some(4));
    assert_eq!(identify_header(b"A: b\r\n\r\nbody\r\n\r\n"), Some(8));
    assert_eq!(identify_header(b""), None);
    assert_eq!(identify_header(b"\r\n\r"), None);
}

struct Failing;

impl Read for Failing {
    fn read(&mut self, _buf: &mut [u8]) -> std::io::Result<usize> {
        Err(std::io::Error::new(std::io::ErrorKind::Other, "down"))
    }
}

#[test]
fn stream_buffer_reads_doubles_and_drops() {
    let data: &[u8] = b"abc\r\n\r\nrest";
    let mut sb = StreamBuffer::new(data, 4);
    assert_eq!(sb.buf_eff(), b"");
    assert_eq!(sniff_header(&sb, 64, false), HeaderSniff::ReadMore);
    sb.read().unwrap();
    assert_eq!(sb.len, 4);
    assert_eq!(sb.len_old, 0);
    assert_eq!(sb.buf.len(), 4);
    assert_eq!(sb.buf_eff(), b"abc\r");
    assert_eq!(sniff_header(&sb, 64, false), HeaderSniff::ReadMore);
    sb.read().unwrap();
    assert_eq!(sb.buf.len(), 8);
    assert_eq!(sb.len, 8);
    assert_eq!(sb.len_old, 4);
    assert_eq!(sb.buf_eff(), b"abc\r\n\r\nr");
    assert_eq!(sniff_header(&sb, 64, false), HeaderSniff::Found(7));
    sb.drop_earliest(7);
    assert_eq!(sb.len, 1);
    assert_eq!(sb.len_old, 0);
    assert_eq!(sb.buf_eff(), b"r");
    sb.fit_factor(2);
    assert_eq!(sb.buf.len(), 2);
    assert_eq!(sb.len, 1);
    sb.fit_factor(100);
    assert_eq!(sb.buf.len(), 100);
    assert_eq!(sb.buf_eff(), b"r");
}

#[test]
fn stream_buffer_keeps_len_old_when_dropping_less() {
    let data: &[u8] = b"0123456789";
    let mut sb = StreamBuffer::new(data, 6);
    sb.read().unwrap();
    sb.read().unwrap();
    assert_eq!(sb.len, 10);
    assert_eq!(sb.len_old, 6);
    sb.drop_earliest(2);
    assert_eq!(sb.len, 8);
    assert_eq!(sb.len_old, 4);
    assert_eq!(sb.buf_eff(), b"23456789");
}

#[test]
fn stream_buffer_read_error_leaves_lengths() {
    let mut sb = StreamBuffer::new(Failing, 2);
    assert!(sb.read().is_err());
    assert_eq!(sb.len, 0);
    assert_eq!(sb.len_old, 0);
}

#[test]
fn sniff_header_gives_up_on_size_or_time() {
    let data: &[u8] = b"GET / HTTP/1.1\r\n";
    let mut sb = StreamBuffer::new(data, 16);
    sb.read().unwrap();
    assert_eq!(sb.len, 16);
    assert_eq!(sniff_header(&sb, 16, false), HeaderSniff::TooLarge);
    assert_eq!(sniff_header(&sb, 32, true), HeaderSniff::TimedOut);
    assert_eq!(sniff_header(&sb, 32, false), HeaderSniff::ReadMore);
}

#[test]
fn byte_strings_compare_with_or_without_case() {
    assert!(b"Hello"[..].case_insensitive() == b"hELLO"[..].case_insensitive());
    assert!(b"Hello"[..].case_sensitive() != b"hELLO"[..].case_sensitive());
    assert!(b"Hello"[..].case_sensitive() == b"Hello"[..].case_sensitive());
    assert!(b"Hello"[..].case_insensitive() != b"Hell"[..].case_insensitive());
    let owned = b"AbC".to_vec().case_insensitive();
    assert!(owned == b"abc".to_vec().case_insensitive());
    assert!(owned.as_byte_str() == b"ABC"[..].case_insensitive());
    assert!(b"xy"[..].case_sensitive().to_owned() == b"xy".to_vec().case_sensitive());
}

#[test]
fn byte_str_split_yields_pieces_between_patterns() {
    let s = b"a,b,,c"[..].case_sensitive();
    let mut it = s.split_pat_naive(b","[..].case_sensitive());
    let mut pieces: Vec<Vec<u8>> = Vec::new();
    while let Some(p) = it.next() {
        pieces.push(p.bytes().to_vec());
    }
    assert_eq!(pieces, vec![b"a".to_vec(), b"b".to_vec(), b"".to_vec(), b"c".to_vec()]);

    let s = b"xAByAb"[..].case_insensitive();
    let mut it = s.split_pat_naive(b"ab"[..].case_insensitive());
    assert_eq!(it.next().unwrap().bytes(), b"x");
    assert_eq!(it.next().unwrap().bytes(), b"y");
    assert!(it.next().is_none());
}

#[test]
fn byte_str_as_str_checks_utf8() {
    let ok: ByteStr<'_, true> = b"caf\xc3\xa9"[..].case_sensitive();
    assert_eq!(ok.as_str().unwrap(), "café");
    let bad: ByteStr<'_, true> = b"\xff\xfe"[..].case_sensitive();
    assert!(bad.as_str().is_err());
}

#[test]
fn query_groups_values_of_equal_keys() {
    let q = parse(" %30=%30 &&b00=x00& %30=%20 &").unwrap();
    assert_eq!(
        q,
        vec![
            ("0".to_string(), vec!["0".to_string(), " ".to_string()]),
            ("b\u{0}".to_string(), vec!["x\u{0}".to_string()]),
        ]
    );
    assert_eq!(parse("").unwrap(), Vec::new());
    assert_eq!(parse(" & ").unwrap(), Vec::new());
    let q = parse("%30=").unwrap();
    assert_eq!(q, vec![("0".to_string(), vec!["".to_string()])]);
}

#[test]
fn query_errors() {
    let e = parse("%30=%30&junk").err().unwrap();
    assert!(matches!(e, QueryError::InvalidPhrase(ref p) if p == "junk"));
    let e = parse("a=%30").err().unwrap();
    assert!(matches!(e, QueryError::Key(Error::InvalidEncodedUrl(ref s)) if s == "a"));
    let e = parse("%g0=%30").err().unwrap();
    assert!(matches!(e, QueryError::Key(Error::InvalidHexDigit(b'g'))));
    let e = parse("%30=%4").err().unwrap();
    assert!(matches!(e, QueryError::Value(Error::InvalidEncodedUrl(ref s)) if s == "%4"));
    let e = parse("%30=%13").err().unwrap();
    assert!(matches!(e, QueryError::Value(Error::InvalidUtf8)));
    let e = parse("%30==%30").err().unwrap();
    assert!(matches!(e, QueryError::Value(Error::InvalidHexDigit(b'%'))));
}

#[test]
fn decimal_numbers_write_and_read_back() {
    assert_eq!(decimal_string(0), "0");
    assert_eq!(decimal_string(7), "7");
    assert_eq!(decimal_string(1234567890), "1234567890");
    for n in [0usize, 9, 10, 99, 100, 65535, 1 << 40] {
        assert_eq!(parse_u64(&decimal_string(n)), Some(n as u64));
    }
}

#[test]
fn unsigned_parsing_edges() {
    assert_eq!(parse_u64("+5"), Some(5));
    assert_eq!(parse_u64("007"), Some(7));
    assert_eq!(parse_u64(""), None);
    assert_eq!(parse_u64("+"), None);
    assert_eq!(parse_u64("-1"), None);
    assert_eq!(parse_u64(" 1"), None);
    assert_eq!(parse_u64("18446744073709551615"), Some(u64::MAX));
    assert_eq!(parse_u64("18446744073709551616"), None);
    assert_eq!(parse_u16("65535"), Some(65535));
    assert_eq!(parse_u16("65536"), None);
}

#[test]
fn stream_buffer_make_room_and_commit() {
    let data: &[u8] = b"";
    let mut sb = StreamBuffer::new(data, 2);
    assert_eq!(sb.make_room(), 0);
    assert_eq!(sb.buf.len(), 2);
    sb.commit(0, 2);
    assert_eq!((sb.len_old, sb.len), (0, 2));
    assert_eq!(sb.make_room(), 2);
    assert_eq!(sb.buf.len(), 4);
    sb.commit(2, 1);
    assert_eq!((sb.len_old, sb.len), (2, 3));
}

#[test]
fn fit_factor_keeps_effective_bytes() {
    let data: &[u8] = b"abcdef";
    let mut sb = StreamBuffer::new(data, 8);
    sb.read().unwrap();
    assert_eq!(sb.len, 6);
    sb.fit_factor(0);
    assert_eq!(sb.buf.len(), 8);
    assert_eq!(sb.buf_eff(), b"abcdef");
    sb.fit_factor(1);
    assert_eq!(sb.buf.len(), 6);
    sb.fit_factor(3);
    assert_eq!(sb.buf.len(), 18);
    assert_eq!(&sb.buf[6..], &[0u8; 12][..]);
}

#[test]
fn routes_keep_children_in_insertion_order() {
    let mut routes: Routes<u8> = Routes::empty();
    routes.insert(pattern("/*/:/two"), 4);
    routes.insert(pattern("/**"), 5);
    routes.insert(pattern("/*/one"), 3);
    let frags: Vec<Fragment> = routes.root.children.iter().map(|c| c.0.clone()).collect();
    assert_eq!(frags, vec![Fragment::Wildcard, Fragment::SuperWildcard]);
    assert_eq!(routes.root.children[0].1.children.len(), 2);
    assert_eq!(routes.root.children[0].1.children[0].0, Fragment::Argument);
    assert_eq!(routes.root.children[0].1.children[1].0, Fragment::Static("one".to_string()));
    let (h, args) = routes.lookup("four/1/two").unwrap();
    assert_eq!(*h, 4);
    assert_eq!(args, vec!["1"]);
}

#[test]
fn byte_split_pieces_join_back() {
    let s = b"k1: v\r\nK2: w\r\n"[..].case_sensitive();
    let pat = b"\r\n"[..].case_sensitive();
    let mut it = s.split_pat_naive(pat);
    let mut pieces: Vec<Vec<u8>> = Vec::new();
    while let Some(p) = it.next() {
        pieces.push(p.bytes().to_vec());
    }
    assert_eq!(pieces.len(), 2);
    let mut joined = pieces.join(&b"\r\n"[..]);
    joined.extend_from_slice(b"\r\n");
    assert_eq!(joined, s.bytes().to_vec());
    let ci = b"aXbxc"[..].case_insensitive();
    let mut it = ci.split_pat_naive(b"x"[..].case_insensitive());
    let mut n = 0;
    while it.next().is_some() {
        n += 1;
    }
    assert_eq!(n, 3);
}

#[test]
fn pattern_ignores_one_leading_slash() {
    for p in ["a/:/b", "", "x", "**/y/", ":"] {
        let with = format!("/{p}");
        assert_eq!(pattern(p), pattern(&with));
        assert_eq!(pattern(p).len(), p.matches('/').count() + 1);
    }
}
