//! Header sets, requests to the origin, and what requests say in their headers.
use cache_me::error::ErrorKind;
use cache_me::forward::{
    build_head_request, build_sub_request, can_forward, forward_headers, head_request, origin_error,
    sub_request,
};
use cache_me::headers::{
    can_send, conver_hashmap_to_header_map, conver_header_map_to_hashmap, name_ok, value_ok,
};
use cache_me::table::Table;
use cache_me::time::UtcTime;
use cache_me::types::Request;
use http::{HeaderMap, HeaderName, HeaderValue};

fn header_map(list: &[(&str, &[u8])]) -> HeaderMap {
    let mut headers = HeaderMap::new();
    for (name, value) in list {
        headers.append(
            HeaderName::from_bytes(name.as_bytes()).unwrap(),
            HeaderValue::from_bytes(value).unwrap(),
        );
    }
    headers
}

fn request(method: &str, host: &str, path: &str, headers: &[(&str, &[u8])]) -> Request {
    Request {
        host: host.to_string(),
        method: method.to_string(),
        url_path: path.to_string(),
        headers: header_map(headers),
        timestamp: 1000,
    }
}

fn stored(list: &[(&str, &[&str])]) -> Table<Vec<String>> {
    let mut table = Table::new();
    for (name, values) in list {
        table.put(name.to_string(), values.iter().map(|v| v.to_string()).collect());
    }
    table
}

fn values(headers: &HeaderMap, name: &str) -> Vec<Vec<u8>> {
    headers.get_all(name).iter().map(|v| v.as_bytes().to_vec()).collect()
}

#[test]
fn of_each_name_the_first_value_is_stored() {
    let src = header_map(&[
        ("Content-Type", b"text/html"),
        ("set-cookie", b"a=1"),
        ("set-cookie", b"b=2"),
        ("x-binary", b"\xff"),
        ("x-mixed", b"\xfe"),
        ("x-mixed", b"text"),
        ("x-empty", b""),
    ]);
    let table = conver_header_map_to_hashmap(src).unwrap();
    assert_eq!(table.len(), 3);
    assert_eq!(table.get("content-type"), Some(&vec!["text/html".to_string()]));
    assert_eq!(table.get("set-cookie"), Some(&vec!["a=1".to_string()]));
    assert_eq!(table.get("x-empty"), Some(&vec!["".to_string()]));
    assert!(table.get("x-binary").is_none());
    assert!(table.get("x-mixed").is_none());
}

#[test]
fn stored_headers_are_sent_with_all_values() {
    let table = stored(&[("Vary", &["a", "b"]), ("x-cache", &["HIT"]), ("x-none", &[])]);
    assert!(can_send(&table));
    let headers = conver_hashmap_to_header_map(table);
    assert_eq!(headers.keys_len(), 2);
    assert_eq!(values(&headers, "vary"), vec![b"a".to_vec(), b"b".to_vec()]);
    assert_eq!(values(&headers, "x-cache"), vec![b"HIT".to_vec()]);
}

#[test]
fn names_that_differ_in_case_come_together() {
    let table = stored(&[("vary", &["a"]), ("Vary", &["b"])]);
    let headers = conver_hashmap_to_header_map(table);
    let mut both = values(&headers, "vary");
    both.sort();
    assert_eq!(both, vec![b"a".to_vec(), b"b".to_vec()]);
}

#[test]
fn stored_and_sent_headers_arrive_unchanged() {
    let src = header_map(&[("etag", b"\"v1\""), ("x-tab", b"a\tb"), ("x-high", b"\x80")]);
    let out = conver_hashmap_to_header_map(conver_header_map_to_hashmap(src).unwrap());
    assert_eq!(out.keys_len(), 2);
    assert_eq!(values(&out, "etag"), vec![b"\"v1\"".to_vec()]);
    assert_eq!(values(&out, "x-tab"), vec![b"a\tb".to_vec()]);
}

#[test]
fn headers_that_cannot_be_sent_are_told_apart() {
    assert!(!can_send(&stored(&[("a b", &["x"])])));
    assert!(!can_send(&stored(&[("", &["x"])])));
    assert!(can_send(&stored(&[("a b", &[])])));
    assert!(!can_send(&stored(&[("a", &["x\ny"])])));
    let accent = stored(&[("a", &["x\u{e9}y"])]);
    assert!(can_send(&accent));
    let sent = conver_hashmap_to_header_map(accent);
    assert_eq!(values(&sent, "a"), vec!["x\u{e9}y".as_bytes().to_vec()]);
    for c in (0u8..128).map(|b| b as char) {
        let name = c.to_string();
        assert_eq!(name_ok(&name), HeaderName::from_bytes(name.as_bytes()).is_ok(), "{c:?}");
    }
    for b in 0u8..=255 {
        assert_eq!(value_ok(&[b]), HeaderValue::from_bytes(&[b]).is_ok(), "{b}");
    }
}

#[test]
fn headers_are_handed_on_but_for_the_range() {
    let out = forward_headers(&header_map(&[
        ("Range", b"bytes=0-1"),
        ("accept", b"a"),
        ("accept", b"b"),
        ("x-high", b"\x80"),
    ]));
    assert_eq!(out.keys_len(), 2);
    assert_eq!(values(&out, "accept"), vec![b"b".to_vec()]);
    assert_eq!(values(&out, "x-high"), vec![b"\x80".to_vec()]);
    let again = forward_headers(&out);
    assert_eq!(again, out);
}

#[test]
fn headers_that_cannot_be_handed_on_are_told_apart() {
    assert!(can_forward(&header_map(&[("accept", b"a"), ("x-high", b"\x80")])));
    let mut quoted = HeaderMap::new();
    quoted.insert(HeaderName::from_static("a\"b"), HeaderValue::from_static("x"));
    assert!(!can_forward(&quoted));
    let long = "spaces are not looked at in literal names that are longer than sixty-four bytes";
    let mut blank = HeaderMap::new();
    blank.insert(long, HeaderValue::from_static("x"));
    assert!(!can_forward(&blank));
    let name = blank.keys().next().unwrap().clone();
    let mut valued = HeaderMap::new();
    valued.insert("x", HeaderValue::from_name(name.clone()));
    assert!(!can_forward(&valued));
    let mut ranged = HeaderMap::new();
    ranged.insert("range", HeaderValue::from_name(name));
    assert!(can_forward(&ranged));
}

#[test]
fn requests_to_the_origin_are_built() {
    let req = request("GET", "doc.example.com", "/a", &[("range", b"bytes=0-1"), ("x", b"y")]);
    let sub = sub_request(&req).ok().unwrap();
    assert_eq!(sub.method, "GET");
    assert_eq!(sub.url, "http://doc.example.com/a");
    assert_eq!(sub.headers.keys_len(), 1);
    let head = head_request(&req).ok().unwrap();
    assert_eq!(head.method, "HEAD");
    assert_eq!(head.url, "http://doc.example.com/a");
    assert_eq!(head.headers.keys_len(), 1);
}

#[test]
fn a_method_that_is_none_is_refused() {
    let req = request("G T", "h", "/", &[]);
    match sub_request(&req) {
        Err(ErrorKind::LogicalError(m)) => {
            assert_eq!(m, "build method G T error invalid HTTP method")
        }
        _ => panic!("taken"),
    }
    assert!(head_request(&req).is_ok());
    assert!(matches!(sub_request(&request("", "h", "/", &[])), Err(ErrorKind::LogicalError(_))));
}

#[test]
fn an_address_that_is_none_is_refused() {
    let req = request("GET", "bad host", "/", &[]);
    let want = format!(
        "build logical error {}",
        reqwest::Url::parse("http://bad host/").err().unwrap()
    );
    match (sub_request(&req), head_request(&req)) {
        (Err(ErrorKind::LogicalError(a)), Err(ErrorKind::LogicalError(b))) => {
            assert_eq!(a, want);
            assert_eq!(b, want);
        }
        _ => panic!("taken"),
    }
}

#[test]
fn a_refused_address_is_reported_after_a_refused_method() {
    let good = request("GET", "h", "/", &[]);
    let bad = request("(", "h", "/", &[]);
    let why = || Some("no".to_string());
    assert!(
        matches!(build_sub_request(&good, why()), Err(ErrorKind::LogicalError(m)) if m == "build logical error no")
    );
    assert!(
        matches!(build_sub_request(&bad, why()), Err(ErrorKind::LogicalError(m)) if m == "build method ( error invalid HTTP method")
    );
    assert!(
        matches!(build_head_request(&bad, why()), Err(ErrorKind::LogicalError(m)) if m == "build logical error no")
    );
    assert!(build_sub_request(&good, None).is_ok());
}

#[test]
fn an_origin_that_fails_is_named() {
    let req = request("GET", "h", "/p", &[]);
    assert!(
        matches!(origin_error(&req, "timeout"), ErrorKind::OperateError(m) if m == "upstream http://h/p failed timeout")
    );
}

#[test]
fn the_known_entity_tag_is_read() {
    let tag = |list: &[(&str, &[u8])]| request("GET", "h", "/", list).get_if_none_match();
    assert_eq!(tag(&[]), None);
    assert_eq!(tag(&[("If-None-Match", b"\"a\"")]), Some("\"a\"".to_string()));
    assert_eq!(tag(&[("if-none-match", b"a"), ("if-none-match", b"b")]), Some("a".to_string()));
    assert_eq!(tag(&[("if-none-match", b"")]), None);
    assert_eq!(tag(&[("if-none-match", b"\xff")]), None);
}

#[test]
fn the_known_date_is_read() {
    let date = |list: &[(&str, &[u8])]| request("GET", "h", "/", list).get_if_modified_since();
    assert_eq!(date(&[]), None);
    assert_eq!(
        date(&[("if-modified-since", b"Sun, 06 Nov 1994 08:49:37 GMT")]),
        Some(UtcTime { secs: 784111777, nanos: 0 })
    );
    assert_eq!(date(&[("if-modified-since", b"")]), None);
    assert_eq!(date(&[("if-modified-since", b"soon")]), None);
}

#[test]
fn the_encodings_that_are_taken_are_read() {
    let req = |list: &[(&str, &[u8])]| request("GET", "h", "/", list);
    let none = req(&[]);
    assert_eq!(none.get_accept_encoding(), None);
    assert!(!none.takes_gzip());
    let binary = req(&[("accept-encoding", b"\xff")]);
    assert_eq!(binary.get_accept_encoding(), None);
    let two = req(&[
        ("accept-encoding", b"br"),
        ("accept-encoding", b"\xff"),
        ("accept-encoding", b"gzip"),
    ]);
    assert_eq!(two.get_accept_encoding(), Some(vec!["br".to_string(), "gzip".to_string()]));
    assert!(two.takes_gzip());
    let joined = req(&[("accept-encoding", b"br, gzip")]);
    assert_eq!(joined.get_accept_encoding(), Some(vec!["br, gzip".to_string()]));
    assert!(!joined.takes_gzip());
}

#[test]
fn the_range_of_a_request_is_read() {
    let range = |list: &[(&str, &[u8])]| request("GET", "h", "/", list).range();
    assert_eq!(range(&[]), (-1, -1));
    assert_eq!(range(&[("range", b"bytes=1-2")]), (1, 2));
    assert_eq!(range(&[("range", b"\xff")]), (-1, -1));
    assert!(request("GET", "h", "/", &[("a", b"b")]).is_well_formed());
}
