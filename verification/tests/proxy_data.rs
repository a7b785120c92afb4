use amica::headers::Headers;
use amica::proxy_data::BuildError;
use amica::text::decimal_string;
use amica::{ProxyRequest, ProxyResponse};

fn lines(h: &Headers) -> Vec<(String, String)> {
    h.lines().clone()
}

fn get(h: &Headers, name: &str) -> Option<String> {
    h.get(name).cloned()
}

fn block_on<F: std::future::Future>(f: F) -> F::Output {
    tokio::runtime::Runtime::new().unwrap().block_on(f)
}

#[test]
fn script_edits_response_as_in_messenger_script() {
    let mut res = ProxyResponse::_new(400, "Hello, World");
    res._with_header("header1", "value1");
    res._with_header("header2", "value2");
    res._with_header("header3", "value3");

    res.set_status(401);
    res.set_header("header1".to_string(), "changed_value1".to_string());
    res.set_header("header2".to_string(), "changed_value2".to_string());
    res.set_header("header3".to_string(), "changed_value3".to_string());
    res.set_header("new_header".to_string(), "new_header".to_string());
    res.set_body("Good Bye, World".to_string());

    assert_eq!(res.status(), 401);
    assert_eq!(res.body(), "Good Bye, World");
    assert_eq!(
        lines(&res.headers()),
        vec![
            ("header1".to_string(), "changed_value1".to_string()),
            ("header2".to_string(), "changed_value2".to_string()),
            ("header3".to_string(), "changed_value3".to_string()),
            ("new_header".to_string(), "new_header".to_string()),
            ("content-length".to_string(), "15".to_string()),
        ]
    );

    let mut out = res.into_response().unwrap();
    assert_eq!(out.status().as_u16(), 401);
    let mut expected = hyper::HeaderMap::new();
    for (k, v) in [
        ("header1", "changed_value1"),
        ("header2", "changed_value2"),
        ("header3", "changed_value3"),
        ("new_header", "new_header"),
        ("content-length", "15"),
    ] {
        expected.insert(k, v.parse().unwrap());
    }
    assert_eq!(out.headers(), &expected);
    let body = block_on(hyper::body::to_bytes(out.body_mut())).unwrap();
    assert_eq!(&body[..], b"Good Bye, World");
}

#[test]
fn script_edits_request_as_in_messenger_script() {
    let mut req = ProxyRequest::_new("http://example.com", "GET", "Hello, World");
    req._with_header("header1", "value1");
    req._with_header("header2", "value2");
    req._with_header("header3", "value3");

    req.set_method("POST".to_string());
    req.set_uri("http://www.example.com".to_string());
    req.set_header("header1".to_string(), "changed_value1".to_string());
    req.set_header("header2".to_string(), "changed_value2".to_string());
    req.set_header("header3".to_string(), "changed_value3".to_string());
    req.set_header("new_header".to_string(), "new_header".to_string());
    req.set_body("Good Bye, World".to_string());

    assert_eq!(req.method(), "POST");
    assert_eq!(req.uri(), "http://www.example.com");
    assert_eq!(get(&req.headers(), "content-length"), Some("15".to_string()));

    let mut out = req.into_request().unwrap();
    assert_eq!(out.method(), &hyper::Method::POST);
    assert_eq!(out.uri(), "http://www.example.com");
    assert_eq!(out.headers().len(), 5);
    assert_eq!(out.headers()["header2"], "changed_value2");
    assert_eq!(out.headers()["content-length"], "15");
    let body = block_on(hyper::body::to_bytes(out.body_mut())).unwrap();
    assert_eq!(&body[..], b"Good Bye, World");
}

#[test]
fn content_length_counts_utf8_bytes() {
    let mut req = ProxyRequest::_new("http://a/", "GET", "");
    req.set_body("h\u{e9}llo \u{1F600}".to_string());
    assert_eq!(get(&req.headers(), "content-length"), Some("11".to_string()));
    let mut res = ProxyResponse::_new(200, "x");
    res.set_body(String::new());
    assert_eq!(get(&res.headers(), "content-length"), Some("0".to_string()));
}

#[test]
fn second_body_replaces_first_and_length() {
    let mut req = ProxyRequest::_new("http://a/", "GET", "");
    req._with_header("accept", "*/*");
    req.set_body("a much longer body than the next".to_string());
    req.set_body("tiny".to_string());
    assert_eq!(req.body(), "tiny");
    assert_eq!(
        lines(&req.headers()),
        vec![
            ("accept".to_string(), "*/*".to_string()),
            ("content-length".to_string(), "4".to_string()),
        ]
    );
}

#[test]
fn header_set_twice_keeps_its_place() {
    let mut req = ProxyRequest::_new("http://a/", "GET", "");
    req.set_header("a".to_string(), "1".to_string());
    req.set_header("b".to_string(), "2".to_string());
    req.set_header("a".to_string(), "3".to_string());
    assert_eq!(
        lines(&req.headers()),
        vec![("a".to_string(), "3".to_string()), ("b".to_string(), "2".to_string())]
    );
    assert_eq!(get(&req.headers(), "a"), Some("3".to_string()));
    assert_eq!(get(&req.headers(), "A"), None);
}

#[test]
fn received_parts_are_decoded_and_last_pair_wins() {
    let req = ProxyRequest::from(
        "http://example.com/".to_string(),
        "GET".to_string(),
        vec![
            ("accept".to_string(), b"text/html".to_vec()),
            ("x-tag".to_string(), b"first".to_vec()),
            ("x-odd".to_string(), vec![b'a', 0xff, b'b']),
            ("x-tag".to_string(), b"second".to_vec()),
        ],
        vec![b'o', b'k', 0xc3],
    );
    assert_eq!(req.uri(), "http://example.com/");
    assert_eq!(req.method(), "GET");
    assert_eq!(req.body(), "ok\u{FFFD}");
    assert_eq!(
        lines(&req.headers()),
        vec![
            ("accept".to_string(), "text/html".to_string()),
            ("x-tag".to_string(), "second".to_string()),
            ("x-odd".to_string(), "a\u{FFFD}b".to_string()),
        ]
    );
    let res = ProxyResponse::from(204, vec![("k".to_string(), b"v".to_vec())], Vec::new());
    assert_eq!(res.status(), 204);
    assert_eq!(res.body(), "");
    assert_eq!(get(&res.headers(), "k"), Some("v".to_string()));
}

#[test]
fn bad_parts_are_refused_when_building() {
    let req = ProxyRequest::_new("http://example.com", "NOT A METHOD", "");
    assert!(matches!(req.into_request(), Err(BuildError::Method(_))));
    let req = ProxyRequest::_new("http://exa mple.com", "GET", "");
    assert!(matches!(req.into_request(), Err(BuildError::Uri(_))));
    let mut req = ProxyRequest::_new("http://example.com", "GET", "");
    req.set_header("bad header".to_string(), "v".to_string());
    assert!(matches!(req.into_request(), Err(BuildError::HeaderName(_))));
    let mut req = ProxyRequest::_new("http://example.com", "GET", "");
    req.set_header("ok".to_string(), "line\nbreak".to_string());
    req.set_header("bad header".to_string(), "v".to_string());
    assert!(matches!(req.into_request(), Err(BuildError::HeaderValue(_))));
    let mut req = ProxyRequest::_new("NOT A URI", "BAD METHOD", "");
    req.set_header("bad header".to_string(), "v".to_string());
    assert!(matches!(req.into_request(), Err(BuildError::Method(_))));
    let res = ProxyResponse::_new(1000, "");
    assert!(matches!(res.into_response(), Err(BuildError::Status(_))));
    let res = ProxyResponse::_new(99, "");
    assert!(matches!(res.into_response(), Err(BuildError::Status(_))));
    let mut res = ProxyResponse::_new(999, "");
    res.set_header("tab".to_string(), "a\tb".to_string());
    assert!(res.into_response().is_ok());
    let mut res = ProxyResponse::_new(100, "");
    res.set_header("x".to_string(), "\u{7f}".to_string());
    assert!(matches!(res.into_response(), Err(BuildError::HeaderValue(_))));
}

#[test]
fn clones_are_equal_copies() {
    let mut req = ProxyRequest::_new("u", "m", "b");
    req._with_header("k", "v");
    let copy = req.clone();
    req.set_body("changed".to_string());
    assert_eq!(copy.body(), "b");
    assert_eq!(lines(&copy.headers()), vec![("k".to_string(), "v".to_string())]);
    let res = ProxyResponse::_new(301, "moved");
    let copy = res.clone();
    assert_eq!(copy.status(), 301);
    assert_eq!(copy.body(), "moved");
}

#[test]
fn decimal_rendering() {
    assert_eq!(decimal_string(0), "0");
    assert_eq!(decimal_string(7), "7");
    assert_eq!(decimal_string(10), "10");
    assert_eq!(decimal_string(1234567890), "1234567890");
    assert_eq!(decimal_string(usize::MAX), usize::MAX.to_string());
}

#[test]
fn header_table_basics() {
    let mut h = Headers::new();
    assert_eq!(h.len(), 0);
    h.insert("x".to_string(), "1".to_string());
    h.insert("y".to_string(), "2".to_string());
    h.insert("x".to_string(), "3".to_string());
    assert_eq!(h.len(), 2);
    assert_eq!(get(&h, "x"), Some("3".to_string()));
    assert_eq!(get(&h, "z"), None);
    let c = h.clone();
    assert_eq!(lines(&c), lines(&h));
}

#[test]
fn redirect_script_rewrites_matching_uri_only() {
    // What `no_google.lua` does: replace one URI, leave the rest alone.
    let mut req = ProxyRequest::_new("http://google.com/", "GET", "");
    if req.uri() == "http://google.com/" {
        req.set_uri("http://duckduckgo.com".to_string());
    }
    assert_eq!(req.uri(), "http://duckduckgo.com");
    assert_eq!(req.method(), "GET");
    assert_eq!(req.headers().len(), 0);
    let out = req.into_request().unwrap();
    assert_eq!(out.uri(), "http://duckduckgo.com/");
}

#[test]
fn unfiltered_get_builds_with_its_parts() {
    let req = ProxyRequest::_new("http://example.com", "GET", "Hello");
    let mut out = req.into_request().unwrap();
    assert_eq!(out.method(), &hyper::Method::GET);
    assert_eq!(out.uri().to_string(), "http://example.com/");
    assert!(out.headers().is_empty());
    let body = block_on(hyper::body::to_bytes(out.body_mut())).unwrap();
    assert_eq!(&body[..], b"Hello");
}

#[test]
fn unfiltered_response_builds_with_its_parts() {
    let mut out = ProxyResponse::_new(200, "bye").into_response().unwrap();
    assert_eq!(out.status().as_u16(), 200);
    assert!(out.headers().is_empty());
    let body = block_on(hyper::body::to_bytes(out.body_mut())).unwrap();
    assert_eq!(&body[..], b"bye");
}

#[test]
fn status_bounds_when_building() {
    let out = ProxyResponse::_new(999, "").into_response().unwrap();
    assert_eq!(out.status().as_u16(), 999);
    assert!(matches!(ProxyResponse::_new(1000, "x").into_response(), Err(BuildError::Status(_))));
    assert!(matches!(ProxyResponse::_new(99, "").into_response(), Err(BuildError::Status(_))));
}

#[test]
fn rewritten_parts_are_carried_by_the_built_message() {
    let mut req = ProxyRequest::_new("http://google.com/", "GET", "");
    req.set_uri("http://duckduckgo.com".to_string());
    let out = req.into_request().unwrap();
    assert_eq!(out.uri().to_string(), "http://duckduckgo.com/");
    assert_eq!(out.method(), &hyper::Method::GET);

    let mut res = ProxyResponse::_new(200, "bye");
    res.set_status(500);
    let mut out = res.into_response().unwrap();
    assert_eq!(out.status().as_u16(), 500);
    assert!(out.headers().is_empty());
    let body = block_on(hyper::body::to_bytes(out.body_mut())).unwrap();
    assert_eq!(&body[..], b"bye");
}

#[test]
fn header_names_are_lowercased_and_kept_in_order() {
    let mut req = ProxyRequest::_new("http://a/", "PATCH", "");
    req.set_header("X-First".to_string(), "1".to_string());
    req.set_header("x-second".to_string(), "2".to_string());
    let out = req.into_request().unwrap();
    let names: Vec<String> = out.headers().keys().map(|k| k.to_string()).collect();
    assert_eq!(names, vec!["x-first".to_string(), "x-second".to_string()]);
    assert_eq!(out.headers()["x-first"], "1");
}

#[test]
fn built_request_reads_back_as_the_original() {
    let mut req = ProxyRequest::_new("http://example.com/path?q=1", "PUT", "caf\u{e9}");
    req._with_header("accept", "*/*");
    req._with_header("x-tag", "v");
    let expected = req.clone();
    let out = req.into_request().unwrap();
    let (parts, body) = out.into_parts();
    let headers: Vec<(String, Vec<u8>)> = parts
        .headers
        .iter()
        .map(|(k, v)| (k.to_string(), v.as_bytes().to_vec()))
        .collect();
    let body = block_on(hyper::body::to_bytes(body)).unwrap();
    let back = ProxyRequest::from(parts.uri.to_string(), parts.method.to_string(), headers, body.to_vec());
    assert_eq!(back.uri(), expected.uri());
    assert_eq!(back.method(), expected.method());
    assert_eq!(back.body(), expected.body());
    assert_eq!(lines(&back.headers()), lines(&expected.headers()));

    let mut res = ProxyResponse::_new(404, "none");
    res._with_header("x-a", "1");
    let expected = res.clone();
    let (parts, body) = res.into_response().unwrap().into_parts();
    let headers: Vec<(String, Vec<u8>)> = parts
        .headers
        .iter()
        .map(|(k, v)| (k.to_string(), v.as_bytes().to_vec()))
        .collect();
    let body = block_on(hyper::body::to_bytes(body)).unwrap();
    let back = ProxyResponse::from(parts.status.as_u16(), headers, body.to_vec());
    assert_eq!(back.status(), expected.status());
    assert_eq!(back.body(), expected.body());
    assert_eq!(lines(&back.headers()), lines(&expected.headers()));
}

#[test]
fn many_header_lines_still_fit() {
    let mut req = ProxyRequest::_new("http://a/", "GET", "");
    for i in 0..6553 {
        req.set_header(format!("x-{}", i), "v".to_string());
    }
    let out = req.into_request().unwrap();
    assert_eq!(out.headers().len(), 6553);
}

#[test]
fn repeated_lowercased_names_share_one_entry() {
    let mut req = ProxyRequest::_new("http://a/", "GET", "");
    req.set_header("X-A".to_string(), "1".to_string());
    req.set_header("x-b".to_string(), "2".to_string());
    req.set_header("x-a".to_string(), "3".to_string());
    let out = req.into_request().unwrap();
    let names: Vec<String> = out.headers().keys().map(|k| k.to_string()).collect();
    assert_eq!(names, vec!["x-a".to_string(), "x-b".to_string()]);
    let a: Vec<&str> = out.headers().get_all("x-a").iter().map(|v| v.to_str().unwrap()).collect();
    assert_eq!(a, vec!["1", "3"]);
    let walked: Vec<(String, String)> = out
        .headers()
        .iter()
        .map(|(k, v)| (k.to_string(), v.to_str().unwrap().to_string()))
        .collect();
    assert_eq!(
        walked,
        vec![
            ("x-a".to_string(), "1".to_string()),
            ("x-a".to_string(), "3".to_string()),
            ("x-b".to_string(), "2".to_string()),
        ]
    );
}

#[test]
fn received_valid_utf8_is_decoded_exactly() {
    let req = ProxyRequest::from(
        "/".to_string(),
        "GET".to_string(),
        vec![("x".to_string(), "\u{e9}t\u{e9}".as_bytes().to_vec())],
        "na\u{ef}ve".as_bytes().to_vec(),
    );
    assert_eq!(req.body(), "na\u{ef}ve");
    assert_eq!(get(&req.headers(), "x"), Some("\u{e9}t\u{e9}".to_string()));
}
