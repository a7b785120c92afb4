use amica::client::{route_head, HeadStatus, HeaderSlot, RequestHead, HEADER_CAPACITY, PEEK_LEN};
use amica::{route_client, ClientError, ClientRoute};

#[test]
fn connect_with_host_opens_tunnel() {
    let r = route_client(b"CONNECT example.com:443 HTTP/1.1\r\nHost: example.com:443\r\n\r\n");
    assert!(matches!(r, Ok(ClientRoute::Tunnel(h)) if h == "example.com:443"));
}

#[test]
fn plain_request_is_served() {
    let r = route_client(b"GET http://google.com/ HTTP/1.1\r\nHost: google.com\r\nAccept: */*\r\n\r\n");
    assert!(matches!(r, Ok(ClientRoute::Http)));
}

#[test]
fn host_must_match_exactly() {
    let r = route_client(b"GET / HTTP/1.1\r\nhost: google.com\r\n\r\n");
    assert!(matches!(r, Err(ClientError::NoHost)));
}

#[test]
fn first_host_header_is_used() {
    let r = route_client(b"CONNECT a:1 HTTP/1.1\r\nHost: first:1\r\nHost: second:2\r\n\r\n");
    assert!(matches!(r, Ok(ClientRoute::Tunnel(h)) if h == "first:1"));
}

#[test]
fn partial_head_still_routes_on_what_was_read() {
    let r = route_client(b"CONNECT a:1 HTTP/1.1\r\nHost: a:1\r\n");
    assert!(matches!(r, Ok(ClientRoute::Tunnel(h)) if h == "a:1"));
}

#[test]
fn empty_bytes_have_no_method() {
    assert!(matches!(route_client(b""), Err(ClientError::NoMethod)));
}

#[test]
fn garbage_is_refused_with_parser_message() {
    let r = route_client(b"\x01\x02 nonsense\r\n\r\n");
    assert!(matches!(r, Err(ClientError::Parse(m)) if m == "invalid token"));
}

#[test]
fn too_many_headers_is_refused() {
    let mut req = b"GET / HTTP/1.1\r\nHost: a\r\n".to_vec();
    for i in 0..HEADER_CAPACITY {
        req.extend_from_slice(format!("x-{}: v\r\n", i).as_bytes());
    }
    req.extend_from_slice(b"\r\n");
    let r = route_client(&req);
    assert!(matches!(r, Err(ClientError::Parse(m)) if m == "too many headers"));
}

#[test]
fn host_value_is_decoded_lossily() {
    let head = RequestHead {
        status: HeadStatus::Complete(10),
        method: Some("CONNECT".to_string()),
        slots: vec![HeaderSlot { name: "Host".to_string(), value: vec![b'h', 0xff] }],
    };
    assert!(matches!(route_head(&head), Ok(ClientRoute::Tunnel(h)) if h == "h\u{FFFD}"));
}

#[test]
fn limits_match_the_original_buffers() {
    assert_eq!(HEADER_CAPACITY, 16);
    assert_eq!(PEEK_LEN, 1024);
}
