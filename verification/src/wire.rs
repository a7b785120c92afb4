//! The HTTP message types of `hyper` that outgoing requests and responses
//! are made of, and the calls that check and assemble their parts.
//!
//! Each part is checked by the `hyper` parser that its request and response
//! builders use; the assembly itself cannot fail, except that a header map
//! refuses an entry once it is full.

use vstd::prelude::*;
use vstd::string::*;
use vstd::utf8::*;

verus! {

#[verifier::external_type_specification]
#[verifier::external_body]
#[verifier::reject_recursive_types(T)]
pub struct ExRequest<T>(hyper::Request<T>);

#[verifier::external_type_specification]
#[verifier::external_body]
#[verifier::reject_recursive_types(T)]
pub struct ExResponse<T>(hyper::Response<T>);

#[verifier::external_type_specification]
#[verifier::external_body]
pub struct ExBody(hyper::Body);

#[verifier::external_type_specification]
#[verifier::external_body]
pub struct ExMethod(hyper::Method);

#[verifier::external_type_specification]
#[verifier::external_body]
pub struct ExUri(hyper::Uri);

#[verifier::external_type_specification]
#[verifier::external_body]
pub struct ExStatusCode(hyper::StatusCode);

#[verifier::external_type_specification]
#[verifier::external_body]
pub struct ExHeaderName(hyper::header::HeaderName);

#[verifier::external_type_specification]
#[verifier::external_body]
pub struct ExHeaderValue(hyper::header::HeaderValue);

#[verifier::external_type_specification]
#[verifier::external_body]
#[verifier::reject_recursive_types(T)]
pub struct ExHeaderMap<T>(hyper::HeaderMap<T>);

#[verifier::external_type_specification]
#[verifier::external_body]
pub struct ExHttpError(hyper::http::Error);

/// A character allowed in a request method (the non-zero entries of
/// `http`'s method table).
pub open spec fn method_char(c: char) -> bool {
    ||| c == '!' || c == '*' || c == '+' || c == '-' || c == '.'
    ||| ('0' <= c <= '9') || ('A' <= c <= 'Z') || ('a' <= c <= 'z')
    ||| c == '^' || c == '_' || c == '`' || c == '|' || c == '~'
}

/// Whether `hyper` accepts `text` as a request method: it is not empty and
/// every character is allowed.
pub open spec fn method_accepted(text: Seq<char>) -> bool {
    text.len() > 0 && forall|i: int| 0 <= i < text.len() ==> method_char(#[trigger] text[i])
}

/// A character allowed in a header name (the non-zero entries of `http`'s
/// header name table).
pub open spec fn header_name_char(c: char) -> bool {
    ||| c == '!' || c == '"' || c == '#' || c == '$' || c == '%' || c == '&' || c == '\''
    ||| c == '*' || c == '+' || c == '-' || c == '.'
    ||| ('0' <= c <= '9') || ('A' <= c <= 'Z') || ('a' <= c <= 'z')
    ||| c == '^' || c == '_' || c == '`' || c == '|' || c == '~'
}

/// Whether `hyper` accepts `text` as a header name: 1 to 65535 characters,
/// each allowed.
pub open spec fn header_name_accepted(text: Seq<char>) -> bool {
    &&& 1 <= text.len() <= 65535
    &&& forall|i: int| 0 <= i < text.len() ==> header_name_char(#[trigger] text[i])
}

/// `c` with ASCII upper case turned to lower case.
pub open spec fn ascii_lower(c: char) -> char {
    if 'A' <= c <= 'Z' {
        ((c as u32) + 32) as char
    } else {
        c
    }
}

/// The text of a header name as `hyper` stores it: in lower case.
pub open spec fn normalized_name(text: Seq<char>) -> Seq<char> {
    text.map_values(|c: char| ascii_lower(c))
}

/// The text of the URI that `Uri::try_from` makes of `text`, as the URI
/// displays, or none when it refuses the text.
pub uninterp spec fn parsed_uri(text: Seq<char>) -> Option<Seq<char>>;

/// Whether `hyper` accepts `text` as a URI.
pub open spec fn uri_accepted(text: Seq<char>) -> bool {
    parsed_uri(text) is Some
}

/// A byte that a header value may hold: a tab, or any byte from space up,
/// except DEL.
pub open spec fn header_value_byte(b: u8) -> bool {
    (b >= 32 && b != 127) || b == 9
}

/// Whether `hyper` accepts `text` as a header value: every byte of its UTF-8
/// encoding is allowed.
pub open spec fn header_value_accepted(text: Seq<char>) -> bool {
    forall|i: int| 0 <= i < encode_utf8(text).len() ==> header_value_byte(#[trigger] encode_utf8(text)[i])
}

/// Whether `hyper` accepts `code` as a status code.
pub open spec fn status_accepted(code: u16) -> bool {
    100 <= code < 1000
}

/// The text of a method (`Method::as_str`).
pub uninterp spec fn method_text(m: hyper::Method) -> Seq<char>;

/// The text of a URI (its `Display`).
pub uninterp spec fn uri_text(u: hyper::Uri) -> Seq<char>;

/// The code of a status (`StatusCode::as_u16`).
pub uninterp spec fn status_value(s: hyper::StatusCode) -> u16;

/// The text of a header name (`HeaderName::as_str`).
pub uninterp spec fn header_name_text(n: hyper::header::HeaderName) -> Seq<char>;

/// The bytes of a header value (`HeaderValue::as_bytes`).
pub uninterp spec fn header_value_bytes(v: hyper::header::HeaderValue) -> Seq<u8>;

/// A header map's content: each name once, in the order names were first
/// added, with its values in the order they were added.
pub type HeaderEntries = Seq<(Seq<char>, Seq<Seq<u8>>)>;

/// The index of the entry for `name`, if there is one.
pub open spec fn entry_position(entries: HeaderEntries, name: Seq<char>) -> Option<int>
    decreases entries.len(),
{
    if entries.len() == 0 {
        None
    } else if entries.last().0 == name {
        Some(entries.len() - 1)
    } else {
        entry_position(entries.drop_last(), name)
    }
}

/// The content after appending `value` under `name`: the value joins the
/// name's values, or the name is added after the others.
pub open spec fn with_value(entries: HeaderEntries, name: Seq<char>, value: Seq<u8>) -> HeaderEntries {
    match entry_position(entries, name) {
        Some(i) => entries.update(i, (name, entries[i].1.push(value))),
        None => entries.push((name, seq![value])),
    }
}

/// The names and values a header map holds (see `HeaderEntries`).
pub uninterp spec fn header_map_entries(m: hyper::HeaderMap) -> HeaderEntries;

/// The method text of a request.
pub uninterp spec fn request_method(r: hyper::Request<hyper::Body>) -> Seq<char>;

/// The URI text of a request.
pub uninterp spec fn request_uri(r: hyper::Request<hyper::Body>) -> Seq<char>;

/// The header content of a request.
pub uninterp spec fn request_headers(r: hyper::Request<hyper::Body>) -> HeaderEntries;

/// The bytes the body of a request holds.
pub uninterp spec fn request_body(r: hyper::Request<hyper::Body>) -> Seq<u8>;

/// The status code of a response.
pub uninterp spec fn response_status(r: hyper::Response<hyper::Body>) -> u16;

/// The header content of a response.
pub uninterp spec fn response_headers(r: hyper::Response<hyper::Body>) -> HeaderEntries;

/// The bytes the body of a response holds.
pub uninterp spec fn response_body(r: hyper::Response<hyper::Body>) -> Seq<u8>;

/// Calls `Method::try_from` on the method text, as the request builder
/// does. Trusted: it succeeds exactly on non-empty texts of characters from
/// `http`'s method table, and the method keeps the text (the table maps each
/// allowed byte to itself).
#[verifier::external_body]
pub(crate) fn parse_method(text: &str) -> (r: Result<hyper::Method, hyper::http::Error>)
    ensures
        r is Ok == method_accepted(text@),
        r matches Ok(m) ==> method_text(m) == text@,
{
    hyper::Method::try_from(text).map_err(hyper::http::Error::from)
}

/// Calls `Uri::try_from` on the URI text, as the request builder does.
/// Trusted: it succeeds exactly when `parsed_uri` gives a text, and the URI
/// displays as that text.
#[verifier::external_body]
pub(crate) fn parse_uri(text: &str) -> (r: Result<hyper::Uri, hyper::http::Error>)
    ensures
        r is Ok == uri_accepted(text@),
        r matches Ok(u) ==> parsed_uri(text@) == Some(uri_text(u)),
{
    hyper::Uri::try_from(text).map_err(hyper::http::Error::from)
}

/// Calls `HeaderName::try_from` on the name text, as the builders do.
/// Trusted: it succeeds exactly on names of 1 to 65535 characters from
/// `http`'s header name table, which maps upper case to lower case, and the
/// name is the text in lower case.
#[verifier::external_body]
pub(crate) fn parse_header_name(text: &str) -> (r: Result<
    hyper::header::HeaderName,
    hyper::http::Error,
>)
    ensures
        r is Ok == header_name_accepted(text@),
        r matches Ok(n) ==> header_name_text(n) == normalized_name(text@),
{
    hyper::header::HeaderName::try_from(text).map_err(hyper::http::Error::from)
}

/// Calls `HeaderValue::try_from` on the value text, as the builders do.
/// Trusted: it succeeds exactly when every byte is allowed (the check in
/// `HeaderValue::from_str`), and the value holds the text's bytes.
#[verifier::external_body]
pub(crate) fn parse_header_value(text: &str) -> (r: Result<
    hyper::header::HeaderValue,
    hyper::http::Error,
>)
    ensures
        r is Ok == header_value_accepted(text@),
        r matches Ok(v) ==> header_value_bytes(v) == encode_utf8(text@),
{
    hyper::header::HeaderValue::try_from(text).map_err(hyper::http::Error::from)
}

/// Calls `StatusCode::try_from` on the code, as the response builder does.
/// Trusted: it succeeds exactly on codes from 100 to 999 (the check in
/// `StatusCode::from_u16`), and the status has that code.
#[verifier::external_body]
pub(crate) fn parse_status(code: u16) -> (r: Result<hyper::StatusCode, hyper::http::Error>)
    ensures
        r is Ok == status_accepted(code),
        r matches Ok(s) ==> status_value(s) == code,
{
    hyper::StatusCode::try_from(code).map_err(hyper::http::Error::from)
}

/// Calls `HeaderMap::new`. Trusted: the map is empty.
#[verifier::external_body]
pub(crate) fn header_map() -> (m: hyper::HeaderMap)
    ensures
        header_map_entries(m) == Seq::<(Seq<char>, Seq<Seq<u8>>)>::empty(),
{
    hyper::HeaderMap::new()
}

/// Calls `HeaderMap::try_append`. Trusted: on success the value joins the
/// values of its name (after them), or the name is added after the other
/// names; it fails (`MaxSizeReached`) only when the table would grow past
/// 32768 slots or hold 32768 names, which needs at least 6554 names
/// (growth to 32768 slots happens from 16384 slots at a load of 0.2 or
/// more), so a map of fewer than 6554 names always takes one more value.
#[verifier::external_body]
pub(crate) fn append_header(
    map: &mut hyper::HeaderMap,
    name: hyper::header::HeaderName,
    value: hyper::header::HeaderValue,
) -> (r: Result<bool, hyper::http::Error>)
    ensures
        r is Ok ==> header_map_entries(*final(map)) == with_value(
            header_map_entries(*old(map)),
            header_name_text(name),
            header_value_bytes(value),
        ),
        header_map_entries(*old(map)).len() < 6554 ==> r is Ok,
{
    map.try_append(name, value).map_err(hyper::http::Error::from)
}

/// Calls `Request::new` with the body text turned into a `hyper::Body`.
/// Trusted: the request has method `GET`, URI `/`, no headers, and a body
/// holding the text's bytes.
#[verifier::external_body]
pub(crate) fn new_request(body: String) -> (r: hyper::Request<hyper::Body>)
    ensures
        request_method(r) == "GET"@,
        request_uri(r) == "/"@,
        request_headers(r) == Seq::<(Seq<char>, Seq<Seq<u8>>)>::empty(),
        request_body(r) == encode_utf8(body@),
{
    hyper::Request::new(hyper::Body::from(body))
}

/// Calls `Request::method_mut` and stores the method. Trusted: only the
/// method changes.
#[verifier::external_body]
pub(crate) fn set_request_method(req: &mut hyper::Request<hyper::Body>, method: hyper::Method)
    ensures
        request_method(*final(req)) == method_text(method),
        request_uri(*final(req)) == request_uri(*old(req)),
        request_headers(*final(req)) == request_headers(*old(req)),
        request_body(*final(req)) == request_body(*old(req)),
{
    *req.method_mut() = method;
}

/// Calls `Request::uri_mut` and stores the URI. Trusted: only the URI
/// changes.
#[verifier::external_body]
pub(crate) fn set_request_uri(req: &mut hyper::Request<hyper::Body>, uri: hyper::Uri)
    ensures
        request_uri(*final(req)) == uri_text(uri),
        request_method(*final(req)) == request_method(*old(req)),
        request_headers(*final(req)) == request_headers(*old(req)),
        request_body(*final(req)) == request_body(*old(req)),
{
    *req.uri_mut() = uri;
}

/// Calls `Request::headers_mut` and stores the header map. Trusted: only
/// the headers change.
#[verifier::external_body]
pub(crate) fn set_request_headers(req: &mut hyper::Request<hyper::Body>, map: hyper::HeaderMap)
    ensures
        request_headers(*final(req)) == header_map_entries(map),
        request_method(*final(req)) == request_method(*old(req)),
        request_uri(*final(req)) == request_uri(*old(req)),
        request_body(*final(req)) == request_body(*old(req)),
{
    *req.headers_mut() = map;
}

/// Calls `Response::new` with the body text turned into a `hyper::Body`.
/// Trusted: the response has status 200, no headers, and a body holding the
/// text's bytes.
#[verifier::external_body]
pub(crate) fn new_response(body: String) -> (r: hyper::Response<hyper::Body>)
    ensures
        response_status(r) == 200,
        response_headers(r) == Seq::<(Seq<char>, Seq<Seq<u8>>)>::empty(),
        response_body(r) == encode_utf8(body@),
{
    hyper::Response::new(hyper::Body::from(body))
}

/// Calls `Response::status_mut` and stores the status. Trusted: only the
/// status changes.
#[verifier::external_body]
pub(crate) fn set_response_status(res: &mut hyper::Response<hyper::Body>, status: hyper::StatusCode)
    ensures
        response_status(*final(res)) == status_value(status),
        response_headers(*final(res)) == response_headers(*old(res)),
        response_body(*final(res)) == response_body(*old(res)),
{
    *res.status_mut() = status;
}

/// Calls `Response::headers_mut` and stores the header map. Trusted: only
/// the headers change.
#[verifier::external_body]
pub(crate) fn set_response_headers(res: &mut hyper::Response<hyper::Body>, map: hyper::HeaderMap)
    ensures
        response_headers(*final(res)) == header_map_entries(map),
        response_status(*final(res)) == response_status(*old(res)),
        response_body(*final(res)) == response_body(*old(res)),
{
    *res.headers_mut() = map;
}

} // verus!
