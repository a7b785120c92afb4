//! Requests and responses as the filter script sees them, and their
//! conversion into the messages that are sent on.

use vstd::prelude::*;
use vstd::string::*;
use vstd::utf8::*;

use crate::headers::{
    header_table, last_position, law_read_after_write, law_set_twice, lemma_last_position,
    lemma_with_line, line_view, names_distinct, with_line, HeaderLine, Headers,
};
use crate::text::{
    decimal, decimal_string, decode_lossy, digits_value, law_decimal_round_trip, utf8_lossy,
};
use crate::wire::{
    append_header, entry_position, header_map, header_map_entries, header_name_accepted,
    header_value_accepted, header_value_byte, with_value, HeaderEntries,
    method_accepted, new_request, new_response, normalized_name, parse_header_name,
    parse_header_value, parse_method, parse_status, parse_uri, parsed_uri, request_body,
    request_headers, request_method, request_uri, response_body, response_headers,
    response_status, set_request_headers, set_request_method, set_request_uri,
    set_response_headers, set_response_status, status_accepted, uri_accepted,
};

verus! {

/// The content of a request.
pub struct ProxyRequestView {
    pub uri: Seq<char>,
    pub method: Seq<char>,
    pub headers: Seq<HeaderLine>,
    pub body: Seq<char>,
}

/// The content of a response.
pub struct ResponseView {
    pub status: u16,
    pub headers: Seq<HeaderLine>,
    pub body: Seq<char>,
}

/// The name of the header that tracks the body length.
pub open spec fn content_length_name() -> Seq<char> {
    "content-length"@
}

/// The length in bytes of the UTF-8 encoding of `text`, as `str::len`
/// reports it.
pub open spec fn byte_len(text: Seq<char>) -> usize {
    encode_utf8(text).len() as usize
}

/// The lines after a body change: `content-length` set to the byte length
/// of the body, in decimal.
pub open spec fn lines_for_body(lines: Seq<HeaderLine>, body: Seq<char>) -> Seq<HeaderLine> {
    with_line(lines, content_length_name(), decimal(byte_len(body) as nat))
}

/// The header lines made from received name/value pairs, set one after the
/// other (so a later pair overrides an earlier one with the same name).
pub open spec fn collected_lines(pairs: Seq<HeaderLine>) -> Seq<HeaderLine>
    decreases pairs.len(),
{
    if pairs.len() == 0 {
        Seq::empty()
    } else {
        with_line(collected_lines(pairs.drop_last()), pairs.last().0, pairs.last().1)
    }
}

/// Collecting received pairs gives a table in which each name holds the
/// value of its last pair, and no name occurs on two lines.
pub proof fn law_collect_last_pair_wins(pairs: Seq<HeaderLine>)
    ensures
        header_table(collected_lines(pairs)) == header_table(pairs),
        names_distinct(collected_lines(pairs)),
    decreases pairs.len(),
{
    if pairs.len() > 0 {
        law_collect_last_pair_wins(pairs.drop_last());
        lemma_with_line(collected_lines(pairs.drop_last()), pairs.last().0, pairs.last().1);
    } else {
        assert(header_table(pairs) =~= header_table(collected_lines(pairs)));
    }
}

/// After a body change, `content-length` holds the decimal byte length of
/// the new body (which reads back as that length), and every other header
/// keeps its value.
pub proof fn law_body_sets_content_length(lines: Seq<HeaderLine>, body: Seq<char>)
    ensures
        header_table(lines_for_body(lines, body)).contains_key(content_length_name()),
        header_table(lines_for_body(lines, body))[content_length_name()] == decimal(
            byte_len(body) as nat,
        ),
        digits_value(header_table(lines_for_body(lines, body))[content_length_name()])
            == byte_len(body),
        forall|other: Seq<char>|
            other != content_length_name() ==> (#[trigger] header_table(
                lines_for_body(lines, body),
            ).contains_key(other) == header_table(lines).contains_key(other) && header_table(
                lines_for_body(lines, body),
            )[other] == header_table(lines)[other]),
{
    law_read_after_write(lines, content_length_name(), decimal(byte_len(body) as nat));
    law_decimal_round_trip(byte_len(body) as nat);
}

/// Two body changes in a row leave the request as the second one alone.
pub proof fn law_request_body_last_write_wins(r: ProxyRequestView, first: Seq<char>, second: Seq<
    char,
>)
    ensures
        r.with_body(first).with_body(second) == r.with_body(second),
{
    law_set_twice(
        r.headers,
        content_length_name(),
        decimal(byte_len(first) as nat),
        decimal(byte_len(second) as nat),
    );
}

/// Two body changes in a row leave the response as the second one alone.
pub proof fn law_response_body_last_write_wins(r: ResponseView, first: Seq<char>, second: Seq<
    char,
>)
    ensures
        r.with_body(first).with_body(second) == r.with_body(second),
{
    law_set_twice(
        r.headers,
        content_length_name(),
        decimal(byte_len(first) as nat),
        decimal(byte_len(second) as nat),
    );
}

/// Bytes decoded as lossy UTF-8: the decoded text for valid UTF-8.
pub open spec fn lossy_text(bytes: Seq<u8>) -> Seq<char> {
    if valid_utf8(bytes) {
        decode_utf8(bytes)
    } else {
        utf8_lossy(bytes)
    }
}

/// Each request setter replaces exactly its own part with the given value
/// and leaves every other part as it was; a body change also sets
/// `content-length` to a number equal to the byte length of the body the
/// request then carries, and leaves every other header as it was.
pub proof fn law_request_setters(r: ProxyRequestView, text: Seq<char>, name: Seq<char>)
    ensures
        r.with_uri(text).uri == text,
        r.with_uri(text).method == r.method,
        r.with_uri(text).headers == r.headers,
        r.with_uri(text).body == r.body,
        r.with_method(text).method == text,
        r.with_method(text).uri == r.uri,
        r.with_method(text).headers == r.headers,
        r.with_method(text).body == r.body,
        r.with_body(text).body == text,
        r.with_body(text).uri == r.uri,
        r.with_body(text).method == r.method,
        digits_value(r.with_body(text).table()[content_length_name()]) == encode_utf8(
            r.with_body(text).body,
        ).len() as usize,
        name != content_length_name() ==> (r.with_body(text).table().contains_key(name)
            == r.table().contains_key(name) && r.with_body(text).table()[name] == r.table()[name]),
        r.with_header(name, text).table()[name] == text,
        r.with_header(name, text).uri == r.uri,
        r.with_header(name, text).method == r.method,
        r.with_header(name, text).body == r.body,
{
    law_body_sets_content_length(r.headers, text);
    law_read_after_write(r.headers, name, text);
}

/// Each response setter replaces exactly its own part with the given value
/// and leaves every other part as it was; a body change also sets
/// `content-length` to a number equal to the byte length of the body the
/// response then carries, and leaves every other header as it was.
pub proof fn law_response_setters(r: ResponseView, status: u16, text: Seq<char>, name: Seq<char>)
    ensures
        r.with_status(status).status == status,
        r.with_status(status).headers == r.headers,
        r.with_status(status).body == r.body,
        r.with_body(text).body == text,
        r.with_body(text).status == r.status,
        digits_value(r.with_body(text).table()[content_length_name()]) == encode_utf8(
            r.with_body(text).body,
        ).len() as usize,
        name != content_length_name() ==> (r.with_body(text).table().contains_key(name)
            == r.table().contains_key(name) && r.with_body(text).table()[name] == r.table()[name]),
        r.with_header(name, text).table()[name] == text,
        r.with_header(name, text).status == r.status,
        r.with_header(name, text).body == r.body,
{
    law_body_sets_content_length(r.headers, text);
    law_read_after_write(r.headers, name, text);
}

/// Received header pairs, as name text and value bytes.
pub open spec fn received_pairs(pairs: Seq<(String, Vec<u8>)>) -> Seq<(Seq<char>, Seq<u8>)> {
    pairs.map_values(|p: (String, Vec<u8>)| (p.0@, p.1@))
}

/// Header pairs with their values decoded as lossy UTF-8.
pub open spec fn decode_pairs(pairs: Seq<(Seq<char>, Seq<u8>)>) -> Seq<HeaderLine> {
    pairs.map_values(|p: (Seq<char>, Seq<u8>)| (p.0, lossy_text(p.1)))
}

/// The request made of received parts: header values and the body decoded
/// as lossy UTF-8, header pairs set in order (the last pair of a name wins).
pub open spec fn received_request(
    uri: Seq<char>,
    method: Seq<char>,
    pairs: Seq<(Seq<char>, Seq<u8>)>,
    body: Seq<u8>,
) -> ProxyRequestView {
    ProxyRequestView {
        uri,
        method,
        headers: collected_lines(decode_pairs(pairs)),
        body: lossy_text(body),
    }
}

/// The response made of received parts, as for requests.
pub open spec fn received_response(
    status: u16,
    pairs: Seq<(Seq<char>, Seq<u8>)>,
    body: Seq<u8>,
) -> ResponseView {
    ResponseView { status, headers: collected_lines(decode_pairs(pairs)), body: lossy_text(body) }
}

impl ProxyRequestView {
    pub open spec fn table(self) -> Map<Seq<char>, Seq<char>> {
        header_table(self.headers)
    }

    pub open spec fn with_uri(self, uri: Seq<char>) -> ProxyRequestView {
        ProxyRequestView { uri, ..self }
    }

    pub open spec fn with_method(self, method: Seq<char>) -> ProxyRequestView {
        ProxyRequestView { method, ..self }
    }

    pub open spec fn with_header(self, name: Seq<char>, value: Seq<char>) -> ProxyRequestView {
        ProxyRequestView { headers: with_line(self.headers, name, value), ..self }
    }

    pub open spec fn with_body(self, body: Seq<char>) -> ProxyRequestView {
        ProxyRequestView { headers: lines_for_body(self.headers, body), body, ..self }
    }
}

impl ResponseView {
    pub open spec fn table(self) -> Map<Seq<char>, Seq<char>> {
        header_table(self.headers)
    }

    pub open spec fn with_status(self, status: u16) -> ResponseView {
        ResponseView { status, ..self }
    }

    pub open spec fn with_header(self, name: Seq<char>, value: Seq<char>) -> ResponseView {
        ResponseView { headers: with_line(self.headers, name, value), ..self }
    }

    pub open spec fn with_body(self, body: Seq<char>) -> ResponseView {
        ResponseView { headers: lines_for_body(self.headers, body), body, ..self }
    }
}

/// The part of a request or response that `hyper` refuses.
pub enum Refusal {
    Method,
    Uri,
    Status,
    HeaderName,
    HeaderValue,
}

/// What `hyper` refuses of a header line, if anything: its name is checked
/// before its value.
pub open spec fn line_refusal(line: HeaderLine) -> Option<Refusal> {
    if !header_name_accepted(line.0) {
        Some(Refusal::HeaderName)
    } else if !header_value_accepted(line.1) {
        Some(Refusal::HeaderValue)
    } else {
        None
    }
}

/// What `hyper` refuses first among header lines taken in order.
pub open spec fn lines_refusal(lines: Seq<HeaderLine>) -> Option<Refusal>
    decreases lines.len(),
{
    if lines.len() == 0 {
        None
    } else if line_refusal(lines[0]) is Some {
        line_refusal(lines[0])
    } else {
        lines_refusal(lines.drop_first())
    }
}

/// What `hyper` refuses first of a request: method, then URI, then the
/// header lines in order.
pub open spec fn request_refusal(r: ProxyRequestView) -> Option<Refusal> {
    if !method_accepted(r.method) {
        Some(Refusal::Method)
    } else if !uri_accepted(r.uri) {
        Some(Refusal::Uri)
    } else {
        lines_refusal(r.headers)
    }
}

/// What `hyper` refuses first of a response: status, then the header lines
/// in order.
pub open spec fn response_refusal(r: ResponseView) -> Option<Refusal> {
    if !status_accepted(r.status) {
        Some(Refusal::Status)
    } else {
        lines_refusal(r.headers)
    }
}

/// The pairs a header map yields when walked: names in the order they were
/// first added, each name's values in the order they were added.
pub open spec fn entry_pairs(entries: HeaderEntries) -> Seq<(Seq<char>, Seq<u8>)>
    decreases entries.len(),
{
    if entries.len() == 0 {
        Seq::empty()
    } else {
        entry_pairs(entries.drop_last()) + entries.last().1.map_values(
            |v: Seq<u8>| (entries.last().0, v),
        )
    }
}

/// Pairs with one value each, as header map entries.
pub open spec fn single_entries(pairs: Seq<(Seq<char>, Seq<u8>)>) -> HeaderEntries {
    pairs.map_values(|p: (Seq<char>, Seq<u8>)| (p.0, seq![p.1]))
}

/// Appending pairs of distinct names gives one entry per pair.
proof fn lemma_entries_of_distinct(pairs: Seq<(Seq<char>, Seq<u8>)>)
    requires
        names_distinct(pairs),
    ensures
        entries_of(pairs) == single_entries(pairs),
    decreases pairs.len(),
{
    if pairs.len() > 0 {
        let init = pairs.drop_last();
        assert(names_distinct(init)) by {
            assert forall|a: int, b: int| 0 <= a < b < init.len() implies init[a].0 != init[b].0 by {
                assert(init[a] == pairs[a] && init[b] == pairs[b]);
            }
        }
        lemma_entries_of_distinct(init);
        let e = single_entries(init);
        lemma_entry_position(e, pairs.last().0);
        if let Some(i) = entry_position(e, pairs.last().0) {
            assert(e[i].0 == init[i].0);
            assert(pairs[i] == init[i]);
            assert(pairs[i].0 != pairs[pairs.len() - 1].0);
        }
        assert(single_entries(pairs) =~= e.push((pairs.last().0, seq![pairs.last().1])));
    }
}

/// Walking entries of one value each gives back the pairs.
proof fn lemma_pairs_of_single(pairs: Seq<(Seq<char>, Seq<u8>)>)
    ensures
        entry_pairs(single_entries(pairs)) == pairs,
    decreases pairs.len(),
{
    if pairs.len() > 0 {
        let init = pairs.drop_last();
        lemma_pairs_of_single(init);
        let e = single_entries(pairs);
        assert(e.drop_last() =~= single_entries(init));
        assert(e.last().1.map_values(|v: Seq<u8>| (e.last().0, v)) =~= seq![pairs.last()]);
        assert(pairs =~= init + seq![pairs.last()]);
    } else {
        assert(pairs =~= Seq::<(Seq<char>, Seq<u8>)>::empty());
    }
}

/// Collecting lines of distinct names keeps them as they are.
proof fn lemma_collect_distinct(lines: Seq<HeaderLine>)
    requires
        names_distinct(lines),
    ensures
        collected_lines(lines) == lines,
    decreases lines.len(),
{
    if lines.len() > 0 {
        let init = lines.drop_last();
        assert(names_distinct(init)) by {
            assert forall|a: int, b: int| 0 <= a < b < init.len() implies init[a].0 != init[b].0 by {
                assert(init[a] == lines[a] && init[b] == lines[b]);
            }
        }
        lemma_collect_distinct(init);
        lemma_last_position(init, lines.last().0);
        if let Some(i) = last_position(init, lines.last().0) {
            assert(lines[i] == init[i]);
            assert(lines[i].0 != lines[lines.len() - 1].0);
        }
        assert(init.push(lines.last()) =~= lines);
    }
}

/// No line is refused when every name and value is accepted.
proof fn lemma_lines_accepted(lines: Seq<HeaderLine>)
    requires
        forall|i: int|
            0 <= i < lines.len() ==> header_name_accepted(#[trigger] lines[i].0)
                && header_value_accepted(lines[i].1),
    ensures
        lines_refusal(lines) is None,
    decreases lines.len(),
{
    if lines.len() > 0 {
        assert(header_name_accepted(lines[0].0) && header_value_accepted(lines[0].1));
        let rest = lines.drop_first();
        assert forall|i: int| 0 <= i < rest.len() implies header_name_accepted(#[trigger] rest[i].0)
            && header_value_accepted(rest[i].1) by {
            assert(rest[i] == lines[i + 1]);
        }
        lemma_lines_accepted(rest);
    }
}

/// Lines whose names are distinct and lower case, read back from the
/// header map built of them, are the same lines.
proof fn lemma_lines_read_back(lines: Seq<HeaderLine>)
    requires
        names_distinct(lines),
        forall|i: int| 0 <= i < lines.len() ==> normalized_name(#[trigger] lines[i].0) == lines[i].0,
    ensures
        collected_lines(decode_pairs(entry_pairs(entries_of(wire_lines(lines))))) == lines,
{
    broadcast use encode_utf8_valid_utf8, encode_utf8_decode_utf8;

    let w = wire_lines(lines);
    assert forall|a: int, b: int| 0 <= a < b < w.len() implies w[a].0 != w[b].0 by {
        assert(w[a].0 == lines[a].0 && w[b].0 == lines[b].0);
    }
    lemma_entries_of_distinct(w);
    lemma_pairs_of_single(w);
    assert(decode_pairs(w) =~= lines) by {
        assert forall|i: int| 0 <= i < lines.len() implies decode_pairs(w)[i] == lines[i] by {
            assert(w[i] == (lines[i].0, encode_utf8(lines[i].1)));
            assert(lossy_text(encode_utf8(lines[i].1)) == lines[i].1);
        }
    }
    lemma_collect_distinct(lines);
}

/// Received pairs of distinct lower-case names, one value each in valid
/// UTF-8, made into lines and built into a header map again, give the same
/// entries; and when the names and values are accepted, no line is refused.
proof fn lemma_pairs_rebuilt(entries: HeaderEntries)
    requires
        names_distinct(entries),
        forall|i: int| 0 <= i < entries.len() ==> (#[trigger] entries[i]).1.len() == 1,
        forall|i: int|
            0 <= i < entries.len() ==> normalized_name((#[trigger] entries[i]).0) == entries[i].0
                && valid_utf8(entries[i].1[0]),
    ensures
        entries_of(wire_lines(collected_lines(decode_pairs(entry_pairs(entries))))) == entries,
        (forall|i: int|
            0 <= i < entries.len() ==> header_name_accepted((#[trigger] entries[i]).0) && forall|
                k: int,
            |
                0 <= k < entries[i].1[0].len() ==> header_value_byte(#[trigger] entries[i].1[0][k]))
            ==> lines_refusal(collected_lines(decode_pairs(entry_pairs(entries)))) is None,
{
    broadcast use decode_utf8_encode_utf8;

    let pairs = entries.map_values(|e: (Seq<char>, Seq<Seq<u8>>)| (e.0, e.1[0]));
    assert(single_entries(pairs) =~= entries) by {
        assert forall|i: int| 0 <= i < entries.len() implies single_entries(pairs)[i]
            == entries[i] by {
            assert(entries[i].1 =~= seq![entries[i].1[0]]);
        }
    }
    lemma_pairs_of_single(pairs);
    let lines = decode_pairs(pairs);
    assert forall|a: int, b: int| 0 <= a < b < lines.len() implies lines[a].0 != lines[b].0 by {
        assert(lines[a].0 == entries[a].0 && lines[b].0 == entries[b].0);
    }
    lemma_collect_distinct(lines);
    assert(wire_lines(lines) =~= pairs) by {
        assert forall|i: int| 0 <= i < lines.len() implies wire_lines(lines)[i] == pairs[i] by {
            assert(lines[i] == (entries[i].0, decode_utf8(entries[i].1[0])));
        }
    }
    assert forall|a: int, b: int| 0 <= a < b < pairs.len() implies pairs[a].0 != pairs[b].0 by {
        assert(pairs[a].0 == entries[a].0 && pairs[b].0 == entries[b].0);
    }
    lemma_entries_of_distinct(pairs);
    if forall|i: int|
        0 <= i < entries.len() ==> header_name_accepted((#[trigger] entries[i]).0) && forall|k: int|
            0 <= k < entries[i].1[0].len() ==> header_value_byte(#[trigger] entries[i].1[0][k]) {
        assert forall|i: int| 0 <= i < lines.len() implies header_name_accepted(
            #[trigger] lines[i].0,
        ) && header_value_accepted(lines[i].1) by {
            assert(lines[i] == (entries[i].0, decode_utf8(entries[i].1[0])));
            assert(encode_utf8(lines[i].1) == entries[i].1[0]);
            assert(header_name_accepted(entries[i].0));
        }
        lemma_lines_accepted(lines);
    }
}

/// A request built by `into_request` and read back by walking the built
/// request's parts (as `ProxyRequest::from` is fed) is the original request,
/// when its URI is already in the form `hyper` displays and its header names
/// are distinct and in lower case.
pub proof fn law_request_read_back(p: ProxyRequestView, m: hyper::Request<hyper::Body>)
    requires
        request_method(m) == p.method,
        parsed_uri(p.uri) == Some(request_uri(m)),
        request_headers(m) == entries_of(wire_lines(p.headers)),
        request_body(m) == encode_utf8(p.body),
        parsed_uri(p.uri) == Some(p.uri),
        names_distinct(p.headers),
        forall|i: int|
            0 <= i < p.headers.len() ==> normalized_name(#[trigger] p.headers[i].0)
                == p.headers[i].0,
    ensures
        received_request(
            request_uri(m),
            request_method(m),
            entry_pairs(request_headers(m)),
            request_body(m),
        ) == p,
{
    broadcast use encode_utf8_valid_utf8, encode_utf8_decode_utf8;

    lemma_lines_read_back(p.headers);
    assert(lossy_text(encode_utf8(p.body)) == p.body);
}

/// A response built by `into_response` and read back by walking the built
/// response's parts is the original response, when its header names are
/// distinct and in lower case.
pub proof fn law_response_read_back(p: ResponseView, m: hyper::Response<hyper::Body>)
    requires
        response_status(m) == p.status,
        response_headers(m) == entries_of(wire_lines(p.headers)),
        response_body(m) == encode_utf8(p.body),
        names_distinct(p.headers),
        forall|i: int|
            0 <= i < p.headers.len() ==> normalized_name(#[trigger] p.headers[i].0)
                == p.headers[i].0,
    ensures
        received_response(response_status(m), entry_pairs(response_headers(m)), response_body(m))
            == p,
{
    broadcast use encode_utf8_valid_utf8, encode_utf8_decode_utf8;

    lemma_lines_read_back(p.headers);
    assert(lossy_text(encode_utf8(p.body)) == p.body);
}

/// A request received with accepted parts (each header name once, in lower
/// case, its value valid UTF-8 of allowed bytes; a UTF-8 body) and built
/// again: nothing is refused, and the rebuilt parts are the method, the
/// URI text as received (which `into_request` parses again), the same
/// header entries and the same body bytes.
pub proof fn law_request_rebuild(
    uri: Seq<char>,
    method: Seq<char>,
    entries: HeaderEntries,
    body: Seq<u8>,
)
    requires
        method_accepted(method),
        uri_accepted(uri),
        names_distinct(entries),
        forall|i: int| 0 <= i < entries.len() ==> (#[trigger] entries[i]).1.len() == 1,
        forall|i: int|
            0 <= i < entries.len() ==> normalized_name((#[trigger] entries[i]).0) == entries[i].0
                && header_name_accepted(entries[i].0) && valid_utf8(entries[i].1[0]),
        forall|i: int, k: int|
            0 <= i < entries.len() && 0 <= k < entries[i].1[0].len() ==> header_value_byte(
                #[trigger] entries[i].1[0][k],
            ),
        valid_utf8(body),
    ensures
        request_refusal(received_request(uri, method, entry_pairs(entries), body)) is None,
        received_request(uri, method, entry_pairs(entries), body).uri == uri,
        received_request(uri, method, entry_pairs(entries), body).method == method,
        entries_of(wire_lines(received_request(uri, method, entry_pairs(entries), body).headers))
            == entries,
        encode_utf8(received_request(uri, method, entry_pairs(entries), body).body) == body,
{
    broadcast use decode_utf8_encode_utf8;

    lemma_pairs_rebuilt(entries);
}

/// A response received with an accepted status and accepted headers (as
/// for requests) and built again: nothing is refused, and the rebuilt parts
/// are the same status, header entries and body bytes.
pub proof fn law_response_rebuild(status: u16, entries: HeaderEntries, body: Seq<u8>)
    requires
        status_accepted(status),
        names_distinct(entries),
        forall|i: int| 0 <= i < entries.len() ==> (#[trigger] entries[i]).1.len() == 1,
        forall|i: int|
            0 <= i < entries.len() ==> normalized_name((#[trigger] entries[i]).0) == entries[i].0
                && header_name_accepted(entries[i].0) && valid_utf8(entries[i].1[0]),
        forall|i: int, k: int|
            0 <= i < entries.len() && 0 <= k < entries[i].1[0].len() ==> header_value_byte(
                #[trigger] entries[i].1[0][k],
            ),
        valid_utf8(body),
    ensures
        response_refusal(received_response(status, entry_pairs(entries), body)) is None,
        received_response(status, entry_pairs(entries), body).status == status,
        entries_of(wire_lines(received_response(status, entry_pairs(entries), body).headers))
            == entries,
        encode_utf8(received_response(status, entry_pairs(entries), body).body) == body,
{
    broadcast use decode_utf8_encode_utf8;

    lemma_pairs_rebuilt(entries);
}

/// Why a request or response could not be turned into an outgoing message;
/// each variant carries `hyper`'s error.
#[derive(Debug)]
pub enum BuildError {
    Method(hyper::http::Error),
    Uri(hyper::http::Error),
    Status(hyper::http::Error),
    HeaderName(hyper::http::Error),
    HeaderValue(hyper::http::Error),
    /// The header map was full.
    Full(hyper::http::Error),
}

/// The refused part that an error reports (none for a full header map).
pub open spec fn refusal_of(e: BuildError) -> Option<Refusal> {
    match e {
        BuildError::Method(_) => Some(Refusal::Method),
        BuildError::Uri(_) => Some(Refusal::Uri),
        BuildError::Status(_) => Some(Refusal::Status),
        BuildError::HeaderName(_) => Some(Refusal::HeaderName),
        BuildError::HeaderValue(_) => Some(Refusal::HeaderValue),
        BuildError::Full(_) => None,
    }
}

/// A header line as `hyper` holds it: the name in lower case, the value as
/// UTF-8 bytes.
pub open spec fn wire_line(line: HeaderLine) -> (Seq<char>, Seq<u8>) {
    (normalized_name(line.0), encode_utf8(line.1))
}

/// Header lines as `hyper` holds them, in the same order.
pub open spec fn wire_lines(lines: Seq<HeaderLine>) -> Seq<(Seq<char>, Seq<u8>)> {
    lines.map_values(|l: HeaderLine| wire_line(l))
}

/// A header map with fewer names than this always takes one more value.
pub open spec fn map_room() -> nat {
    6554
}

/// The content of a header map after appending `pairs` in order.
pub open spec fn entries_of(pairs: Seq<(Seq<char>, Seq<u8>)>) -> HeaderEntries
    decreases pairs.len(),
{
    if pairs.len() == 0 {
        Seq::empty()
    } else {
        with_value(entries_of(pairs.drop_last()), pairs.last().0, pairs.last().1)
    }
}

/// `entry_position` finds an entry of the name, or there is none.
pub proof fn lemma_entry_position(entries: HeaderEntries, name: Seq<char>)
    ensures
        entry_position(entries, name) matches Some(i) ==> 0 <= i < entries.len() && entries[i].0
            == name,
        entry_position(entries, name) is None ==> forall|j: int|
            0 <= j < entries.len() ==> entries[j].0 != name,
    decreases entries.len(),
{
    if entries.len() > 0 && entries.last().0 != name {
        lemma_entry_position(entries.drop_last(), name);
        assert(forall|j: int| 0 <= j < entries.len() - 1 ==> entries[j] == entries.drop_last()[j]);
    }
}

/// Appending more values never leaves fewer names.
proof fn lemma_entries_prefix(pairs: Seq<(Seq<char>, Seq<u8>)>, k: int)
    requires
        0 <= k <= pairs.len(),
    ensures
        entries_of(pairs.take(k)).len() <= entries_of(pairs).len(),
    decreases pairs.len(),
{
    if k < pairs.len() {
        let init = pairs.drop_last();
        lemma_entries_prefix(init, k);
        assert(init.take(k) =~= pairs.take(k));
        lemma_entry_position(entries_of(init), pairs.last().0);
    } else {
        assert(pairs.take(k) =~= pairs);
    }
}

/// A build that reports `refusal` ends as it should: in success only when
/// nothing is refused, and otherwise with the first refused part, unless
/// the header map filled up first.
pub open spec fn build_matches<T>(r: Result<T, BuildError>, refusal: Option<Refusal>) -> bool {
    match r {
        Ok(_) => refusal is None,
        Err(e) => e is Full || (refusal_of(e) is Some && refusal_of(e) == refusal),
    }
}

/// A request between the client and the server.
#[derive(Debug)]
pub struct ProxyRequest {
    uri: String,
    method: String,
    headers: Headers,
    body: String,
}

impl View for ProxyRequest {
    type V = ProxyRequestView;

    closed spec fn view(&self) -> ProxyRequestView {
        ProxyRequestView {
            uri: self.uri@,
            method: self.method@,
            headers: self.headers@,
            body: self.body@,
        }
    }
}

/// Reads received header pairs into a table, decoding each value as lossy
/// UTF-8.
fn collect_headers(pairs: &Vec<(String, Vec<u8>)>) -> (h: Headers)
    ensures
        h@ == collected_lines(decode_pairs(received_pairs(pairs@))),
        names_distinct(h@),
{
    let mut h = Headers::new();
    let n = pairs.len();
    let ghost decoded = decode_pairs(received_pairs(pairs@));
    for k in 0..n
        invariant
            n == pairs@.len(),
            decoded == decode_pairs(received_pairs(pairs@)),
            h@ == collected_lines(decoded.take(k as int)),
            names_distinct(h@),
    {
        let name = pairs[k].0.clone();
        let value = decode_lossy(pairs[k].1.as_slice());
        proof {
            assert(decoded.take(k + 1).drop_last() =~= decoded.take(k as int));
            assert(decoded.take(k + 1).last() == (name@, value@));
        }
        h.insert(name, value);
    }
    assert(decoded.take(n as int) =~= decoded);
    h
}

/// Sets `content-length` to the byte length of `body`.
fn set_content_length(headers: &mut Headers, body: &String)
    ensures
        final(headers)@ == lines_for_body(old(headers)@, body@),
        names_distinct(final(headers)@),
{
    let len = body.as_str().len();
    headers.insert("content-length".to_owned(), decimal_string(len));
}

/// Checks and appends header lines in order, stopping at the first line
/// that `hyper` refuses or that the map has no room for.
fn header_map_for(lines: &Vec<(String, String)>) -> (r: Result<hyper::HeaderMap, BuildError>)
    ensures
        build_matches(r, lines_refusal(lines@.map_values(|p: (String, String)| line_view(p)))),
        r matches Err(BuildError::Full(_)) ==> entries_of(
            wire_lines(lines@.map_values(|p: (String, String)| line_view(p))),
        ).len() >= map_room(),
        r matches Ok(m) ==> header_map_entries(m) == entries_of(
            wire_lines(lines@.map_values(|p: (String, String)| line_view(p))),
        ),
{
    let ghost all = lines@.map_values(|p: (String, String)| line_view(p));
    let mut map = header_map();
    let n = lines.len();
    assert(all.subrange(0, n as int) =~= all);
    assert(wire_lines(all.take(0)) =~= Seq::<(Seq<char>, Seq<u8>)>::empty());
    assert(entries_of(wire_lines(all.take(0))) == Seq::<(Seq<char>, Seq<Seq<u8>>)>::empty());
    for k in 0..n
        invariant
            n == lines@.len(),
            all == lines@.map_values(|p: (String, String)| line_view(p)),
            lines_refusal(all) == lines_refusal(all.subrange(k as int, n as int)),
            header_map_entries(map) == entries_of(wire_lines(all.take(k as int))),
    {
        let ghost rest = all.subrange(k as int, n as int);
        assert(rest[0] == line_view(lines@[k as int]));
        let name = match parse_header_name(lines[k].0.as_str()) {
            Ok(name) => name,
            Err(e) => return Err(BuildError::HeaderName(e)),
        };
        let value = match parse_header_value(lines[k].1.as_str()) {
            Ok(value) => value,
            Err(e) => return Err(BuildError::HeaderValue(e)),
        };
        match append_header(&mut map, name, value) {
            Ok(_) => {},
            Err(e) => {
                proof {
                    assert(wire_lines(all.take(k as int)) =~= wire_lines(all).take(k as int));
                    lemma_entries_prefix(wire_lines(all), k as int);
                }
                return Err(BuildError::Full(e));
            },
        }
        assert(wire_lines(all.take(k + 1)) =~= wire_lines(all.take(k as int)).push(
            wire_line(all[k as int]),
        ));
        assert(wire_lines(all.take(k + 1)).drop_last() =~= wire_lines(all.take(k as int)));
        assert(rest.drop_first() =~= all.subrange(k + 1, n as int));
    }
    assert(all.subrange(n as int, n as int) =~= Seq::<HeaderLine>::empty());
    assert(all.take(n as int) =~= all);
    Ok(map)
}

impl ProxyRequest {
    /// A request with the received parts: header values and the body are
    /// decoded as lossy UTF-8, and header pairs are set in order, so the last
    /// pair of a name wins.
    pub fn from(uri: String, method: String, headers: Vec<(String, Vec<u8>)>, body: Vec<u8>) -> (r:
        ProxyRequest)
        ensures
            r@ == received_request(uri@, method@, received_pairs(headers@), body@),
            names_distinct(r@.headers),
    {
        let table = collect_headers(&headers);
        let body = decode_lossy(body.as_slice());
        ProxyRequest { uri, method, headers: table, body }
    }

    /// A request with no headers.
    pub fn _new(uri: &str, method: &str, body: &str) -> (r: ProxyRequest)
        ensures
            r@ == (ProxyRequestView {
                uri: uri@,
                method: method@,
                headers: Seq::empty(),
                body: body@,
            }),
    {
        ProxyRequest {
            uri: uri.to_owned(),
            method: method.to_owned(),
            headers: Headers::new(),
            body: body.to_owned(),
        }
    }

    /// Sets header `key` to `val`.
    pub fn _with_header(&mut self, key: &str, val: &str)
        ensures
            final(self)@ == old(self)@.with_header(key@, val@),
            names_distinct(final(self)@.headers),
    {
        self.headers.insert(key.to_owned(), val.to_owned());
    }

    /// The request URI.
    pub fn uri(&self) -> (s: String)
        ensures
            s@ == self@.uri,
    {
        self.uri.clone()
    }

    /// The request method.
    pub fn method(&self) -> (s: String)
        ensures
            s@ == self@.method,
    {
        self.method.clone()
    }

    /// The request body.
    pub fn body(&self) -> (s: String)
        ensures
            s@ == self@.body,
    {
        self.body.clone()
    }

    /// A copy of the header table.
    pub fn headers(&self) -> (h: Headers)
        ensures
            h@ == self@.headers,
            names_distinct(h@),
    {
        self.headers.clone()
    }

    /// Replaces the URI.
    pub fn set_uri(&mut self, uri: String)
        ensures
            final(self)@ == old(self)@.with_uri(uri@),
            final(self)@.uri == uri@,
    {
        self.uri = uri;
    }

    /// Replaces the method.
    pub fn set_method(&mut self, method: String)
        ensures
            final(self)@ == old(self)@.with_method(method@),
            final(self)@.method == method@,
    {
        self.method = method;
    }

    /// Replaces the body and sets `content-length` to its byte length.
    pub fn set_body(&mut self, body: String)
        ensures
            final(self)@ == old(self)@.with_body(body@),
            final(self)@.body == body@,
            names_distinct(final(self)@.headers),
    {
        set_content_length(&mut self.headers, &body);
        self.body = body;
    }

    /// Sets header `key` to `value`.
    pub fn set_header(&mut self, key: String, value: String)
        ensures
            final(self)@ == old(self)@.with_header(key@, value@),
            names_distinct(final(self)@.headers),
    {
        self.headers.insert(key, value);
    }

    /// Builds the outgoing request as `hyper`'s request builder does: the
    /// method, the URI and every header line in table order are checked in
    /// that order, the first refused part ends the build with its error, and
    /// otherwise the request carries them and the body.
    pub fn into_request(self) -> (r: Result<hyper::Request<hyper::Body>, BuildError>)
        ensures
            build_matches(r, request_refusal(self@)),
            r matches Err(BuildError::Full(_)) ==> method_accepted(self@.method) && uri_accepted(
                self@.uri,
            ) && entries_of(wire_lines(self@.headers)).len() >= map_room(),
            request_refusal(self@) is None && entries_of(wire_lines(self@.headers)).len()
                < map_room() ==> r is Ok,
            r matches Ok(m) ==> {
                &&& request_method(m) == self@.method
                &&& parsed_uri(self@.uri) == Some(request_uri(m))
                &&& request_headers(m) == entries_of(wire_lines(self@.headers))
                &&& request_body(m) == encode_utf8(self@.body)
            },
    {
        let method = match parse_method(self.method.as_str()) {
            Ok(m) => m,
            Err(e) => return Err(BuildError::Method(e)),
        };
        let uri = match parse_uri(self.uri.as_str()) {
            Ok(u) => u,
            Err(e) => return Err(BuildError::Uri(e)),
        };
        let map = match header_map_for(self.headers.lines()) {
            Ok(map) => map,
            Err(e) => return Err(e),
        };
        let mut req = new_request(self.body);
        set_request_method(&mut req, method);
        set_request_uri(&mut req, uri);
        set_request_headers(&mut req, map);
        Ok(req)
    }
}

impl Clone for ProxyRequest {
    fn clone(&self) -> (r: ProxyRequest)
        ensures
            r@ == self@,
    {
        ProxyRequest {
            uri: self.uri.clone(),
            method: self.method.clone(),
            headers: self.headers.clone(),
            body: self.body.clone(),
        }
    }
}

/// A response between the server and the client.
#[derive(Debug)]
pub struct ProxyResponse {
    status: u16,
    headers: Headers,
    body: String,
}

impl View for ProxyResponse {
    type V = ResponseView;

    closed spec fn view(&self) -> ResponseView {
        ResponseView { status: self.status, headers: self.headers@, body: self.body@ }
    }
}

impl ProxyResponse {
    /// A response with the received parts: header values and the body are
    /// decoded as lossy UTF-8, and header pairs are set in order, so the last
    /// pair of a name wins.
    pub fn from(status: u16, headers: Vec<(String, Vec<u8>)>, body: Vec<u8>) -> (r: ProxyResponse)
        ensures
            r@ == received_response(status, received_pairs(headers@), body@),
            names_distinct(r@.headers),
    {
        let table = collect_headers(&headers);
        let body = decode_lossy(body.as_slice());
        ProxyResponse { status, headers: table, body }
    }

    /// A response with no headers.
    pub fn _new(status: u16, body: &str) -> (r: ProxyResponse)
        ensures
            r@ == (ResponseView { status, headers: Seq::empty(), body: body@ }),
    {
        ProxyResponse { status, headers: Headers::new(), body: body.to_owned() }
    }

    /// Sets header `key` to `val`.
    pub fn _with_header(&mut self, key: &str, val: &str)
        ensures
            final(self)@ == old(self)@.with_header(key@, val@),
            names_distinct(final(self)@.headers),
    {
        self.headers.insert(key.to_owned(), val.to_owned());
    }

    /// The response body.
    pub fn body(&self) -> (s: String)
        ensures
            s@ == self@.body,
    {
        self.body.clone()
    }

    /// A copy of the header table.
    pub fn headers(&self) -> (h: Headers)
        ensures
            h@ == self@.headers,
            names_distinct(h@),
    {
        self.headers.clone()
    }

    /// The status code.
    pub fn status(&self) -> (s: u16)
        ensures
            s == self@.status,
    {
        self.status
    }

    /// Replaces the body and sets `content-length` to its byte length.
    pub fn set_body(&mut self, body: String)
        ensures
            final(self)@ == old(self)@.with_body(body@),
            final(self)@.body == body@,
            names_distinct(final(self)@.headers),
    {
        set_content_length(&mut self.headers, &body);
        self.body = body;
    }

    /// Replaces the status code.
    pub fn set_status(&mut self, status: u16)
        ensures
            final(self)@ == old(self)@.with_status(status),
            final(self)@.status == status,
    {
        self.status = status;
    }

    /// Sets header `key` to `value`.
    pub fn set_header(&mut self, key: String, value: String)
        ensures
            final(self)@ == old(self)@.with_header(key@, value@),
            names_distinct(final(self)@.headers),
    {
        self.headers.insert(key, value);
    }

    /// Builds the outgoing response as `hyper`'s response builder does: the
    /// status and every header line in table order are checked in that order,
    /// the first refused part ends the build with its error, and otherwise
    /// the response carries them and the body.
    pub fn into_response(self) -> (r: Result<hyper::Response<hyper::Body>, BuildError>)
        ensures
            build_matches(r, response_refusal(self@)),
            r matches Err(BuildError::Full(_)) ==> status_accepted(self@.status)
                && entries_of(wire_lines(self@.headers)).len() >= map_room(),
            response_refusal(self@) is None && entries_of(wire_lines(self@.headers)).len()
                < map_room() ==> r is Ok,
            r matches Ok(m) ==> {
                &&& response_status(m) == self@.status
                &&& response_headers(m) == entries_of(wire_lines(self@.headers))
                &&& response_body(m) == encode_utf8(self@.body)
            },
    {
        let status = match parse_status(self.status) {
            Ok(s) => s,
            Err(e) => return Err(BuildError::Status(e)),
        };
        let map = match header_map_for(self.headers.lines()) {
            Ok(map) => map,
            Err(e) => return Err(e),
        };
        let mut res = new_response(self.body);
        set_response_status(&mut res, status);
        set_response_headers(&mut res, map);
        Ok(res)
    }
}

impl Clone for ProxyResponse {
    fn clone(&self) -> (r: ProxyResponse)
        ensures
            r@ == self@,
    {
        ProxyResponse {
            status: self.status,
            headers: self.headers.clone(),
            body: self.body.clone(),
        }
    }
}

} // verus!
