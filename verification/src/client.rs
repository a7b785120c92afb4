//! The decision taken on a freshly accepted client connection: read the
//! head of the first request from the bytes the client has sent so far, and
//! either open a tunnel to the host it names (`CONNECT`) or serve it as plain
//! HTTP.

use vstd::prelude::*;
use vstd::string::*;

use crate::text::{decode_lossy, utf8_lossy};

verus! {

/// How many bytes of a new connection are looked at before deciding.
pub const PEEK_LEN: usize = 1024;

/// How many header lines the request head may carry.
pub const HEADER_CAPACITY: usize = 16;

/// The reply that tells the client its tunnel is open.
pub const TUNNEL_ESTABLISHED: &'static str = "HTTP/1.1 200 OK\r\n\r\n";

/// How far the head could be read.
#[derive(Debug)]
pub enum HeadStatus {
    /// The whole head was read; the body starts at this offset.
    Complete(usize),
    /// The bytes end before the head does.
    Partial,
    /// The bytes are not an HTTP request head; the text says why.
    Invalid(String),
}

/// One header slot of the head: a parsed line, or an empty slot (empty
/// name and value) where none was read.
#[derive(Debug)]
pub struct HeaderSlot {
    pub name: String,
    pub value: Vec<u8>,
}

/// What was read of a request head.
#[derive(Debug)]
pub struct RequestHead {
    pub status: HeadStatus,
    pub method: Option<String>,
    pub slots: Vec<HeaderSlot>,
}

pub enum HeadOutcome {
    Complete(usize),
    Partial,
    Invalid(Seq<char>),
}

pub struct RequestHeadView {
    pub outcome: HeadOutcome,
    pub method: Option<Seq<char>>,
    pub slots: Seq<(Seq<char>, Seq<u8>)>,
}

impl View for HeadStatus {
    type V = HeadOutcome;

    open spec fn view(&self) -> HeadOutcome {
        match self {
            HeadStatus::Complete(n) => HeadOutcome::Complete(*n),
            HeadStatus::Partial => HeadOutcome::Partial,
            HeadStatus::Invalid(m) => HeadOutcome::Invalid(m@),
        }
    }
}

pub open spec fn slot_view(s: HeaderSlot) -> (Seq<char>, Seq<u8>) {
    (s.name@, s.value@)
}

impl View for RequestHead {
    type V = RequestHeadView;

    open spec fn view(&self) -> RequestHeadView {
        RequestHeadView {
            outcome: self.status@,
            method: match self.method {
                Some(m) => Some(m@),
                None => None,
            },
            slots: self.slots@.map_values(|s: HeaderSlot| slot_view(s)),
        }
    }
}

/// What `httparse::Request::parse` reads from `buf` when given `capacity`
/// empty header slots: its status, the method, and the slots afterwards.
pub uninterp spec fn parsed_request_head(buf: Seq<u8>, capacity: usize) -> RequestHeadView;

/// Calls `httparse::Request::parse` on `buf` with `capacity` slots set to
/// `httparse::EMPTY_HEADER`, and copies out the status (an error as its
/// message), the method and every slot. Trusted: the result is the function
/// `parsed_request_head` of the bytes and the slot count.
#[verifier::external_body]
fn parse_head(buf: &[u8], capacity: usize) -> (head: RequestHead)
    ensures
        head@ == parsed_request_head(buf@, capacity),
{
    let mut slots: Vec<httparse::Header> = vec![httparse::EMPTY_HEADER; capacity];
    let mut req = httparse::Request::new(&mut slots);
    let parsed = req.parse(buf);
    let method = req.method.map(String::from);
    let status = match parsed {
        Ok(httparse::Status::Complete(n)) => HeadStatus::Complete(n),
        Ok(httparse::Status::Partial) => HeadStatus::Partial,
        Err(e) => HeadStatus::Invalid(e.to_string()),
    };
    let slots = slots.iter().map(|h| HeaderSlot { name: h.name.to_string(), value: h.value.to_vec() });
    RequestHead { status, method, slots: slots.collect() }
}

/// Where a client connection goes.
#[derive(Debug)]
pub enum ClientRoute {
    /// Open a raw tunnel to this `host:port`.
    Tunnel(String),
    /// Serve the connection as HTTP.
    Http,
}

/// Why a client connection is refused.
#[derive(Debug)]
pub enum ClientError {
    /// The bytes are not an HTTP request head.
    Parse(String),
    /// No method could be read.
    NoMethod,
    /// No header is named exactly `Host`.
    NoHost,
}

pub enum RouteView {
    Tunnel(Seq<char>),
    Http,
}

pub enum ClientErrorView {
    Parse(Seq<char>),
    NoMethod,
    NoHost,
}

pub open spec fn route_result_view(r: Result<ClientRoute, ClientError>) -> Result<
    RouteView,
    ClientErrorView,
> {
    match r {
        Ok(ClientRoute::Tunnel(h)) => Ok(RouteView::Tunnel(h@)),
        Ok(ClientRoute::Http) => Ok(RouteView::Http),
        Err(ClientError::Parse(m)) => Err(ClientErrorView::Parse(m@)),
        Err(ClientError::NoMethod) => Err(ClientErrorView::NoMethod),
        Err(ClientError::NoHost) => Err(ClientErrorView::NoHost),
    }
}

/// The value of the first slot named exactly `name`.
pub open spec fn first_named(slots: Seq<(Seq<char>, Seq<u8>)>, name: Seq<char>) -> Option<Seq<u8>>
    decreases slots.len(),
{
    if slots.len() == 0 {
        None
    } else if slots[0].0 == name {
        Some(slots[0].1)
    } else {
        first_named(slots.drop_first(), name)
    }
}

/// The route for a read request head: an unreadable head, a missing method
/// or a missing `Host` header refuse the connection (checked in that order);
/// `CONNECT` tunnels to the `Host` value decoded as lossy UTF-8; any other
/// method is served as HTTP.
pub open spec fn route(head: RequestHeadView) -> Result<RouteView, ClientErrorView> {
    match head.outcome {
        HeadOutcome::Invalid(m) => Err(ClientErrorView::Parse(m)),
        _ => match head.method {
            None => Err(ClientErrorView::NoMethod),
            Some(method) => match first_named(head.slots, "Host"@) {
                None => Err(ClientErrorView::NoHost),
                Some(host) => if method == "CONNECT"@ {
                    Ok(RouteView::Tunnel(utf8_lossy(host)))
                } else {
                    Ok(RouteView::Http)
                },
            },
        },
    }
}

/// The index of the first slot named exactly `Host`.
fn find_host(slots: &Vec<HeaderSlot>) -> (r: Option<usize>)
    ensures
        match r {
            Some(i) => i < slots@.len() && first_named(
                slots@.map_values(|s: HeaderSlot| slot_view(s)),
                "Host"@,
            ) == Some(slots@[i as int].value@),
            None => first_named(slots@.map_values(|s: HeaderSlot| slot_view(s)), "Host"@) is None,
        },
{
    let host_name = "Host".to_owned();
    let ghost all = slots@.map_values(|s: HeaderSlot| slot_view(s));
    let n = slots.len();
    assert(all.subrange(0, n as int) =~= all);
    for i in 0..n
        invariant
            n == slots@.len(),
            all == slots@.map_values(|s: HeaderSlot| slot_view(s)),
            host_name@ == "Host"@,
            first_named(all, "Host"@) == first_named(all.subrange(i as int, n as int), "Host"@),
    {
        let ghost rest = all.subrange(i as int, n as int);
        assert(rest[0] == slot_view(slots@[i as int]));
        if slots[i].name == host_name {
            return Some(i);
        }
        assert(rest.drop_first() =~= all.subrange(i + 1, n as int));
    }
    assert(all.subrange(n as int, n as int) =~= Seq::<(Seq<char>, Seq<u8>)>::empty());
    None
}

/// Slot `i` is the first slot named exactly `name`.
pub open spec fn first_slot_named(slots: Seq<(Seq<char>, Seq<u8>)>, name: Seq<char>, i: int) -> bool {
    &&& 0 <= i < slots.len()
    &&& slots[i].0 == name
    &&& forall|j: int| 0 <= j < i ==> slots[j].0 != name
}

proof fn lemma_first_named(slots: Seq<(Seq<char>, Seq<u8>)>, name: Seq<char>)
    ensures
        (forall|j: int| 0 <= j < slots.len() ==> slots[j].0 != name) ==> first_named(slots, name)
            is None,
        forall|i: int|
            first_slot_named(slots, name, i) ==> first_named(slots, name) == Some(
                #[trigger] slots[i].1,
            ),
    decreases slots.len(),
{
    if slots.len() > 0 {
        let rest = slots.drop_first();
        lemma_first_named(rest, name);
        assert forall|i: int| first_slot_named(slots, name, i) implies first_named(slots, name)
            == Some(#[trigger] slots[i].1) by {
            if i > 0 {
                assert(slots[0].0 != name);
                assert(rest[i - 1] == slots[i]);
                assert(first_slot_named(rest, name, i - 1));
            }
        }
        if forall|j: int| 0 <= j < slots.len() ==> slots[j].0 != name {
            assert(slots[0].0 != name);
            assert forall|j: int| 0 <= j < rest.len() implies rest[j].0 != name by {
                assert(rest[j] == slots[j + 1]);
            }
        }
    }
}

/// How a connection is routed: an unreadable head refuses it with the
/// parser's message; otherwise a missing method refuses it, then a missing
/// `Host` header (matched exactly); otherwise it is tunnelled to the value
/// of the first `Host` header exactly when the method is `CONNECT`, and
/// served as HTTP for every other method.
pub proof fn law_route(head: RequestHeadView)
    ensures
        head.outcome matches HeadOutcome::Invalid(m) ==> route(head) == Err::<RouteView, _>(
            ClientErrorView::Parse(m),
        ),
        !(head.outcome is Invalid) && head.method is None ==> route(head) == Err::<RouteView, _>(
            ClientErrorView::NoMethod,
        ),
        !(head.outcome is Invalid) && head.method is Some && (forall|j: int|
            0 <= j < head.slots.len() ==> head.slots[j].0 != "Host"@) ==> route(head) == Err::<
            RouteView,
            _,
        >(ClientErrorView::NoHost),
        forall|i: int|
            !(head.outcome is Invalid) && #[trigger] first_slot_named(head.slots, "Host"@, i)
                && head.method == Some("CONNECT"@) ==> route(head) == Ok::<_, ClientErrorView>(
                RouteView::Tunnel(utf8_lossy(head.slots[i].1)),
            ),
        forall|i: int|
            !(head.outcome is Invalid) && #[trigger] first_slot_named(head.slots, "Host"@, i)
                && head.method is Some && head.method != Some("CONNECT"@) ==> route(head) == Ok::<
                _,
                ClientErrorView,
            >(RouteView::Http),
        (route(head) matches Ok(RouteView::Tunnel(_))) ==> head.method == Some("CONNECT"@),
{
    lemma_first_named(head.slots, "Host"@);
    assert forall|i: int|
        !(head.outcome is Invalid) && #[trigger] first_slot_named(head.slots, "Host"@, i)
            && head.method is Some && head.method != Some("CONNECT"@) implies route(head) == Ok::<
        _,
        ClientErrorView,
    >(RouteView::Http) by {
        assert(first_named(head.slots, "Host"@) == Some(head.slots[i].1));
        let m = head.method->0;
        assert(m != "CONNECT"@);
    }
}

/// Decides the route for a read request head.
pub fn route_head(head: &RequestHead) -> (r: Result<ClientRoute, ClientError>)
    ensures
        route_result_view(r) == route(head@),
{
    if let HeadStatus::Invalid(m) = &head.status {
        return Err(ClientError::Parse(m.clone()));
    }
    let method = match &head.method {
        Some(m) => m,
        None => return Err(ClientError::NoMethod),
    };
    let i = match find_host(&head.slots) {
        Some(i) => i,
        None => return Err(ClientError::NoHost),
    };
    if *method == "CONNECT".to_owned() {
        Ok(ClientRoute::Tunnel(decode_lossy(head.slots[i].value.as_slice())))
    } else {
        Ok(ClientRoute::Http)
    }
}

/// Decides the route for a connection from the first bytes the client sent.
pub fn route_client(buf: &[u8]) -> (r: Result<ClientRoute, ClientError>)
    ensures
        route_result_view(r) == route(parsed_request_head(buf@, HEADER_CAPACITY)),
{
    let head = parse_head(buf, HEADER_CAPACITY);
    route_head(&head)
}

} // verus!
