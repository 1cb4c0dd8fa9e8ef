//! The front door: one public port, behind it the REST server and the
//! fan-out hub. The head of the first request decides where a connection
//! goes; every byte of the client reaches the upstream as it came.

use crate::config::Ports;
use crate::error::Error;
use vstd::prelude::*;
use vstd::utf8::{decode_utf8, valid_utf8};

verus! {

/// Where a connection goes.
#[derive(Debug, Clone, PartialEq, Eq)]
pub enum RoutingResult {
    Rest,
    Websocket(String),
}

/// What a [`RoutingResult`] says.
pub enum RoutingView {
    Rest,
    Websocket(Seq<char>),
}

impl View for RoutingResult {
    type V = RoutingView;

    open spec fn view(&self) -> RoutingView {
        match self {
            RoutingResult::Rest => RoutingView::Rest,
            RoutingResult::Websocket(path) => RoutingView::Websocket(path@),
        }
    }
}

/// The largest request head, in bytes, that is looked at.
pub const MAX_REQUEST_SIZE: usize = 4096;

/// One header of a request.
#[derive(Debug, Clone, PartialEq, Eq)]
pub struct HeaderField {
    pub name: String,
    pub value: Vec<u8>,
}

/// What a [`HeaderField`] says.
pub struct HeaderView {
    pub name: Seq<char>,
    pub value: Seq<u8>,
}

/// The head of a request, as far as routing needs it.
#[derive(Debug, Clone, PartialEq, Eq)]
pub struct RequestHead {
    pub path: Option<String>,
    pub headers: Vec<HeaderField>,
}

/// What a [`RequestHead`] says.
pub struct HeadView {
    pub path: Option<Seq<char>>,
    pub headers: Seq<HeaderView>,
}

impl View for RequestHead {
    type V = HeadView;

    open spec fn view(&self) -> HeadView {
        HeadView {
            path: match self.path {
                Some(p) => Some(p@),
                None => None,
            },
            headers: Seq::new(
                self.headers@.len(),
                |i: int| HeaderView { name: self.headers@[i].name@, value: self.headers@[i].value@ },
            ),
        }
    }
}

/// What parsing the bytes that have come so far yields.
#[derive(Debug, Clone, PartialEq, Eq)]
pub enum HeadParse {
    /// The head is not complete yet.
    Partial,
    /// The head is complete.
    Complete(RequestHead),
    /// The bytes are no HTTP request.
    Invalid,
}

/// What a [`HeadParse`] says.
pub enum ParseView {
    Partial,
    Complete(HeadView),
    Invalid,
}

impl View for HeadParse {
    type V = ParseView;

    open spec fn view(&self) -> ParseView {
        match self {
            HeadParse::Partial => ParseView::Partial,
            HeadParse::Complete(head) => ParseView::Complete(head@),
            HeadParse::Invalid => ParseView::Invalid,
        }
    }
}

/// What `httparse` makes of the bytes when it parses them as the head of an
/// HTTP/1 request with room for 64 headers.
pub uninterp spec fn parsed_head(bytes: Seq<u8>) -> ParseView;

/// Calls `httparse::Request::parse` on a fresh request with room for 64
/// headers. The contract only names the result: partial, complete with the
/// path and the headers that were parsed, or invalid.
#[verifier::external_body]
fn parse_head(bytes: &[u8]) -> (parse: HeadParse)
    ensures
        parse@ == parsed_head(bytes@),
{
    let mut headers = [httparse::EMPTY_HEADER; 64];
    let mut request = httparse::Request::new(&mut headers);
    match request.parse(bytes) {
        Ok(httparse::Status::Complete(_)) => HeadParse::Complete(
            RequestHead {
                path: request.path.map(|p| p.to_owned()),
                headers: request.headers.iter().map(
                    |h| HeaderField { name: h.name.to_owned(), value: h.value.to_vec() },
                ).collect(),
            },
        ),
        Ok(httparse::Status::Partial) => HeadParse::Partial,
        Err(_) => HeadParse::Invalid,
    }
}

/// Calls `String::from_utf8`: the text that the bytes encode, or `None`
/// where they are no UTF-8.
#[verifier::external_body]
fn text_of_bytes(bytes: Vec<u8>) -> (text: Option<String>)
    ensures
        match text {
            Some(t) => valid_utf8(bytes@) && t@ == decode_utf8(bytes@),
            None => !valid_utf8(bytes@),
        },
{
    match String::from_utf8(bytes) {
        Ok(text) => Some(text),
        Err(_) => None,
    }
}

/// The value of the first header with this name, if there is one.
pub open spec fn first_header(headers: Seq<HeaderView>, name: Seq<char>) -> Option<Seq<u8>>
    decreases headers.len(),
{
    if headers.len() == 0 {
        None
    } else if headers[0].name == name {
        Some(headers[0].value)
    } else {
        first_header(headers.drop_first(), name)
    }
}

/// Where a request with this head goes. A request whose first `Upgrade`
/// header has the value `websocket` goes to the fan-out hub and must have a
/// path; every other request goes to the REST server. An `Upgrade` header
/// whose value is no UTF-8 is an error.
pub open spec fn classified(head: HeadView) -> Result<RoutingView, Error> {
    match first_header(head.headers, "Upgrade"@) {
        None => Ok(RoutingView::Rest),
        Some(value) => if !valid_utf8(value) {
            Err(Error::MalformedUpgrade)
        } else if decode_utf8(value) == "websocket"@ {
            match head.path {
                Some(path) => Ok(RoutingView::Websocket(path)),
                None => Err(Error::MissingPath),
            }
        } else {
            Ok(RoutingView::Rest)
        },
    }
}

/// What the bytes that have come so far decide, given what parsing them
/// yields: an error where they are over the limit or no HTTP, nothing yet
/// where the head is not complete, and else the route.
pub open spec fn decided(len: nat, parse: ParseView) -> Result<Option<RoutingView>, Error> {
    if len > MAX_REQUEST_SIZE {
        Err(Error::RequestTooLarge)
    } else {
        match parse {
            ParseView::Partial => Ok(None),
            ParseView::Invalid => Err(Error::MalformedRequest),
            ParseView::Complete(head) => match classified(head) {
                Ok(route) => Ok(Some(route)),
                Err(e) => Err(e),
            },
        }
    }
}

/// What the bytes that have come so far decide.
pub open spec fn decoded(bytes: Seq<u8>) -> Result<Option<RoutingView>, Error> {
    decided(bytes.len(), parsed_head(bytes))
}

/// What an executable route says, in terms of views.
pub open spec fn routing_view(result: Result<RoutingResult, Error>) -> Result<RoutingView, Error> {
    match result {
        Ok(route) => Ok(route@),
        Err(e) => Err(e),
    }
}

/// What an executable decision says, in terms of views.
pub open spec fn decision_view(result: Result<Option<RoutingResult>, Error>) -> Result<
    Option<RoutingView>,
    Error,
> {
    match result {
        Ok(Some(route)) => Ok(Some(route@)),
        Ok(None) => Ok(None),
        Err(e) => Err(e),
    }
}

fn find_header(headers: &Vec<HeaderField>, name: &String) -> (found: Option<usize>)
    ensures
        match found {
            Some(i) => i < headers@.len() && first_header(
                Seq::new(
                    headers@.len(),
                    |i: int| HeaderView { name: headers@[i].name@, value: headers@[i].value@ },
                ),
                name@,
            ) == Some(headers@[i as int].value@),
            None => first_header(
                Seq::new(
                    headers@.len(),
                    |i: int| HeaderView { name: headers@[i].name@, value: headers@[i].value@ },
                ),
                name@,
            ) is None,
        },
{
    let ghost views = Seq::new(
        headers@.len(),
        |i: int| HeaderView { name: headers@[i].name@, value: headers@[i].value@ },
    );
    let mut i: usize = 0;
    assert(views.skip(0) =~= views);
    while i < headers.len()
        invariant
            i <= headers@.len(),
            views == Seq::new(
                headers@.len(),
                |i: int| HeaderView { name: headers@[i].name@, value: headers@[i].value@ },
            ),
            first_header(views, name@) == first_header(views.skip(i as int), name@),
        decreases headers@.len() - i,
    {
        let ghost rest = views.skip(i as int);
        proof {
            assert(rest[0] == views[i as int]);
            assert(rest.drop_first() =~= views.skip(i + 1));
        }
        if headers[i].name == *name {
            return Some(i);
        }
        i += 1;
    }
    proof {
        assert(views.skip(i as int).len() == 0);
    }
    None
}

/// Decides where a request with this head goes.
pub fn classify(head: RequestHead) -> (route: Result<RoutingResult, Error>)
    ensures
        routing_view(route) == classified(head@),
{
    let RequestHead { path, headers } = head;
    let name = "Upgrade".to_owned();
    match find_header(&headers, &name) {
        None => Ok(RoutingResult::Rest),
        Some(i) => {
            let mut headers = headers;
            let field = headers.remove(i);
            match text_of_bytes(field.value) {
                None => Err(Error::MalformedUpgrade),
                Some(value) => {
                    let websocket = "websocket".to_owned();
                    if value == websocket {
                        match path {
                            Some(path) => Ok(RoutingResult::Websocket(path)),
                            None => Err(Error::MissingPath),
                        }
                    } else {
                        Ok(RoutingResult::Rest)
                    }
                },
            }
        },
    }
}

/// Decides on the bytes that have come so far, given what parsing them
/// yielded.
pub fn decide(len: usize, parse: HeadParse) -> (decision: Result<Option<RoutingResult>, Error>)
    ensures
        decision_view(decision) == decided(len as nat, parse@),
{
    if len > MAX_REQUEST_SIZE {
        return Err(Error::RequestTooLarge);
    }
    match parse {
        HeadParse::Partial => Ok(None),
        HeadParse::Invalid => Err(Error::MalformedRequest),
        HeadParse::Complete(head) => match classify(head) {
            Ok(route) => Ok(Some(route)),
            Err(e) => Err(e),
        },
    }
}

/// The decoder of the front door.
#[derive(Debug, Clone, Copy, PartialEq, Eq)]
pub struct HttpTunnelCodec;

impl HttpTunnelCodec {
    /// Looks at the bytes that have come so far and decides where the
    /// connection goes, if the head of the request is complete. The bytes
    /// are not changed and none is consumed.
    pub fn decode(&mut self, src: &Vec<u8>) -> (decision: Result<Option<RoutingResult>, Error>)
        ensures
            decision_view(decision) == decoded(src@),
    {
        if src.len() > MAX_REQUEST_SIZE {
            return Err(Error::RequestTooLarge);
        }
        decide(src.len(), parse_head(src.as_slice()))
    }
}

/// The upstream port of a route: the REST server's, or the fan-out hub's.
pub open spec fn upstream_port(route: RoutingView, ports: Ports) -> u16 {
    match route {
        RoutingView::Rest => ports.http,
        RoutingView::Websocket(_) => ports.websocket,
    }
}

/// The upstream port of a route.
pub fn port_of(route: &RoutingResult, ports: &Ports) -> (port: u16)
    ensures
        port == upstream_port(route@, *ports),
{
    match route {
        RoutingResult::Rest => ports.http,
        RoutingResult::Websocket(_) => ports.websocket,
    }
}

/// What a connection through the front door has seen and done.
pub struct TunnelView {
    /// Every byte that the client has sent, in order.
    pub received: Seq<u8>,
    /// Every byte that was handed on for the upstream, in order.
    pub delivered: Seq<u8>,
    /// The upstream port, once it is chosen.
    pub upstream: Option<u16>,
    /// Whether the connection was given up.
    pub closed: bool,
}

/// What the caller is to do after bytes from the client.
#[derive(Debug, Clone, PartialEq, Eq)]
pub enum TunnelAction {
    /// Read more.
    Wait,
    /// Connect to this port on the local host, write these bytes, and copy
    /// in both directions from then on.
    Connect { port: u16, bytes: Vec<u8> },
    /// Write these bytes to the upstream.
    Forward(Vec<u8>),
    /// Close the connection for this reason.
    Reject(Error),
    /// Nothing: the connection was given up before.
    Ignore,
}

/// What a [`TunnelAction`] says.
pub enum ActionView {
    Wait,
    Connect { port: u16, bytes: Seq<u8> },
    Forward(Seq<u8>),
    Reject(Error),
    Ignore,
}

impl View for TunnelAction {
    type V = ActionView;

    open spec fn view(&self) -> ActionView {
        match self {
            TunnelAction::Wait => ActionView::Wait,
            TunnelAction::Connect { port, bytes } => ActionView::Connect {
                port: *port,
                bytes: bytes@,
            },
            TunnelAction::Forward(bytes) => ActionView::Forward(bytes@),
            TunnelAction::Reject(e) => ActionView::Reject(*e),
            TunnelAction::Ignore => ActionView::Ignore,
        }
    }
}

/// What is to be done after `chunk` has come from the client, given what
/// the bytes so far decide where no upstream is chosen yet.
pub open spec fn tunnel_action(
    t: TunnelView,
    chunk: Seq<u8>,
    decision: Result<Option<RoutingView>, Error>,
    ports: Ports,
) -> ActionView {
    if t.closed {
        ActionView::Ignore
    } else if t.upstream is Some {
        ActionView::Forward(chunk)
    } else {
        match decision {
            Err(e) => ActionView::Reject(e),
            Ok(None) => ActionView::Wait,
            Ok(Some(route)) => ActionView::Connect {
                port: upstream_port(route, ports),
                bytes: t.received + chunk,
            },
        }
    }
}

/// The connection after `chunk` has come from the client.
pub open spec fn tunnel_after(
    t: TunnelView,
    chunk: Seq<u8>,
    decision: Result<Option<RoutingView>, Error>,
    ports: Ports,
) -> TunnelView {
    if t.closed {
        t
    } else if t.upstream is Some {
        TunnelView { received: t.received + chunk, delivered: t.delivered + chunk, ..t }
    } else {
        match decision {
            Err(e) => TunnelView { received: t.received + chunk, closed: true, ..t },
            Ok(None) => TunnelView { received: t.received + chunk, ..t },
            Ok(Some(route)) => TunnelView {
                received: t.received + chunk,
                delivered: t.received + chunk,
                upstream: Some(upstream_port(route, ports)),
                closed: false,
            },
        }
    }
}

/// The bytes that an action hands on for the upstream.
pub open spec fn handed_on(action: ActionView) -> Seq<u8> {
    match action {
        ActionView::Connect { port, bytes } => bytes,
        ActionView::Forward(bytes) => bytes,
        _ => Seq::empty(),
    }
}

/// A connection is transparent where nothing was handed on before the
/// upstream was chosen, and where from then on the upstream has been handed
/// every byte of the client, each at the place at which the client sent it.
pub open spec fn transparent(t: TunnelView) -> bool {
    if t.upstream is Some {
        t.delivered == t.received
    } else {
        t.delivered.len() == 0
    }
}

/// Every step keeps a connection transparent, whatever the bytes decide,
/// and what the step hands on is exactly what is new in `delivered`.
pub proof fn law_tunnel_transparent(
    t: TunnelView,
    chunk: Seq<u8>,
    decision: Result<Option<RoutingView>, Error>,
    ports: Ports,
)
    requires
        transparent(t),
    ensures
        transparent(tunnel_after(t, chunk, decision, ports)),
        tunnel_after(t, chunk, decision, ports).delivered == t.delivered + handed_on(
            tunnel_action(t, chunk, decision, ports),
        ),
        !t.closed ==> tunnel_after(t, chunk, decision, ports).received == t.received + chunk,
{
    let after = tunnel_after(t, chunk, decision, ports);
    let action = tunnel_action(t, chunk, decision, ports);
    assert(after.delivered =~= t.delivered + handed_on(action));
}

/// The state of one connection through the front door.
pub struct Tunnel {
    buffer: Vec<u8>,
    upstream: Option<u16>,
    closed: bool,
    delivered: Ghost<Seq<u8>>,
}

impl View for Tunnel {
    type V = TunnelView;

    closed spec fn view(&self) -> TunnelView {
        TunnelView {
            received: if self.upstream is Some {
                self.delivered@
            } else {
                self.buffer@
            },
            delivered: self.delivered@,
            upstream: self.upstream,
            closed: self.closed,
        }
    }
}

impl Tunnel {
    /// The validity of a connection, which every connection has: it is
    /// transparent.
    #[verifier::type_invariant]
    spec fn wf(&self) -> bool {
        self.upstream is None ==> self.delivered@.len() == 0
    }

    /// A connection on which nothing has come yet.
    pub fn new() -> (tunnel: Tunnel)
        ensures
            tunnel@ == (TunnelView {
                received: Seq::empty(),
                delivered: Seq::empty(),
                upstream: None,
                closed: false,
            }),
    {
        Tunnel { buffer: Vec::new(), upstream: None, closed: false, delivered: Ghost(Seq::empty()) }
    }

    /// The upstream port, once it is chosen.
    pub fn upstream(&self) -> (port: Option<u16>)
        ensures
            port == self@.upstream,
            transparent(self@),
    {
        proof {
            use_type_invariant(self);
        }
        self.upstream
    }

    /// Whether the connection was given up.
    pub fn is_closed(&self) -> (closed: bool)
        ensures
            closed == self@.closed,
    {
        self.closed
    }

    /// Takes bytes from the client. Until the head of the first request is
    /// complete the bytes are kept; when it is, the upstream is chosen and
    /// is handed everything that has come, unchanged. From then on every
    /// chunk is handed on as it comes. A head over the limit or one that is
    /// no HTTP gives the connection up.
    pub fn received(&mut self, chunk: &Vec<u8>, ports: &Ports) -> (action: TunnelAction)
        ensures
            action@ == tunnel_action(
                old(self)@,
                chunk@,
                decoded(old(self)@.received + chunk@),
                *ports,
            ),
            final(self)@ == tunnel_after(
                old(self)@,
                chunk@,
                decoded(old(self)@.received + chunk@),
                *ports,
            ),
    {
        proof {
            use_type_invariant(&*self);
        }
        if self.closed {
            return TunnelAction::Ignore;
        }
        if self.upstream.is_some() {
            let bytes = chunk.clone();
            let ghost delivered = self.delivered@ + chunk@;
            self.delivered = Ghost(delivered);
            return TunnelAction::Forward(bytes);
        }
        let mut buffer: Vec<u8> = Vec::new();
        core::mem::swap(&mut self.buffer, &mut buffer);
        let mut i: usize = 0;
        while i < chunk.len()
            invariant
                i <= chunk@.len(),
                buffer@ == old(self)@.received + chunk@.take(i as int),
            decreases chunk@.len() - i,
        {
            buffer.push(chunk[i]);
            i += 1;
            assert(buffer@ =~= old(self)@.received + chunk@.take(i as int));
        }
        assert(chunk@.take(i as int) =~= chunk@);
        let mut codec = HttpTunnelCodec;
        match codec.decode(&buffer) {
            Err(e) => {
                self.buffer = buffer;
                self.closed = true;
                TunnelAction::Reject(e)
            },
            Ok(None) => {
                self.buffer = buffer;
                TunnelAction::Wait
            },
            Ok(Some(route)) => {
                let port = port_of(&route, ports);
                self.upstream = Some(port);
                self.delivered = Ghost(buffer@);
                TunnelAction::Connect { port, bytes: buffer }
            },
        }
    }

    /// Takes the news that the client has closed the connection. Where no
    /// upstream was chosen yet, the connection is given up with an error.
    pub fn end_of_stream(&mut self) -> (error: Option<Error>)
        ensures
            final(self)@ == (TunnelView { closed: true, ..old(self)@ }),
            error == if old(self)@.upstream is None && !old(self)@.closed {
                Some(Error::Transport)
            } else {
                None::<Error>
            },
    {
        proof {
            use_type_invariant(&*self);
        }
        let error = if self.upstream.is_none() && !self.closed {
            Some(Error::Transport)
        } else {
            None
        };
        self.closed = true;
        error
    }
}

} // verus!
