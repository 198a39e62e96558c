//! The connection engine's decisions: what a tunnel carries, which step of a
//! tunnel comes next, and where a request or a message goes.

use vstd::prelude::*;
use vstd::string::*;
use crate::message::Version;
use crate::text::{chars_of, extend_str, is_text, string_of};
use crate::ws::JsMessage;

verus! {

/// What a handler gives back for a request or a message.
#[derive(Debug)]
pub enum Answer<Re, Rs> {
    /// Drop it.
    Reject,
    /// Send it on.
    Release(Re),
    /// Answer with this.
    Respond(Rs),
}

impl<Re, Rs> Answer<Re, Rs> {
    /// A request is an answer that sends it on.
    pub fn from_request(req: Re) -> (r: Self)
        ensures
            r == Answer::<Re, Rs>::Release(req),
    {
        Answer::Release(req)
    }

    /// A response is an answer that replies with it.
    pub fn from_response(res: Rs) -> (r: Self)
        ensures
            r == Answer::<Re, Rs>::Respond(res),
    {
        Answer::Respond(res)
    }
}

/// Where a request comes from and where it goes.
#[derive(Clone, Debug, PartialEq, Eq, Hash)]
pub struct HttpContext {
    /// Address of the client that sends the request.
    pub client_addr: String,
    pub uri: String,
}

/// Where a message comes from and where it goes.
#[derive(Clone, Debug, PartialEq, Eq, Hash)]
pub enum WebSocketContext {
    ClientToServer {
        /// Address of the client.
        src: String,
        /// Address of the server.
        dst: String,
    },
    ServerToClient {
        /// Address of the server.
        src: String,
        /// Address of the client.
        dst: String,
    },
}

impl WebSocketContext {
    /// The address of the client.
    pub fn addr(&self) -> (r: String)
        ensures
            r@ == match *self {
                WebSocketContext::ClientToServer { src, dst } => src@,
                WebSocketContext::ServerToClient { src, dst } => dst@,
            },
    {
        match self {
            WebSocketContext::ClientToServer { src, .. } => src.clone(),
            WebSocketContext::ServerToClient { dst, .. } => dst.clone(),
        }
    }

    /// The address of the server.
    pub fn uri(&self) -> (r: String)
        ensures
            r@ == match *self {
                WebSocketContext::ClientToServer { src, dst } => dst@,
                WebSocketContext::ServerToClient { src, dst } => src@,
            },
    {
        match self {
            WebSocketContext::ClientToServer { dst, .. } => dst.clone(),
            WebSocketContext::ServerToClient { src, .. } => src.clone(),
        }
    }

    /// Whether the message goes from the client to the server.
    pub fn client_to_server(&self) -> (r: bool)
        ensures
            r == (*self is ClientToServer),
    {
        match self {
            WebSocketContext::ClientToServer { .. } => true,
            WebSocketContext::ServerToClient { .. } => false,
        }
    }
}

/// The number of bytes that are looked at before a tunnel is served.
pub const PREFIX_LEN: usize = 4;

/// What a tunnel carries.
#[derive(Clone, Copy, Debug, PartialEq, Eq, Structural)]
pub enum Tunnel {
    /// Plain HTTP or WebSocket.
    Plain,
    /// A TLS handshake.
    Tls,
    /// Neither.
    Unknown,
}

/// What the first bytes of a tunnel announce: `GET ` a plain request, the
/// bytes `0x16 0x03` a TLS handshake, anything else nothing known.
pub open spec fn tunnel_kind(prefix: Seq<u8>) -> Tunnel {
    if prefix.len() >= 4 && prefix[0] == 0x47 && prefix[1] == 0x45 && prefix[2] == 0x54
        && prefix[3] == 0x20 {
        Tunnel::Plain
    } else if prefix.len() >= 2 && prefix[0] == 0x16 && prefix[1] == 0x03 {
        Tunnel::Tls
    } else {
        Tunnel::Unknown
    }
}

/// Classifies a tunnel by its first bytes.
pub fn sniff(prefix: &[u8]) -> (r: Tunnel)
    ensures
        r == tunnel_kind(prefix@),
{
    if prefix.len() >= 4 && prefix[0] == 0x47 && prefix[1] == 0x45 && prefix[2] == 0x54
        && prefix[3] == 0x20 {
        Tunnel::Plain
    } else if prefix.len() >= 2 && prefix[0] == 0x16 && prefix[1] == 0x03 {
        Tunnel::Tls
    } else {
        Tunnel::Unknown
    }
}

/// The scheme under which the requests of a tunnel are served.
#[derive(Clone, Copy, Debug, PartialEq, Eq, Structural)]
pub enum Scheme {
    Http,
    Https,
}

/// How far the handling of a CONNECT request has come.
#[derive(Clone, Copy, Debug, PartialEq, Eq, Structural)]
pub enum ConnectState {
    /// The client was told that the tunnel stands; its bytes are awaited.
    AwaitUpgrade,
    /// The tunnel is open; its first bytes are awaited.
    AwaitPrefix,
    /// The first bytes are known; the handler is asked whether to intercept.
    AwaitIntercept(Tunnel),
    /// A server configuration for the target is awaited.
    AwaitConfig,
    /// The TLS handshake with the client is under way.
    AwaitHandshake,
    /// Requests are served over the tunnel.
    Serving(Scheme),
    /// The tunnel is done.
    Closed,
}

/// What happened on a tunnel.
#[derive(Clone, Copy, Debug, PartialEq, Eq, Structural)]
pub enum ConnectEvent {
    /// The tunnel was opened, or could not be.
    Upgraded(bool),
    /// The first bytes were read and classified, or could not be read.
    Prefix(Option<Tunnel>),
    /// The handler said whether the tunnel is to be intercepted.
    Intercept(bool),
    /// The server configuration is there.
    Config,
    /// The handshake succeeded, or failed.
    Handshake(bool),
    /// Serving ended.
    Served,
}

/// What is to be done next on a tunnel.
#[derive(Clone, Copy, Debug, PartialEq, Eq, Structural)]
pub enum ConnectAction {
    /// Read the first bytes without consuming more.
    ReadPrefix,
    /// Ask the handler whether to intercept.
    AskIntercept,
    /// Put the bytes back and serve HTTP over the plain tunnel.
    ServePlain,
    /// Ask the certificate authority for a configuration for the target,
    /// offering `h2` and `http/1.1`.
    IssueConfig,
    /// Perform the TLS handshake as the server.
    Accept,
    /// Serve HTTP over the decrypted tunnel.
    ServeTls,
    /// Note the failure and drop the tunnel; nothing is sent.
    Drop,
    /// Nothing is left to do.
    Done,
}

/// The next state and what is to be done, for each state and event.
pub open spec fn connect_next(s: ConnectState, e: ConnectEvent) -> (ConnectState, ConnectAction) {
    match (s, e) {
        (ConnectState::AwaitUpgrade, ConnectEvent::Upgraded(true)) => (
            ConnectState::AwaitPrefix,
            ConnectAction::ReadPrefix,
        ),
        (ConnectState::AwaitPrefix, ConnectEvent::Prefix(Some(t))) => (
            ConnectState::AwaitIntercept(t),
            ConnectAction::AskIntercept,
        ),
        (ConnectState::AwaitIntercept(_), ConnectEvent::Intercept(false)) => (
            ConnectState::Closed,
            ConnectAction::Done,
        ),
        (ConnectState::AwaitIntercept(Tunnel::Plain), ConnectEvent::Intercept(true)) => (
            ConnectState::Serving(Scheme::Http),
            ConnectAction::ServePlain,
        ),
        (ConnectState::AwaitIntercept(Tunnel::Tls), ConnectEvent::Intercept(true)) => (
            ConnectState::AwaitConfig,
            ConnectAction::IssueConfig,
        ),
        (ConnectState::AwaitConfig, ConnectEvent::Config) => (
            ConnectState::AwaitHandshake,
            ConnectAction::Accept,
        ),
        (ConnectState::AwaitHandshake, ConnectEvent::Handshake(true)) => (
            ConnectState::Serving(Scheme::Https),
            ConnectAction::ServeTls,
        ),
        (ConnectState::Serving(_), ConnectEvent::Served) => (
            ConnectState::Closed,
            ConnectAction::Done,
        ),
        (ConnectState::Closed, _) => (ConnectState::Closed, ConnectAction::Done),
        _ => (ConnectState::Closed, ConnectAction::Drop),
    }
}

/// Decides the next step of a tunnel.
pub fn connect_step(s: ConnectState, e: ConnectEvent) -> (r: (ConnectState, ConnectAction))
    ensures
        r == connect_next(s, e),
{
    match (s, e) {
        (ConnectState::AwaitUpgrade, ConnectEvent::Upgraded(true)) => (
            ConnectState::AwaitPrefix,
            ConnectAction::ReadPrefix,
        ),
        (ConnectState::AwaitPrefix, ConnectEvent::Prefix(Some(t))) => (
            ConnectState::AwaitIntercept(t),
            ConnectAction::AskIntercept,
        ),
        (ConnectState::AwaitIntercept(_), ConnectEvent::Intercept(false)) => (
            ConnectState::Closed,
            ConnectAction::Done,
        ),
        (ConnectState::AwaitIntercept(Tunnel::Plain), ConnectEvent::Intercept(true)) => (
            ConnectState::Serving(Scheme::Http),
            ConnectAction::ServePlain,
        ),
        (ConnectState::AwaitIntercept(Tunnel::Tls), ConnectEvent::Intercept(true)) => (
            ConnectState::AwaitConfig,
            ConnectAction::IssueConfig,
        ),
        (ConnectState::AwaitConfig, ConnectEvent::Config) => (
            ConnectState::AwaitHandshake,
            ConnectAction::Accept,
        ),
        (ConnectState::AwaitHandshake, ConnectEvent::Handshake(true)) => (
            ConnectState::Serving(Scheme::Https),
            ConnectAction::ServeTls,
        ),
        (ConnectState::Serving(_), ConnectEvent::Served) => (
            ConnectState::Closed,
            ConnectAction::Done,
        ),
        (ConnectState::Closed, _) => (ConnectState::Closed, ConnectAction::Done),
        _ => (ConnectState::Closed, ConnectAction::Drop),
    }
}

/// The tunnel is served over TLS only after a TLS prefix, a configuration
/// from the authority and a handshake; it is served in plain only after a
/// plain prefix; and an unknown prefix is never served.
pub proof fn lemma_serving_follows_prefix(s: ConnectState, e: ConnectEvent)
    ensures
        connect_next(s, e).1 == ConnectAction::ServeTls ==> s == ConnectState::AwaitHandshake,
        connect_next(s, e).1 == ConnectAction::Accept ==> s == ConnectState::AwaitConfig,
        connect_next(s, e).1 == ConnectAction::IssueConfig ==> s == ConnectState::AwaitIntercept(
            Tunnel::Tls,
        ),
        connect_next(s, e).1 == ConnectAction::ServePlain ==> s == ConnectState::AwaitIntercept(
            Tunnel::Plain,
        ),
        s == ConnectState::AwaitIntercept(Tunnel::Unknown) ==> connect_next(s, e).0
            == ConnectState::Closed,
        connect_next(s, e).0 is Serving ==> (connect_next(s, e).1 == ConnectAction::ServePlain
            || connect_next(s, e).1 == ConnectAction::ServeTls),
{
}

/// The protocols that are offered in the handshake, in order.
pub fn offered_protocols() -> (r: Vec<Vec<u8>>)
    ensures
        r@.len() == 2,
        r@[0]@ == seq![0x68u8, 0x32u8],
        r@[1]@ == seq![0x68u8, 0x74u8, 0x74u8, 0x70u8, 0x2fu8, 0x31u8, 0x2eu8, 0x31u8],
{
    let mut h2: Vec<u8> = Vec::new();
    h2.push(0x68);
    h2.push(0x32);
    let mut h1: Vec<u8> = Vec::new();
    h1.push(0x68);
    h1.push(0x74);
    h1.push(0x74);
    h1.push(0x70);
    h1.push(0x2f);
    h1.push(0x31);
    h1.push(0x2e);
    h1.push(0x31);
    let mut r: Vec<Vec<u8>> = Vec::new();
    r.push(h2);
    r.push(h1);
    assert(r@[0]@ =~= seq![0x68u8, 0x32u8]);
    assert(r@[1]@ =~= seq![0x68u8, 0x74u8, 0x74u8, 0x70u8, 0x2fu8, 0x31u8, 0x2eu8, 0x31u8]);
    r
}

/// The name of a scheme.
pub open spec fn scheme_name(s: Scheme) -> Seq<char> {
    match s {
        Scheme::Http => "http"@,
        Scheme::Https => "https"@,
    }
}

impl Scheme {
    /// The name of the scheme.
    pub fn name(&self) -> (r: &'static str)
        ensures
            r@ == scheme_name(*self),
    {
        match self {
            Scheme::Http => "http",
            Scheme::Https => "https",
        }
    }
}

/// Whether the address of a request of this version is made absolute before
/// the request is handled: versions 1.0 and 1.1 send a path only.
pub open spec fn sends_path_only(v: Version) -> bool {
    v == Version::Http10 || v == Version::Http11
}

/// The absolute address of a request that came through a tunnel: scheme,
/// `://`, the authority of the tunnel, and the path and query of the request.
pub open spec fn absolute_uri(scheme: Scheme, authority: Seq<char>, path_and_query: Seq<char>) -> Seq<
    char,
> {
    scheme_name(scheme) + "://"@ + authority + path_and_query
}

/// The address under which a request from a tunnel is handled.
pub fn rewrite_uri(
    version: Version,
    scheme: Scheme,
    authority: &str,
    uri: &str,
    path_and_query: &str,
) -> (r: String)
    ensures
        r@ == (if sends_path_only(version) {
            absolute_uri(scheme, authority@, path_and_query@)
        } else {
            uri@
        }),
{
    match version {
        Version::Http10 | Version::Http11 => {
            let mut v: Vec<char> = Vec::new();
            extend_str(&mut v, scheme.name());
            extend_str(&mut v, "://");
            extend_str(&mut v, authority);
            extend_str(&mut v, path_and_query);
            assert(v@ =~= absolute_uri(scheme, authority@, path_and_query@));
            string_of(v.as_slice())
        },
        _ => uri.to_owned(),
    }
}

/// Where a request goes after the handler has seen it.
#[derive(Clone, Copy, Debug, PartialEq, Eq, Structural)]
pub enum Hop {
    /// The handler rejected the request: answer 400.
    BadRequest,
    /// The handler answered the request itself.
    Reply,
    /// Open a tunnel.
    Connect,
    /// Upgrade to a WebSocket.
    WebSocket,
    /// Send the request upstream.
    Forward,
}

/// The kind of a handler's answer.
#[derive(Clone, Copy, Debug, PartialEq, Eq, Structural)]
pub enum AnswerKind {
    Reject,
    Release,
    Respond,
}

impl<Re, Rs> Answer<Re, Rs> {
    pub open spec fn kind_of(self) -> AnswerKind {
        match self {
            Answer::Reject => AnswerKind::Reject,
            Answer::Release(_) => AnswerKind::Release,
            Answer::Respond(_) => AnswerKind::Respond,
        }
    }

    /// The kind of this answer.
    pub fn kind(&self) -> (r: AnswerKind)
        ensures
            r == self.kind_of(),
    {
        match self {
            Answer::Reject => AnswerKind::Reject,
            Answer::Release(_) => AnswerKind::Release,
            Answer::Respond(_) => AnswerKind::Respond,
        }
    }
}

/// Where a request goes: a rejected one nowhere, an answered one back, and a
/// released one into a tunnel if its method is CONNECT, into a WebSocket if
/// it asks for the upgrade, and upstream otherwise.
pub open spec fn hop_of(kind: AnswerKind, method: Seq<char>, upgrade: bool) -> Hop {
    match kind {
        AnswerKind::Reject => Hop::BadRequest,
        AnswerKind::Respond => Hop::Reply,
        AnswerKind::Release => if method == "CONNECT"@ {
            Hop::Connect
        } else if upgrade {
            Hop::WebSocket
        } else {
            Hop::Forward
        },
    }
}

/// Decides where a request goes.
pub fn next_hop(kind: AnswerKind, method: &str, upgrade: bool) -> (r: Hop)
    ensures
        r == hop_of(kind, method@, upgrade),
{
    match kind {
        AnswerKind::Reject => Hop::BadRequest,
        AnswerKind::Respond => Hop::Reply,
        AnswerKind::Release => {
            let m = chars_of(method);
            if is_text(m.as_slice(), "CONNECT") {
                Hop::Connect
            } else if upgrade {
                Hop::WebSocket
            } else {
                Hop::Forward
            }
        },
    }
}

/// Only a released request is ever sent upstream.
pub proof fn lemma_only_release_goes_upstream(kind: AnswerKind, method: Seq<char>, upgrade: bool)
    ensures
        hop_of(kind, method, upgrade) == Hop::Forward ==> kind == AnswerKind::Release,
        kind == AnswerKind::Reject ==> hop_of(kind, method, upgrade) == Hop::BadRequest,
{
}

/// The scheme of the WebSocket that stands for a request's scheme: `ws` for
/// `http` and for no scheme, `wss` for any other.
pub open spec fn socket_scheme(scheme: Option<Seq<char>>) -> Seq<char> {
    match scheme {
        None => "ws"@,
        Some(s) => if s == "http"@ {
            "ws"@
        } else {
            "wss"@
        },
    }
}

/// The scheme under which a request is taken up as a WebSocket.
pub fn ws_scheme(scheme: Option<&str>) -> (r: &'static str)
    ensures
        r@ == socket_scheme(
            match scheme {
                Some(s) => Some(s@),
                None => None,
            },
        ),
{
    match scheme {
        None => "ws",
        Some(s) => {
            let c = chars_of(s);
            if is_text(c.as_slice(), "http") {
                "ws"
            } else {
                "wss"
            }
        },
    }
}

/// What came from the stream of one side of a WebSocket.
pub enum StreamEvent {
    /// A message, and what the handler said of it.
    Message(Answer<JsMessage, JsMessage>),
    /// The peer broke the protocol.
    ProtocolError,
    /// The transport failed.
    TransportError,
    /// The stream ended.
    End,
}

/// What a forwarding loop does after an event.
pub enum Forward {
    /// Go on with the next message.
    Skip,
    /// Send the message to the other side.
    ToDestination(JsMessage),
    /// Send the message back to the side it came from.
    ToSource(JsMessage),
    /// Send a close frame to both sides and stop.
    CloseBoth,
    /// Stop.
    Stop,
}

/// What follows from an event on the stream.
pub open spec fn forward_of(e: StreamEvent) -> Forward {
    match e {
        StreamEvent::Message(Answer::Reject) => Forward::Skip,
        StreamEvent::Message(Answer::Release(m)) => Forward::ToDestination(m),
        StreamEvent::Message(Answer::Respond(m)) => Forward::ToSource(m),
        StreamEvent::ProtocolError => Forward::Skip,
        StreamEvent::TransportError => Forward::CloseBoth,
        StreamEvent::End => Forward::Stop,
    }
}

/// Decides what a forwarding loop does after an event.
pub fn on_stream_event(e: StreamEvent) -> (r: Forward)
    ensures
        r == forward_of(e),
{
    match e {
        StreamEvent::Message(Answer::Reject) => Forward::Skip,
        StreamEvent::Message(Answer::Release(m)) => Forward::ToDestination(m),
        StreamEvent::Message(Answer::Respond(m)) => Forward::ToSource(m),
        StreamEvent::ProtocolError => Forward::Skip,
        StreamEvent::TransportError => Forward::CloseBoth,
        StreamEvent::End => Forward::Stop,
    }
}

/// How a send on a sink ended.
#[derive(Clone, Copy, Debug, PartialEq, Eq, Structural)]
pub enum SendResult {
    Sent,
    /// The connection is closed.
    Closed,
    /// Another failure.
    Failed,
}

/// Whether the loop goes on after a send: it stops when the connection is
/// closed, and after the close frames of a transport failure.
pub fn goes_on(closing: bool, sent: SendResult) -> (r: bool)
    ensures
        r == (!closing && sent != SendResult::Closed),
{
    !closing && sent != SendResult::Closed
}

/// One of the two sinks of a forwarding loop.
#[derive(Clone, Copy, Debug, PartialEq, Eq, Structural)]
pub enum Side {
    /// The side that the messages come from.
    Source,
    /// The side that the messages go to.
    Destination,
}

/// The side that gets a close frame after `tried` close frames were tried:
/// first the source, then the destination, then none.
pub open spec fn close_order(tried: int) -> Option<Side> {
    if tried == 0 {
        Some(Side::Source)
    } else if tried == 1 {
        Some(Side::Destination)
    } else {
        None
    }
}

/// The next side to send a close frame to after a transport failure, given
/// how many close frames were tried and how the last try ended. Both sides
/// get one, whatever became of the first.
pub fn next_close(tried: u8, last: Option<SendResult>) -> (r: Option<Side>)
    ensures
        r == close_order(tried as int),
{
    if tried == 0 {
        Some(Side::Source)
    } else if tried == 1 {
        Some(Side::Destination)
    } else {
        None
    }
}

/// The status of the answer to a request that could not be sent upstream.
pub const BAD_GATEWAY: u16 = 502;

/// The status of the answer to a request that the handler rejected.
pub const BAD_REQUEST: u16 = 400;

} // verus!
