//! The steps of the interception pipeline on the shared tables: what happens
//! when a request comes in, when its verdict is there, when its response
//! comes back, and when a message passes.

use vstd::prelude::*;
use vstd::string::*;
use crate::handle::{
    is_plan_of, plan_request, resolved, response_content, response_route_of, route_of,
    route_request, route_response, scope_key_from_request, RequestPlan, RequestRoute,
    ResponseRoute, EXTRA_SCOPE,
};
use crate::codec::{
    codings_of, decode_response, decoded_message, extract_encodings, seal_response, sealed_message,
    Error,
};
use crate::gateway::{response_verdict, Verdict};
use crate::handle::{html_codings, html_encodings, html_headers, prepare_html_headers};
use crate::manager::ClientManager;
use crate::message::HeaderSeq;
use crate::message::{without, Header, HttpAction, JsHeaders, JsRequest, JsResponse, Version};
use crate::net_proxy::{HttpContext, WebSocketContext};
use crate::file::{find_last, last_index};
use crate::scope::{well_formed, Scope};
use crate::text::{chars_of, copy_range, find_from, index_from, string_of};

verus! {

/// The address of a client without its port: what stands between the
/// brackets of `[address]:port`, or before the last colon of `address:port`.
pub open spec fn client_ip_of(addr: Seq<char>) -> Seq<char> {
    if addr.len() > 0 && addr[0] == '[' {
        addr.subrange(1, index_from(addr, ']', 1))
    } else if last_index(addr, ':') < 0 {
        addr
    } else {
        addr.take(last_index(addr, ':'))
    }
}

/// The address of a client without its port.
pub fn client_ip(addr: &str) -> (r: String)
    ensures
        r@ == client_ip_of(addr@),
{
    let c = chars_of(addr);
    if c.len() > 0 && c[0] == '[' {
        let end = find_from(c.as_slice(), ']', 1);
        string_of(copy_range(c.as_slice(), 1, end).as_slice())
    } else {
        match find_last(c.as_slice(), ':') {
            None => string_of(c.as_slice()),
            Some(i) => {
                let head = copy_range(c.as_slice(), 0, i);
                assert(head@ =~= addr@.take(i as int));
                string_of(head.as_slice())
            },
        }
    }
}

/// The status of the answer to a request whose scope cannot be resolved.
pub const SCOPE_ERROR_STATUS: u16 = 500;

/// How the handling of a request begins.
pub enum RequestStart {
    /// The request sets up a tunnel; it goes on without its identity header.
    Tunnel,
    /// The request is a preflight; it is answered with this.
    Preflight(JsResponse),
    /// The request is for the engine's own pages.
    Internal,
    /// The host is not intercepted; the request goes on without its identity
    /// header.
    Bypass,
    /// The scope of the request cannot be resolved; the client gets this.
    Refused(JsResponse),
    /// Decision logic is asked about the request for this scope.
    Ask(Scope),
}

/// The headers that let pages of any origin call the engine.
pub open spec fn cors_headers() -> Seq<(Seq<char>, Seq<char>)> {
    seq![
        ("access-control-allow-origin"@, "*"@),
        ("access-control-allow-methods"@, "*"@),
        (
            "access-control-allow-headers"@,
            "Origin, X-Requested-With, Content-Type, Accept, Host, Cthulhu-Extra-Scope"@,
        ),
    ]
}

/// The answer to a preflight: status 200, the headers for calls from any
/// origin, and no body.
pub fn preflight_response() -> (r: JsResponse)
    ensures
        r.status == 200,
        r.version == Version::Http11,
        r.headers@ == cors_headers(),
        r.body@.len() == 0,
{
    let mut inner: Vec<Header> = Vec::new();
    inner.push(Header { name: "access-control-allow-origin".to_owned(), value: "*".to_owned() });
    inner.push(Header { name: "access-control-allow-methods".to_owned(), value: "*".to_owned() });
    inner.push(
        Header {
            name: "access-control-allow-headers".to_owned(),
            value: "Origin, X-Requested-With, Content-Type, Accept, Host, Cthulhu-Extra-Scope".to_owned(),
        },
    );
    let headers = JsHeaders { is_mut: true, inner };
    assert(headers@ =~= cors_headers());
    JsResponse {
        is_mut: true,
        status: 200,
        version: Version::Http11,
        headers,
        body: crate::message::JsBody::empty(),
    }
}

/// Begins the handling of a request.
///
/// A request that is not intercepted leaves the tables alone. A request that
/// is intercepted gets its scope, which is tied to the request for its
/// response and made known under its id; a request without a scope is
/// answered with the complaint. In every case but a preflight and a request
/// for the engine's own pages the identity header leaves the request.
pub fn begin_request<S>(
    m: &mut ClientManager<S>,
    ctx: &HttpContext,
    host: &str,
    req: &mut JsRequest,
    allowed: bool,
) -> (r: RequestStart)
    requires
        old(m).wf(),
    ensures
        final(m).wf(),
        final(m).sinks == old(m).sinks,
        final(m).sessions == old(m).sessions,
        final(m).proxy_datas == old(m).proxy_datas,
        final(req).method == old(req).method,
        final(req).uri == old(req).uri,
        final(req).version == old(req).version,
        final(req).body == old(req).body,
        final(req).is_mut == old(req).is_mut,
        final(req).headers.is_mut == old(req).headers.is_mut,
        match route_of(old(req).method@, host@, allowed) {
            RequestRoute::Tunnel => r is Tunnel && *final(m) == *old(m) && final(req).headers@
                == without(old(req).headers@, EXTRA_SCOPE@),
            RequestRoute::Bypass => r is Bypass && *final(m) == *old(m) && final(req).headers@
                == without(old(req).headers@, EXTRA_SCOPE@),
            RequestRoute::Preflight => r is Preflight && *final(m) == *old(m) && *final(req)
                == *old(req),
            RequestRoute::Internal => r is Internal && *final(m) == *old(m) && *final(req) == *old(req),
            RequestRoute::Intercept => {
                &&& final(req).headers@ == without(old(req).headers@, EXTRA_SCOPE@)
                &&& match resolved(
                    client_ip_of(ctx.client_addr@),
                    old(req).headers@,
                    old(req).uri@,
                ) {
                    Ok(v) => {
                        &&& r matches RequestStart::Ask(s) && s@ == v && well_formed(s@)
                        &&& final(m).ctx_map_scope_keys.has((ctx.client_addr@, ctx.uri@))
                        &&& final(m).ctx_map_scope_keys.value((ctx.client_addr@, ctx.uri@))@ == v
                        &&& final(m).scope_keys.has(v.id)
                        &&& final(m).scope_keys.value(v.id)@ == v
                        &&& final(m).ctx_map_scope_keys.map().remove((ctx.client_addr@, ctx.uri@))
                            == old(m).ctx_map_scope_keys.map().remove((ctx.client_addr@, ctx.uri@))
                        &&& final(m).scope_keys.map().remove(v.id) == old(m).scope_keys.map().remove(
                            v.id,
                        )
                    },
                    Err(e) => {
                        &&& r matches RequestStart::Refused(res) && res.status
                            == SCOPE_ERROR_STATUS
                        &&& *final(m) == *old(m)
                    },
                }
            },
        },
{
    match route_request(req.method.as_str(), host, allowed) {
        RequestRoute::Tunnel => {
            let _ = req.headers.take(EXTRA_SCOPE);
            RequestStart::Tunnel
        },
        RequestRoute::Bypass => {
            let _ = req.headers.take(EXTRA_SCOPE);
            RequestStart::Bypass
        },
        RequestRoute::Preflight => RequestStart::Preflight(preflight_response()),
        RequestRoute::Internal => RequestStart::Internal,
        RequestRoute::Intercept => {
            let ip = client_ip(ctx.client_addr.as_str());
            match scope_key_from_request(ip.as_str(), req) {
                Err(e) => RequestStart::Refused(response_content(SCOPE_ERROR_STATUS, e.message())),
                Ok(scope) => {
                    let ghost key = (ctx.client_addr@, ctx.uri@);
                    let first = scope.copy();
                    let second = scope.copy();
                    m.remember_scope(ctx.client_addr.clone(), ctx.uri.clone(), first);
                    proof {
                        assert(m.ctx_map_scope_keys.map().dom().contains(key));
                        assert(m.ctx_map_scope_keys.map()[key] == first);
                        assert(m.ctx_map_scope_keys.value(key) == first);
                    }
                    m.set_scope_key(second);
                    proof {
                        assert(m.scope_keys.map().dom().contains(scope@.id));
                        assert(m.scope_keys.map()[scope@.id] == second);
                        assert(m.scope_keys.value(scope@.id) == second);
                        assert(m.ctx_map_scope_keys.map().remove(key) =~= old(m).ctx_map_scope_keys.map().remove(key));
                        assert(m.scope_keys.map().remove(scope@.id) =~= old(m).scope_keys.map().remove(
                            scope@.id,
                        ));
                    }
                    RequestStart::Ask(scope)
                },
            }
        },
    }
}

/// Turns the verdict on a request of a scope into a plan, and records the
/// way out of the scope where the verdict names one. The ways out of the
/// other scopes stay as they are.
pub fn settle_request<S>(m: &mut ClientManager<S>, scope: &Scope, action: HttpAction) -> (r:
    RequestPlan)
    requires
        old(m).wf(),
    ensures
        final(m).wf(),
        is_plan_of(action, r),
        final(m).sinks == old(m).sinks,
        final(m).sessions == old(m).sessions,
        final(m).ctx_map_scope_keys == old(m).ctx_map_scope_keys,
        final(m).scope_keys == old(m).scope_keys,
        match action {
            HttpAction::Proxy(_, cfg) => {
                &&& final(m).proxy_datas.has(scope@)
                &&& final(m).proxy_datas.value(scope@)@ == cfg@
                &&& final(m).proxy_datas.map().remove(scope@) == old(m).proxy_datas.map().remove(scope@)
            },
            _ => final(m).proxy_datas == old(m).proxy_datas,
        },
{
    let plan = plan_request(action);
    match &plan.profile {
        Some(cfg) => {
            let copy = cfg.copy();
            m.set_proxy(scope.copy(), copy);
            proof {
                assert(m.proxy_datas.map().dom().contains(scope@));
                assert(m.proxy_datas.map()[scope@] == copy);
                assert(m.proxy_datas.value(scope@) == copy);
                assert(m.proxy_datas.map().remove(scope@) =~= old(m).proxy_datas.map().remove(scope@));
            }
        },
        None => {},
    }
    plan
}

/// Begins the handling of a response: the scope of its request is taken out
/// of the table, unless the host is not intercepted, and the route of the
/// response is decided. Without a scope the response goes back as it came.
pub fn begin_response<S>(
    m: &mut ClientManager<S>,
    ctx: &HttpContext,
    allowed: bool,
    ctype: &str,
) -> (r: (ResponseRoute, Option<Scope>))
    requires
        old(m).wf(),
    ensures
        final(m).wf(),
        final(m).sinks == old(m).sinks,
        final(m).sessions == old(m).sessions,
        final(m).proxy_datas == old(m).proxy_datas,
        final(m).scope_keys == old(m).scope_keys,
        !allowed ==> *final(m) == *old(m) && r.0 == ResponseRoute::Raw && r.1.is_none(),
        allowed ==> {
            let key = (ctx.client_addr@, ctx.uri@);
            &&& !final(m).ctx_map_scope_keys.has(key)
            &&& final(m).ctx_map_scope_keys.map() == old(m).ctx_map_scope_keys.map().remove(key)
            &&& r.1.is_some() == old(m).ctx_map_scope_keys.has(key)
            &&& r.1.is_some() ==> r.1.unwrap() == old(m).ctx_map_scope_keys.value(key)
            &&& r.0 == response_route_of(true, r.1.is_some(), ctype@)
        },
        (r.0 == ResponseRoute::Raw) == r.1.is_none(),
{
    if !allowed {
        return (ResponseRoute::Raw, None);
    }
    let scope = m.take_scope(ctx.client_addr.clone(), ctx.uri.clone());
    let route = route_response(true, scope.is_some(), ctype);
    (route, scope)
}

/// A response that was opened for inspection: the response with its body
/// taken out of its codings, and the codings that it came in.
pub struct Opened {
    pub response: JsResponse,
    pub codings: Vec<Vec<char>>,
}

/// Opens a response for inspection: the codings that its headers name are
/// remembered, and its body is taken out of them.
pub fn open_response(res: JsResponse) -> (r: Result<Opened, Error>)
    ensures
        match r {
            Ok(o) => {
                &&& o.codings.deep_view() == codings_of(res.headers@)
                &&& decoded_message(res.headers@, res.body@) == Some(
                    (o.response.headers@, o.response.body@),
                )
                &&& o.response.status == res.status && o.response.version == res.version
                &&& o.response.is_mut == res.is_mut && o.response.headers.is_mut == res.headers.is_mut
            },
            Err(e) => e is Decode && decoded_message(res.headers@, res.body@).is_none(),
        },
{
    let codings = extract_encodings(&res.headers);
    match decode_response(res) {
        Ok(response) => Ok(Opened { response, codings }),
        Err(e) => Err(e),
    }
}

/// Whether `r` is what sealing gives for a response with the headers `h`:
/// the response with its body in the codings `tokens` and headers that say
/// so, or an error where the body cannot be put into them.
pub open spec fn sealing(
    tokens: Seq<Seq<char>>,
    h: HeaderSeq,
    res: JsResponse,
    r: Result<JsResponse, Error>,
) -> bool {
    match r {
        Ok(d) => {
            &&& sealed_message(tokens, h, res.body@) == Some((d.headers@, d.body@))
            &&& d.status == res.status && d.version == res.version && d.is_mut == res.is_mut
            &&& d.headers.is_mut == res.headers.is_mut
        },
        Err(e) => e is Decode && sealed_message(tokens, h, res.body@).is_none(),
    }
}

/// How the handling of an opened response ends: the response for the
/// observers, if they get one, and the response for the client.
pub struct ResponseEnd {
    pub watch: Option<JsResponse>,
    pub outcome: Result<JsResponse, Error>,
}

/// The response that goes on after the hook: what the hook gave, or the
/// opened response where it gave none.
pub open spec fn chosen(hook: Verdict<JsResponse>, opened: JsResponse) -> JsResponse {
    match hook {
        Verdict::Given(a) => a,
        _ => opened,
    }
}

/// Whether two responses say the same.
pub open spec fn same_response(a: JsResponse, b: JsResponse) -> bool {
    &&& a.status == b.status
    &&& a.version == b.version
    &&& a.headers@ == b.headers@
    &&& a.body@ == b.body@
}

/// Ends the handling of an opened response.
///
/// On the route of injection the headers are prepared for injection and the
/// body goes back into the codings that it came in, or into gzip where it
/// came in none; the observers get nothing. On the other routes the response
/// that the hook gave, or the opened one where the hook gave none, is shown
/// to the observers and goes into the codings that the response came in.
pub fn close_response(route: ResponseRoute, opened: Opened, hook: Verdict<JsResponse>) -> (r:
    ResponseEnd)
    ensures
        route == ResponseRoute::Inject ==> r.watch.is_none() && sealing(
            html_codings(opened.codings.deep_view()),
            html_headers(opened.response.headers@),
            opened.response,
            r.outcome,
        ),
        route != ResponseRoute::Inject ==> sealing(
            opened.codings.deep_view(),
            chosen(hook, opened.response).headers@,
            chosen(hook, opened.response),
            r.outcome,
        ),
        route != ResponseRoute::Inject ==> (match r.watch {
            Some(w) => same_response(w, chosen(hook, opened.response)),
            None => false,
        }),
{
    let Opened { response, codings } = opened;
    if route == ResponseRoute::Inject {
        let mut response = response;
        prepare_html_headers(&mut response.headers);
        let codings = html_encodings(codings);
        ResponseEnd { watch: None, outcome: seal_response(response, &codings) }
    } else {
        let hooked = response_verdict(hook, response);
        let watch = hooked.copy_self();
        ResponseEnd { watch: Some(watch), outcome: seal_response(hooked, &codings) }
    }
}

/// The scope of a message: that of the request which opened the socket. The
/// table keeps the scope for the messages to come.
pub fn begin_message<S>(m: &ClientManager<S>, ctx: &WebSocketContext, allowed: bool) -> (r: Option<
    Scope,
>)
    ensures
        !allowed ==> r.is_none(),
        allowed ==> {
            let key = match *ctx {
                WebSocketContext::ClientToServer { src, dst } => (src@, dst@),
                WebSocketContext::ServerToClient { src, dst } => (dst@, src@),
            };
            match r {
                Some(s) => m.ctx_map_scope_keys.has(key) && s@ == m.ctx_map_scope_keys.value(key)@,
                None => !m.ctx_map_scope_keys.has(key),
            }
        },
{
    if !allowed {
        return None;
    }
    m.find_scope(ctx.addr(), ctx.uri())
}

} // verus!
