//! The interception pipeline: who a request belongs to, whether its host is
//! intercepted, and what becomes of a request, a response and a message once
//! decision logic has spoken.

use vstd::prelude::*;
use vstd::string::*;
use vstd::utf8::encode_utf8;
use crate::message::{
    first_value, read_header, read_value, shown, without, Header, HeaderSeq, HttpAction,
    JsBody, JsHeaders, JsRequest, JsResponse, ProxyCfg, Version, lower, to_lower,
};
use crate::model::{texts, HostList};
use crate::net_proxy::Answer;
use crate::scope::{scope_id, well_formed, Scope, ScopeView};
use crate::text::{
    chars_of, copy_range, ends_with, extend_chars, extend_str, has_prefix, has_suffix, is_text,
    parse_decimal, parse_int, split, split_once, split_once_spec, split_spec, starts_with,
    string_of, trim, trim_spec, trim_start_spec, is_whitespace, is_space, lemma_trim_start_skip,
};
use crate::uri::{parse_uri, text_or_empty, uri_parts, JsUri, JsUriView, RawUri, RawUriView};
use crate::utils::{match_text, wild_match};
use crate::ws::{JsMessage, WsAction};

verus! {

/// The name under which the engine's own pages are served.
pub const BRAND: &'static str = "cthulhu.server";

/// The header in which a client names its session.
pub const EXTRA_SCOPE: &'static str = "cthulhu-extra-scope";

/// What a client says of its session in the identity header.
pub struct ExtraScope {
    pub email: String,
    pub custom: String,
    pub window: i32,
    pub tab: i32,
    pub frame: i32,
}

/// The identity header's content as mathematical values.
pub struct ExtraView {
    pub email: Seq<char>,
    pub custom: Seq<char>,
    pub window: int,
    pub tab: int,
    pub frame: int,
}

impl View for ExtraScope {
    type V = ExtraView;

    open spec fn view(&self) -> ExtraView {
        ExtraView {
            email: self.email@,
            custom: self.custom@,
            window: self.window as int,
            tab: self.tab as int,
            frame: self.frame as int,
        }
    }
}

/// What holds without an identity header: empty texts and zeros.
pub open spec fn no_extra() -> ExtraView {
    ExtraView { email: Seq::empty(), custom: Seq::empty(), window: 0, tab: 0, frame: 0 }
}

/// The number that a text writes, or zero where it writes none.
pub open spec fn number_or_zero(v: Seq<char>) -> int {
    match parse_decimal(v, -0x8000_0000, 0x7fff_ffff) {
        Some(n) => n,
        None => 0,
    }
}

/// Key and value of one item of the identity header, trimmed. An item
/// without `=` has an empty key.
pub open spec fn item_halves(item: Seq<char>) -> (Seq<char>, Seq<char>) {
    match split_once_spec(item, '=') {
        Some((k, v)) => (trim_spec(k), trim_spec(v)),
        None => (Seq::empty(), Seq::empty()),
    }
}

/// The identity after one more item, or `None` where the item's key is not
/// one of `email`, `custom`, `window`, `tab` and `frame`.
pub open spec fn extra_step(acc: ExtraView, item: Seq<char>) -> Option<ExtraView> {
    let (k, v) = item_halves(item);
    if k == "email"@ {
        Some(ExtraView { email: v, ..acc })
    } else if k == "custom"@ {
        Some(ExtraView { custom: v, ..acc })
    } else if k == "window"@ {
        Some(ExtraView { window: number_or_zero(v), ..acc })
    } else if k == "tab"@ {
        Some(ExtraView { tab: number_or_zero(v), ..acc })
    } else if k == "frame"@ {
        Some(ExtraView { frame: number_or_zero(v), ..acc })
    } else {
        None
    }
}

/// The identity after the given items, one after the other.
pub open spec fn extra_fold(items: Seq<Seq<char>>, acc: ExtraView) -> Option<ExtraView>
    decreases items.len(),
{
    if items.len() == 0 {
        Some(acc)
    } else {
        match extra_step(acc, items[0]) {
            None => None,
            Some(a) => extra_fold(items.skip(1), a),
        }
    }
}

/// What an identity header says: its items between semicolons, each a
/// `key=value` pair.
pub open spec fn extra_of(value: Seq<char>) -> Option<ExtraView> {
    extra_fold(split_spec(value, ';'), no_extra())
}

/// Why no scope could be made for a request.
#[derive(Clone, Copy, Debug, PartialEq, Eq, Structural)]
pub enum ScopeError {
    /// The identity header holds an unknown key.
    InvalidExtraScope,
    /// The `Origin` or `Referer` header holds no address.
    InvalidOrigin,
}

impl ScopeError {
    /// The error in words.
    pub fn message(&self) -> (r: &'static str)
        ensures
            r@ == match *self {
                ScopeError::InvalidExtraScope => "value of header 'cthulhu-extra-scope' invalid"@,
                ScopeError::InvalidOrigin => "Origin 或 Referrer uri地址解析错误，代理服务器无法辨识来源"@,
            },
    {
        match self {
            ScopeError::InvalidExtraScope => "value of header 'cthulhu-extra-scope' invalid",
            ScopeError::InvalidOrigin => "Origin 或 Referrer uri地址解析错误，代理服务器无法辨识来源",
        }
    }
}

fn number_of(v: &[char]) -> (r: i32)
    ensures
        r == number_or_zero(v@),
{
    match parse_int(v, -0x8000_0000, 0x7fff_ffff) {
        Some(n) => n as i32,
        None => 0,
    }
}

/// Reads the identity header.
pub fn parse_extra_scope(value: &str) -> (r: Result<ExtraScope, ScopeError>)
    ensures
        match r {
            Ok(x) => extra_of(value@) == Some(x@),
            Err(e) => e == ScopeError::InvalidExtraScope && extra_of(value@).is_none(),
        },
{
    let c = chars_of(value);
    let items = split(c.as_slice(), ';');
    let mut acc = ExtraScope {
        email: String::new(),
        custom: String::new(),
        window: 0,
        tab: 0,
        frame: 0,
    };
    let mut i: usize = 0;
    assert(acc@ == no_extra());
    assert(items.deep_view().skip(0) =~= items.deep_view());
    while i < items.len()
        invariant
            i <= items.len(),
            items.deep_view() == split_spec(value@, ';'),
            extra_fold(items.deep_view().skip(i as int), acc@) == extra_of(value@),
        decreases items.len() - i,
    {
        let ghost rest = items.deep_view().skip(i as int);
        assert(rest[0] == items@[i as int]@);
        assert(rest.skip(1) =~= items.deep_view().skip(i + 1));
        let (k, v) = match split_once(items[i].as_slice(), '=') {
            Some((a, b)) => (trim(a.as_slice()), trim(b.as_slice())),
            None => (Vec::new(), Vec::new()),
        };
        assert((k@, v@) == item_halves(rest[0]));
        if is_text(k.as_slice(), "email") {
            acc.email = string_of(v.as_slice());
        } else if is_text(k.as_slice(), "custom") {
            acc.custom = string_of(v.as_slice());
        } else if is_text(k.as_slice(), "window") {
            acc.window = number_of(v.as_slice());
        } else if is_text(k.as_slice(), "tab") {
            acc.tab = number_of(v.as_slice());
        } else if is_text(k.as_slice(), "frame") {
            acc.frame = number_of(v.as_slice());
        } else {
            return Err(ScopeError::InvalidExtraScope);
        }
        i += 1;
    }
    Ok(acc)
}

/// The scope with the given fields.
pub open spec fn scope_with(
    ip: Seq<char>,
    scheme: Seq<char>,
    host: Seq<char>,
    ua: Seq<char>,
    x: ExtraView,
) -> ScopeView {
    ScopeView {
        id: scope_id(ip, scheme, host, ua, x.email, x.custom, x.window, x.tab, x.frame),
        ip,
        scheme,
        host,
        ua,
        email: x.email,
        custom: x.custom,
        window: x.window,
        tab: x.tab,
        frame: x.frame,
    }
}

/// Where a request says it comes from: its `Origin` header, or else its
/// `Referer` header.
pub open spec fn scope_source(h: HeaderSeq) -> Option<Seq<char>> {
    match read_header(h, "origin"@) {
        Some(o) => Some(o),
        None => read_header(h, "referer"@),
    }
}

/// The scope of a request, given what the address parser makes of its
/// source: scheme and host are those of the source, or, without a source,
/// those of the request's own address.
pub open spec fn scope_from(
    ip: Seq<char>,
    ua: Seq<char>,
    x: ExtraView,
    uri: JsUriView,
    origin: Option<Option<RawUriView>>,
) -> Result<ScopeView, ScopeError> {
    match origin {
        None => Ok(scope_with(ip, uri.scheme, uri.host, ua, x)),
        Some(None) => Err(ScopeError::InvalidOrigin),
        Some(Some(p)) => Ok(scope_with(ip, text_or_empty(p.0), text_or_empty(p.2), ua, x)),
    }
}

/// The scope of a request from the address `ip`.
///
/// An identity header that is there has to be well formed. The user agent is
/// that of the `User-Agent` header, or empty.
pub open spec fn resolved(ip: Seq<char>, h: HeaderSeq, uri: JsUriView) -> Result<
    ScopeView,
    ScopeError,
> {
    let extra = match first_value(h, EXTRA_SCOPE@) {
        None => Some(no_extra()),
        Some(v) => extra_of(shown(v)),
    };
    match extra {
        None => Err(ScopeError::InvalidExtraScope),
        Some(x) => scope_from(
            ip,
            text_or_empty(read_header(h, "user-agent"@)),
            x,
            uri,
            match scope_source(h) {
                None => None,
                Some(s) => Some(uri_parts(s)),
            },
        ),
    }
}

/// A raw address as mathematical value, where there is one.
pub open spec fn origin_view(origin: Option<Option<RawUri>>) -> Option<Option<RawUriView>> {
    match origin {
        None => None,
        Some(None) => Some(None),
        Some(Some(r)) => Some(Some(r@)),
    }
}

fn or_empty(s: Option<String>) -> (r: String)
    ensures
        r@ == text_or_empty(crate::uri::opt_text(s)),
{
    match s {
        Some(t) => t,
        None => String::new(),
    }
}

/// Makes the scope of a request from what its source was parsed to.
pub fn scope_from_origin(
    ip: &str,
    ua: String,
    extra: ExtraScope,
    uri: &JsUri,
    origin: Option<Option<RawUri>>,
) -> (r: Result<Scope, ScopeError>)
    ensures
        match r {
            Ok(s) => scope_from(ip@, ua@, extra@, uri@, origin_view(origin)) == Ok::<
                ScopeView,
                ScopeError,
            >(s@) && well_formed(s@),
            Err(e) => scope_from(ip@, ua@, extra@, uri@, origin_view(origin)) == Err::<
                ScopeView,
                ScopeError,
            >(e),
        },
{
    match origin {
        None => Ok(
            Scope::new(
                ip.to_owned(),
                uri.scheme.clone(),
                uri.host.clone(),
                ua,
                extra.email,
                extra.custom,
                extra.window,
                extra.tab,
                extra.frame,
            ),
        ),
        Some(None) => Err(ScopeError::InvalidOrigin),
        Some(Some(raw)) => Ok(
            Scope::new(
                ip.to_owned(),
                or_empty(raw.scheme),
                or_empty(raw.host),
                ua,
                extra.email,
                extra.custom,
                extra.window,
                extra.tab,
                extra.frame,
            ),
        ),
    }
}

/// Resolves the scope of a request that came from the address `addr`, and
/// takes the identity header out of the request.
pub fn scope_key_from_request(addr: &str, req: &mut JsRequest) -> (r: Result<Scope, ScopeError>)
    ensures
        final(req).headers@ == without(old(req).headers@, EXTRA_SCOPE@),
        final(req).headers.is_mut == old(req).headers.is_mut,
        final(req).method == old(req).method,
        final(req).uri == old(req).uri,
        final(req).version == old(req).version,
        final(req).body == old(req).body,
        final(req).is_mut == old(req).is_mut,
        match r {
            Ok(s) => resolved(addr@, old(req).headers@, old(req).uri@) == Ok::<
                ScopeView,
                ScopeError,
            >(s@) && well_formed(s@),
            Err(e) => resolved(addr@, old(req).headers@, old(req).uri@) == Err::<
                ScopeView,
                ScopeError,
            >(e),
        },
{
    proof {
        reveal_strlit("user-agent");
        reveal_strlit("origin");
        reveal_strlit("referer");
    }
    let ua = or_empty(req.headers.get("user-agent"));
    let source = match req.headers.get("origin") {
        Some(o) => Some(o),
        None => req.headers.get("referer"),
    };
    assert(crate::uri::opt_text(source) == scope_source(old(req).headers@));
    let extra = match req.headers.take(EXTRA_SCOPE) {
        None => ExtraScope {
            email: String::new(),
            custom: String::new(),
            window: 0,
            tab: 0,
            frame: 0,
        },
        Some(v) => {
            let shown = read_value(v.as_str());
            match parse_extra_scope(shown.as_str()) {
                Ok(x) => x,
                Err(e) => {
                    return Err(e);
                },
            }
        },
    };
    let origin = match source {
        None => None,
        Some(s) => Some(parse_uri(s.as_str())),
    };
    scope_from_origin(addr, ua, extra, &req.uri, origin)
}

/// Whether one of the patterns matches the host.
pub open spec fn any_match(patterns: Seq<Seq<char>>, host: Seq<char>) -> bool {
    exists|i: int| 0 <= i < patterns.len() && wild_match(#[trigger] patterns[i], host)
}

/// Whether a list lets a host through. A list of refused hosts lets through
/// what none of its patterns matches; a list of admitted hosts lets every
/// host through.
pub fn host_filter(host: &str, hosts: &Vec<String>, is_white: bool) -> (r: bool)
    ensures
        r == (is_white || !any_match(texts(hosts@), host@)),
{
    let h = chars_of(host);
    let mut i: usize = 0;
    while i < hosts.len()
        invariant
            i <= hosts.len(),
            h@ == host@,
            forall|k: int| 0 <= k < i ==> !wild_match(#[trigger] texts(hosts@)[k], host@),
        decreases hosts.len() - i,
    {
        let p = chars_of(hosts[i].as_str());
        assert(texts(hosts@)[i as int] == p@);
        if match_text(p.as_slice(), h.as_slice()) {
            return is_white;
        }
        i += 1;
    }
    true
}

/// Whether the traffic of a host is intercepted: it is not where a list of
/// refused hosts is in force and matches the host.
pub open spec fn intercepted(host: Seq<char>, black: Option<HostList>) -> bool {
    match black {
        Some(b) => !(b.enabled && any_match(texts(b.list@), host)),
        None => true,
    }
}

/// Decides by the two host lists whether a host is intercepted. The list of
/// refused hosts is asked first, where it is in force; the list of admitted
/// hosts refuses nothing.
pub fn app_filter(host: &str, black: Option<&HostList>, white: Option<&HostList>) -> (r: bool)
    ensures
        r == intercepted(
            host@,
            match black {
                Some(b) => Some(*b),
                None => None,
            },
        ),
{
    match black {
        Some(b) => {
            if b.enabled {
                return host_filter(host, &b.list, false);
            }
        },
        None => {},
    }
    match white {
        Some(w) => {
            if w.enabled {
                return host_filter(host, &w.list, true);
            }
        },
        None => {},
    }
    true
}

/// What is done with a request before decision logic is asked.
#[derive(Clone, Copy, Debug, PartialEq, Eq, Structural)]
pub enum RequestRoute {
    /// A CONNECT request: the identity header goes and the tunnel is set up.
    Tunnel,
    /// An OPTIONS request: it is answered at once.
    Preflight,
    /// A request to the engine's own pages.
    Internal,
    /// The host is not intercepted: the identity header goes and the request
    /// is sent on.
    Bypass,
    /// Decision logic is asked.
    Intercept,
}

/// The route of a request with the given method to the given host.
pub open spec fn route_of(method: Seq<char>, host: Seq<char>, allowed: bool) -> RequestRoute {
    if method == "CONNECT"@ {
        RequestRoute::Tunnel
    } else if method == "OPTIONS"@ {
        RequestRoute::Preflight
    } else if ends_with(host, BRAND@) {
        RequestRoute::Internal
    } else if !allowed {
        RequestRoute::Bypass
    } else {
        RequestRoute::Intercept
    }
}

/// Decides the route of a request.
pub fn route_request(method: &str, host: &str, allowed: bool) -> (r: RequestRoute)
    ensures
        r == route_of(method@, host@, allowed),
{
    let m = chars_of(method);
    let h = chars_of(host);
    if is_text(m.as_slice(), "CONNECT") {
        RequestRoute::Tunnel
    } else if is_text(m.as_slice(), "OPTIONS") {
        RequestRoute::Preflight
    } else if has_suffix(h.as_slice(), BRAND) {
        RequestRoute::Internal
    } else if !allowed {
        RequestRoute::Bypass
    } else {
        RequestRoute::Intercept
    }
}

/// Decision logic is asked only about requests that are neither CONNECT nor
/// OPTIONS.
pub proof fn lemma_short_circuit(method: Seq<char>, host: Seq<char>, allowed: bool)
    ensures
        (method == "CONNECT"@ || method == "OPTIONS"@) ==> route_of(method, host, allowed)
            != RequestRoute::Intercept,
        !allowed ==> route_of(method, host, allowed) != RequestRoute::Intercept,
{
}

/// What an observer is shown after a verdict.
#[derive(Clone, Copy, Debug, PartialEq, Eq, Structural)]
pub enum Watch {
    Nothing,
    /// A copy of the request that goes on.
    Request,
    /// A copy of the response that goes back.
    Response,
}

/// What becomes of the request itself.
pub enum Outcome {
    /// The request is sent upstream.
    Forward(JsRequest),
    /// The client gets this response; nothing is sent upstream.
    Respond(JsResponse),
}

/// What the engine does after a verdict on a request.
pub struct RequestPlan {
    pub outcome: Outcome,
    pub watch: Watch,
    /// How many milliseconds the request waits before it goes on.
    pub delay_ms: u64,
    /// The way out that is recorded for the scope and used for the request.
    pub profile: Option<ProxyCfg>,
}

/// The status of the answer to a rejected request.
pub const REJECTED_STATUS: u16 = 500;

/// The text of the answer to a rejected request.
pub const REJECTED_TEXT: &'static str = "<server rejected>";

/// A plain text answer: the status, a content type header and the text as
/// body.
pub open spec fn is_text_answer(res: JsResponse, status: u16, content: Seq<char>) -> bool {
    &&& res.status == status
    &&& res.version == Version::Http11
    &&& res.headers@ == seq![("content-type"@, "text/plain;charset=utf8"@)]
    &&& res.body@ == encode_utf8(content)
}

/// A plain text answer.
pub fn response_content(status: u16, content: &str) -> (r: JsResponse)
    ensures
        is_text_answer(r, status, content@),
        r.is_mut,
        r.headers.is_mut,
{
    let mut inner: Vec<Header> = Vec::new();
    inner.push(
        Header { name: "content-type".to_owned(), value: "text/plain;charset=utf8".to_owned() },
    );
    let headers = JsHeaders { is_mut: true, inner };
    assert(headers@ =~= seq![("content-type"@, "text/plain;charset=utf8"@)]);
    JsResponse {
        is_mut: true,
        status,
        version: Version::Http11,
        headers,
        body: JsBody { inner: content.as_bytes_vec() },
    }
}

/// Whether `plan` is what the verdict `action` asks for.
///
/// A rejection is answered with the fixed response and nobody is shown
/// anything. A response is handed back and shown to the observers. In every
/// other case the request goes upstream and is shown to the observers: after
/// the given delay, or by the given way out, which is recorded, or at once.
pub open spec fn is_plan_of(action: HttpAction, plan: RequestPlan) -> bool {
    match action {
        HttpAction::Reject => {
            &&& plan.outcome matches Outcome::Respond(res) && is_text_answer(
                res,
                REJECTED_STATUS,
                REJECTED_TEXT@,
            )
            &&& plan.watch == Watch::Nothing
            &&& plan.delay_ms == 0
            &&& plan.profile.is_none()
        },
        HttpAction::Delay(req, ms) => {
            &&& plan.outcome == Outcome::Forward(req)
            &&& plan.watch == Watch::Request
            &&& plan.delay_ms == ms
            &&& plan.profile.is_none()
        },
        HttpAction::Proxy(req, cfg) => {
            &&& plan.outcome == Outcome::Forward(req)
            &&& plan.watch == Watch::Request
            &&& plan.delay_ms == 0
            &&& plan.profile == Some(cfg)
        },
        HttpAction::Respond(res) => {
            &&& plan.outcome == Outcome::Respond(res)
            &&& plan.watch == Watch::Response
            &&& plan.delay_ms == 0
            &&& plan.profile.is_none()
        },
        HttpAction::Release(req) => {
            &&& plan.outcome == Outcome::Forward(req)
            &&& plan.watch == Watch::Request
            &&& plan.delay_ms == 0
            &&& plan.profile.is_none()
        },
    }
}

/// Turns a verdict on a request into what the engine does.
pub fn plan_request(action: HttpAction) -> (r: RequestPlan)
    ensures
        is_plan_of(action, r),
{
    match action {
        HttpAction::Reject => RequestPlan {
            outcome: Outcome::Respond(response_content(REJECTED_STATUS, REJECTED_TEXT)),
            watch: Watch::Nothing,
            delay_ms: 0,
            profile: None,
        },
        HttpAction::Delay(req, ms) => RequestPlan {
            outcome: Outcome::Forward(req),
            watch: Watch::Request,
            delay_ms: ms,
            profile: None,
        },
        HttpAction::Proxy(req, cfg) => RequestPlan {
            outcome: Outcome::Forward(req),
            watch: Watch::Request,
            delay_ms: 0,
            profile: Some(cfg),
        },
        HttpAction::Respond(res) => RequestPlan {
            outcome: Outcome::Respond(res),
            watch: Watch::Response,
            delay_ms: 0,
            profile: None,
        },
        HttpAction::Release(req) => RequestPlan {
            outcome: Outcome::Forward(req),
            watch: Watch::Request,
            delay_ms: 0,
            profile: None,
        },
    }
}

/// Whether a plan sends anything upstream.
pub open spec fn calls_upstream(plan: RequestPlan) -> bool {
    plan.outcome is Forward
}

/// The earliest time, in milliseconds, at which the request of a plan goes
/// upstream, when the verdict came at the time `decided`.
pub open spec fn earliest_forward(decided: int, plan: RequestPlan) -> int {
    decided + plan.delay_ms
}

/// A rejected request is never sent upstream, and no observer hears of it.
pub proof fn lemma_reject_stays(action: HttpAction, plan: RequestPlan)
    requires
        is_plan_of(action, plan),
        action is Reject,
    ensures
        !calls_upstream(plan),
        plan.watch == Watch::Nothing,
        plan.profile.is_none(),
{
}

/// A delayed request goes upstream, and not before its delay has passed
/// since the verdict.
pub proof fn lemma_delay_waits(action: HttpAction, plan: RequestPlan, decided: int)
    requires
        is_plan_of(action, plan),
        action is Delay,
    ensures
        calls_upstream(plan),
        earliest_forward(decided, plan) >= decided + action->Delay_1,
{
}

/// A verdict that answers the request never sends anything upstream, and
/// every other verdict but a rejection does.
pub proof fn lemma_upstream_iff_forwarded(action: HttpAction, plan: RequestPlan)
    requires
        is_plan_of(action, plan),
    ensures
        calls_upstream(plan) == !(action is Reject || action is Respond),
        plan.profile.is_some() == (action is Proxy),
{
}

/// What the engine does with a response.
#[derive(Clone, Copy, Debug, PartialEq, Eq, Structural)]
pub enum ResponseRoute {
    /// Hand it back as it came.
    Raw,
    /// Decode it, let scripts be injected, and encode it again.
    Inject,
    /// Ask decision logic and show the result to the observers.
    Hook,
}

/// The route of a response: raw where its host is not intercepted or its
/// request left no scope, injection for HTML, the hook for the rest.
pub open spec fn response_route_of(allowed: bool, has_scope: bool, ctype: Seq<char>) -> ResponseRoute {
    if !allowed || !has_scope {
        ResponseRoute::Raw
    } else if starts_with(ctype, "text/html"@) {
        ResponseRoute::Inject
    } else {
        ResponseRoute::Hook
    }
}

/// Decides the route of a response.
pub fn route_response(allowed: bool, has_scope: bool, ctype: &str) -> (r: ResponseRoute)
    ensures
        r == response_route_of(allowed, has_scope, ctype@),
{
    if !allowed || !has_scope {
        return ResponseRoute::Raw;
    }
    let c = chars_of(ctype);
    if has_prefix(c.as_slice(), "text/html") {
        ResponseRoute::Inject
    } else {
        ResponseRoute::Hook
    }
}

/// A response whose scope got lost goes back as it came.
pub proof fn lemma_lost_scope_is_raw(allowed: bool, ctype: Seq<char>)
    ensures
        response_route_of(allowed, false, ctype) == ResponseRoute::Raw,
{
}

/// The character set that the second part of a content type names: what
/// follows its first eight characters, trimmed, or `utf-8` where that is
/// nothing.
pub open spec fn charset_of(second: Seq<char>) -> Seq<char> {
    if second.len() > 8 && trim_spec(second.skip(8)).len() > 0 {
        trim_spec(second.skip(8))
    } else {
        "utf-8"@
    }
}

/// Type and character set of a content type header: the type is what stands
/// before the first semicolon, the character set is taken from what stands
/// between the first and the second.
pub open spec fn content_type_parts(value: Seq<char>) -> (Seq<char>, Seq<char>) {
    let parts = split_spec(value, ';');
    (
        parts[0],
        charset_of(
            if parts.len() > 1 {
                trim_spec(parts[1])
            } else {
                Seq::<char>::empty()
            },
        ),
    )
}

/// Takes a content type header apart.
pub fn parse_content_type(value: &str) -> (r: (String, String))
    ensures
        (r.0@, r.1@) == content_type_parts(value@),
{
    let c = chars_of(value);
    let parts = split(c.as_slice(), ';');
    let ctype = string_of(parts[0].as_slice());
    assert(parts.deep_view()[0] == parts@[0]@);
    let second: Vec<char> = if parts.len() > 1 {
        assert(parts.deep_view()[1] == parts@[1]@);
        trim(parts[1].as_slice())
    } else {
        Vec::new()
    };
    let charset = if second.len() > 8 {
        let tail = copy_range(second.as_slice(), 8, second.len());
        assert(tail@ =~= second@.skip(8));
        let t = trim(tail.as_slice());
        if t.len() > 0 {
            string_of(t.as_slice())
        } else {
            "utf-8".to_owned()
        }
    } else {
        "utf-8".to_owned()
    };
    (ctype, charset)
}

/// The codings into which an HTML body is put again: those that it came in,
/// or gzip where it came in none.
pub open spec fn html_codings(given: Seq<Seq<char>>) -> Seq<Seq<char>> {
    if given.len() == 0 {
        seq!["gzip"@]
    } else {
        given
    }
}

/// The codings into which an HTML body is put again.
pub fn html_encodings(given: Vec<Vec<char>>) -> (r: Vec<Vec<char>>)
    ensures
        r.deep_view() == html_codings(given.deep_view()),
{
    if given.len() == 0 {
        let mut r: Vec<Vec<char>> = Vec::new();
        r.push(chars_of("gzip"));
        assert(r.deep_view() =~= seq!["gzip"@]) by {
            assert(r.deep_view().len() == 1);
            assert(r.deep_view()[0] == r@[0]@);
        }
        r
    } else {
        given
    }
}

/// Whether a referrer policy is replaced: an empty one, and one that begins
/// with `no-referrer`.
pub open spec fn weak_policy(policy: Seq<char>) -> bool {
    trim_spec(policy).len() == 0 || starts_with(trim_spec(policy), "no-referrer"@)
}

/// The headers of an HTML response before scripts are injected: the report
/// only policy goes, and a missing or weak referrer policy becomes `origin`.
pub open spec fn html_headers(h: HeaderSeq) -> HeaderSeq {
    let base = without(h, "content-security-policy-report-only"@);
    if weak_policy(text_or_empty(read_header(base, "referrer-policy"@))) {
        without(base, "referrer-policy"@).push(("referrer-policy"@, "origin"@))
    } else {
        base
    }
}

/// Prepares the headers of an HTML response for injection.
pub fn prepare_html_headers(headers: &mut JsHeaders)
    ensures
        final(headers)@ == html_headers(old(headers)@),
        final(headers).is_mut == old(headers).is_mut,
{
    proof {
        reveal_strlit("referrer-policy");
    }
    let _ = headers.take("content-security-policy-report-only");
    let policy = or_empty(headers.get("referrer-policy"));
    let p = trim(chars_of(policy.as_str()).as_slice());
    if p.len() == 0 || has_prefix(p.as_slice(), "no-referrer") {
        let _ = headers.take("referrer-policy");
        let ghost mid = headers@;
        headers.inner.push(
            Header { name: "referrer-policy".to_owned(), value: "origin".to_owned() },
        );
        assert(headers@ =~= mid.push(("referrer-policy"@, "origin"@)));
    }
}

/// Whether a text is an HTML document: after leading white space it begins
/// with `<!doctype html>`, in letters of either case.
pub open spec fn is_document(text: Seq<char>) -> bool {
    let t = trim_start_spec(text);
    t.len() >= 15 && lower(t.take(15)) == "<!doctype html>"@
}

/// Whether scripts are injected into a text.
pub fn is_html_document(text: &str) -> (r: bool)
    ensures
        r == is_document(text@),
{
    let c = chars_of(text);
    let mut a: usize = 0;
    while a < c.len() && is_whitespace(c[a])
        invariant
            a <= c.len(),
            forall|k: int| 0 <= k < a ==> is_space(#[trigger] c@[k]),
        decreases c.len() - a,
    {
        a += 1;
    }
    proof {
        lemma_trim_start_skip(c@, a as int);
        let s1 = c@.skip(a as int);
        assert(trim_start_spec(s1) == s1) by {
            if s1.len() > 0 {
                assert(s1[0] == c@[a as int]);
            }
        }
    }
    if c.len() - a < 15 {
        return false;
    }
    let head = copy_range(c.as_slice(), a, a + 15);
    assert(head@ =~= c@.skip(a as int).take(15));
    let low = to_lower(head.as_slice());
    is_text(low.as_slice(), "<!doctype html>")
}

/// To which side a message goes.
#[derive(Clone, Copy, Debug, PartialEq, Eq, Structural)]
pub enum Target {
    /// Back to the side it came from.
    Source,
    /// On to the other side.
    Destination,
}

/// What the engine does after a verdict on a message.
pub struct MessagePlan {
    pub msg: JsMessage,
    pub target: Target,
    /// How many milliseconds the message waits before it is sent.
    pub delay_ms: u64,
}

/// Whether `plan` is what the verdict `action` asks for: a delayed and a
/// released message go on to the other side, the first after its delay, and
/// a response goes back to where the message came from.
pub open spec fn is_message_plan_of(action: WsAction, plan: MessagePlan) -> bool {
    match action {
        WsAction::Ignore => false,
        WsAction::Delay(m, ms) => plan.msg == m && plan.target == Target::Destination
            && plan.delay_ms == ms,
        WsAction::Respond(m) => plan.msg == m && plan.target == Target::Source && plan.delay_ms
            == 0,
        WsAction::Release(m) => plan.msg == m && plan.target == Target::Destination
            && plan.delay_ms == 0,
    }
}

/// Turns a verdict on a message into what the engine does. Every message
/// with a verdict is shown to the observers. There is no plan for `Ignore`,
/// which decision logic never gives.
pub fn plan_message(action: WsAction) -> (r: MessagePlan)
    requires
        !(action is Ignore),
    ensures
        is_message_plan_of(action, r),
{
    match action {
        WsAction::Ignore => vstd::pervasive::unreached(),
        WsAction::Delay(m, ms) => MessagePlan { msg: m, target: Target::Destination, delay_ms: ms },
        WsAction::Respond(m) => MessagePlan { msg: m, target: Target::Source, delay_ms: 0 },
        WsAction::Release(m) => MessagePlan { msg: m, target: Target::Destination, delay_ms: 0 },
    }
}

/// Turns a verdict on a message into a plan, or `None` for `Ignore`.
pub fn try_plan_message(action: WsAction) -> (r: Option<MessagePlan>)
    ensures
        match r {
            Some(p) => is_message_plan_of(action, p),
            None => action is Ignore,
        },
{
    match action {
        WsAction::Ignore => None,
        other => Some(plan_message(other)),
    }
}

/// What the handler answers for a planned message, once its delay has
/// passed.
pub fn answer_of(plan: MessagePlan) -> (r: Answer<JsMessage, JsMessage>)
    ensures
        r == (match plan.target {
            Target::Source => Answer::<JsMessage, JsMessage>::Respond(plan.msg),
            Target::Destination => Answer::<JsMessage, JsMessage>::Release(plan.msg),
        }),
{
    match plan.target {
        Target::Source => Answer::Respond(plan.msg),
        Target::Destination => Answer::Release(plan.msg),
    }
}

/// A response to a message never reaches the other side, and a released or
/// delayed message never goes back.
pub proof fn lemma_respond_echoes(action: WsAction, plan: MessagePlan)
    requires
        is_message_plan_of(action, plan),
    ensures
        (plan.target == Target::Source) == (action is Respond),
        action is Delay ==> plan.delay_ms == action->Delay_1,
        !(action is Delay) ==> plan.delay_ms == 0,
{
}

/// The part of the engine that a request to its own pages is for.
#[derive(Clone, Copy, Debug, PartialEq, Eq, Structural)]
pub enum ServerRoute {
    Api,
    Web,
    Socket,
    Doc,
    Plugin,
    NotFound,
}

/// The route that the host of a request to the engine's own pages names by
/// what stands before the brand.
pub open spec fn server_route_of(host: Seq<char>) -> ServerRoute {
    if !ends_with(host, BRAND@) {
        ServerRoute::NotFound
    } else {
        let tag = host.take(host.len() - BRAND@.len());
        if tag == "api."@ {
            ServerRoute::Api
        } else if tag == "web."@ {
            ServerRoute::Web
        } else if tag == "socket."@ {
            ServerRoute::Socket
        } else if tag == "doc."@ {
            ServerRoute::Doc
        } else if ends_with(tag, ".plugin."@) {
            ServerRoute::Plugin
        } else {
            ServerRoute::NotFound
        }
    }
}

/// Decides which part of the engine a request to its own pages is for.
pub fn server_route(host: &str) -> (r: ServerRoute)
    ensures
        r == server_route_of(host@),
{
    let h = chars_of(host);
    let b = chars_of(BRAND);
    if !has_suffix(h.as_slice(), BRAND) {
        return ServerRoute::NotFound;
    }
    let tag = copy_range(h.as_slice(), 0, h.len() - b.len());
    assert(tag@ =~= host@.take(host@.len() - BRAND@.len()));
    if is_text(tag.as_slice(), "api.") {
        ServerRoute::Api
    } else if is_text(tag.as_slice(), "web.") {
        ServerRoute::Web
    } else if is_text(tag.as_slice(), "socket.") {
        ServerRoute::Socket
    } else if is_text(tag.as_slice(), "doc.") {
        ServerRoute::Doc
    } else if has_suffix(tag.as_slice(), ".plugin.") {
        ServerRoute::Plugin
    } else {
        ServerRoute::NotFound
    }
}

/// The first two parts of a path after its leading slash; the second one
/// holds all that follows the second slash.
pub open spec fn path_halves(path: Seq<char>) -> (Seq<char>, Seq<char>) {
    match split_once_spec(path, '/') {
        None => (Seq::empty(), Seq::empty()),
        Some((_, rest)) => match split_once_spec(rest, '/') {
            None => (rest, Seq::empty()),
            Some((a, b)) => (a, b),
        },
    }
}

/// Splits a path into its first part and the rest.
pub fn split_path(path: &str) -> (r: (String, String))
    ensures
        (r.0@, r.1@) == path_halves(path@),
{
    let c = chars_of(path);
    match split_once(c.as_slice(), '/') {
        None => (String::new(), String::new()),
        Some((_, rest)) => match split_once(rest.as_slice(), '/') {
            None => (string_of(rest.as_slice()), String::new()),
            Some((a, b)) => (string_of(a.as_slice()), string_of(b.as_slice())),
        },
    }
}

/// The line of script that tells a page its scope.
pub open spec fn scope_script(id: Seq<char>) -> Seq<char> {
    "self['CTHULHU_SCOPE_ID']='"@ + id + "'"@
}

/// The line of script that tells a page its scope.
pub fn scope_inject_js(id: &str) -> (r: String)
    ensures
        r@ == scope_script(id@),
{
    let mut v: Vec<char> = Vec::new();
    extend_str(&mut v, "self['CTHULHU_SCOPE_ID']='");
    extend_str(&mut v, id);
    extend_str(&mut v, "'");
    assert(v@ =~= scope_script(id@));
    string_of(v.as_slice())
}

/// The content type under which a file with the given extension is served.
pub open spec fn file_content_type(ext: Seq<char>) -> Seq<char> {
    if ext == "html"@ || ext == "htm"@ || ext == "xml"@ {
        "text/html"@
    } else if ext == "svg"@ {
        "image/svg+xml"@
    } else if ext == "txt"@ {
        "text/plain"@
    } else if ext == "css"@ {
        "text/css"@
    } else if ext == "js"@ {
        "application/javascript"@
    } else if ext == "json"@ {
        "application/json"@
    } else if ext == "png"@ || ext == "jpg"@ || ext == "jpeg"@ || ext == "gif"@ || ext == "webp"@
        || ext == "bmp"@ || ext == "tiff"@ || ext == "heif"@ {
        "image/"@ + ext
    } else {
        Seq::<char>::empty()
    }
}

/// The content type of a file by its extension.
pub fn content_type_of(ext: &str) -> (r: String)
    ensures
        r@ == file_content_type(ext@),
{
    let e = chars_of(ext);
    let s = e.as_slice();
    if is_text(s, "html") || is_text(s, "htm") || is_text(s, "xml") {
        "text/html".to_owned()
    } else if is_text(s, "svg") {
        "image/svg+xml".to_owned()
    } else if is_text(s, "txt") {
        "text/plain".to_owned()
    } else if is_text(s, "css") {
        "text/css".to_owned()
    } else if is_text(s, "js") {
        "application/javascript".to_owned()
    } else if is_text(s, "json") {
        "application/json".to_owned()
    } else if is_text(s, "png") || is_text(s, "jpg") || is_text(s, "jpeg") || is_text(s, "gif")
        || is_text(s, "webp") || is_text(s, "bmp") || is_text(s, "tiff") || is_text(s, "heif") {
        let mut v: Vec<char> = Vec::new();
        extend_str(&mut v, "image/");
        extend_chars(&mut v, s);
        assert(v@ =~= "image/"@ + ext@);
        string_of(v.as_slice())
    } else {
        String::new()
    }
}

/// The kinds of session that a page can open with the engine.
pub open spec fn is_session_type(t: Seq<char>) -> bool {
    t == "content"@ || t == "worker"@ || t == "serviceworker"@ || t == "sharedworker"@
}

/// The parts of a path between slashes of either kind that are not empty.
pub open spec fn segments(path: Seq<char>) -> Seq<Seq<char>> {
    non_empty(
        split_spec(
            Seq::new(path.len(), |i: int| if path[i] == '\\' { '/' } else { path[i] }),
            '/',
        ),
    )
}

/// The texts of a list that are not empty, in order.
pub open spec fn non_empty(s: Seq<Seq<char>>) -> Seq<Seq<char>>
    decreases s.len(),
{
    if s.len() == 0 {
        Seq::empty()
    } else if s.last().len() > 0 {
        non_empty(s.drop_last()).push(s.last())
    } else {
        non_empty(s.drop_last())
    }
}

/// Why a session could not be opened.
#[derive(Clone, Copy, Debug, PartialEq, Eq, Structural)]
pub enum SessionError {
    InvalidType,
    MissingId,
}

/// Kind and id of the session that a path names: its first two segments.
pub open spec fn session_of(path: Seq<char>) -> Result<(Seq<char>, Seq<char>), SessionError> {
    let s = segments(path);
    if s.len() == 0 || !is_session_type(s[0]) {
        Err(SessionError::InvalidType)
    } else if s.len() < 2 {
        Err(SessionError::MissingId)
    } else {
        Ok((s[0], s[1]))
    }
}

fn segments_of(path: &str) -> (r: Vec<Vec<char>>)
    ensures
        r.deep_view() == segments(path@),
{
    let c = chars_of(path);
    let mut flat: Vec<char> = Vec::new();
    let mut i: usize = 0;
    while i < c.len()
        invariant
            i <= c.len(),
            c@ == path@,
            flat@ == Seq::new(i as nat, |k: int| if path@[k] == '\\' { '/' } else { path@[k] }),
        decreases c.len() - i,
    {
        let ch = c[i];
        flat.push(if ch == '\\' { '/' } else { ch });
        assert(flat@ =~= Seq::new(
            (i + 1) as nat,
            |k: int| if path@[k] == '\\' { '/' } else { path@[k] },
        ));
        i += 1;
    }
    let parts = split(flat.as_slice(), '/');
    let ghost all = parts.deep_view();
    let mut out: Vec<Vec<char>> = Vec::new();
    let mut j: usize = 0;
    assert(all.take(0) =~= Seq::<Seq<char>>::empty());
    assert(out.deep_view() =~= non_empty(all.take(0)));
    while j < parts.len()
        invariant
            j <= parts.len(),
            all == parts.deep_view(),
            out.deep_view() == non_empty(all.take(j as int)),
        decreases parts.len() - j,
    {
        let ghost before = out.deep_view();
        let ghost next = all.take(j + 1);
        proof {
            assert(next.drop_last() =~= all.take(j as int));
            assert(next.last() == parts@[j as int]@);
        }
        if parts[j].len() > 0 {
            let piece = copy_range(parts[j].as_slice(), 0, parts[j].len());
            assert(piece@ =~= parts@[j as int]@);
            out.push(piece);
            assert(out.deep_view() =~= before.push(piece@)) by {
                assert forall|k: int| 0 <= k < out@.len() implies #[trigger] out.deep_view()[k]
                    == before.push(piece@)[k] by {}
            }
        }
        j += 1;
    }
    assert(all.take(all.len() as int) =~= all);
    out
}

/// Reads kind and id of a session from the path of its request.
pub fn parse_session(path: &str) -> (r: Result<(String, String), SessionError>)
    ensures
        match r {
            Ok((t, id)) => session_of(path@) == Ok::<(Seq<char>, Seq<char>), SessionError>(
                (t@, id@),
            ),
            Err(e) => session_of(path@) == Err::<(Seq<char>, Seq<char>), SessionError>(e),
        },
{
    let s = segments_of(path);
    if s.len() == 0 {
        return Err(SessionError::InvalidType);
    }
    assert(s.deep_view()[0] == s@[0]@);
    let first = s[0].as_slice();
    if !(is_text(first, "content") || is_text(first, "worker") || is_text(first, "serviceworker")
        || is_text(first, "sharedworker")) {
        return Err(SessionError::InvalidType);
    }
    if s.len() < 2 {
        return Err(SessionError::MissingId);
    }
    assert(s.deep_view()[1] == s@[1]@);
    Ok((string_of(first), string_of(s[1].as_slice())))
}

} // verus!
