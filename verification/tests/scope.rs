use cthulhu_server::handle::{
    parse_extra_scope, scope_from_origin, scope_key_from_request, ExtraScope, ScopeError,
};
use cthulhu_server::manager::ClientManager;
use cthulhu_server::message::{HttpAction, JsBody, JsHeaders, JsRequest, ProxyCfg};
use cthulhu_server::handle::{Outcome, ResponseRoute, Watch};
use cthulhu_server::net_proxy::{HttpContext, WebSocketContext};
use cthulhu_server::pipeline::{
    begin_message, begin_request, begin_response, client_ip, preflight_response, settle_request,
    RequestStart,
};
use cthulhu_server::scope::{describe, Scope};
use cthulhu_server::uri::JsUri;

fn scope(
    scheme: &str,
    host: &str,
    ua: &str,
    ip: &str,
    email: &str,
    custom: &str,
    window: i32,
    tab: i32,
    frame: i32,
) -> Scope {
    Scope::new(
        ip.to_string(),
        scheme.to_string(),
        host.to_string(),
        ua.to_string(),
        email.to_string(),
        custom.to_string(),
        window,
        tab,
        frame,
    )
}

#[test]
fn scope_ids_are_the_known_ones() {
    let s = scope("https", "example.com", "Mozilla/5.0", "127.0.0.1", "", "", 0, 0, 0);
    assert_eq!(s.id, "qszr9jrpx44pxzuw");
    let s = scope("https", "example.com", "Mozilla/5.0", "127.0.0.1", "a@b.c", "tag", 1, 2, 3);
    assert_eq!(s.id, "2vft061qc8uf3akq");
    let s = scope("", "", "", "", "", "", 0, 0, 0);
    assert_eq!(s.id, "0gwcs8mw8o4o4g0a");
    let s = scope("https", "example.com", "Mozilla/5.0", "127.0.0.1", "", "", 0, 0, -1);
    assert_eq!(s.id, "tnkiaif7r7l2srru");
}

#[test]
fn same_fields_give_the_same_id() {
    let a = scope("https", "example.com", "Mozilla/5.0", "127.0.0.1", "a@b.c", "tag", 1, 2, 3);
    let b = scope("https", "example.com", "Mozilla/5.0", "127.0.0.1", "a@b.c", "tag", 1, 2, 3);
    assert_eq!(a.id, b.id);
    assert_eq!(a, b);
    assert!(a.same(&b));
    assert_eq!(a.hash(), a.id);
    assert_eq!(a.copy(), a);
}

#[test]
fn a_change_of_any_field_changes_the_id() {
    let base = scope("https", "example.com", "Mozilla/5.0", "127.0.0.1", "", "", 0, 0, 0);
    let others = vec![
        scope("http", "example.com", "Mozilla/5.0", "127.0.0.1", "", "", 0, 0, 0),
        scope("https", "example.org", "Mozilla/5.0", "127.0.0.1", "", "", 0, 0, 0),
        scope("https", "example.com", "curl/8", "127.0.0.1", "", "", 0, 0, 0),
        scope("https", "example.com", "Mozilla/5.0", "127.0.0.2", "", "", 0, 0, 0),
        scope("https", "example.com", "Mozilla/5.0", "127.0.0.1", "e", "", 0, 0, 0),
        scope("https", "example.com", "Mozilla/5.0", "127.0.0.1", "", "c", 0, 0, 0),
        scope("https", "example.com", "Mozilla/5.0", "127.0.0.1", "", "", 1, 0, 0),
        scope("https", "example.com", "Mozilla/5.0", "127.0.0.1", "", "", 0, 1, 0),
        scope("https", "example.com", "Mozilla/5.0", "127.0.0.1", "", "", 0, 0, -1),
    ];
    let expected = [
        "0gwg3l1fceumquos",
        "99nntyu0pl3jv77v",
        "0qoktfnb1x7l51dj",
        "fpkmwagwc4c9ccqj",
        "g07evq9mo0vtdqfh",
        "solaxfakwcpvsqaq",
        "fpklxbhxd5daddrk",
        "fpklxeeua2a7aaoh",
        "tnkiaif7r7l2srru",
    ];
    for (o, e) in others.iter().zip(expected.iter()) {
        assert_eq!(&o.id, e);
        assert_ne!(o.id, base.id);
        assert!(!o.same(&base));
    }
}

#[test]
fn an_id_has_sixteen_digits_and_lower_case_letters() {
    let s = scope("https", "例え.jp", "ua", "::1", "", "", i32::MIN, i32::MAX, 7);
    assert_eq!(s.id.len(), 16);
    assert!(s.id.chars().all(|c| c.is_ascii_digit() || c.is_ascii_lowercase()));
}

#[derive(Debug)]
#[allow(dead_code)]
struct Mirror {
    id: String,
    ip: String,
    scheme: String,
    host: String,
    ua: String,
    email: String,
    custom: String,
    window: i32,
    tab: i32,
    frame: i32,
}

fn mirror(s: &Scope) -> String {
    let m = Mirror {
        id: s.id.clone(),
        ip: s.ip.clone(),
        scheme: s.scheme.clone(),
        host: s.host.clone(),
        ua: s.ua.clone(),
        email: s.email.clone(),
        custom: s.custom.clone(),
        window: s.window,
        tab: s.tab,
        frame: s.frame,
    };
    format!("{:?}", m).replacen("Mirror", "Scope", 1)
}

#[test]
fn a_scope_is_shown_with_its_fields() {
    let s = scope("https", "example.com", "Mozilla/5.0", "127.0.0.1", "a@b.c", "tag", 1, -2, 3);
    assert_eq!(
        s.to_string(),
        "Scope { id: \"2vft061qc8uf3akq\", ip: \"127.0.0.1\", scheme: \"https\", host: \"example.com\", ua: \"Mozilla/5.0\", email: \"a@b.c\", custom: \"tag\", window: 1, tab: -2, frame: 3 }"
            .replace("2vft061qc8uf3akq", &s.id)
    );
    assert_eq!(s.to_string(), mirror(&s));
    assert_eq!(s.to_string(), format!("{:?}", s));
}

#[test]
fn texts_are_quoted_when_a_scope_is_shown() {
    let s = scope("https", "a\"b", "tab\there", "1.1.1.1", "line\nbreak", "back\\slash", 0, 0, 0);
    assert_eq!(s.to_string(), mirror(&s));
    assert!(s.to_string().contains("a\\\"b"));
}

#[test]
fn describe_puts_the_fields_in_order() {
    assert_eq!(
        describe("I", "P", "S", "H", "U", "E", "C", 1, 2, 3),
        "Scope { id: I, ip: P, scheme: S, host: H, ua: U, email: E, custom: C, window: 1, tab: 2, frame: 3 }"
    );
}

fn request(uri: &str, headers: &[(&str, &str)]) -> JsRequest {
    let mut h = JsHeaders::new();
    for (k, v) in headers {
        h.append(k, v);
    }
    JsRequest::new("GET".to_string(), JsUri::new(uri).unwrap(), h, JsBody::empty()).unwrap()
}

#[test]
fn a_request_without_a_source_is_its_own_scope() {
    let mut req = request("https://example.com/index.html", &[("User-Agent", "Mozilla/5.0")]);
    let s = scope_key_from_request("127.0.0.1", &mut req).unwrap();
    assert_eq!(s.scheme, "https");
    assert_eq!(s.host, "example.com");
    assert_eq!(s.ua, "Mozilla/5.0");
    assert_eq!(s.ip, "127.0.0.1");
    assert_eq!(s.email, "");
    assert_eq!((s.window, s.tab, s.frame), (0, 0, 0));
    assert_eq!(s.id, "qszr9jrpx44pxzuw");
}

#[test]
fn origin_goes_before_referer() {
    let mut req = request(
        "https://cdn.example.net/lib.js",
        &[
            ("referer", "http://referer.example/page"),
            ("origin", "https://origin.example"),
            ("user-agent", "ua"),
        ],
    );
    let s = scope_key_from_request("10.0.0.1", &mut req).unwrap();
    assert_eq!(s.scheme, "https");
    assert_eq!(s.host, "origin.example");
    let mut req = request(
        "https://cdn.example.net/lib.js",
        &[("referer", "http://referer.example/page")],
    );
    let s = scope_key_from_request("10.0.0.1", &mut req).unwrap();
    assert_eq!(s.scheme, "http");
    assert_eq!(s.host, "referer.example");
    assert_eq!(s.ua, "");
}

#[test]
fn the_identity_header_is_read_and_taken_out() {
    let mut req = request(
        "https://example.com/",
        &[
            ("accept", "*/*"),
            ("Cthulhu-Extra-Scope", "email = a@b.c ; custom=tag;window=1;tab= 2 ;frame=x"),
            ("user-agent", "Mozilla/5.0"),
        ],
    );
    let s = scope_key_from_request("127.0.0.1", &mut req).unwrap();
    assert_eq!(s.email, "a@b.c");
    assert_eq!(s.custom, "tag");
    assert_eq!((s.window, s.tab, s.frame), (1, 2, 0));
    assert!(req.headers.get("cthulhu-extra-scope").is_none());
    assert_eq!(req.headers.get("accept").unwrap(), "*/*");
    assert_eq!(req.headers.inner.len(), 2);
}

#[test]
fn an_unknown_key_fails_the_resolution() {
    let mut req = request("https://example.com/", &[("cthulhu-extra-scope", "email=a;colour=red")]);
    let e = scope_key_from_request("127.0.0.1", &mut req).unwrap_err();
    assert_eq!(e, ScopeError::InvalidExtraScope);
    assert_eq!(e.message(), "value of header 'cthulhu-extra-scope' invalid");
    assert!(req.headers.get("cthulhu-extra-scope").is_none());
    for bad in ["", "email", "email=a;", ";email=a", "=x"] {
        assert_eq!(parse_extra_scope(bad).err(), Some(ScopeError::InvalidExtraScope), "{bad:?}");
    }
}

#[test]
fn a_source_that_is_no_address_fails_the_resolution() {
    let mut req = request("https://example.com/", &[("origin", "not an address")]);
    assert_eq!(scope_key_from_request("127.0.0.1", &mut req).unwrap_err(), ScopeError::InvalidOrigin);
    assert_eq!(
        ScopeError::InvalidOrigin.message(),
        "Origin 或 Referrer uri地址解析错误，代理服务器无法辨识来源"
    );
}

#[test]
fn numbers_of_the_identity_header() {
    let x = parse_extra_scope("window=-5;tab=+7;frame=2147483647").unwrap();
    assert_eq!((x.window, x.tab, x.frame), (-5, 7, i32::MAX));
    let x = parse_extra_scope("window=2147483648;tab=1.5;frame=-2147483648").unwrap();
    assert_eq!((x.window, x.tab, x.frame), (0, 0, i32::MIN));
    let x = parse_extra_scope("email=a=b;email=c").unwrap();
    assert_eq!(x.email, "c");
    let x = parse_extra_scope("custom=a=b").unwrap();
    assert_eq!(x.custom, "a=b");
}

#[test]
fn scope_from_origin_takes_what_the_parser_found() {
    let uri = JsUri::new("http://own.example/x").unwrap();
    let extra = || ExtraScope {
        email: String::new(),
        custom: String::new(),
        window: 0,
        tab: 0,
        frame: 0,
    };
    let s = scope_from_origin("1.2.3.4", "ua".to_string(), extra(), &uri, None).unwrap();
    assert_eq!((s.scheme.as_str(), s.host.as_str()), ("http", "own.example"));
    let e = scope_from_origin("1.2.3.4", "ua".to_string(), extra(), &uri, Some(None));
    assert_eq!(e.unwrap_err(), ScopeError::InvalidOrigin);
}

#[test]
fn a_request_is_begun_settled_and_answered_on_the_tables() {
    use_pipeline();
}

fn use_pipeline() {
    assert_eq!(client_ip("1.2.3.4:5678"), "1.2.3.4");
    assert_eq!(client_ip("[::1]:5678"), "::1");
    assert_eq!(client_ip("[fe80::1%eth0]:1"), "fe80::1%eth0");
    assert_eq!(client_ip("localhost"), "localhost");
    assert_eq!(client_ip(""), "");
    assert_eq!(client_ip("[2001:db8::1]:8080"), "2001:db8::1");
    assert_eq!(client_ip("10.1.2.3:65535"), "10.1.2.3");

    let mut m: ClientManager<u8> = ClientManager::new();
    let ctx = HttpContext { client_addr: "10.0.0.7:50000".into(), uri: "https://example.com/x".into() };

    let mut req = request("https://example.com/x", &[("cthulhu-extra-scope", "tab=3"), ("user-agent", "ua")]);
    assert!(matches!(begin_request(&mut m, &ctx, "example.com", &mut req, false), RequestStart::Bypass));
    assert!(req.headers.get("cthulhu-extra-scope").is_none());
    assert_eq!(m.ctx_map_scope_keys.len(), 0);

    let mut connect = request("https://example.com/x", &[("cthulhu-extra-scope", "tab=3")]);
    connect.method = "CONNECT".into();
    assert!(matches!(begin_request(&mut m, &ctx, "example.com", &mut connect, true), RequestStart::Tunnel));
    assert!(connect.headers.inner.is_empty());

    let mut options = request("https://example.com/x", &[("cthulhu-extra-scope", "tab=3")]);
    options.method = "OPTIONS".into();
    match begin_request(&mut m, &ctx, "example.com", &mut options, true) {
        RequestStart::Preflight(res) => {
            assert_eq!(res.status, 200);
            assert_eq!(res.headers.get("access-control-allow-origin"), Some("*".into()));
            assert_eq!(res.headers.inner.len(), preflight_response().headers.inner.len());
        }
        _ => panic!("a preflight was not answered"),
    }
    assert_eq!(options.headers.inner.len(), 1);

    let mut own = request("https://api.cthulhu.server/x", &[]);
    assert!(matches!(begin_request(&mut m, &ctx, "api.cthulhu.server", &mut own, true), RequestStart::Internal));

    let mut bad = request("https://example.com/x", &[("cthulhu-extra-scope", "nonsense")]);
    match begin_request(&mut m, &ctx, "example.com", &mut bad, true) {
        RequestStart::Refused(res) => {
            assert_eq!(res.status, 500);
            assert_eq!(res.body.inner, b"value of header 'cthulhu-extra-scope' invalid");
        }
        _ => panic!("a malformed identity was let through"),
    }
    assert_eq!((m.ctx_map_scope_keys.len(), m.scope_keys.len()), (0, 0));

    let mut req = request("https://example.com/x", &[("cthulhu-extra-scope", "tab=3"), ("user-agent", "ua")]);
    let scope = match begin_request(&mut m, &ctx, "example.com", &mut req, true) {
        RequestStart::Ask(s) => s,
        _ => panic!("decision logic was not asked"),
    };
    assert_eq!((scope.ip.as_str(), scope.host.as_str(), scope.tab), ("10.0.0.7", "example.com", 3));
    assert!(req.headers.get("cthulhu-extra-scope").is_none());
    assert_eq!(m.scope_by_id(&scope.id), Some(&scope));
    assert_eq!(m.find_scope(ctx.client_addr.clone(), ctx.uri.clone()), Some(scope.copy()));

    let plan = settle_request(&mut m, &scope, HttpAction::Reject);
    assert!(matches!(plan.outcome, Outcome::Respond(_)));
    assert_eq!(plan.watch, Watch::Nothing);
    assert!(m.proxy_of(&scope).is_none());
    let cfg = ProxyCfg { ja3: 9, h2: 0, proxy: None };
    let plan = settle_request(&mut m, &scope, HttpAction::Proxy(req, cfg));
    assert!(matches!(plan.outcome, Outcome::Forward(_)));
    assert_eq!(m.proxy_of(&scope).unwrap().ja3, 9);

    let up = WebSocketContext::ClientToServer { src: ctx.client_addr.clone(), dst: ctx.uri.clone() };
    let down = WebSocketContext::ServerToClient { src: ctx.uri.clone(), dst: ctx.client_addr.clone() };
    assert_eq!(begin_message(&m, &up, true), Some(scope.copy()));
    assert_eq!(begin_message(&m, &down, true), Some(scope.copy()));
    assert_eq!(begin_message(&m, &up, false), None);

    let (route, none) = begin_response(&mut m, &ctx, false, "text/html");
    assert_eq!((route, none), (ResponseRoute::Raw, None));
    let (route, found) = begin_response(&mut m, &ctx, true, "application/json");
    assert_eq!((route, found), (ResponseRoute::Hook, Some(scope.copy())));
    let (route, gone) = begin_response(&mut m, &ctx, true, "application/json");
    assert_eq!((route, gone), (ResponseRoute::Raw, None));
    assert_eq!(begin_message(&m, &up, true), None);
    m.remember_scope(ctx.client_addr.clone(), ctx.uri.clone(), scope.copy());
    let (route, found) = begin_response(&mut m, &ctx, true, "text/html; charset=utf-8");
    assert_eq!((route, found.is_some()), (ResponseRoute::Inject, true));
}
