use cthulhu_server::gateway::{message_verdict, request_verdict, response_verdict, Server, Verdict};
use cthulhu_server::handle::{
    answer_of, app_filter, content_type_of, host_filter, html_encodings, is_html_document,
    parse_content_type, parse_session, plan_message, plan_request, prepare_html_headers,
    response_content, route_request, route_response, scope_inject_js, server_route, split_path,
    try_plan_message, Outcome, RequestRoute, ResponseRoute, ServerRoute, SessionError, Target,
    Watch, BRAND, EXTRA_SCOPE,
};
use cthulhu_server::manager::{
    select_plugins, AsyncTaskManager, ClientManager, PluginCtx, PluginManager, SWEEP_SECS,
};
use cthulhu_server::message::{
    HttpAction, JsBody, JsHeaders, JsHttpAction, JsRequest, JsResponse, ProxyCfg,
};
use cthulhu_server::model::{HostList, Plugin};
use cthulhu_server::net_proxy::Answer;
use cthulhu_server::scope::Scope;
use cthulhu_server::uri::JsUri;
use cthulhu_server::web::{
    check_config_value, is_log_level, is_own_worker, is_worker_request, log_window, names_a_file,
    normal_path, plugin_id, plugin_route, query_pairs, stays_inside, stored_priority,
    strip_cache_headers, ConfigEffect, ConfigError, PluginRoute, ValueFacts, LOG_PAGE,
};
use cthulhu_server::ws::{JsMessage, JsWsAction, Message, WsAction};

fn request() -> JsRequest {
    let mut h = JsHeaders::new();
    h.append("accept", "*/*");
    JsRequest::new(
        "GET".to_string(),
        JsUri::new("https://example.com/x?y=1").unwrap(),
        h,
        JsBody::bytes(b"body".to_vec()),
    )
    .unwrap()
}

fn response() -> JsResponse {
    JsResponse::new(201, JsHeaders::new(), JsBody::bytes(b"made".to_vec())).unwrap()
}

fn scope() -> Scope {
    Scope::new(
        "127.0.0.1".into(),
        "https".into(),
        "example.com".into(),
        "ua".into(),
        "".into(),
        "".into(),
        0,
        0,
        0,
    )
}

#[test]
fn reject_answers_at_once_and_calls_nobody() {
    let plan = plan_request(HttpAction::Reject);
    assert_eq!(plan.watch, Watch::Nothing);
    assert_eq!(plan.delay_ms, 0);
    assert!(plan.profile.is_none());
    match plan.outcome {
        Outcome::Respond(res) => {
            assert_eq!(res.status, 500);
            assert_eq!(res.body.inner, b"<server rejected>");
            assert_eq!(res.headers.get("content-type").unwrap(), "text/plain;charset=utf8");
        }
        Outcome::Forward(_) => panic!("a rejected request went upstream"),
    }
}

#[test]
fn delay_forwards_after_its_milliseconds() {
    let plan = plan_request(HttpAction::Delay(request(), 1500));
    assert_eq!(plan.delay_ms, 1500);
    assert_eq!(plan.watch, Watch::Request);
    assert!(plan.profile.is_none());
    match plan.outcome {
        Outcome::Forward(req) => assert_eq!(req.body.inner, b"body"),
        Outcome::Respond(_) => panic!("a delayed request was answered"),
    }
}

#[test]
fn proxy_records_the_way_out() {
    let cfg = ProxyCfg { ja3: 7, h2: 0, proxy: Some("http://127.0.0.1:8080".to_string()) };
    let plan = plan_request(HttpAction::Proxy(request(), cfg));
    assert_eq!(plan.watch, Watch::Request);
    assert_eq!(plan.delay_ms, 0);
    let p = plan.profile.unwrap();
    assert_eq!((p.ja3, p.h2, p.proxy.as_deref()), (7, 0, Some("http://127.0.0.1:8080")));
    assert!(matches!(plan.outcome, Outcome::Forward(_)));
}

#[test]
fn release_forwards_and_respond_answers() {
    let plan = plan_request(HttpAction::Release(request()));
    assert_eq!((plan.watch, plan.delay_ms), (Watch::Request, 0));
    assert!(plan.profile.is_none());
    assert!(matches!(plan.outcome, Outcome::Forward(_)));
    let plan = plan_request(HttpAction::Respond(response()));
    assert_eq!((plan.watch, plan.delay_ms), (Watch::Response, 0));
    match plan.outcome {
        Outcome::Respond(res) => assert_eq!((res.status, res.body.inner), (201, b"made".to_vec())),
        Outcome::Forward(_) => panic!("an answered request went upstream"),
    }
}

#[test]
fn verdicts_are_named() {
    assert_eq!(JsHttpAction::reject().name(), "reject");
    assert_eq!(JsHttpAction::release(request()).name(), "release");
    assert_eq!(JsHttpAction::respond(response()).name(), "respond");
    assert_eq!(JsHttpAction::delay(request(), 1).name(), "delay");
    let cfg = ProxyCfg { ja3: 1, h2: 0, proxy: None };
    assert_eq!(JsHttpAction::proxy(request(), Some(cfg)).name(), "proxy");
    assert_eq!(JsHttpAction::proxy(request(), Some(ProxyCfg::default())).name(), "release");
    assert_eq!(JsHttpAction::proxy(request(), None).name(), "release");
}

#[test]
fn requests_are_routed_before_decision_logic() {
    assert_eq!(route_request("CONNECT", "example.com", true), RequestRoute::Tunnel);
    assert_eq!(route_request("CONNECT", "api.cthulhu.server", false), RequestRoute::Tunnel);
    assert_eq!(route_request("OPTIONS", "example.com", true), RequestRoute::Preflight);
    assert_eq!(route_request("GET", "api.cthulhu.server", true), RequestRoute::Internal);
    assert_eq!(route_request("GET", "cthulhu.server", false), RequestRoute::Internal);
    assert_eq!(route_request("GET", "example.com", false), RequestRoute::Bypass);
    assert_eq!(route_request("GET", "example.com", true), RequestRoute::Intercept);
    assert_eq!(route_request("connect", "example.com", true), RequestRoute::Intercept);
    assert_eq!(BRAND, "cthulhu.server");
    assert_eq!(EXTRA_SCOPE, "cthulhu-extra-scope");
}

#[test]
fn responses_are_routed() {
    assert_eq!(route_response(false, true, "text/html"), ResponseRoute::Raw);
    assert_eq!(route_response(true, false, "text/html"), ResponseRoute::Raw);
    assert_eq!(route_response(true, true, "text/html"), ResponseRoute::Inject);
    assert_eq!(route_response(true, true, "text/html5"), ResponseRoute::Inject);
    assert_eq!(route_response(true, true, "application/json"), ResponseRoute::Hook);
    assert_eq!(route_response(true, true, ""), ResponseRoute::Hook);
}

#[test]
fn content_types_are_taken_apart() {
    let p = |s: &str| parse_content_type(s);
    assert_eq!(p("text/html; charset=GBK"), ("text/html".to_string(), "GBK".to_string()));
    assert_eq!(p("text/html"), ("text/html".to_string(), "utf-8".to_string()));
    assert_eq!(p(""), ("".to_string(), "utf-8".to_string()));
    assert_eq!(p("text/html;charset="), ("text/html".to_string(), "utf-8".to_string()));
    assert_eq!(p("text/html;charset= "), ("text/html".to_string(), "utf-8".to_string()));
    assert_eq!(p("text/html;  charset=utf-16 ; x=y"), ("text/html".to_string(), "utf-16".to_string()));
    assert_eq!(p("a/b;boundary=xyz"), ("a/b".to_string(), "=xyz".to_string()));
    assert_eq!(p("a/b ;c"), ("a/b ".to_string(), "utf-8".to_string()));
}

#[test]
fn html_is_put_into_its_codings_again_or_into_gzip() {
    let gzip: Vec<Vec<char>> = vec!["gzip".chars().collect()];
    assert_eq!(html_encodings(Vec::new()), gzip);
    let br: Vec<Vec<char>> = vec!["br".chars().collect(), "zstd".chars().collect()];
    assert_eq!(html_encodings(br.clone()), br);
}

fn header_list(h: &JsHeaders) -> Vec<(String, String)> {
    h.inner.iter().map(|x| (x.name.clone(), x.value.clone())).collect()
}

#[test]
fn html_headers_lose_the_report_policy_and_weak_referrer_policies() {
    let mut h = JsHeaders::new();
    h.append("content-security-policy-report-only", "default-src 'none'");
    h.append("referrer-policy", " no-referrer-when-downgrade");
    h.append("x", "y");
    prepare_html_headers(&mut h);
    assert_eq!(
        header_list(&h),
        vec![("x".into(), "y".into()), ("referrer-policy".into(), "origin".into())]
    );
    let mut h = JsHeaders::new();
    h.append("referrer-policy", "same-origin");
    prepare_html_headers(&mut h);
    assert_eq!(header_list(&h), vec![("referrer-policy".into(), "same-origin".into())]);
    let mut h = JsHeaders::new();
    prepare_html_headers(&mut h);
    assert_eq!(header_list(&h), vec![("referrer-policy".into(), "origin".into())]);
}

#[test]
fn documents_begin_with_a_doctype() {
    assert!(is_html_document("<!DOCTYPE html><html></html>"));
    assert!(is_html_document("  \n\t<!doctype HTML>"));
    assert!(!is_html_document("<html></html>"));
    assert!(!is_html_document(""));
    assert!(!is_html_document("<!doctype htm"));
    assert!(!is_html_document("{\"json\": true} <!doctype html>"));
}

#[test]
fn messages_go_where_the_verdict_says() {
    let m = |s: &str| JsMessage::text(s.to_string());
    let plan = plan_message(WsAction::Release(m("a")));
    assert_eq!((plan.target, plan.delay_ms), (Target::Destination, 0));
    assert!(matches!(answer_of(plan), Answer::Release(JsMessage { msg: Message::Text(t) }) if t == "a"));
    let plan = plan_message(WsAction::Respond(m("b")));
    assert_eq!((plan.target, plan.delay_ms), (Target::Source, 0));
    assert!(matches!(answer_of(plan), Answer::Respond(JsMessage { msg: Message::Text(t) }) if t == "b"));
    let plan = plan_message(WsAction::Delay(m("c"), 250));
    assert_eq!((plan.target, plan.delay_ms), (Target::Destination, 250));
    assert!(matches!(answer_of(plan), Answer::Release(_)));
    assert!(try_plan_message(WsAction::Ignore).is_none());
    assert!(try_plan_message(WsAction::Release(m("d"))).is_some());
}

#[test]
fn a_failing_plugin_lets_traffic_through() {
    let v = request_verdict(Verdict::Failed, request());
    assert_eq!(v.name(), "release");
    let v = request_verdict(Verdict::NoHook, request());
    assert!(matches!(v.action, HttpAction::Release(r) if r.body.inner == b"body"));
    let v = request_verdict(Verdict::Given(JsHttpAction::reject()), request());
    assert_eq!(v.name(), "reject");
    let r = response_verdict(Verdict::Failed, response());
    assert_eq!(r.status, 201);
    let r = response_verdict(Verdict::Given(response_content(404, "gone")), response());
    assert_eq!(r.status, 404);
    let w = message_verdict(Verdict::Failed, JsMessage::binary(vec![1, 2]));
    assert_eq!(w.name(), "release");
    let w = message_verdict(Verdict::Given(JsWsAction::respond(JsMessage::binary(vec![3]))), JsMessage::binary(vec![1]));
    assert_eq!(w.name(), "respond");
}

#[test]
fn a_plugin_without_hooks_releases() {
    let s = Server::new("p1".into());
    assert_eq!(s.on_request(request(), &scope()).name(), "release");
    assert_eq!(s.on_response(response(), &scope()).status, 201);
    assert_eq!(s.on_message(JsMessage::text("m".into()), &scope()).name(), "release");
    assert_eq!(s.dynamic_script("link", &scope()), "//dynamic_script");
}

fn list(enabled: bool, hosts: &[&str]) -> HostList {
    HostList { enabled, list: hosts.iter().map(|s| s.to_string()).collect() }
}

#[test]
fn refused_hosts_are_not_intercepted() {
    let black = list(true, &["*.bank.example", "localhost"]);
    let white = list(true, &["only.example"]);
    assert!(!app_filter("www.bank.example", Some(&black), Some(&white)));
    assert!(!app_filter("localhost", Some(&black), None));
    assert!(app_filter("shop.example", Some(&black), Some(&white)));
    assert!(app_filter("www.bank.example", Some(&list(false, &["*.bank.example"])), None));
    assert!(app_filter("anything", None, None));
    assert!(app_filter("other.example", None, Some(&white)));
    assert!(host_filter("a", &vec!["b".to_string()], true));
    assert!(host_filter("a", &vec!["a".to_string()], true));
    assert!(!host_filter("a", &vec!["b".to_string(), "?".to_string()], false));
    assert!(host_filter("a", &vec![], false));
}

fn plugin(id: &str, matches: &str, monitor: i64, modify: i64, installed: i64) -> Plugin {
    Plugin {
        id: id.to_string(),
        name: id.to_string(),
        version: "0.0.1".to_string(),
        intro: String::new(),
        logo_path: String::new(),
        web_root: String::new(),
        web_index: String::new(),
        path: "/plugins".to_string(),
        server_path: "server.js".to_string(),
        worker_path: String::new(),
        content_paths: String::new(),
        dynamic_links: String::new(),
        matches: matches.to_string(),
        net_monitor: monitor,
        net_modify: modify,
        enable: 1,
        install_time: installed,
    }
}

#[test]
fn the_lowest_priority_and_the_earliest_installation_win() {
    let a = plugin("a", "", 0, 5, 10);
    let b = plugin("b", "", 0, 1, 20);
    let c = plugin("c", "", 0, 1, 30);
    let sel = select_plugins(&vec![&a, &b, &c], "example.com");
    assert_eq!(sel.modify, Some(1));
    assert_eq!(sel.all, vec![0, 1, 2]);
    assert!(sel.monitors.is_empty());
    let sel = select_plugins(&vec![&c, &a, &b], "example.com");
    assert_eq!(sel.modify, Some(2));
    let sel = select_plugins(&vec![&b, &b, &b], "example.com");
    assert_eq!(sel.modify, Some(0));
}

#[test]
fn plugins_are_picked_by_host_and_permission() {
    let watcher = plugin("w", "*.example.com,other.org", 1, 0, 1);
    let changer = plugin("c", "www.example.com", 0, 3, 2);
    let both = plugin("b", "", 1, 1, 3);
    let mut idle = plugin("i", "", 1, 1, 0);
    idle.server_path = String::new();
    let elsewhere = plugin("e", "elsewhere.net", 1, 1, 0);
    let ps = vec![&watcher, &changer, &both, &idle, &elsewhere];
    let sel = select_plugins(&ps, "www.example.com");
    assert_eq!(sel.all, vec![0, 1, 2]);
    assert_eq!(sel.monitors, vec![0, 2]);
    assert_eq!(sel.modify, Some(2));
    let sel = select_plugins(&ps, "other.org");
    assert_eq!((sel.all, sel.monitors, sel.modify), (vec![0, 2], vec![0, 2], Some(2)));
    let sel = select_plugins(&vec![&watcher, &idle], "www.example.com");
    assert_eq!(sel.modify, None);
    let sel = select_plugins(&Vec::new(), "www.example.com");
    assert_eq!((sel.all.len(), sel.modify), (0, None));
}

#[test]
fn the_plugin_manager_keeps_one_plugin_per_id() {
    let mut m: PluginManager<u8> = PluginManager::new();
    m.set_ctx(PluginCtx { plugin: plugin("a", "", 0, 5, 10), ctx: Some(1) });
    m.set_ctx(PluginCtx { plugin: plugin("b", "", 1, 1, 20), ctx: Some(2) });
    m.set_ctx(PluginCtx { plugin: plugin("a", "", 0, 1, 5), ctx: Some(3) });
    assert_eq!(m.ctxs.len(), 2);
    assert_eq!(m.get_ctx(&"a".to_string()).unwrap().ctx, Some(3));
    let sel = m.ctxs_by_host("example.com");
    assert_eq!(sel.all, vec![0, 1]);
    assert_eq!(sel.monitors, vec![1]);
    assert_eq!(sel.modify, Some(0));
    assert_eq!(m.ctxs.entries[0].value.plugin.id, "a");
    assert!(m.del_ctx(&"a".to_string()).is_some());
    assert!(m.del_ctx(&"a".to_string()).is_none());
    assert!(m.get_ctx(&"a".to_string()).is_none());
    assert_eq!(m.ctxs_by_host("example.com").modify, Some(0));
}

#[test]
fn the_tables_find_a_scope_again() {
    let mut m: ClientManager<u32> = ClientManager::new();
    let s = scope();
    m.set_scope_key(s.copy());
    m.set_scope_key(s.copy());
    assert_eq!(m.scope_keys.len(), 1);
    assert_eq!(m.scope_by_id(&s.id).unwrap(), &s);
    assert!(m.scope_by_id(&"missing".to_string()).is_none());

    m.remember_scope("1.1.1.1:5000".into(), "https://example.com/x".into(), s.copy());
    assert_eq!(m.find_scope("1.1.1.1:5000".into(), "https://example.com/x".into()), Some(s.copy()));
    assert_eq!(m.find_scope("1.1.1.1:5000".into(), "https://example.com/x".into()), Some(s.copy()));
    assert!(m.find_scope("1.1.1.1:5001".into(), "https://example.com/x".into()).is_none());
    assert_eq!(m.take_scope("1.1.1.1:5000".into(), "https://example.com/x".into()), Some(s.copy()));
    assert!(m.take_scope("1.1.1.1:5000".into(), "https://example.com/x".into()).is_none());

    m.set_proxy(s.copy(), ProxyCfg { ja3: 3, h2: 4, proxy: None });
    m.set_proxy(s.copy(), ProxyCfg { ja3: 5, h2: 6, proxy: None });
    assert_eq!(m.proxy_datas.len(), 1);
    assert_eq!(m.proxy_of(&s).unwrap().ja3, 5);

    m.add_session_sink(s.copy(), "s1".into(), 11);
    m.add_session_sink(s.copy(), "s2".into(), 12);
    m.add_session_sink(s.copy(), "s1".into(), 13);
    assert_eq!(m.sessions.get(&s).unwrap(), &vec!["s1".to_string(), "s2".to_string()]);
    assert_eq!(m.sinks.get(&"s1".to_string()), Some(&13));
    assert_eq!(m.close_sink(&"s1".to_string()), Some(13));
    assert_eq!(m.close_sink(&"s1".to_string()), None);
    assert_eq!(m.sinks.len(), 1);
}

#[test]
fn finished_observers_are_swept() {
    let mut t: AsyncTaskManager<&str> = AsyncTaskManager::new();
    for name in ["a", "b", "c", "d"] {
        t.spawn(name);
    }
    assert_eq!(t.len(), 4);
    t.sweep(&vec![false, true, false, true]);
    assert_eq!(t.tasks, vec!["a", "c"]);
    t.sweep(&vec![false, false]);
    assert_eq!(t.tasks, vec!["a", "c"]);
    t.sweep(&vec![true]);
    assert_eq!(t.tasks, vec!["c"]);
    t.spawn("e");
    assert_eq!(t.join_all(), vec!["c", "e"]);
    assert_eq!(t.len(), 0);
    assert_eq!(SWEEP_SECS, 60);
}

#[test]
fn the_engines_own_hosts_are_told_apart() {
    assert_eq!(server_route("api.cthulhu.server"), ServerRoute::Api);
    assert_eq!(server_route("web.cthulhu.server"), ServerRoute::Web);
    assert_eq!(server_route("socket.cthulhu.server"), ServerRoute::Socket);
    assert_eq!(server_route("doc.cthulhu.server"), ServerRoute::Doc);
    assert_eq!(server_route("abc123.plugin.cthulhu.server"), ServerRoute::Plugin);
    assert_eq!(server_route("cthulhu.server"), ServerRoute::NotFound);
    assert_eq!(server_route("xapi.cthulhu.server"), ServerRoute::NotFound);
    assert_eq!(server_route("example.com"), ServerRoute::NotFound);
}

#[test]
fn paths_and_sessions_are_taken_apart() {
    assert_eq!(split_path("/dynamic/link/x"), ("dynamic".to_string(), "link/x".to_string()));
    assert_eq!(split_path("/ask"), ("ask".to_string(), "".to_string()));
    assert_eq!(split_path("ask"), ("".to_string(), "".to_string()));
    assert_eq!(split_path("/"), ("".to_string(), "".to_string()));
    assert_eq!(parse_session("/content/abc"), Ok(("content".to_string(), "abc".to_string())));
    assert_eq!(parse_session("\\worker\\\\id/more"), Ok(("worker".to_string(), "id".to_string())));
    assert_eq!(parse_session("/serviceworker/1"), Ok(("serviceworker".to_string(), "1".to_string())));
    assert_eq!(parse_session("/sharedworker/1"), Ok(("sharedworker".to_string(), "1".to_string())));
    assert_eq!(parse_session("/content/"), Err(SessionError::MissingId));
    assert_eq!(parse_session("/page/abc"), Err(SessionError::InvalidType));
    assert_eq!(parse_session(""), Err(SessionError::InvalidType));
}

#[test]
fn files_have_content_types() {
    assert_eq!(content_type_of("html"), "text/html");
    assert_eq!(content_type_of("xml"), "text/html");
    assert_eq!(content_type_of("svg"), "image/svg+xml");
    assert_eq!(content_type_of("txt"), "text/plain");
    assert_eq!(content_type_of("css"), "text/css");
    assert_eq!(content_type_of("js"), "application/javascript");
    assert_eq!(content_type_of("json"), "application/json");
    assert_eq!(content_type_of("png"), "image/png");
    assert_eq!(content_type_of("heif"), "image/heif");
    assert_eq!(content_type_of("exe"), "");
    assert_eq!(scope_inject_js("abc"), "self['CTHULHU_SCOPE_ID']='abc'");
}

#[test]
fn the_pages_of_plugins_and_workers() {
    assert!(is_worker_request("serviceworker"));
    assert!(is_worker_request("worker"));
    assert!(!is_worker_request("document"));
    assert!(is_own_worker("/cthulhu.js"));
    assert!(!is_own_worker("/other.js"));
    let mut h = JsHeaders::new();
    h.append("If-None-Match", "x");
    h.append("accept", "*/*");
    h.append("if-modified-since", "y");
    h.append("if-unmodified-since", "z");
    strip_cache_headers(&mut h);
    assert_eq!(header_list(&h), vec![("accept".to_string(), "*/*".to_string())]);
    assert_eq!(plugin_id("abc.plugin.cthulhu.server"), "abc");
    assert_eq!(plugin_id("nodots"), "");
    assert_eq!(plugin_route("abc.plugin.cthulhu.server", "/ask?key=1"), PluginRoute::Ask);
    assert_eq!(plugin_route("abc.plugin.cthulhu.server", "/dynamic/x"), PluginRoute::Dynamic);
    assert_eq!(plugin_route("abc.plugin.cthulhu.server", "/dynamic"), PluginRoute::Static);
    assert_eq!(plugin_route("abc.plugin.cthulhu.server", "/index.html"), PluginRoute::Static);
    assert_eq!(plugin_route(".plugin.cthulhu.server", "/ask"), PluginRoute::Invalid);
    assert!(names_a_file("/a/b.png"));
    assert!(!names_a_file("/a/b"));
    assert!(!names_a_file("/a/b."));
    assert_eq!(normal_path("\\a//b\\c/"), "a/b/c");
    assert_eq!(normal_path("a"), "a");
    assert_eq!(normal_path("//"), "");
}

#[test]
fn the_administrative_interface_reads_and_checks() {
    let pairs = |q: &str| -> Vec<(String, String)> {
        query_pairs(q).into_iter().map(|p| (p.key, p.value)).collect()
    };
    assert_eq!(pairs("id=abc&level=info&index=3"), vec![("id".into(), "abc".into()), ("level".into(), "info".into()), ("index".into(), "3".into())]);
    assert_eq!(pairs("a=1&a=2&=x&b&c=d=e&&f=%20"), vec![("a".into(), "2".into()), ("b".into(), "".into()), ("c".into(), "d".into()), ("f".into(), "%20".into())]);
    assert!(pairs("").is_empty());
    for l in ["info", "debug", "error", "warn"] {
        assert!(is_log_level(l));
    }
    assert!(!is_log_level("trace"));
    assert!(!is_log_level(""));
    let lines: Vec<String> = (0..400).map(|i| i.to_string()).collect();
    assert_eq!(LOG_PAGE, 150);
    assert_eq!(log_window(lines.clone(), 0), lines[0..150].to_vec());
    assert_eq!(log_window(lines.clone(), 100), lines[100..250].to_vec());
    assert_eq!(log_window(lines.clone(), 300), lines[300..400].to_vec());
    assert_eq!(log_window(lines.clone(), 250), lines[250..400].to_vec());
    assert!(log_window(lines.clone(), 400).is_empty());
    assert!(log_window(lines, u64::MAX).is_empty());
    let f = |is_number, file_exists| ValueFacts { is_number, file_exists };
    assert_eq!(check_config_value("str", "workspace", "/w", f(false, false)), Ok(ConfigEffect::Store));
    assert_eq!(check_config_value("num", "port", "3000", f(true, false)), Ok(ConfigEffect::Store));
    assert_eq!(check_config_value("num", "port", "65535", f(true, false)), Ok(ConfigEffect::Store));
    assert_eq!(check_config_value("num", "port", "101", f(true, false)), Ok(ConfigEffect::Store));
    assert_eq!(check_config_value("num", "port", "100", f(true, false)), Err(ConfigError::PortRange));
    assert_eq!(check_config_value("num", "port", "65536", f(true, false)), Err(ConfigError::PortRange));
    assert_eq!(check_config_value("num", "port", "3e3", f(true, false)), Err(ConfigError::PortRange));
    assert_eq!(check_config_value("num", "port", "x", f(false, false)), Err(ConfigError::WrongType));
    assert_eq!(check_config_value("bool", "enabled", "true", f(false, false)), Ok(ConfigEffect::EnableOnly));
    assert_eq!(check_config_value("bool", "enabled", "yes", f(false, false)), Err(ConfigError::WrongType));
    assert_eq!(check_config_value("bool", "systemProxy", "true", f(false, false)), Ok(ConfigEffect::SystemProxy(true)));
    assert_eq!(check_config_value("bool", "systemProxy", "false", f(false, false)), Ok(ConfigEffect::SystemProxy(false)));
    assert_eq!(check_config_value("str", "systemProxy", "TRUE", f(false, false)), Ok(ConfigEffect::SystemProxy(false)));
    assert_eq!(check_config_value("str", "cert", "/ca.cer", f(false, true)), Ok(ConfigEffect::Store));
    assert_eq!(check_config_value("str", "key", "/ca.key", f(false, false)), Err(ConfigError::FileMissing));
    assert_eq!(check_config_value("obj", "blackList", "{}", f(false, false)), Err(ConfigError::ObjectValue));
    assert_eq!(check_config_value("map", "x", "y", f(false, false)), Err(ConfigError::UnknownType));
    assert_eq!(check_config_value("list", "list", "a&&b", f(false, false)), Ok(ConfigEffect::Store));
    assert_eq!((stored_priority(-3), stored_priority(0), stored_priority(4)), (0, 0, 4));
    assert!(stays_inside("a/../b"));
    assert!(!stays_inside("../b"));
    assert!(stays_inside("..b"));
}

#[test]
fn sessions_end() {
    let mut m: ClientManager<u32> = ClientManager::new();
    let s = scope();
    m.add_session_sink(s.copy(), "s1".into(), 11);
    m.add_session_sink(s.copy(), "s2".into(), 12);
    m.add_session_sink(s.copy(), "s3".into(), 13);
    assert_eq!(m.close_session(&s, &"s2".to_string()), Some(12));
    assert_eq!(m.sessions.get(&s).unwrap(), &vec!["s1".to_string(), "s3".to_string()]);
    assert_eq!(m.close_session(&s, &"s2".to_string()), None);
    assert_eq!(m.sinks.len(), 2);
    assert_eq!(m.close_session(&s, &"s1".to_string()), Some(11));
    assert_eq!(m.close_session(&s, &"s3".to_string()), Some(13));
    assert!(m.sessions.get(&s).unwrap().is_empty());
    let mut other = scope();
    other.tab = 9;
    assert_eq!(m.close_session(&other, &"s1".to_string()), None);
    assert_eq!(m.sessions.len(), 1);
}

#[test]
fn pages_get_replies() {
    let reply = |m: Message| cthulhu_server::web::session_reply(&m);
    assert!(matches!(
        reply(Message::Ping(vec![1, 2])),
        cthulhu_server::web::SessionReply::Send(Message::Pong(d)) if d.is_empty()
    ));
    assert!(matches!(reply(Message::Pong(vec![])), cthulhu_server::web::SessionReply::Stop));
    assert!(matches!(reply(Message::Close(None)), cthulhu_server::web::SessionReply::Close));
    for m in [Message::Text("hi".into()), Message::Binary(vec![1])] {
        assert!(matches!(
            reply(m),
            cthulhu_server::web::SessionReply::Send(Message::Text(t)) if t == "<nothing todo>"
        ));
    }
    assert_eq!(cthulhu_server::web::NOTHING_TO_DO, "<nothing todo>");
}
