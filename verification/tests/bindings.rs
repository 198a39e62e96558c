use cthulhu_server::api::{handle_api, router, Endpoint};
use cthulhu_server::console::JsConsole;
use cthulhu_server::file::JsPath;
use cthulhu_server::message::{
    check_method, read_value, to_lower, version_from_str, version_of_upper, FieldError, JsBody,
    JsHeaders, JsRequest, JsResponse, ProxyCfg, Version,
};
use cthulhu_server::model::{comma_list, HostList};
use cthulhu_server::proxy::{
    already_sys_proxy, no_proxy_list, proxy_address, set_system_proxy, ProxyTarget,
};
use cthulhu_server::settings::{Config, Match};
use cthulhu_server::str_utils::StrUtils;
use cthulhu_server::table::Table;
use cthulhu_server::text::{
    chars_of, copy_range, find_from, has_prefix, has_suffix, is_text, is_whitespace, parse_int,
    push_decimal, push_signed, same_chars, split, split_once, string_of, trim,
};
use cthulhu_server::ua::{UAParser, UaParts};
use cthulhu_server::uri::{JsUri, Param, RawUri, UriError};
use cthulhu_server::ws::{
    opcode_of_lower, to_mask, to_opcode, CloseFrame, Control, Data, JsFrameHeader, JsMessage,
    JsWsAction, Message, OpCode,
};

fn chars(s: &str) -> Vec<char> {
    s.chars().collect()
}

fn text(v: &[char]) -> String {
    v.iter().collect()
}

#[test]
fn strings_and_characters() {
    for s in ["", "a", "héllo wörld", "日本語", "tab\tnew\nline"] {
        assert_eq!(chars_of(s), chars(s));
        assert_eq!(string_of(&chars(s)), s);
    }
    assert_eq!(copy_range(&chars("abcdef"), 2, 4), chars("cd"));
    assert!(same_chars(&chars("ab"), &chars("ab")));
    assert!(!same_chars(&chars("ab"), &chars("abc")));
    assert!(!same_chars(&chars("ab"), &chars("ac")));
    assert!(is_text(&chars("gzip"), "gzip"));
    assert!(!is_text(&chars("gzip"), "gzi"));
    assert!(has_prefix(&chars("text/html; x"), "text/html"));
    assert!(!has_prefix(&chars("text"), "text/html"));
    assert!(has_suffix(&chars("api.cthulhu.server"), "cthulhu.server"));
    assert!(!has_suffix(&chars("server"), "cthulhu.server"));
    assert_eq!(find_from(&chars("a,b,c"), ',', 0), 1);
    assert_eq!(find_from(&chars("a,b,c"), ',', 2), 3);
    assert_eq!(find_from(&chars("a,b,c"), ',', 4), 5);
}

#[test]
fn trimming_and_splitting_follow_std() {
    for s in ["", " ", "  a b  ", "\t\r\nx\u{a0}", "\u{3000}wide\u{2003}", "x", "\u{200b}zero width"] {
        assert_eq!(text(&trim(&chars(s))), s.trim(), "{s:?}");
    }
    for c in ['\u{9}', '\u{d}', ' ', '\u{85}', '\u{a0}', '\u{1680}', '\u{2000}', '\u{200a}', '\u{200b}',
        '\u{2028}', '\u{2029}', '\u{202f}', '\u{205f}', '\u{3000}', 'a', '\u{e}', '\u{1f}', '\u{feff}']
    {
        assert_eq!(is_whitespace(c), c.is_whitespace(), "{:?}", c);
    }
    for s in ["", ",", "a", "a,b", ",a,,b,", "a,b,c"] {
        let got: Vec<String> = split(&chars(s), ',').iter().map(|p| text(p)).collect();
        let want: Vec<String> = s.split(',').map(|p| p.to_string()).collect();
        assert_eq!(got, want, "{s:?}");
        let once = split_once(&chars(s), ',').map(|(a, b)| (text(&a), text(&b)));
        let want = s.split_once(',').map(|(a, b)| (a.to_string(), b.to_string()));
        assert_eq!(once, want, "{s:?}");
    }
    assert_eq!(comma_list("a,,b"), vec!["a", "", "b"]);
}

#[test]
fn numbers_are_written_and_read_as_std_does() {
    for n in [0u64, 1, 9, 10, 99, 100, 65535, u64::MAX] {
        let mut v = Vec::new();
        push_decimal(&mut v, n);
        assert_eq!(text(&v), n.to_string());
    }
    for n in [0i64, -1, 1, -10, i32::MIN as i64, i32::MAX as i64, i64::MIN, i64::MAX] {
        let mut v = chars("x=");
        push_signed(&mut v, n);
        assert_eq!(text(&v), format!("x={n}"));
    }
    let cases = [
        "0", "-0", "+0", "7", "+7", "-7", "007", "2147483647", "2147483648", "-2147483648",
        "-2147483649", "", "+", "-", "--1", "1-", " 1", "1 ", "1.0", "１", "99999999999999999999",
        "-99999999999999999999", "12a", "a12",
    ];
    for s in cases {
        let got = parse_int(&chars(s), i32::MIN as i64, i32::MAX as i64);
        assert_eq!(got, s.parse::<i32>().ok().map(|n| n as i64), "{s:?}");
        let got = parse_int(&chars(s), 0, u16::MAX as i64);
        assert_eq!(got, s.parse::<u16>().ok().map(|n| n as i64), "{s:?}");
    }
}

#[test]
fn addresses_are_taken_apart() {
    let u = JsUri::new("https://user@example.com:8443/a/b?x=1&y=%20z&x=2&flag&e=").unwrap();
    assert_eq!(u.scheme, "https");
    assert_eq!(u.authority, "user@example.com:8443");
    assert_eq!(u.host, "example.com");
    assert_eq!(u.port, 8443);
    assert_eq!(u.path, "/a/b");
    let params: Vec<(&str, &str)> = u.params.iter().map(|p| (p.key.as_str(), p.value.as_str())).collect();
    assert_eq!(params, vec![("x", "2"), ("y", " z"), ("e", "")]);
    let u = JsUri::new("/only/a/path").unwrap();
    assert_eq!((u.scheme.as_str(), u.host.as_str(), u.port, u.path.as_str()), ("", "", 0, "/only/a/path"));
    assert!(u.params.is_empty());
    let u = JsUri::new("example.com:443").unwrap();
    assert_eq!((u.authority.as_str(), u.host.as_str(), u.port, u.path.as_str()), ("example.com:443", "example.com", 443, ""));
    assert_eq!(JsUri::new("not an address").err(), Some(UriError::InvalidUri));
    assert_eq!(JsUri::new("").err(), Some(UriError::InvalidUri));
    assert_eq!(JsUri::new("http://h/?k=%ff").err(), Some(UriError::InvalidQuery));
    assert_eq!(UriError::InvalidScheme.message(), "Invalid scheme");
    assert_eq!(UriError::InvalidAuthorityAndHost.message(), "Invalid authority and host");
}

fn uri(scheme: &str, authority: &str, host: &str, port: u16, path: &str, params: &[(&str, &str)]) -> JsUri {
    JsUri {
        scheme: scheme.into(),
        authority: authority.into(),
        host: host.into(),
        port,
        path: path.into(),
        params: params.iter().map(|(k, v)| Param { key: k.to_string(), value: v.to_string() }).collect(),
    }
}

#[test]
fn addresses_are_put_together() {
    assert_eq!(uri("https", "example.com", "", 0, "", &[]).assemble().unwrap(), "https://example.com");
    assert_eq!(uri("http", "", "example.com", 8080, "a/b/", &[]).assemble().unwrap(), "http://example.com:8080/a/b");
    assert_eq!(uri("http", "", "example.com", 0, "/", &[]).assemble().unwrap(), "http://example.com");
    assert_eq!(
        uri("https", "a.b:1", "ignored", 9, "/x//", &[("k 1", "v&1"), ("é", "~-._")]).assemble().unwrap(),
        "https://a.b:1/x?k%201=v%261&%C3%A9=~-._"
    );
    assert_eq!(uri("", "a", "", 0, "", &[]).assemble().err(), Some(UriError::InvalidScheme));
    assert_eq!(uri("http", "", "", 80, "/x", &[]).to_string().err(), Some(UriError::InvalidAuthorityAndHost));
    let mut u = JsUri::new("https://example.com/worker.js?SCOPE_ID=abc&v=1").unwrap();
    assert_eq!(u.remove_param("SCOPE_ID"), Some("abc".to_string()));
    assert_eq!(u.remove_param("SCOPE_ID"), None);
    assert_eq!(u.assemble().unwrap(), "https://example.com/worker.js?v=1");
    let raw = RawUri { scheme: None, authority: None, host: None, port: None, path: None, query: Some("a=1".into()) };
    let u = JsUri::from_raw(raw).unwrap();
    assert_eq!((u.scheme.as_str(), u.port, u.params.len()), ("", 0, 1));
}

#[test]
fn percent_and_base64_coding() {
    assert_eq!(StrUtils::url_encode("a b&c=d/é~".into()), "a%20b%26c%3Dd%2F%C3%A9~");
    assert_eq!(StrUtils::url_encode("AZaz09-._~".into()), "AZaz09-._~");
    assert_eq!(StrUtils::url_decode("a%20b%26c%3dd%2F%C3%A9~".into()), Some("a b&c=d/é~".into()));
    assert_eq!(StrUtils::url_decode("100%".into()), Some("100%".into()));
    assert_eq!(StrUtils::url_decode("%zz%4".into()), Some("%zz%4".into()));
    assert_eq!(StrUtils::url_decode("%4x%41".into()), Some("%4xA".into()));
    assert_eq!(StrUtils::url_decode("%ff".into()), None);
    assert_eq!(StrUtils::base64_encode(b"".to_vec()), "");
    assert_eq!(StrUtils::base64_encode(b"f".to_vec()), "Zg==");
    assert_eq!(StrUtils::base64_encode(b"fo".to_vec()), "Zm8=");
    assert_eq!(StrUtils::base64_encode(b"foo".to_vec()), "Zm9v");
    assert_eq!(StrUtils::base64_encode(b"foobar".to_vec()), "Zm9vYmFy");
    assert_eq!(StrUtils::base64_encode(vec![0xfb, 0xff, 0xfe]), "+//+");
    assert_eq!(StrUtils::base64_decode("Zm9vYmFy".into()), Some(b"foobar".to_vec()));
    assert_eq!(StrUtils::base64_decode("Zg==".into()), Some(b"f".to_vec()));
    assert_eq!(StrUtils::base64_decode("not base64!".into()), None);
    assert_eq!(StrUtils::str_to_bytes("é".into()), vec![0xc3, 0xa9]);
    assert_eq!(StrUtils::bytes_to_utf8(vec![0xc3, 0xa9, b'!']), "é!");
    assert_eq!(StrUtils::try_bytes_to_utf8(vec![0xc3]), None);
    assert_eq!(StrUtils::try_bytes_to_utf8(b"ok".to_vec()), Some("ok".into()));
}

fn list(h: &JsHeaders) -> Vec<(String, String)> {
    h.inner.iter().map(|x| (x.name.clone(), x.value.clone())).collect()
}

#[test]
fn headers_are_a_list_with_names_in_lower_case() {
    let mut h = JsHeaders::new();
    h.append("Accept", "text/html");
    h.append("ACCEPT", "*/*");
    h.append("X-Empty", "");
    h.append("", "x");
    h.append("X-Bad", "line\nbreak");
    h.append("X-Wide", "é");
    assert_eq!(
        list(&h),
        vec![
            ("accept".into(), "text/html".into()),
            ("accept".into(), "*/*".into()),
            ("x-wide".into(), "é".into())
        ]
    );
    assert_eq!(h.get("accept"), Some("text/html".into()));
    assert_eq!(h.get("Accept"), Some("text/html".into()));
    assert_eq!(h.get("x-wide"), Some("".into()));
    assert_eq!(h.get("missing"), None);
    assert_eq!(h.get(""), None);
    assert_eq!(h.get_all("aCCept"), vec!["text/html".to_string(), "*/*".to_string()]);
    assert!(h.contains("X-WIDE"));
    assert!(!h.contains("x-bad"));
    h.insert("Accept", "application/json");
    assert_eq!(list(&h), vec![("x-wide".into(), "é".into()), ("accept".into(), "application/json".into())]);
    assert_eq!(h.remove("x-wide"), Some("".into()));
    assert_eq!(h.remove("x-wide"), None);
    assert_eq!(h.remove(""), None);
    let copy = h.copy_self();
    h.clear();
    assert!(h.inner.is_empty());
    assert_eq!(copy.get("accept"), Some("application/json".into()));
    assert_eq!(read_value("plain"), "plain");
    assert_eq!(read_value("bell\u{7}"), "");
    assert_eq!(to_lower(&chars("Content-TYPE É")), chars("content-type É"));
}

#[test]
fn closed_headers_do_not_change() {
    let mut h = JsHeaders::new();
    h.append("a", "1");
    h.is_mut = false;
    h.append("b", "2");
    h.insert("a", "3");
    assert_eq!(h.remove("a"), None);
    h.clear();
    assert_eq!(list(&h), vec![("a".into(), "1".into())]);
    assert_eq!(h.take("a"), Some("1".into()));
    assert!(h.inner.is_empty());
}

#[test]
fn versions_and_methods() {
    assert_eq!(version_from_str("http/1.1"), Some(Version::Http11));
    assert_eq!(version_from_str("HTTP/0.9"), Some(Version::Http09));
    assert_eq!(version_from_str("Http/1.0"), Some(Version::Http10));
    assert_eq!(version_from_str("http/2.0"), Some(Version::Http2));
    assert_eq!(version_from_str("HTTP/3.0"), Some(Version::Http3));
    assert_eq!(version_from_str("HTTP/2"), None);
    assert_eq!(version_from_str(""), None);
    assert_eq!(version_of_upper("http/1.1"), None);
    assert_eq!(version_of_upper("HTTP/1.1"), Some(Version::Http11));
    assert_eq!(Version::Http2.name(), "HTTP/2.0");
    assert_eq!(Version::Http11.name(), "HTTP/1.1");
    for m in ["GET", "get", "PATCH", "M-SEARCH", "a!*+-.^_`|~0"] {
        assert!(check_method(m), "{m}");
    }
    for m in ["", "GET ", "G T", "GÉT", "a/b", "a#b", "a'b"] {
        assert!(!check_method(m), "{m}");
    }
}

#[test]
fn requests_and_responses_are_set_while_they_are_open() {
    let u = || JsUri::new("http://example.com/").unwrap();
    assert_eq!(JsRequest::new("".into(), u(), JsHeaders::new(), JsBody::empty()).err(), Some(FieldError::InvalidMethod));
    let mut r = JsRequest::new("GET".into(), u(), JsHeaders::new(), JsBody::str("hi".into())).unwrap();
    assert_eq!(r.get_version(), "HTTP/1.1");
    assert_eq!(r.body.to_bytes(), b"hi");
    assert_eq!(r.set_method("POST".into()), Ok(()));
    assert_eq!(r.set_method("PO ST".into()), Err(FieldError::InvalidMethod));
    assert_eq!(r.get_method(), "POST");
    assert_eq!(r.set_version("http/2.0"), Ok(()));
    assert_eq!(r.set_version("spdy"), Err(FieldError::InvalidVersion));
    assert_eq!(r.get_version(), "HTTP/2.0");
    r.set_uri(JsUri::new("http://other.example/").unwrap());
    assert_eq!(r.uri.host, "other.example");
    r.is_mut = false;
    assert_eq!(r.set_method("DELETE".into()), Ok(()));
    assert_eq!(r.set_version("nonsense"), Ok(()));
    r.set_uri(u());
    assert_eq!((r.get_method().as_str(), r.get_version(), r.uri.host.as_str()), ("POST", "HTTP/2.0", "other.example"));
    r.set_body(JsBody::bytes(vec![1]));
    assert_eq!(r.body.inner, vec![1]);

    assert_eq!(JsResponse::new(99, JsHeaders::new(), JsBody::empty()).err(), Some(FieldError::InvalidStatus));
    assert_eq!(JsResponse::new(1000, JsHeaders::new(), JsBody::empty()).err(), Some(FieldError::InvalidStatus));
    let mut s = JsResponse::new(200, JsHeaders::new(), JsBody::empty()).unwrap();
    assert_eq!(s.set_status(404), Ok(()));
    assert_eq!(s.set_status(42), Err(FieldError::InvalidStatus));
    assert_eq!(s.get_status(), 404);
    assert_eq!(s.set_version("HTTP/1.0"), Ok(()));
    assert_eq!(s.get_version(), "HTTP/1.0");
    s.is_mut = false;
    assert_eq!(s.set_status(500), Ok(()));
    assert_eq!(s.get_status(), 404);
    let mut b = JsBody::empty();
    b.replace(vec![9]);
    assert_eq!(b.to_bytes(), vec![9]);
}

#[test]
fn ways_out() {
    let a = ProxyCfg::from_parts("", 1, 2).unwrap();
    assert_eq!((a.ja3, a.h2, a.proxy.clone()), (1, 2, None));
    let b = ProxyCfg::from_parts("http://127.0.0.1:8080", 0, 0).unwrap();
    assert_eq!(b.proxy.as_deref(), Some("http://127.0.0.1:8080"));
    assert!(ProxyCfg::from_parts("no address", 0, 0).is_none());
    assert!(a.same(&a.copy()));
    assert!(!a.same(&b));
    assert!(!b.same(&ProxyCfg { ja3: 0, h2: 0, proxy: Some("http://127.0.0.1:8081".into()) }));
    assert!(ProxyCfg::default().same(&ProxyCfg { ja3: 0, h2: 0, proxy: None }));
}

#[test]
fn operation_codes_and_masks() {
    assert_eq!(to_opcode("data:text"), Ok(OpCode::Data(Data::Text)));
    assert_eq!(to_opcode("DATA:Binary"), Ok(OpCode::Data(Data::Binary)));
    assert_eq!(to_opcode("data:continue"), Ok(OpCode::Data(Data::Continue)));
    assert_eq!(to_opcode("anything without colon"), Ok(OpCode::Data(Data::Continue)));
    assert_eq!(to_opcode("Control:CLOSE"), Ok(OpCode::Control(Control::Close)));
    assert_eq!(to_opcode("control:ping"), Ok(OpCode::Control(Control::Ping)));
    assert_eq!(to_opcode("control:pong"), Ok(OpCode::Control(Control::Pong)));
    assert_eq!(to_opcode("data:ping"), Err("<invalid data opcode>"));
    assert_eq!(to_opcode("control:text"), Err("<invalid control opcode>"));
    assert_eq!(to_opcode("frame:text"), Err("<invalid opcode type>"));
    assert_eq!(to_opcode(":"), Err("<invalid opcode type>"));
    assert_eq!(opcode_of_lower("DATA:text"), Err("<invalid opcode type>"));
    assert_eq!(to_mask(vec![1, 2, 3, 4]), Ok([1, 2, 3, 4]));
    assert_eq!(to_mask(vec![1, 2, 3]), Err("Expected a array of length 4"));
    assert_eq!(to_mask(vec![1, 2, 3, 4, 5]), Err("Expected a array of length 4"));
    let h = JsFrameHeader::new(true, false, true, false, "control:ping", Some(vec![9, 8, 7, 6])).unwrap();
    assert_eq!((h.is_final, h.rsv1, h.rsv2, h.rsv3), (true, false, true, false));
    assert_eq!((h.opcode, h.mask), (OpCode::Control(Control::Ping), Some([9, 8, 7, 6])));
    assert_eq!(JsFrameHeader::new(true, false, false, false, "x:y", None).err(), Some("<invalid opcode type>"));
    assert_eq!(
        JsFrameHeader::new(true, false, false, false, "data:text", Some(vec![1])).err(),
        Some("Expected a array of length 4")
    );
}

#[test]
fn messages() {
    let header = |mask| JsFrameHeader { is_final: true, rsv1: false, rsv2: false, rsv3: false, opcode: OpCode::Data(Data::Binary), mask };
    let t = JsMessage::text("héllo".into());
    assert_eq!((t.kind(), t.len(), t.to_text(), t.to_bytes()), ("text", 6, Some("héllo".into()), "héllo".as_bytes().to_vec()));
    assert_eq!(t.to_string(), "héllo");
    let b = JsMessage::binary(vec![0xff, 0xfe]);
    assert_eq!((b.kind(), b.len(), b.to_text(), b.to_bytes()), ("binary", 2, None, vec![0xff, 0xfe]));
    assert_eq!(b.to_string(), "Binary Data<length=2>");
    let b = JsMessage::binary(b"ok".to_vec());
    assert_eq!(b.to_string(), "ok");
    let p = JsMessage { msg: Message::Ping(vec![1]) };
    assert_eq!((p.kind(), p.len()), ("ping", 1));
    let p = JsMessage { msg: Message::Pong(vec![]) };
    assert_eq!((p.kind(), p.len(), p.to_text()), ("pong", 0, Some("".into())));
    let c = JsMessage { msg: Message::Close(None) };
    assert_eq!((c.kind(), c.len(), c.to_text(), c.to_bytes()), ("close", 0, Some("".into()), vec![]));
    let c = JsMessage { msg: Message::Close(Some(CloseFrame { code: 1000, reason: "bye".into() })) };
    assert_eq!((c.len(), c.to_text(), c.to_bytes()), (3, Some("bye".into()), b"bye".to_vec()));
    let f = JsMessage::frame(header(None), vec![7; 125]);
    assert_eq!((f.kind(), f.len()), ("frame", 127));
    assert_eq!(JsMessage::frame(header(Some([0; 4])), vec![7; 126]).len(), 2 + 2 + 4 + 126);
    assert_eq!(JsMessage::frame(header(None), vec![7; 65536]).len(), 2 + 8 + 65536);
    assert_eq!(JsMessage::frame(header(None), vec![0xff]).to_string(), "Binary Data<length=3>");
    assert_eq!(f.copy().to_bytes(), vec![7; 125]);
    assert_eq!(c.copy().to_text(), Some("bye".into()));
}

#[test]
fn verdicts_on_messages_are_shown() {
    let m = |s: &str| JsMessage::text(s.to_string());
    assert_eq!(JsWsAction::ignore().to_string(), "WsAction::Ignore()");
    assert_eq!(JsWsAction::release(m("a")).to_string(), "WsAction::Release(msg:\"a\")");
    assert_eq!(JsWsAction::respond(m("b")).to_string(), "WsAction::Respond(msg:\"b\")");
    assert_eq!(JsWsAction::delay(m("c"), 30).to_string(), "WsAction::Delay(msg:\"c\", ms:30)");
    assert_eq!(JsWsAction::delay(JsMessage::binary(vec![0x80]), 0).to_string(), "WsAction::Delay(msg:\"Binary Data<length=1>\", ms:0)");
    assert_eq!(JsWsAction::ignore().name(), "ignore");
    assert_eq!(JsWsAction::release(m("a")).name(), "release");
    assert_eq!(JsWsAction::respond(m("a")).name(), "respond");
    assert_eq!(JsWsAction::delay(m("a"), 1).name(), "delay");
}

#[test]
fn the_system_proxy() {
    assert_eq!(
        set_system_proxy(true, "127.0.0.1:3000", "a;b"),
        vec!["export http_proxy=127.0.0.1:3000", "export https_proxy=127.0.0.1:3000", "export no_proxy=a;b"]
    );
    assert_eq!(
        set_system_proxy(true, "127.0.0.1:3000", ""),
        vec!["export http_proxy=127.0.0.1:3000", "export https_proxy=127.0.0.1:3000"]
    );
    assert_eq!(set_system_proxy(false, "x", "y"), vec!["unset http_proxy", "unset https_proxy", "unset no_proxy"]);
    assert_eq!(proxy_address(3000), "127.0.0.1:3000");
    assert_eq!(proxy_address(0), "127.0.0.1:0");
    let black = |enabled| HostList { enabled, list: vec!["*.a".into(), "b".into(), "c".into()] };
    assert_eq!(no_proxy_list(&black(true)), "*.a;b;c");
    assert_eq!(no_proxy_list(&black(false)), "");
    assert_eq!(no_proxy_list(&HostList { enabled: true, list: vec![] }), "");
    let t = |host: &str, port, local_ip| ProxyTarget { host: host.to_string(), port, local_ip };
    assert!(already_sys_proxy(3000, &vec![t("127.0.0.1", 3000, Some(true))]));
    assert!(!already_sys_proxy(3000, &vec![t("127.0.0.1", 3001, Some(true))]));
    assert!(already_sys_proxy(3000, &vec![t("localhost", 3000, None)]));
    assert!(!already_sys_proxy(3000, &vec![t("10.0.0.1", 3000, Some(false)), t("proxy.corp", 3000, None)]));
    assert!(already_sys_proxy(3000, &vec![t("10.0.0.1", 1, Some(false)), t("0.0.0.0", 3000, Some(true))]));
    assert!(!already_sys_proxy(3000, &vec![t("::1", 1, Some(true)), t("localhost", 3000, None)]));
    assert!(!already_sys_proxy(3000, &vec![]));
}

#[test]
fn the_first_rule_that_matches_decides() {
    let rule = |host: &str| Match { host: host.into(), ja3: "j".into(), akamai: "a".into(), proxy: None };
    let cfg = Config { port: 520, matches: vec![rule("*.example.com"), rule("www.*"), rule("*")] };
    assert_eq!(cfg.first_match("www.example.com"), Some(0));
    assert_eq!(cfg.first_match("www.example.org"), Some(1));
    assert_eq!(cfg.first_match("example.org"), Some(2));
    let cfg = Config { port: 520, matches: vec![rule("only.example")] };
    assert_eq!(cfg.first_match("other.example"), None);
}

#[test]
fn paths_lead_to_operations() {
    let r = router();
    assert_eq!(r.len(), 14);
    let at = |p: &str| handle_api(&r, &p.to_string());
    assert_eq!(at("/config/get"), Some(Endpoint::ConfigGet));
    assert_eq!(at("/config/list"), Some(Endpoint::ConfigList));
    assert_eq!(at("/config/update"), Some(Endpoint::ConfigUpdate));
    assert_eq!(at("/plugin/list"), Some(Endpoint::PluginList));
    assert_eq!(at("/plugin/enable"), Some(Endpoint::PluginEnable));
    assert_eq!(at("/plugin/del"), Some(Endpoint::PluginDel));
    assert_eq!(at("/plugin/log"), Some(Endpoint::PluginLog));
    assert_eq!(at("/plugin/clearLog"), Some(Endpoint::PluginClearLog));
    assert_eq!(at("/plugin/reload"), Some(Endpoint::PluginReload));
    assert_eq!(at("/plugin/treeNames"), Some(Endpoint::PluginTreeNames));
    assert_eq!(at("/plugin/treeList"), Some(Endpoint::PluginTreeList));
    assert_eq!(at("/server/serverInfo"), Some(Endpoint::ServerInfo));
    assert_eq!(at("/server/restart"), Some(Endpoint::ServerRestart));
    assert_eq!(at("/server/downloadCa"), Some(Endpoint::ServerDownloadCa));
    assert_eq!(at("/server/ask"), None);
    assert_eq!(at("/config/get/"), None);
    let mut only: Table<String, Endpoint> = Table::new();
    cthulhu_server::api::config::route(&mut only);
    assert_eq!(only.len(), 3);
    cthulhu_server::api::plugin::route(&mut only);
    assert_eq!(only.len(), 11);
    cthulhu_server::api::server::route(&mut only);
    cthulhu_server::api::server::route(&mut only);
    assert_eq!(only.len(), 14);
}

#[test]
fn tables_hold_one_value_per_key() {
    let mut t: Table<String, u8> = Table::new();
    assert_eq!(t.insert("a".into(), 1), None);
    assert_eq!(t.insert("b".into(), 2), None);
    assert_eq!(t.insert("a".into(), 3), Some(1));
    assert_eq!(t.len(), 2);
    assert_eq!(t.get(&"a".to_string()), Some(&3));
    assert_eq!(t.find(&"b".to_string()), 1);
    assert_eq!(t.find(&"c".to_string()), 2);
    assert!(t.contains(&"b".to_string()));
    assert_eq!(t.entries[0].key, "a");
    assert_eq!(t.remove(&"a".to_string()), Some(3));
    assert_eq!(t.remove(&"a".to_string()), None);
    assert_eq!(t.get(&"a".to_string()), None);
    assert_eq!(t.len(), 1);
}

#[test]
fn the_console_writes_lines() {
    let c = JsConsole::new("/plugins/p1".into());
    assert_eq!(c.log_path("error"), "/plugins/p1/LOGS/error.log");
    assert_eq!(JsConsole::log_line("2024-01-02 03:04:05.678", "a, b"), "2024-01-02 03:04:05.678 a, b\n");
    assert_eq!(JsConsole::join_spans(&vec![]), "");
    assert_eq!(JsConsole::join_spans(&vec!["a".into()]), "a");
    assert_eq!(JsConsole::join_spans(&vec!["a".into(), "'b'".into(), "[1, 2]".into()]), "a, 'b', [1, 2]");
}

#[test]
fn a_user_agent_in_parts() {
    let parts = UaParts {
        cpu_architecture: Some("amd64".into()),
        device_brand: None,
        device_model: None,
        device_name: Some("Other".into()),
        engine_major: Some("120".into()),
        engine_minor: None,
        engine_name: Some("Blink".into()),
        engine_patch: None,
        os_major: Some("10".into()),
        os_minor: None,
        os_name: Some("Windows".into()),
        os_patch: None,
        os_patch_minor: None,
        product_major: Some("120".into()),
        product_minor: Some("0".into()),
        product_name: Some("Chrome".into()),
        product_patch: Some("6099".into()),
    };
    let ua = UAParser::new("Mozilla/5.0".into(), &parts);
    let show = |v: &Vec<cthulhu_server::ua::Field>| -> Vec<(String, String)> {
        v.iter().map(|f| (f.name.clone(), f.value.clone())).collect()
    };
    assert_eq!(ua.ua, "Mozilla/5.0");
    assert_eq!(show(&ua.cpu), vec![("arch".into(), "amd64".into())]);
    assert_eq!(
        show(&ua.device),
        vec![("brand".into(), "".into()), ("model".into(), "".into()), ("name".into(), "Other".into())]
    );
    assert_eq!(show(&ua.engine)[2], ("name".into(), "Blink".into()));
    assert_eq!(
        show(&ua.os).iter().map(|f| f.0.clone()).collect::<Vec<_>>(),
        vec!["major", "minor", "name", "patch", "patchMinor"]
    );
    assert_eq!(show(&ua.product)[3], ("patch".into(), "6099".into()));
}

#[test]
fn paths() {
    let p = JsPath::new("/var/log/x.log".into());
    assert!(p.is_absolute());
    assert!(!p.is_relative());
    assert_eq!(p.to_string(), "/var/log/x.log");
    let p = JsPath::new("relative/x".into());
    assert!(!p.is_absolute());
    assert!(p.is_relative());
    assert!(JsPath::new("".into()).is_relative());
    for s in ["/", "a", "", "./a", "../a", "//a", "a/"] {
        assert_eq!(JsPath::new(s.into()).is_absolute(), std::path::Path::new(s).is_absolute(), "{s:?}");
    }
}

#[test]
fn file_names_follow_std_on_unix() {
    let cases = [
        "", "/", "a", "a/", "a//", "/a/b.txt", "a/b.tar.gz", ".bashrc", "dir/.bashrc", "a.", "a..b",
        ".", "./", "./a", "a/.", "a/./", "a/./b.c", "..", "a/..", "../a", "/.", "/..", "//a//b//",
        "a.b/c", "a/b.c/", "...", "a/...", ".a.b", "foo.txt/.//", "x/.hidden.", "é/ñ.日本",
    ];
    for s in cases {
        let p = JsPath::new(s.to_string());
        let std = std::path::Path::new(s);
        let name = std.file_name().map(|v| v.to_str().unwrap().to_string());
        let ext = std.extension().map(|v| v.to_str().unwrap().to_string());
        let stem = std.file_stem().map(|v| v.to_str().unwrap().to_string());
        assert_eq!(p.file_name(), name, "file name of {s:?}");
        assert_eq!(p.extension(), ext, "extension of {s:?}");
        assert_eq!(p.file_stem(), stem, "file stem of {s:?}");
    }
    assert_eq!(JsPath::new("/var/log/x.log".into()).extension(), Some("log".into()));
    assert_eq!(JsPath::new("/var/log/x.log".into()).file_stem(), Some("x".into()));
    assert_eq!(JsPath::new("/var/log/x.log".into()).file_name(), Some("x.log".into()));
}

#[test]
fn copies_share_nothing() {
    let mut h = JsHeaders::new();
    h.append("Set-Cookie", "a=1");
    h.append("content-type", "text/plain");
    h.append("set-cookie", "b=2");
    assert_eq!(h.keys(), vec!["set-cookie".to_string(), "content-type".to_string()]);
    assert!(JsHeaders::new().keys().is_empty());
    let u = JsUri::new("https://example.com:8443/p?a=1&b=2").unwrap();
    let c = u.copy();
    assert_eq!(c.assemble().unwrap(), u.assemble().unwrap());
    assert_eq!((c.port, c.params.len()), (8443, 2));
    let mut r = JsRequest::new("PUT".into(), u, h, JsBody::bytes(vec![1, 2, 3])).unwrap();
    let copy = r.copy_self();
    r.set_method("GET".into()).unwrap();
    r.headers.clear();
    r.body.replace(vec![]);
    assert_eq!((copy.get_method().as_str(), copy.get_body().to_bytes()), ("PUT", vec![1, 2, 3]));
    assert_eq!(copy.get_headers().get_all("set-cookie"), vec!["a=1".to_string(), "b=2".to_string()]);
    assert_eq!(copy.get_uri().host, "example.com");
    assert!(r.get_headers().inner.is_empty());
    let mut s = JsResponse::new(201, copy.get_headers(), JsBody::str("made".into())).unwrap();
    let kept = s.copy_self();
    s.set_status(500).unwrap();
    s.set_headers(JsHeaders::new());
    s.set_body(JsBody::empty());
    assert_eq!((kept.status, kept.get_body().to_bytes()), (201, b"made".to_vec()));
    assert_eq!(kept.get_headers().inner.len(), 3);
    assert_eq!((s.status, s.get_headers().inner.len(), s.get_body().inner.len()), (500, 0, 0));
}

fn encoded_by_rule(bytes: &[u8]) -> String {
    let mut out = String::new();
    for b in bytes {
        let plain = b.is_ascii_alphanumeric() || matches!(*b, b'-' | b'.' | b'_' | b'~');
        if plain {
            out.push(*b as char);
        } else {
            out.push('%');
            for d in [b / 16, b % 16] {
                out.push(if d < 10 { (48 + d) as char } else { (55 + d) as char });
            }
        }
    }
    out
}

fn hex(b: u8) -> Option<u8> {
    match b {
        48..=57 => Some(b - 48),
        65..=70 => Some(b - 55),
        97..=102 => Some(b - 87),
        _ => None,
    }
}

fn decoded_by_rule(b: &[u8]) -> Vec<u8> {
    if b.is_empty() {
        return Vec::new();
    }
    if b[0] != b'%' {
        let mut out = vec![b[0]];
        out.extend(decoded_by_rule(&b[1..]));
        return out;
    }
    if b.len() < 3 {
        return b.to_vec();
    }
    match (hex(b[1]), hex(b[2])) {
        (None, _) => {
            let mut out = vec![b'%'];
            out.extend(decoded_by_rule(&b[1..]));
            out
        }
        (Some(_), None) => {
            let mut out = vec![b'%', b[1]];
            out.extend(decoded_by_rule(&b[2..]));
            out
        }
        (Some(h), Some(l)) => {
            let mut out = vec![h * 16 + l];
            out.extend(decoded_by_rule(&b[3..]));
            out
        }
    }
}

#[test]
fn percent_coding_follows_its_rule_on_every_short_text() {
    for code in 0u32..0x900 {
        if let Some(c) = char::from_u32(code) {
            let s = c.to_string();
            assert_eq!(StrUtils::url_encode(s.clone()), encoded_by_rule(s.as_bytes()), "{code:#x}");
        }
    }
    let letters = ['%', '4', '1', 'f', 'F', 'g', 'x', ' ', 'é', 'c', '3', 'a', '9'];
    let mut texts = vec![String::new()];
    for _ in 0..4 {
        let mut next = Vec::new();
        for t in &texts {
            for l in letters {
                let mut s = t.clone();
                s.push(l);
                next.push(s);
            }
        }
        for n in &next {
            let want = String::from_utf8(decoded_by_rule(n.as_bytes())).ok();
            assert_eq!(StrUtils::url_decode(n.clone()), want, "{n:?}");
        }
        texts = next;
    }
}

fn base64_by_rule(b: &[u8]) -> String {
    let letter = |v: u8| -> char {
        match v {
            0..=25 => (65 + v) as char,
            26..=51 => (71 + v) as char,
            52..=61 => (v - 4) as char,
            62 => '+',
            _ => '/',
        }
    };
    let mut out = String::new();
    for chunk in b.chunks(3) {
        match chunk {
            [a] => {
                out.push(letter(a / 4));
                out.push(letter((a % 4) * 16));
                out.push_str("==");
            }
            [a, b] => {
                out.push(letter(a / 4));
                out.push(letter((a % 4) * 16 + b / 16));
                out.push(letter((b % 16) * 4));
                out.push('=');
            }
            [a, b, c] => {
                out.push(letter(a / 4));
                out.push(letter((a % 4) * 16 + b / 16));
                out.push(letter((b % 16) * 4 + c / 64));
                out.push(letter(c % 64));
            }
            _ => {}
        }
    }
    out
}

#[test]
fn base64_follows_its_rule() {
    let mut x: u32 = 7;
    for len in 0..40usize {
        for _ in 0..50 {
            let bytes: Vec<u8> = (0..len)
                .map(|_| {
                    x = x.wrapping_mul(1103515245).wrapping_add(12345);
                    (x >> 16) as u8
                })
                .collect();
            let text = StrUtils::base64_encode(bytes.clone());
            assert_eq!(text, base64_by_rule(&bytes));
            assert_eq!(StrUtils::base64_decode(text), Some(bytes));
        }
    }
    for b in 0..=255u8 {
        assert_eq!(StrUtils::base64_encode(vec![b]), base64_by_rule(&[b]));
        assert_eq!(StrUtils::base64_encode(vec![0, b, 255]), base64_by_rule(&[0, b, 255]));
    }
}

#[test]
fn quoting_and_case_are_those_of_std() {
    use_std_forms();
}

fn use_std_forms() {
    assert_eq!(version_from_str("hTTp/1.1"), Some(Version::Http11));
    assert_eq!(version_from_str("ｈｔｔｐ/1.1"), None);
    assert_eq!(to_opcode("CONTROL:PİNG"), Err("<invalid control opcode>"));
    assert_eq!(to_opcode("DATA:TEXT"), Ok(OpCode::Data(Data::Text)));
}
