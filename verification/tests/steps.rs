use cthulhu_server::authority::{
    is_printable, leaf_request, writable_subject, IssueError, LeafRequest, NameValue, RcgenAuthority,
    SanKind, FIRST_SECOND, LAST_SECOND,
};
use cthulhu_server::codec::{decode_response, Codec, Error};
use cthulhu_server::file::{extension_of_file, extension_of_name, stem_of_file, stem_of_name};
use cthulhu_server::gateway::Verdict;
use cthulhu_server::handle::ResponseRoute;
use cthulhu_server::ja3::{random_ja3, Ja3};
use cthulhu_server::message::{JsBody, JsHeaders, JsResponse};
use cthulhu_server::net_proxy::{next_close, SendResult, Side};
use cthulhu_server::pipeline::{close_response, open_response};

fn headers_of(list: &[(&str, &str)]) -> JsHeaders {
    let mut h = JsHeaders::new();
    for (k, v) in list {
        h.append(k, v);
    }
    h
}

fn lines(h: &JsHeaders) -> Vec<(String, String)> {
    h.inner.iter().map(|l| (l.name.clone(), l.value.clone())).collect()
}

fn response(list: &[(&str, &str)], body: Vec<u8>) -> JsResponse {
    JsResponse::new(200, headers_of(list), JsBody::bytes(body)).unwrap()
}

#[test]
fn both_sides_get_a_close_frame_whatever_became_of_the_first() {
    assert_eq!(next_close(0, None), Some(Side::Source));
    for first in [SendResult::Sent, SendResult::Closed, SendResult::Failed] {
        assert_eq!(next_close(1, Some(first)), Some(Side::Destination));
        assert_eq!(next_close(2, Some(first)), None);
    }
    assert_eq!(next_close(u8::MAX, None), None);
    let mut sent = Vec::new();
    let mut tried = 0;
    while let Some(side) = next_close(tried, Some(SendResult::Closed)) {
        sent.push(side);
        tried += 1;
    }
    assert_eq!(sent, vec![Side::Source, Side::Destination]);
}

#[test]
fn the_same_seed_gives_the_same_handshake() {
    for seed in [1u64, 2, 77, u64::MAX] {
        match (random_ja3(seed, 9, 5, 2), random_ja3(seed, 9, 5, 2)) {
            (Ja3::Shuffled(a), Ja3::Shuffled(b)) => {
                assert_eq!(a.cipher_suites, b.cipher_suites);
                assert_eq!(a.kx_groups, b.kx_groups);
                assert_eq!(a.versions, b.versions);
            }
            _ => panic!("the seed {seed} gave the default handshake"),
        }
    }
    let orders: Vec<Vec<usize>> = (1..40u64)
        .map(|seed| match random_ja3(seed, 9, 5, 2) {
            Ja3::Shuffled(o) => o.cipher_suites,
            Ja3::Default => panic!(),
        })
        .collect();
    assert!(orders.iter().any(|o| *o != orders[0]));
}

#[test]
fn an_opened_response_remembers_its_codings() {
    let body = b"<p>opened</p>".to_vec();
    let coded = Codec::Gzip.encode(&Codec::Zstd.encode(&body).unwrap()).unwrap();
    let res = response(
        &[("content-type", "text/plain"), ("content-encoding", "gzip, zstd"), ("content-length", "5")],
        coded,
    );
    let opened = open_response(res).unwrap();
    assert_eq!(opened.codings, vec![vec!['g', 'z', 'i', 'p'], vec!['z', 's', 't', 'd']]);
    assert_eq!(opened.response.body.inner, body);
    assert_eq!(lines(&opened.response.headers), vec![("content-type".to_string(), "text/plain".to_string())]);
    let plain = open_response(response(&[("x", "1")], b"plain".to_vec())).unwrap();
    assert!(plain.codings.is_empty());
    assert_eq!(plain.response.body.inner, b"plain");
    let bad = response(&[("content-encoding", "gzip")], b"no gzip".to_vec());
    assert!(matches!(open_response(bad), Err(Error::Decode)));
}

#[test]
fn a_response_that_the_hook_leaves_alone_goes_back_in_its_codings() {
    let body = b"the body of upstream".to_vec();
    let coded = Codec::Gzip.encode(&body).unwrap();
    let res = response(&[("content-type", "application/json"), ("content-encoding", "gzip")], coded);
    let opened = open_response(res).unwrap();
    for hook in [Verdict::NoHook, Verdict::Failed] {
        let again = open_response(response(
            &[("content-type", "application/json"), ("content-encoding", "gzip")],
            Codec::Gzip.encode(&body).unwrap(),
        ))
        .unwrap();
        let end = close_response(ResponseRoute::Hook, again, hook);
        let watch = end.watch.unwrap();
        assert_eq!(watch.body.inner, body);
        assert!(watch.headers.get("content-encoding").is_none());
        let sealed = end.outcome.unwrap();
        assert_eq!(sealed.headers.get_all("content-encoding"), vec!["gzip".to_string()]);
        assert_eq!(sealed.headers.get("content-type").unwrap(), "application/json");
        assert_eq!(Codec::Gzip.decode(&sealed.body.inner).unwrap(), body);
        assert_eq!(decode_response(sealed).unwrap().body.inner, body);
    }
    let given = response(&[("x-new", "1")], b"another body".to_vec());
    let end = close_response(ResponseRoute::Hook, opened, Verdict::Given(given));
    assert_eq!(end.watch.unwrap().body.inner, b"another body");
    let sealed = end.outcome.unwrap();
    assert_eq!(
        lines(&sealed.headers),
        vec![("x-new".to_string(), "1".to_string()), ("content-encoding".to_string(), "gzip".to_string())]
    );
    assert_eq!(Codec::Gzip.decode(&sealed.body.inner).unwrap(), b"another body");
}

#[test]
fn a_page_goes_back_in_its_codings_or_in_gzip() {
    let page = b"<html></html>".to_vec();
    let opened = open_response(response(&[("content-type", "text/html")], page.clone())).unwrap();
    let end = close_response(ResponseRoute::Inject, opened, Verdict::NoHook);
    assert!(end.watch.is_none());
    let sealed = end.outcome.unwrap();
    assert_eq!(sealed.headers.get_all("content-encoding"), vec!["gzip".to_string()]);
    assert_eq!(sealed.headers.get("referrer-policy").unwrap(), "origin");
    assert_eq!(Codec::Gzip.decode(&sealed.body.inner).unwrap(), page);

    let coded = Codec::Brotli.encode(&page).unwrap();
    let opened =
        open_response(response(&[("content-type", "text/html"), ("content-encoding", "br")], coded)).unwrap();
    let sealed = close_response(ResponseRoute::Inject, opened, Verdict::NoHook).outcome.unwrap();
    assert_eq!(sealed.headers.get_all("content-encoding"), vec!["br".to_string()]);
    assert_eq!(Codec::Brotli.decode(&sealed.body.inner).unwrap(), page);
}

#[test]
fn extensions_and_stems_of_file_names() {
    let ext = |n: &str| extension_of_name(n);
    assert_eq!(ext("x.log"), Some("log".to_string()));
    assert_eq!(ext("b.tar.gz"), Some("gz".to_string()));
    assert_eq!(ext("a."), Some(String::new()));
    assert_eq!(ext(".a.b"), Some("b".to_string()));
    assert_eq!(ext(".bashrc"), None);
    assert_eq!(ext("name"), None);
    assert_eq!(ext(""), None);
    assert_eq!(stem_of_name("x.log"), "x");
    assert_eq!(stem_of_name("b.tar.gz"), "b.tar");
    assert_eq!(stem_of_name("a."), "a");
    assert_eq!(stem_of_name(".a.b"), ".a");
    assert_eq!(stem_of_name(".bashrc"), ".bashrc");
    assert_eq!(stem_of_name("name"), "name");
    assert_eq!(stem_of_name(""), "");
    assert_eq!(extension_of_file(None), None);
    assert_eq!(extension_of_file(Some("a.b".into())), Some("b".to_string()));
    assert_eq!(stem_of_file(None), None);
    assert_eq!(stem_of_file(Some("a.b".into())), Some("a".to_string()));
}

#[test]
fn a_printable_string_holds_a_small_alphabet() {
    assert!(is_printable(""));
    assert!(is_printable("Master Cert 09 '()+,-./:= az AZ"));
    for bad in ["AT&T", "a*b", "a@b", "a_b", "who?", "caf\u{e9}", "a;b", "<a>", "a\"b", "a&"] {
        assert!(!is_printable(bad), "{bad}");
    }
    assert!(writable_subject(&vec![]));
    assert!(writable_subject(&vec![NameValue::Other, NameValue::Printable("Co., Ltd.".into())]));
    assert!(!writable_subject(&vec![NameValue::Printable("fine".into()), NameValue::Printable("a*".into())]));
}

fn patched(hay: &[u8], from: &[u8], to: &[u8]) -> Vec<u8> {
    let mut out = hay.to_vec();
    let mut i = 0;
    while i + from.len() <= out.len() {
        if &out[i..i + from.len()] == from {
            out[i..i + from.len()].copy_from_slice(to);
        }
        i += 1;
    }
    out
}

#[test]
fn a_root_whose_subject_cannot_be_written_issues_nothing() {
    let mut params = rcgen::CertificateParams::default();
    params.is_ca = rcgen::IsCa::Ca(rcgen::BasicConstraints::Unconstrained);
    params.distinguished_name = rcgen::DistinguishedName::new();
    params
        .distinguished_name
        .push(rcgen::DnType::CommonName, rcgen::DnValue::PrintableString("Master Cert".into()));
    let root = rcgen::Certificate::from_params(params).unwrap();
    let (key, cert) = (root.serialize_private_key_der(), root.serialize_der().unwrap());
    let request = leaf_request("example.com", 1, 1_700_000_000).unwrap();
    let sound = RcgenAuthority::new(key.clone(), cert.clone(), 10).unwrap();
    let der = sound.gen_cert(&request).unwrap();
    assert!(der.windows(11).any(|w| w == b"Master Cert"));

    let odd = patched(&cert, b"Master Cert", b"Master&Cert");
    assert_ne!(odd, cert);
    let ca = RcgenAuthority::new(key, odd, 10).unwrap();
    assert!(ca.validate());
    assert_eq!(ca.gen_cert(&request), Err(IssueError::Signing));
}

fn request(host: &str, san: SanKind, not_before: i64, not_after: i64) -> LeafRequest {
    LeafRequest { host: host.to_string(), san, serial: 5, not_before, not_after }
}

#[test]
fn a_request_that_a_certificate_cannot_hold_is_refused() {
    let mut params = rcgen::CertificateParams::default();
    params.is_ca = rcgen::IsCa::Ca(rcgen::BasicConstraints::Unconstrained);
    let root = rcgen::Certificate::from_params(params).unwrap();
    let ca =
        RcgenAuthority::new(root.serialize_private_key_der(), root.serialize_der().unwrap(), 10).unwrap();
    assert!(ca.gen_cert(&request("example.com", SanKind::Dns, 0, 1_000)).is_ok());
    assert!(ca.gen_cert(&request("10.0.0.1", SanKind::Ip, 0, 1_000)).is_ok());
    assert!(ca.gen_cert(&request("a", SanKind::Dns, FIRST_SECOND, LAST_SECOND)).is_ok());
    assert!(ca.gen_cert(&request("a", SanKind::Dns, 1_000, 0)).is_ok());
    for (nb, na) in [(FIRST_SECOND - 1, 0), (0, LAST_SECOND + 1), (-100_000_000_000, 0), (i64::MIN, i64::MAX)] {
        assert_eq!(ca.gen_cert(&request("a", SanKind::Dns, nb, na)), Err(IssueError::Clock));
    }
    assert_eq!(ca.gen_cert(&request("ex\u{e4}mple.com", SanKind::Dns, 0, 1)), Err(IssueError::Host));
    assert_eq!(ca.gen_cert(&request("127.0.0.1", SanKind::Dns, 0, 1)), Err(IssueError::Host));
    assert_eq!(ca.gen_cert(&request("example.com", SanKind::Ip, 0, 1)), Err(IssueError::Host));
    assert_eq!(ca.gen_cert(&request("", SanKind::Ip, 0, 1)), Err(IssueError::Host));
    assert_eq!(ca.gen_cert(&request("ex\u{e4}mple.com", SanKind::Dns, 0, i64::MAX)), Err(IssueError::Clock));
}
