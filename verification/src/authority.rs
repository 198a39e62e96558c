//! The certificate authority: it issues a leaf certificate for each target
//! of a tunnel, signed by a root that the client trusts, and keeps what it
//! issued for a while.

use vstd::prelude::*;
use vstd::string::*;
use std::sync::Arc;
use rcgen::{Certificate, CertificateParams, DistinguishedName, DnType, KeyPair, SanType};
use time::OffsetDateTime;
use crate::codec::Error;
use crate::text::chars_of;

verus! {

/// The seconds for which a leaf certificate is valid: one year.
pub const TTL_SECS: i64 = 31536000;

/// The seconds for which an issued configuration is kept: half the validity
/// of its certificate, so that a certificate is replaced before it expires.
pub const CACHE_TTL: u64 = 15768000;

/// The seconds by which the start of the validity lies in the past, for
/// clients whose clock is behind.
pub const NOT_BEFORE_OFFSET: i64 = 60;

/// What the subject of a certificate is.
#[derive(Clone, Copy, Debug, PartialEq, Eq, Structural)]
pub enum SanKind {
    /// A DNS name.
    Dns,
    /// An IP address.
    Ip,
}

/// The TLS configuration under which the engine answers for a target: the
/// leaf certificate and its key, the protocols that are offered, and the
/// validity of the certificate in seconds since 1970.
#[derive(Clone, Debug)]
pub struct ServerTlsConfig {
    pub cert_der: Vec<u8>,
    pub key_der: Vec<u8>,
    pub alpn: Vec<Vec<u8>>,
    pub not_before: i64,
    pub not_after: i64,
}

#[verifier::external_type_specification]
#[verifier::external_body]
pub struct ExCertificateParams(rcgen::CertificateParams);

#[verifier::external_type_specification]
#[verifier::external_body]
pub struct ExCertificate(rcgen::Certificate);

#[verifier::external_type_specification]
#[verifier::external_body]
pub struct ExKeyPair(rcgen::KeyPair);

#[verifier::external_type_specification]
#[verifier::external_body]
#[verifier::reject_recursive_types(K)]
#[verifier::reject_recursive_types(V)]
#[verifier::reject_recursive_types(S)]
pub struct ExCache<K, V, S>(moka::sync::Cache<K, V, S>);

/// The cache of the authority: from targets to configurations.
pub type LeafCache = moka::sync::Cache<String, Arc<ServerTlsConfig>>;

/// The parameters of a certificate that is about to be issued.
pub type LeafParams = rcgen::CertificateParams;

/// The configurations that a cache holds at the moment, by target.
pub uninterp spec fn cache_entries(c: LeafCache) -> Map<Seq<char>, Arc<ServerTlsConfig>>;

/// Makes an empty cache with `moka`'s builder, for at most `capacity`
/// entries, each of which is dropped `ttl_secs` seconds after it was put in.
#[verifier::external_body]
fn new_cache(capacity: u64, ttl_secs: u64) -> (r: LeafCache)
    requires
        ttl_secs <= CACHE_TTL,
    ensures
        cache_entries(r) == (Map::<Seq<char>, Arc<ServerTlsConfig>>::empty()),
{
    moka::sync::Cache::builder()
        .max_capacity(capacity)
        .time_to_live(std::time::Duration::from_secs(ttl_secs))
        .build()
}

/// Looks a target up with `Cache::get`. What is found was in the cache under
/// that target. The cache may have dropped entries; it holds no new ones.
#[verifier::external_body]
fn cache_get(c: &mut LeafCache, key: &str) -> (r: Option<Arc<ServerTlsConfig>>)
    ensures
        r.is_some() ==> cache_entries(*old(c)).dom().contains(key@) && cache_entries(*old(c))[key@]
            == r.unwrap(),
        cache_entries(*final(c)).submap_of(cache_entries(*old(c))),
{
    c.get(key)
}

/// Puts a configuration in with `Cache::insert`. Afterwards the cache holds
/// nothing but what it held and the new entry; it may have dropped entries.
#[verifier::external_body]
fn cache_insert(c: &mut LeafCache, key: String, value: Arc<ServerTlsConfig>)
    ensures
        cache_entries(*final(c)).submap_of(cache_entries(*old(c)).insert(key@, value)),
{
    c.insert(key, value)
}

/// Another handle on a shared configuration (`Arc::clone`): it leads to the
/// same configuration.
#[verifier::external_body]
fn share(c: &Arc<ServerTlsConfig>) -> (r: Arc<ServerTlsConfig>)
    ensures
        r == *c,
{
    Arc::clone(c)
}

/// The seconds since 1970 by the clock of the machine
/// (`OffsetDateTime::now_utc`).
#[verifier::external_body]
fn now_unix() -> (r: i64) {
    time::OffsetDateTime::now_utc().unix_timestamp()
}

/// A serial number by chance (`thread_rng`).
#[verifier::external_body]
fn random_serial() -> (r: u64) {
    rand::Rng::gen::<u64>(&mut rand::thread_rng())
}

/// Whether a text writes an IP address, of version 4 or 6, as `str::parse`
/// reads one.
pub uninterp spec fn ip_text(host: Seq<char>) -> bool;

/// Whether `host` writes an IP address: whether `str::parse` reads it as one.
/// The address goes into `SanType::IpAddress`, which settles what is parsed.
#[verifier::external_body]
fn reads_as_ip(host: &str) -> (r: bool)
    ensures
        r == ip_text(host@),
{
    host.parse().map(rcgen::SanType::IpAddress).is_ok()
}

/// Whether `KeyPair::from_der` reads the bytes as a private key: they are a
/// PKCS#8 document with a key of one of the kinds that `rcgen` signs with.
pub uninterp spec fn key_readable(key_der: Seq<u8>) -> bool;

/// Reads a private key in DER with `KeyPair::from_der`. Whether a key comes
/// back depends on the bytes alone.
#[verifier::external_body]
fn key_pair(key_der: &[u8]) -> (r: Option<rcgen::KeyPair>)
    ensures
        r.is_some() == key_readable(key_der@),
{
    rcgen::KeyPair::from_der(key_der).ok()
}

/// Whether `CertificateParams::from_ca_cert_der` reads the bytes as a
/// certificate: they are an X.509 certificate whose signature algorithm and
/// extensions `rcgen` knows.
pub uninterp spec fn ca_readable(ca_der: Seq<u8>) -> bool;

/// The parameters of the certificate of the authority, read from its DER
/// form with `CertificateParams::from_ca_cert_der`. The key is taken along
/// as it is: whether parameters come back depends on the bytes of the
/// certificate alone.
#[verifier::external_body]
fn ca_params(ca_der: &[u8], key: rcgen::KeyPair) -> (r: Option<LeafParams>)
    ensures
        r.is_some() == ca_readable(ca_der@),
{
    rcgen::CertificateParams::from_ca_cert_der(ca_der, key).ok()
}

/// The certificate with the given parameters (`Certificate::from_params`).
/// `None` where the key of the parameters is not one for their signature
/// algorithm.
#[verifier::external_body]
fn certificate(p: LeafParams) -> (r: Option<rcgen::Certificate>) {
    rcgen::Certificate::from_params(p).ok()
}

/// A value in the subject of a certificate, as far as writing it goes: a
/// printable string with its text, or a value of another kind.
#[derive(Debug)]
pub enum NameValue {
    Printable(String),
    Other,
}

/// The values in the subject of a certificate whose parameters were read, in
/// order (`DistinguishedName::iter`).
#[verifier::external_body]
fn subject_values(p: &LeafParams) -> (r: Vec<NameValue>) {
    p.distinguished_name.iter().map(|(_, v)| match v {
        rcgen::DnValue::PrintableString(s) => NameValue::Printable(s.clone()),
        _ => NameValue::Other,
    }).collect()
}

/// Whether a character can stand in a printable string that `rcgen` writes:
/// a letter of ASCII, a digit, a space, or one of `' ( ) + , - . / : =`.
pub open spec fn printable(c: char) -> bool {
    ||| c == ' '
    ||| ('\'' <= c <= ':' && c != '*')
    ||| c == '='
    ||| 'A' <= c <= 'Z'
    ||| 'a' <= c <= 'z'
}

/// Whether every character of a text can stand in a printable string.
pub open spec fn all_printable(text: Seq<char>) -> bool {
    forall|i: int| 0 <= i < text.len() ==> printable(#[trigger] text[i])
}

/// Whether a value of a subject can be written.
pub open spec fn writable_value(v: NameValue) -> bool {
    match v {
        NameValue::Printable(text) => all_printable(text@),
        NameValue::Other => true,
    }
}

/// Whether every value of a subject can be written.
pub open spec fn writable_values(values: Seq<NameValue>) -> bool {
    forall|i: int| 0 <= i < values.len() ==> writable_value(#[trigger] values[i])
}

/// Whether every character of a text can stand in a printable string.
pub fn is_printable(text: &str) -> (r: bool)
    ensures
        r == all_printable(text@),
{
    let chars = chars_of(text);
    let mut i: usize = 0;
    while i < chars.len()
        invariant
            i <= chars.len(),
            chars@ == text@,
            forall|k: int| 0 <= k < i ==> printable(#[trigger] chars@[k]),
        decreases chars.len() - i,
    {
        let c = chars[i];
        let ok = c == ' ' || ('\'' <= c && c <= ':' && c != '*') || c == '=' || ('A' <= c && c <= 'Z')
            || ('a' <= c && c <= 'z');
        if !ok {
            assert(!printable(text@[i as int]));
            return false;
        }
        i += 1;
    }
    true
}

/// Whether every value of a subject can be written: whether its printable
/// strings hold nothing but what a printable string can hold.
pub fn writable_subject(values: &Vec<NameValue>) -> (r: bool)
    ensures
        r == writable_values(values@),
{
    let mut i: usize = 0;
    while i < values.len()
        invariant
            i <= values.len(),
            forall|k: int| 0 <= k < i ==> writable_value(#[trigger] values@[k]),
        decreases values.len() - i,
    {
        let ok = match &values[i] {
            NameValue::Printable(text) => is_printable(text.as_str()),
            NameValue::Other => true,
        };
        if !ok {
            assert(!writable_value(values@[i as int]));
            return false;
        }
        i += 1;
    }
    true
}

/// The first second that a certificate can name: the start of the year 0.
pub const FIRST_SECOND: i64 = -62167219200;

/// The last second that a certificate can name: the end of the year 9999.
pub const LAST_SECOND: i64 = 253402300799;

/// Whether a certificate can name a time, in seconds since 1970.
pub open spec fn writable_time(t: int) -> bool {
    FIRST_SECOND <= t <= LAST_SECOND
}

/// Whether every character of a text is one of ASCII.
pub open spec fn is_ascii(host: Seq<char>) -> bool {
    forall|i: int| 0 <= i < host.len() ==> (#[trigger] host[i]) <= '\x7f'
}

/// What the subject of a certificate for `host` is: an IP address where
/// `host` writes one, else a DNS name.
pub open spec fn san_of(host: Seq<char>) -> SanKind {
    if ip_text(host) {
        SanKind::Ip
    } else {
        SanKind::Dns
    }
}

/// Whether a certificate can name `host`: as an IP address, or as a DNS name,
/// which is written in ASCII.
pub open spec fn nameable(host: Seq<char>) -> bool {
    ip_text(host) || is_ascii(host)
}

/// Whether a certificate that is issued at the time `now` can name its
/// validity.
pub open spec fn clock_ok(now: int) -> bool {
    writable_time(validity(now).0) && writable_time(validity(now).1)
}

/// Why no certificate was issued.
#[derive(Clone, Copy, Debug, PartialEq, Eq, Structural)]
pub enum IssueError {
    /// The clock is so far off that a certificate cannot name the validity.
    Clock,
    /// The host is no IP address and no name in ASCII.
    Host,
    /// The key or the certificate of the root cannot be read.
    Root,
    /// The key of the root does not go with its certificate, the subject of
    /// the root cannot be written into a certificate, or the signing failed.
    Signing,
}

/// Why no certificate was issued, in words.
pub open spec fn refusal(e: IssueError) -> Seq<char> {
    match e {
        IssueError::Clock => "the clock is out of range"@,
        IssueError::Host => "the host cannot be named in a certificate"@,
        IssueError::Root => "the root cannot be read"@,
        IssueError::Signing => "no certificate could be signed"@,
    }
}

impl IssueError {
    /// Why no certificate was issued, in words.
    pub fn to_string(&self) -> (r: String)
        ensures
            r@ == refusal(*self),
    {
        match self {
            IssueError::Clock => "the clock is out of range".to_owned(),
            IssueError::Host => "the host cannot be named in a certificate".to_owned(),
            IssueError::Root => "the root cannot be read".to_owned(),
            IssueError::Signing => "no certificate could be signed".to_owned(),
        }
    }
}

/// What a leaf certificate is to hold: the host as common name and as
/// subject alternative name, of the kind `san`; a serial number; and the
/// validity in seconds since 1970.
#[derive(Debug)]
pub struct LeafRequest {
    pub host: String,
    pub san: SanKind,
    pub serial: u64,
    pub not_before: i64,
    pub not_after: i64,
}

impl LeafRequest {
    /// A request that a certificate can hold: the host is named as what it
    /// is, a DNS name is in ASCII, and the validity lies in the years that a
    /// certificate can name.
    pub open spec fn wf(&self) -> bool {
        self.timed() && self.named()
    }

    /// The validity lies in the years that a certificate can name.
    pub open spec fn timed(&self) -> bool {
        writable_time(self.not_before as int) && writable_time(self.not_after as int)
    }

    /// The host is named as what it is, and a DNS name is in ASCII.
    pub open spec fn named(&self) -> bool {
        self.san == san_of(self.host@) && nameable(self.host@)
    }
}

/// Issues the certificate that a request describes, with `rcgen`: the
/// parameters are `CertificateParams::default` with serial number, validity,
/// common name and one subject alternative name as the request gives them,
/// and with `key` and its signature algorithm; `Certificate::from_params`
/// makes the certificate, and `serialize_der_with_signer` hands it out in
/// DER, signed by `root`. Whether the signing succeeds is for `rcgen` to
/// say. The request has to be one that a certificate can hold: `rcgen` gives
/// up on a DNS name that is not in ASCII and on a year that has not four
/// digits. It also gives up on a subject of the root with a printable
/// string that cannot be written: `root` is a signer whose subject was
/// tested when it was made.
#[verifier::external_body]
fn sign_leaf(request: &LeafRequest, key: KeyPair, root: &Certificate) -> (r: Option<Vec<u8>>)
    requires
        request.wf(),
{
    let mut p = CertificateParams::default();
    p.serial_number = Some(request.serial.into());
    p.not_before = OffsetDateTime::from_unix_timestamp(request.not_before).ok()?;
    p.not_after = OffsetDateTime::from_unix_timestamp(request.not_after).ok()?;
    p.distinguished_name = DistinguishedName::new();
    p.distinguished_name.push(DnType::CommonName, request.host.as_str());
    p.subject_alt_names.push(match request.san {
        SanKind::Dns => SanType::DnsName(request.host.clone()),
        SanKind::Ip => SanType::IpAddress(request.host.parse().ok()?),
    });
    p.alg = key.compatible_algs().next()?;
    p.key_pair = Some(key);
    Certificate::from_params(p).ok()?.serialize_der_with_signer(root).ok()
}

/// Whether the key and the certificate of a root can both be read.
pub open spec fn root_readable(key_der: Seq<u8>, ca_der: Seq<u8>) -> bool {
    key_readable(key_der) && ca_readable(ca_der)
}

/// The certificate of the authority as a signer. A root that cannot be read
/// gives `Root`; one that can be read gives the signer, unless its key is
/// not of the kind that its certificate is signed with or its subject holds
/// a printable string that cannot be written.
fn signer(key_der: &[u8], ca_der: &[u8]) -> (r: Result<rcgen::Certificate, IssueError>)
    ensures
        r matches Err(e) ==> e == IssueError::Root || e == IssueError::Signing,
        r == Err::<rcgen::Certificate, IssueError>(IssueError::Root) <==> !root_readable(
            key_der@,
            ca_der@,
        ),
{
    let key = match key_pair(key_der) {
        Some(k) => k,
        None => {
            return Err(IssueError::Root);
        },
    };
    let params = match ca_params(ca_der, key) {
        Some(p) => p,
        None => {
            return Err(IssueError::Root);
        },
    };
    if !writable_subject(&subject_values(&params)) {
        return Err(IssueError::Signing);
    }
    match certificate(params) {
        Some(c) => Ok(c),
        None => Err(IssueError::Signing),
    }
}

/// Whether `KeyPair::from_pem` reads a text as a private key: the text is a
/// PEM document that holds a key which `KeyPair::from_der` reads.
pub uninterp spec fn key_pem_readable(key: Seq<char>) -> bool;

/// Reads a private key in PEM with `KeyPair::from_pem`. Whether a key comes
/// back depends on the text alone.
#[verifier::external_body]
fn key_pair_of_pem(key: &str) -> (r: Option<rcgen::KeyPair>)
    ensures
        r.is_some() == key_pem_readable(key@),
{
    rcgen::KeyPair::from_pem(key).ok()
}

/// Whether `CertificateParams::from_ca_cert_pem` reads a text as a
/// certificate: the text is a PEM document that holds a certificate which
/// `CertificateParams::from_ca_cert_der` reads.
pub uninterp spec fn ca_pem_readable(pem: Seq<char>) -> bool;

/// The parameters of a certificate, read from its PEM form with
/// `CertificateParams::from_ca_cert_pem`. The key is taken along as it is:
/// whether parameters come back depends on the text of the certificate
/// alone.
#[verifier::external_body]
fn ca_params_of_pem(pem: &str, key: rcgen::KeyPair) -> (r: Option<LeafParams>)
    ensures
        r.is_some() == ca_pem_readable(pem@),
{
    rcgen::CertificateParams::from_ca_cert_pem(pem, key).ok()
}

/// The certificate of a root as a signer, from the PEM forms of the
/// certificate and of its key. A root that cannot be read gives `Root`; one
/// that can be read gives the signer, unless its key is not of the kind
/// that its certificate is signed with or its subject holds a printable
/// string that cannot be written.
pub fn from_ca_cert_pem(pem: &str, key: &str) -> (r: Result<rcgen::Certificate, IssueError>)
    ensures
        r matches Err(e) ==> e == IssueError::Root || e == IssueError::Signing,
        r == Err::<rcgen::Certificate, IssueError>(IssueError::Root) <==> !(key_pem_readable(key@)
            && ca_pem_readable(pem@)),
{
    let key = match key_pair_of_pem(key) {
        Some(k) => k,
        None => {
            return Err(IssueError::Root);
        },
    };
    let params = match ca_params_of_pem(pem, key) {
        Some(p) => p,
        None => {
            return Err(IssueError::Root);
        },
    };
    if !writable_subject(&subject_values(&params)) {
        return Err(IssueError::Signing);
    }
    match certificate(params) {
        Some(c) => Ok(c),
        None => Err(IssueError::Signing),
    }
}

/// The validity of a certificate that is issued at the time `now`: it starts
/// a minute before and lasts a year.
pub open spec fn validity(now: int) -> (int, int) {
    (now - NOT_BEFORE_OFFSET, now - NOT_BEFORE_OFFSET + TTL_SECS)
}

/// The validity of a certificate that is issued now, or `None` where the
/// clock is so far off that the validity cannot be counted in seconds.
pub fn validity_window(now: i64) -> (r: Option<(i64, i64)>)
    ensures
        match r {
            Some(w) => (w.0 as int, w.1 as int) == validity(now as int),
            None => now - NOT_BEFORE_OFFSET < i64::MIN || now - NOT_BEFORE_OFFSET + TTL_SECS
                > i64::MAX,
        },
{
    match now.checked_sub(NOT_BEFORE_OFFSET) {
        None => None,
        Some(nb) => match nb.checked_add(TTL_SECS) {
            None => None,
            Some(na) => Some((nb, na)),
        },
    }
}

/// A configuration stays in the cache for less time than its certificate is
/// valid: from the moment a certificate is issued until the cache drops it,
/// the certificate is valid.
pub proof fn lemma_cached_certificate_is_valid(issued: int, used: int)
    requires
        issued <= used <= issued + CACHE_TTL,
    ensures
        validity(issued).0 <= used <= validity(issued).1,
        CACHE_TTL < TTL_SECS,
{
}

/// A certificate that is issued later starts to be valid later.
pub proof fn lemma_later_issue_is_newer(first: int, second: int)
    requires
        first < second,
    ensures
        validity(first).0 < validity(second).0,
{
}

/// What the subject of a certificate for `host` is: an IP address where
/// `host` writes one, else a DNS name.
pub fn san_kind(host: &str) -> (r: SanKind)
    ensures
        r == san_of(host@),
{
    if reads_as_ip(host) {
        SanKind::Ip
    } else {
        SanKind::Dns
    }
}

/// Whether every character of a text is one of ASCII.
pub fn all_ascii(host: &str) -> (r: bool)
    ensures
        r == is_ascii(host@),
{
    let chars = chars_of(host);
    let mut i: usize = 0;
    while i < chars.len()
        invariant
            i <= chars.len(),
            chars@ == host@,
            is_ascii(chars@.take(i as int)),
        decreases chars.len() - i,
    {
        if chars[i] > '\x7f' {
            return false;
        }
        assert forall|k: int| 0 <= k < i + 1 implies (#[trigger] chars@.take(i + 1)[k]) <= '\x7f' by {
            if k < i {
                assert(chars@.take(i as int)[k] == chars@[k]);
            }
        }
        i += 1;
    }
    assert(chars@.take(i as int) =~= chars@);
    true
}

/// What the certificate for `host` is to hold when it is issued at the time
/// `now` under the serial number `serial`: the host named as what it is, and
/// the validity from a minute before `now` for a year. There is no such
/// certificate where a certificate cannot name the validity (`Clock`), nor,
/// the validity being in order, where it cannot name the host (`Host`).
pub fn leaf_request(host: &str, serial: u64, now: i64) -> (r: Result<LeafRequest, IssueError>)
    ensures
        match r {
            Ok(q) => {
                &&& q.wf()
                &&& q.host@ == host@
                &&& q.serial == serial
                &&& (q.not_before as int, q.not_after as int) == validity(now as int)
            },
            Err(e) => match e {
                IssueError::Clock => !clock_ok(now as int),
                IssueError::Host => clock_ok(now as int) && !nameable(host@),
                _ => false,
            },
        },
{
    let window = match validity_window(now) {
        Some(w) => w,
        None => {
            return Err(IssueError::Clock);
        },
    };
    if window.0 < FIRST_SECOND || window.1 > LAST_SECOND {
        return Err(IssueError::Clock);
    }
    let san = san_kind(host);
    if san == SanKind::Dns && !all_ascii(host) {
        return Err(IssueError::Host);
    }
    Ok(LeafRequest { host: host.to_owned(), san, serial, not_before: window.0, not_after: window.1 })
}

/// The authority: the key and the certificate of the root, both in DER, and
/// what was issued of late.
pub struct RcgenAuthority {
    pub private_key: Vec<u8>,
    pub ca_cert: Vec<u8>,
    pub cache: LeafCache,
}

/// Whether a configuration is one that the authority issued by itself for a
/// request: it carries the key of the authority and the protocols asked for,
/// and its certificate is valid for a year.
pub open spec fn is_fresh(c: ServerTlsConfig, key: Seq<u8>, alpn: Vec<Vec<u8>>) -> bool {
    &&& c.key_der@ == key
    &&& c.alpn == alpn
    &&& c.not_after == c.not_before + TTL_SECS
}

/// Whether a configuration is the one that carries an issued certificate:
/// the certificate, the key of the authority, the protocols asked for, and
/// the validity that was asked of the certificate.
pub open spec fn carries(
    c: ServerTlsConfig,
    der: Vec<u8>,
    key: Seq<u8>,
    alpn: Vec<Vec<u8>>,
    request: LeafRequest,
) -> bool {
    &&& c.cert_der == der
    &&& c.key_der@ == key
    &&& c.alpn == alpn
    &&& c.not_before == request.not_before
    &&& c.not_after == request.not_after
}

impl RcgenAuthority {
    /// What the authority holds at the moment, by target.
    pub open spec fn issued(&self) -> Map<Seq<char>, Arc<ServerTlsConfig>> {
        cache_entries(self.cache)
    }

    /// Whether the key and the certificate of the root can both be read.
    pub open spec fn readable(&self) -> bool {
        root_readable(self.private_key@, self.ca_cert@)
    }

    /// The authority with the given root and nothing issued, if the key and
    /// the certificate of the root can be read, and else an error.
    pub fn new(private_key: Vec<u8>, ca_cert: Vec<u8>, cache_size: u64) -> (r: Result<
        RcgenAuthority,
        Error,
    >)
        ensures
            r is Ok <==> root_readable(private_key@, ca_cert@),
            match r {
                Ok(a) => a.private_key == private_key && a.ca_cert == ca_cert && a.issued()
                    == Map::<Seq<char>, Arc<ServerTlsConfig>>::empty(),
                Err(e) => e matches Error::Tls(why) && why@ == refusal(IssueError::Root),
            },
    {
        let ca = RcgenAuthority {
            private_key,
            ca_cert,
            cache: new_cache(cache_size, CACHE_TTL),
        };
        if !ca.validate() {
            return Err(Error::Tls(IssueError::Root.to_string()));
        }
        Ok(ca)
    }

    /// Whether the key and the certificate of the root can both be read.
    pub fn validate(&self) -> (r: bool)
        ensures
            r == self.readable(),
    {
        match key_pair(self.private_key.as_slice()) {
            Some(key) => ca_params(self.ca_cert.as_slice(), key).is_some(),
            None => false,
        }
    }

    /// Issues the leaf certificate that a request describes, signed by the
    /// root and carrying the key of the root, and hands it out in DER.
    ///
    /// A request that a certificate cannot hold is refused: `Clock` where the
    /// validity is out of range, and else `Host` where the host is not named
    /// as what it is or cannot be named. Under a root that cannot be read
    /// nothing is issued (`Root`). In every other case the signing decides:
    /// either the certificate comes back, or `Signing`.
    pub fn gen_cert(&self, request: &LeafRequest) -> (r: Result<Vec<u8>, IssueError>)
        ensures
            match r {
                Ok(_) => request.wf() && self.readable(),
                Err(e) => match e {
                    IssueError::Clock => !request.timed(),
                    IssueError::Host => request.timed() && !request.named(),
                    IssueError::Root => request.wf() && !self.readable(),
                    IssueError::Signing => request.wf() && self.readable(),
                },
            },
    {
        if request.not_before < FIRST_SECOND || request.not_before > LAST_SECOND
            || request.not_after < FIRST_SECOND || request.not_after > LAST_SECOND {
            return Err(IssueError::Clock);
        }
        let san = san_kind(request.host.as_str());
        if san != request.san || (san == SanKind::Dns && !all_ascii(request.host.as_str())) {
            return Err(IssueError::Host);
        }
        let root = match signer(self.private_key.as_slice(), self.ca_cert.as_slice()) {
            Ok(c) => c,
            Err(e) => {
                return Err(e);
            },
        };
        let key = match key_pair(self.private_key.as_slice()) {
            Some(k) => k,
            None => {
                return Err(IssueError::Root);
            },
        };
        signed(sign_leaf(request, key, &root))
    }

    /// Keeps what was issued for a target. A certificate becomes the
    /// configuration that carries it, with the key of the root and the
    /// protocols asked for; the configuration is put into the cache under the
    /// target and handed out. Where nothing was issued, the reason becomes
    /// the error and the cache stays as it is.
    pub fn keep(
        &mut self,
        request: LeafRequest,
        made: Result<Vec<u8>, IssueError>,
        authority: &str,
        alpn: Vec<Vec<u8>>,
    ) -> (r: Result<Arc<ServerTlsConfig>, Error>)
        ensures
            final(self).private_key == old(self).private_key,
            final(self).ca_cert == old(self).ca_cert,
            match made {
                Ok(der) => r matches Ok(c) && carries(*c, der, old(self).private_key@, alpn, request)
                    && final(self).issued().submap_of(old(self).issued().insert(authority@, c)),
                Err(e) => r matches Err(Error::Tls(why)) && why@ == refusal(e) && final(self).issued()
                    == old(self).issued(),
            },
    {
        match made {
            Ok(der) => {
                let cfg = ServerTlsConfig {
                    cert_der: der,
                    key_der: self.private_key.clone(),
                    alpn,
                    not_before: request.not_before,
                    not_after: request.not_after,
                };
                let cfg = Arc::new(cfg);
                let out = share(&cfg);
                cache_insert(&mut self.cache, authority.to_owned(), cfg);
                Ok(out)
            },
            Err(e) => Err(Error::Tls(e.to_string())),
        }
    }

    /// The configuration for a target, given what the cache holds for it: what
    /// the cache holds is handed out as it is; else a certificate for `host`
    /// is issued at the time `now` and kept.
    ///
    /// On a miss, a clock that is out of range, a host that cannot be named
    /// and a root that cannot be read each give their error; on every other
    /// input the signing decides, and what comes back then is the
    /// configuration for a certificate that is valid from a minute before
    /// `now` for a year.
    pub fn serve(
        &mut self,
        hit: Option<Arc<ServerTlsConfig>>,
        authority: &str,
        host: &str,
        alpn: Vec<Vec<u8>>,
        now: i64,
    ) -> (r: Result<Arc<ServerTlsConfig>, Error>)
        ensures
            final(self).private_key == old(self).private_key,
            final(self).ca_cert == old(self).ca_cert,
            match hit {
                Some(c) => r == Ok::<Arc<ServerTlsConfig>, Error>(c) && final(self).issued()
                    == old(self).issued(),
                None => match r {
                    Ok(c) => {
                        &&& is_fresh(*c, old(self).private_key@, alpn)
                        &&& (c.not_before as int, c.not_after as int) == validity(now as int)
                        &&& final(self).issued().submap_of(old(self).issued().insert(authority@, c))
                        &&& clock_ok(now as int) && nameable(host@) && old(self).readable()
                    },
                    Err(e) => {
                        &&& final(self).issued() == old(self).issued()
                        &&& e matches Error::Tls(why)
                        &&& why@ == refusal(
                            if !clock_ok(now as int) {
                                IssueError::Clock
                            } else if !nameable(host@) {
                                IssueError::Host
                            } else if !old(self).readable() {
                                IssueError::Root
                            } else {
                                IssueError::Signing
                            },
                        )
                    },
                },
            },
    {
        match hit {
            Some(c) => Ok(c),
            None => {
                let request = match leaf_request(host, random_serial(), now) {
                    Ok(q) => q,
                    Err(e) => {
                        return Err(Error::Tls(e.to_string()));
                    },
                };
                let made = self.gen_cert(&request);
                self.keep(request, made, authority, alpn)
            },
        }
    }

    /// The configuration under which the engine answers for a target. Within
    /// the time for which a configuration is kept, the same target gets the
    /// same configuration: what comes back is what the cache held for the
    /// target, or else a configuration that is issued now, for `host`, which
    /// is the host of the target.
    ///
    /// An error says why nothing was issued: the clock is out of range, the
    /// host cannot be named, the root cannot be read, or the signing failed.
    pub fn gen_server_config(&mut self, authority: &str, host: &str, alpn: Vec<Vec<u8>>) -> (r:
        Result<Arc<ServerTlsConfig>, Error>)
        ensures
            final(self).private_key == old(self).private_key,
            final(self).ca_cert == old(self).ca_cert,
            match r {
                Ok(c) => {
                    &&& final(self).issued().submap_of(old(self).issued().insert(authority@, c))
                    &&& {
                        ||| old(self).issued().dom().contains(authority@) && old(self).issued()[authority@] == c
                        ||| is_fresh(*c, old(self).private_key@, alpn) && nameable(host@) && old(self).readable()
                    }
                },
                Err(e) => {
                    &&& final(self).issued().submap_of(old(self).issued())
                    &&& e matches Error::Tls(why)
                    &&& {
                        ||| why@ == refusal(IssueError::Clock)
                        ||| why@ == refusal(IssueError::Host) && !nameable(host@)
                        ||| why@ == refusal(IssueError::Root) && nameable(host@) && !old(self).readable()
                        ||| why@ == refusal(IssueError::Signing) && nameable(host@) && old(self).readable()
                    }
                },
            },
    {
        let hit = cache_get(&mut self.cache, authority);
        let ghost held = self.issued();
        let r = self.serve(hit, authority, host, alpn, now_unix());
        proof {
            if r is Ok {
                let c = r->Ok_0;
                let before = old(self).issued().insert(authority@, c);
                assert forall|k: Seq<char>| #[trigger]
                    self.issued().dom().contains(k) implies before.dom().contains(k)
                    && self.issued()[k] == before[k] by {
                    if hit.is_some() {
                        assert(held.dom().contains(k));
                    } else {
                        assert(held.insert(authority@, c).dom().contains(k));
                    }
                }
            }
        }
        r
    }
}

/// What an attempt to sign gives: the certificate, or `Signing`.
pub fn signed(made: Option<Vec<u8>>) -> (r: Result<Vec<u8>, IssueError>)
    ensures
        r == match made {
            Some(der) => Ok::<Vec<u8>, IssueError>(der),
            None => Err::<Vec<u8>, IssueError>(IssueError::Signing),
        },
{
    match made {
        Some(der) => Ok(der),
        None => Err(IssueError::Signing),
    }
}

} // verus!
