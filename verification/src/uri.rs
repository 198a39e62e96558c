//! Addresses: their parts, their query parameters, and percent encoding.

use vstd::prelude::*;
use vstd::string::*;
use vstd::utf8::{decode_utf8, encode_utf8, valid_utf8};
use std::str::FromStr;
use crate::text::{
    chars_of, extend_chars, extend_str, push_decimal, split, split_once, split_once_spec,
    split_spec, string_of, decimal_nat,
};

verus! {

/// The parts of an address as its parser hands them out; a part that the
/// address does not have is `None`.
pub struct RawUri {
    pub scheme: Option<String>,
    pub authority: Option<String>,
    pub host: Option<String>,
    pub port: Option<u16>,
    pub path: Option<String>,
    pub query: Option<String>,
}

/// A text that may be missing, as mathematical value.
pub open spec fn opt_text(s: Option<String>) -> Option<Seq<char>> {
    match s {
        Some(t) => Some(t@),
        None => None,
    }
}

/// The text, or the empty text where there is none.
pub open spec fn text_or_empty(s: Option<Seq<char>>) -> Seq<char> {
    match s {
        Some(t) => t,
        None => Seq::<char>::empty(),
    }
}

/// The parts of an address: scheme, authority, host, port, path and query.
pub type RawUriView = (
    Option<Seq<char>>,
    Option<Seq<char>>,
    Option<Seq<char>>,
    Option<u16>,
    Option<Seq<char>>,
    Option<Seq<char>>,
);

impl View for RawUri {
    type V = RawUriView;

    open spec fn view(&self) -> RawUriView {
        (
            opt_text(self.scheme),
            opt_text(self.authority),
            opt_text(self.host),
            self.port,
            opt_text(self.path),
            opt_text(self.query),
        )
    }
}

/// The parts into which `http::Uri` parses a text, or `None` where it
/// refuses the text.
pub uninterp spec fn uri_parts(s: Seq<char>) -> Option<RawUriView>;

/// Parses an address with `http::Uri::from_str` and hands out the parts that
/// the parsed address reports: scheme, authority, host, port, and the path
/// and query of its path-and-query part.
#[verifier::external_body]
pub(crate) fn parse_uri(s: &str) -> (r: Option<RawUri>)
    ensures
        r.is_some() ==> uri_parts(s@) == Some(r.unwrap()@),
        r.is_none() ==> uri_parts(s@).is_none(),
{
    let uri = hyper::Uri::from_str(s).ok()?;
    Some(
        RawUri {
            scheme: uri.scheme_str().map(|v| v.to_string()),
            authority: uri.authority().map(|v| v.to_string()),
            host: uri.host().map(|v| v.to_string()),
            port: uri.port_u16(),
            path: uri.path_and_query().map(|v| v.path().to_string()),
            query: uri.path_and_query().and_then(|v| v.query()).map(|v| v.to_string()),
        },
    )
}

/// The bytes that percent encoding leaves as they are: letters, digits,
/// `-`, `.`, `_` and `~`.
pub open spec fn is_unreserved(b: u8) -> bool {
    (48 <= b <= 57) || (65 <= b <= 90) || (97 <= b <= 122) || b == 45 || b == 46 || b == 95 || b
        == 126
}

/// The upper case hexadecimal digit of a value below sixteen.
pub open spec fn hex_digit(d: u8) -> char {
    if d < 10 {
        (48 + d) as u8 as char
    } else {
        (55 + d) as u8 as char
    }
}

/// The percent encoding of a run of bytes.
pub open spec fn percent_encoded(b: Seq<u8>) -> Seq<char>
    decreases b.len(),
{
    if b.len() == 0 {
        Seq::<char>::empty()
    } else if is_unreserved(b[0]) {
        seq![b[0] as char] + percent_encoded(b.skip(1))
    } else {
        seq!['%', hex_digit(b[0] / 16), hex_digit(b[0] % 16)] + percent_encoded(b.skip(1))
    }
}

/// The value of a hexadecimal digit of either case.
pub open spec fn hex_value(b: u8) -> Option<u8> {
    if 48 <= b <= 57 {
        Some((b - 48) as u8)
    } else if 65 <= b <= 70 {
        Some((b - 55) as u8)
    } else if 97 <= b <= 102 {
        Some((b - 87) as u8)
    } else {
        None
    }
}

/// The bytes that a percent encoded run of bytes stands for. A `%` that is
/// not followed by two hexadecimal digits stays as it is.
pub open spec fn percent_decoded(b: Seq<u8>) -> Seq<u8>
    decreases b.len(),
{
    if b.len() == 0 {
        Seq::<u8>::empty()
    } else if b[0] != 37 {
        seq![b[0]] + percent_decoded(b.skip(1))
    } else if b.len() < 3 {
        b
    } else if hex_value(b[1]).is_none() {
        seq![37u8] + percent_decoded(b.skip(1))
    } else if hex_value(b[2]).is_none() {
        seq![37u8, b[1]] + percent_decoded(b.skip(2))
    } else {
        seq![(hex_value(b[1]).unwrap() * 16 + hex_value(b[2]).unwrap()) as u8] + percent_decoded(
            b.skip(3),
        )
    }
}

/// The text that a percent encoded text stands for, where the decoded bytes
/// are UTF-8.
pub open spec fn url_decoded(s: Seq<char>) -> Option<Seq<char>> {
    let bytes = percent_decoded(encode_utf8(s));
    if valid_utf8(bytes) {
        Some(decode_utf8(bytes))
    } else {
        None
    }
}

/// Percent-encodes a text with `urlencoding::encode`: every byte of its UTF-8
/// form but letters, digits, `-`, `.`, `_` and `~` becomes `%` and two upper
/// case hexadecimal digits.
#[verifier::external_body]
pub(crate) fn encode_component(s: &str) -> (r: String)
    ensures
        r@ == percent_encoded(encode_utf8(s@)),
{
    urlencoding::encode(s).into_owned()
}

/// Decodes a percent encoded text with `urlencoding::decode`: each `%` with
/// two hexadecimal digits becomes the byte they name, and the result is the
/// text of those bytes, or `None` where they are not UTF-8.
#[verifier::external_body]
pub(crate) fn decode_component(s: &str) -> (r: Option<String>)
    ensures
        r.is_some() ==> url_decoded(s@) == Some(r.unwrap()@),
        r.is_none() ==> url_decoded(s@).is_none(),
{
    urlencoding::decode(s).ok().map(|v| v.into_owned())
}

/// A query parameter.
pub struct Param {
    pub key: String,
    pub value: String,
}

impl View for Param {
    type V = (Seq<char>, Seq<char>);

    open spec fn view(&self) -> (Seq<char>, Seq<char>) {
        (self.key@, self.value@)
    }
}

/// The position of `key` among the parameters, or their number where it is
/// not among them.
pub open spec fn param_index(ps: Seq<(Seq<char>, Seq<char>)>, key: Seq<char>) -> int
    decreases ps.len(),
{
    if ps.len() == 0 {
        0
    } else if ps[0].0 == key {
        0
    } else {
        1 + param_index(ps.skip(1), key)
    }
}

/// The parameters with `key` set to `value`: in place where the key is
/// there, at the end where it is not.
pub open spec fn put_param(
    ps: Seq<(Seq<char>, Seq<char>)>,
    key: Seq<char>,
    value: Seq<char>,
) -> Seq<(Seq<char>, Seq<char>)> {
    let i = param_index(ps, key);
    if i < ps.len() {
        ps.update(i, (key, value))
    } else {
        ps.push((key, value))
    }
}

/// The parameters without the one named `key`.
pub open spec fn drop_param(ps: Seq<(Seq<char>, Seq<char>)>, key: Seq<char>) -> Seq<
    (Seq<char>, Seq<char>),
> {
    let i = param_index(ps, key);
    if i < ps.len() {
        ps.remove(i)
    } else {
        ps
    }
}

/// No key stands twice among the parameters.
pub open spec fn distinct_keys(ps: Seq<(Seq<char>, Seq<char>)>) -> bool {
    forall|i: int, j: int| 0 <= i < j < ps.len() ==> (#[trigger] ps[i]).0 != (#[trigger] ps[j]).0
}

/// The parameters that the items of a query give, added to `acc` one after
/// the other: an item without `=` is passed over, key and value are percent
/// decoded, and a later value for a key replaces the earlier one. `None`
/// where a key or a value does not decode.
pub open spec fn params_from(
    items: Seq<Seq<char>>,
    acc: Seq<(Seq<char>, Seq<char>)>,
) -> Option<Seq<(Seq<char>, Seq<char>)>>
    decreases items.len(),
{
    if items.len() == 0 {
        Some(acc)
    } else {
        match split_once_spec(items[0], '=') {
            None => params_from(items.skip(1), acc),
            Some((k, v)) => {
                if url_decoded(k).is_none() || url_decoded(v).is_none() {
                    None
                } else {
                    params_from(
                        items.skip(1),
                        put_param(acc, url_decoded(k).unwrap(), url_decoded(v).unwrap()),
                    )
                }
            },
        }
    }
}

/// The parameters of a query string.
pub open spec fn query_params(query: Seq<char>) -> Option<Seq<(Seq<char>, Seq<char>)>> {
    params_from(split_spec(query, '&'), Seq::empty())
}

/// An address in parts, for reading and changing.
pub struct JsUri {
    pub scheme: String,
    pub authority: String,
    pub host: String,
    pub port: u16,
    pub path: String,
    pub params: Vec<Param>,
}

/// An address as mathematical values.
pub struct JsUriView {
    pub scheme: Seq<char>,
    pub authority: Seq<char>,
    pub host: Seq<char>,
    pub port: u16,
    pub path: Seq<char>,
    pub params: Seq<(Seq<char>, Seq<char>)>,
}

impl View for JsUri {
    type V = JsUriView;

    open spec fn view(&self) -> JsUriView {
        JsUriView {
            scheme: self.scheme@,
            authority: self.authority@,
            host: self.host@,
            port: self.port,
            path: self.path@,
            params: self.params@.map_values(|p: Param| p@),
        }
    }
}

/// Why an address could not be put together or taken apart.
#[derive(Clone, Copy, Debug, PartialEq, Eq, Structural)]
pub enum UriError {
    /// The text is no address.
    InvalidUri,
    /// A key or a value of the query does not decode to text.
    InvalidQuery,
    /// The scheme is empty.
    InvalidScheme,
    /// Both the authority and the host are empty.
    InvalidAuthorityAndHost,
}

impl UriError {
    /// The error in words.
    pub fn message(&self) -> (r: &'static str)
        ensures
            r@ == match *self {
                UriError::InvalidUri => "Invalid uri"@,
                UriError::InvalidQuery => "Invalid query"@,
                UriError::InvalidScheme => "Invalid scheme"@,
                UriError::InvalidAuthorityAndHost => "Invalid authority and host"@,
            },
    {
        match self {
            UriError::InvalidUri => "Invalid uri",
            UriError::InvalidQuery => "Invalid query",
            UriError::InvalidScheme => "Invalid scheme",
            UriError::InvalidAuthorityAndHost => "Invalid authority and host",
        }
    }
}

/// The address that the parsed parts give.
pub open spec fn uri_from_raw(raw: RawUriView) -> Option<JsUriView> {
    let params = match raw.5 {
        Some(q) => query_params(q),
        None => Some(Seq::empty()),
    };
    match params {
        None => None,
        Some(ps) => Some(
            JsUriView {
                scheme: text_or_empty(raw.0),
                authority: text_or_empty(raw.1),
                host: text_or_empty(raw.2),
                port: match raw.3 {
                    Some(p) => p,
                    None => 0u16,
                },
                path: text_or_empty(raw.4),
                params: ps,
            },
        ),
    }
}

/// The path as it stands in an assembled address: with a leading `/`, and
/// without trailing ones.
pub open spec fn strip_slashes(s: Seq<char>) -> Seq<char>
    decreases s.len(),
{
    if s.len() > 0 && s[s.len() - 1] == '/' {
        strip_slashes(s.take(s.len() - 1))
    } else {
        s
    }
}

/// The query that the parameters give: `key=value` pairs, percent encoded and
/// joined by `&`.
pub open spec fn query_text(ps: Seq<(Seq<char>, Seq<char>)>) -> Seq<char>
    decreases ps.len(),
{
    if ps.len() == 0 {
        Seq::<char>::empty()
    } else {
        let last = ps[ps.len() - 1];
        let item = percent_encoded(encode_utf8(last.0)) + seq!['='] + percent_encoded(
            encode_utf8(last.1),
        );
        if ps.len() == 1 {
            item
        } else {
            query_text(ps.take(ps.len() - 1)) + seq!['&'] + item
        }
    }
}

/// The scheme, `://` and the authority; or, where the authority is empty,
/// the host, followed by `:` and the port where the port is not zero.
pub open spec fn origin_text(u: JsUriView) -> Seq<char> {
    u.scheme + "://"@ + (if u.authority.len() == 0 {
        u.host + (if u.port != 0 {
            seq![':'] + decimal_nat(u.port as nat)
        } else {
            Seq::<char>::empty()
        })
    } else {
        u.authority
    })
}

/// The assembled address.
pub open spec fn assembled(u: JsUriView) -> Seq<char> {
    let head = origin_text(u);
    let with_path = if u.path.len() == 0 {
        head
    } else if u.path[0] == '/' {
        strip_slashes(head + u.path)
    } else {
        strip_slashes(head + seq!['/'] + u.path)
    };
    if u.params.len() == 0 {
        with_path
    } else {
        with_path + seq!['?'] + query_text(u.params)
    }
}

/// When an address can be assembled.
pub open spec fn assemble_error(u: JsUriView) -> Option<UriError> {
    if u.scheme.len() == 0 {
        Some(UriError::InvalidScheme)
    } else if u.authority.len() == 0 && u.host.len() == 0 {
        Some(UriError::InvalidAuthorityAndHost)
    } else {
        None
    }
}

fn text_of(s: Option<String>) -> (r: String)
    ensures
        r@ == text_or_empty(opt_text(s)),
{
    match s {
        Some(t) => t,
        None => String::new(),
    }
}

fn find_param(ps: &Vec<Param>, key: &[char]) -> (r: usize)
    ensures
        r == param_index(ps@.map_values(|p: Param| p@), key@),
        r <= ps@.len(),
{
    let ghost view = ps@.map_values(|p: Param| p@);
    let mut i: usize = 0;
    assert(view.skip(0) =~= view);
    while i < ps.len()
        invariant
            i <= ps.len(),
            view == ps@.map_values(|p: Param| p@),
            param_index(view, key@) == i + param_index(view.skip(i as int), key@),
        decreases ps.len() - i,
    {
        let k = chars_of(ps[i].key.as_str());
        assert(view.skip(i as int)[0] == view[i as int]);
        assert(view[i as int] == ps@[i as int]@);
        if crate::text::same_chars(k.as_slice(), key) {
            return i;
        }
        assert(view.skip(i as int).skip(1) =~= view.skip(i + 1));
        i += 1;
    }
    assert(view.skip(i as int).len() == 0);
    i
}

impl JsUri {
    /// The address that the text writes.
    pub fn new(url: &str) -> (r: Result<JsUri, UriError>)
        ensures
            match r {
                Ok(u) => uri_parts(url@).is_some() && uri_from_raw(uri_parts(url@).unwrap())
                    == Some(u@),
                Err(e) => {
                    &&& e == UriError::InvalidUri ==> uri_parts(url@).is_none()
                    &&& e != UriError::InvalidUri ==> e == UriError::InvalidQuery && uri_parts(
                        url@,
                    ).is_some() && uri_from_raw(uri_parts(url@).unwrap()).is_none()
                },
            },
    {
        match parse_uri(url) {
            None => Err(UriError::InvalidUri),
            Some(raw) => JsUri::from_raw(raw),
        }
    }

    /// The address with the given parts: a missing part is empty, a missing
    /// port zero, and the query is taken apart into parameters.
    pub fn from_raw(raw: RawUri) -> (r: Result<JsUri, UriError>)
        ensures
            match r {
                Ok(u) => uri_from_raw(raw@) == Some(u@),
                Err(e) => e == UriError::InvalidQuery && uri_from_raw(raw@).is_none(),
            },
    {
        let mut params: Vec<Param> = Vec::new();
        match &raw.query {
            Some(q) => {
                let qc = chars_of(q.as_str());
                let items = split(qc.as_slice(), '&');
                let mut i: usize = 0;
                assert(items.deep_view().skip(0) =~= items.deep_view());
                assert(params@.map_values(|p: Param| p@) =~= Seq::empty());
                while i < items.len()
                    invariant
                        i <= items.len(),
                        opt_text(raw.query) == Some(q@),
                        params_from(
                            items.deep_view().skip(i as int),
                            params@.map_values(|p: Param| p@),
                        ) == query_params(q@),
                    decreases items.len() - i,
                {
                    let ghost rest = items.deep_view().skip(i as int);
                    let ghost acc = params@.map_values(|p: Param| p@);
                    assert(rest[0] == items@[i as int]@);
                    assert(rest.skip(1) =~= items.deep_view().skip(i + 1));
                    match split_once(items[i].as_slice(), '=') {
                        None => {},
                        Some((k, v)) => {
                            let ks = string_of(k.as_slice());
                            let vs = string_of(v.as_slice());
                            let key = match decode_component(ks.as_str()) {
                                Some(t) => t,
                                None => {
                                    return Err(UriError::InvalidQuery);
                                },
                            };
                            let value = match decode_component(vs.as_str()) {
                                Some(t) => t,
                                None => {
                                    return Err(UriError::InvalidQuery);
                                },
                            };
                            let kc = chars_of(key.as_str());
                            let at = find_param(&params, kc.as_slice());
                            let p = Param { key, value };
                            if at < params.len() {
                                params.set(at, p);
                            } else {
                                params.push(p);
                            }
                            assert(params@.map_values(|p: Param| p@) =~= put_param(
                                acc,
                                key@,
                                value@,
                            ));
                        },
                    }
                    i += 1;
                }
            },
            None => {
                assert(params@.map_values(|p: Param| p@) =~= Seq::empty());
            },
        }
        let port: u16 = match raw.port {
            Some(p) => p,
            None => 0,
        };
        Ok(
            JsUri {
                scheme: text_of(raw.scheme),
                authority: text_of(raw.authority),
                host: text_of(raw.host),
                port,
                path: text_of(raw.path),
                params,
            },
        )
    }

    /// Puts the address together: scheme, authority or host and port, path,
    /// and the parameters as query.
    pub fn assemble(&self) -> (r: Result<String, UriError>)
        ensures
            match r {
                Ok(s) => assemble_error(self@).is_none() && s@ == assembled(self@),
                Err(e) => assemble_error(self@) == Some(e),
            },
    {
        let scheme = chars_of(self.scheme.as_str());
        if scheme.len() == 0 {
            return Err(UriError::InvalidScheme);
        }
        let authority = chars_of(self.authority.as_str());
        let host = chars_of(self.host.as_str());
        let mut uri: Vec<char> = Vec::new();
        extend_chars(&mut uri, scheme.as_slice());
        extend_str(&mut uri, "://");
        if authority.len() == 0 {
            if host.len() == 0 {
                return Err(UriError::InvalidAuthorityAndHost);
            }
            extend_chars(&mut uri, host.as_slice());
            if self.port != 0 {
                uri.push(':');
                push_decimal(&mut uri, self.port as u64);
            }
        } else {
            extend_chars(&mut uri, authority.as_slice());
        }
        assert(uri@ =~= origin_text(self@));
        let path = chars_of(self.path.as_str());
        if path.len() > 0 {
            if path[0] != '/' {
                uri.push('/');
            }
            extend_chars(&mut uri, path.as_slice());
            let ghost full = uri@;
            assert(full =~= if path@[0] == '/' {
                origin_text(self@) + self@.path
            } else {
                origin_text(self@) + seq!['/'] + self@.path
            });
            while uri.len() > 0 && uri[uri.len() - 1] == '/'
                invariant
                    strip_slashes(uri@) == strip_slashes(full),
                decreases uri.len(),
            {
                let ghost before = uri@;
                uri.pop();
                assert(uri@ =~= before.take(before.len() - 1));
            }
            assert(strip_slashes(uri@) == uri@);
        }
        let ghost with_path = uri@;
        assert(with_path == if self@.path.len() == 0 {
            origin_text(self@)
        } else if self@.path[0] == '/' {
            strip_slashes(origin_text(self@) + self@.path)
        } else {
            strip_slashes(origin_text(self@) + seq!['/'] + self@.path)
        });
        if self.params.len() > 0 {
            uri.push('?');
            let mut i: usize = 0;
            let ghost ps = self@.params;
            assert(ps.take(0) =~= Seq::empty());
            assert(uri@ =~= with_path + seq!['?'] + query_text(ps.take(0)));
            while i < self.params.len()
                invariant
                    i <= self.params.len(),
                    ps == self.params@.map_values(|p: Param| p@),
                    uri@ == with_path + seq!['?'] + query_text(ps.take(i as int)),
                decreases self.params.len() - i,
            {
                let ghost before = uri@;
                if i > 0 {
                    uri.push('&');
                }
                let k = encode_component(self.params[i].key.as_str());
                let v = encode_component(self.params[i].value.as_str());
                extend_str(&mut uri, k.as_str());
                uri.push('=');
                extend_str(&mut uri, v.as_str());
                proof {
                    let next = ps.take(i + 1);
                    assert(next.take(next.len() - 1) =~= ps.take(i as int));
                    assert(next[next.len() - 1] == self.params@[i as int]@);
                    assert(uri@ =~= with_path + seq!['?'] + query_text(next));
                }
                i += 1;
            }
            assert(ps.take(ps.len() as int) =~= ps);
        }
        Ok(string_of(uri.as_slice()))
    }

    /// The assembled address.
    pub fn to_string(&self) -> (r: Result<String, UriError>)
        ensures
            match r {
                Ok(s) => assemble_error(self@).is_none() && s@ == assembled(self@),
                Err(e) => assemble_error(self@) == Some(e),
            },
    {
        self.assemble()
    }

    /// Takes the parameter named `key` out and hands its value back.
    pub fn remove_param(&mut self, key: &str) -> (r: Option<String>)
        ensures
            final(self)@.params == drop_param(old(self)@.params, key@),
            final(self)@.scheme == old(self)@.scheme,
            final(self)@.authority == old(self)@.authority,
            final(self)@.host == old(self)@.host,
            final(self)@.port == old(self)@.port,
            final(self)@.path == old(self)@.path,
            match r {
                Some(v) => param_index(old(self)@.params, key@) < old(self)@.params.len() && v@
                    == old(self)@.params[param_index(old(self)@.params, key@)].1,
                None => param_index(old(self)@.params, key@) == old(self)@.params.len(),
            },
    {
        let kc = chars_of(key);
        let at = find_param(&self.params, kc.as_slice());
        if at < self.params.len() {
            let p = self.params.remove(at);
            assert(self.params@.map_values(|p: Param| p@) =~= drop_param(old(self)@.params, key@));
            Some(p.value)
        } else {
            None
        }
    }
}

impl JsUri {
    /// A copy with the same parts.
    pub fn copy(&self) -> (r: JsUri)
        ensures
            r@ == self@,
    {
        let mut params: Vec<Param> = Vec::new();
        let mut i: usize = 0;
        let ghost all = self@.params;
        assert(params@.map_values(|p: Param| p@) =~= all.take(0));
        while i < self.params.len()
            invariant
                i <= self.params.len(),
                all == self.params@.map_values(|p: Param| p@),
                params@.map_values(|p: Param| p@) == all.take(i as int),
            decreases self.params.len() - i,
        {
            let ghost before = params@.map_values(|p: Param| p@);
            let p = Param { key: self.params[i].key.clone(), value: self.params[i].value.clone() };
            assert(p@ == self.params@[i as int]@);
            params.push(p);
            assert(params@.map_values(|p: Param| p@) =~= before.push(self.params@[i as int]@));
            assert(all.take(i + 1) =~= all.take(i as int).push(all[i as int]));
            i += 1;
        }
        assert(all.take(all.len() as int) =~= all);
        JsUri {
            scheme: self.scheme.clone(),
            authority: self.authority.clone(),
            host: self.host.clone(),
            port: self.port,
            path: self.path.clone(),
            params,
        }
    }
}

} // verus!
