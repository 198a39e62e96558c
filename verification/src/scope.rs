//! The identity of a client session, and what is known of its user agent.

use vstd::prelude::*;
use vstd::string::*;
use vstd::utf8::encode_utf8;
use crate::text::{decimal, extend_str, push_signed, string_of};
use crate::utils::{hash, hash_spec};

verus! {

/// The number of characters of a scope's `id`.
pub const SCOPE_ID_LEN: u8 = 16;

/// The alphabet of a scope's `id`: digits and lower case letters.
pub const SCOPE_ID_CODES: u8 = 12;

/// The identity of one logical client session. `id` is a hash of the other
/// fields, so two scopes with the same fields have the same `id`.
#[derive(Clone, Debug, PartialEq, Eq, Hash)]
pub struct Scope {
    pub id: String,
    pub ip: String,
    pub scheme: String,
    pub host: String,
    pub ua: String,
    pub email: String,
    pub custom: String,
    pub window: i32,
    pub tab: i32,
    pub frame: i32,
}

/// A scope as mathematical values.
pub struct ScopeView {
    pub id: Seq<char>,
    pub ip: Seq<char>,
    pub scheme: Seq<char>,
    pub host: Seq<char>,
    pub ua: Seq<char>,
    pub email: Seq<char>,
    pub custom: Seq<char>,
    pub window: int,
    pub tab: int,
    pub frame: int,
}

impl View for Scope {
    type V = ScopeView;

    open spec fn view(&self) -> ScopeView {
        ScopeView {
            id: self.id@,
            ip: self.ip@,
            scheme: self.scheme@,
            host: self.host@,
            ua: self.ua@,
            email: self.email@,
            custom: self.custom@,
            window: self.window as int,
            tab: self.tab as int,
            frame: self.frame as int,
        }
    }
}

/// The text that is hashed: the fields in a fixed order, joined by dots.
pub open spec fn scope_text(
    ip: Seq<char>,
    scheme: Seq<char>,
    host: Seq<char>,
    ua: Seq<char>,
    email: Seq<char>,
    custom: Seq<char>,
    window: int,
    tab: int,
    frame: int,
) -> Seq<char> {
    scheme + seq!['.'] + host + seq!['.'] + ua + seq!['.'] + ip + seq!['.'] + email + seq!['.']
        + custom + seq!['.'] + decimal(window) + seq!['.'] + decimal(tab) + seq!['.'] + decimal(
        frame,
    )
}

/// The `id` that belongs to the given fields.
pub open spec fn scope_id(
    ip: Seq<char>,
    scheme: Seq<char>,
    host: Seq<char>,
    ua: Seq<char>,
    email: Seq<char>,
    custom: Seq<char>,
    window: int,
    tab: int,
    frame: int,
) -> Seq<char> {
    hash_spec(
        encode_utf8(scope_text(ip, scheme, host, ua, email, custom, window, tab, frame)),
        SCOPE_ID_LEN,
        SCOPE_ID_CODES,
    )
}

/// The `id` that belongs to the fields of `v`, whatever its own `id` says.
pub open spec fn id_of(v: ScopeView) -> Seq<char> {
    scope_id(v.ip, v.scheme, v.host, v.ua, v.email, v.custom, v.window, v.tab, v.frame)
}

/// A scope whose `id` is the hash of its other fields.
pub open spec fn well_formed(v: ScopeView) -> bool {
    v.id == id_of(v)
}

/// What `{:?}` prints for a string: the string between double quotes, with
/// the characters escaped that `str`'s `Debug` escapes.
pub uninterp spec fn quoted(s: Seq<char>) -> Seq<char>;

/// Formats a string slice with `{:?}`, the `Debug` form of `str`.
#[verifier::external_body]
fn quote(s: &str) -> (r: String)
    ensures
        r@ == quoted(s@),
{
    format!("{:?}", s)
}

/// The line that describes a scope, given each text field as it is to be
/// shown.
pub open spec fn layout(
    id: Seq<char>,
    ip: Seq<char>,
    scheme: Seq<char>,
    host: Seq<char>,
    ua: Seq<char>,
    email: Seq<char>,
    custom: Seq<char>,
    window: int,
    tab: int,
    frame: int,
) -> Seq<char> {
    "Scope { id: "@ + id + ", ip: "@ + ip + ", scheme: "@ + scheme + ", host: "@ + host + ", ua: "@
        + ua + ", email: "@ + email + ", custom: "@ + custom + ", window: "@ + decimal(window)
        + ", tab: "@ + decimal(tab) + ", frame: "@ + decimal(frame) + " }"@
}

/// Writes the line that describes a scope from its text fields as they are
/// to be shown and its three numbers.
pub fn describe(
    id: &str,
    ip: &str,
    scheme: &str,
    host: &str,
    ua: &str,
    email: &str,
    custom: &str,
    window: i32,
    tab: i32,
    frame: i32,
) -> (r: String)
    ensures
        r@ == layout(
            id@,
            ip@,
            scheme@,
            host@,
            ua@,
            email@,
            custom@,
            window as int,
            tab as int,
            frame as int,
        ),
{
    let mut v: Vec<char> = Vec::new();
    extend_str(&mut v, "Scope { id: ");
    extend_str(&mut v, id);
    extend_str(&mut v, ", ip: ");
    extend_str(&mut v, ip);
    extend_str(&mut v, ", scheme: ");
    extend_str(&mut v, scheme);
    extend_str(&mut v, ", host: ");
    extend_str(&mut v, host);
    extend_str(&mut v, ", ua: ");
    extend_str(&mut v, ua);
    extend_str(&mut v, ", email: ");
    extend_str(&mut v, email);
    extend_str(&mut v, ", custom: ");
    extend_str(&mut v, custom);
    extend_str(&mut v, ", window: ");
    push_signed(&mut v, window as i64);
    extend_str(&mut v, ", tab: ");
    push_signed(&mut v, tab as i64);
    extend_str(&mut v, ", frame: ");
    push_signed(&mut v, frame as i64);
    extend_str(&mut v, " }");
    assert(v@ =~= layout(
        id@,
        ip@,
        scheme@,
        host@,
        ua@,
        email@,
        custom@,
        window as int,
        tab as int,
        frame as int,
    ));
    string_of(v.as_slice())
}

/// The encoding of a text that holds a character holds a byte.
pub proof fn lemma_encoding_not_empty(s: Seq<char>)
    requires
        s.len() > 0,
    ensures
        encode_utf8(s).len() > 0,
{
    assert(vstd::utf8::encode_scalar(s[0] as u32).len() > 0);
}

impl Scope {
    /// The scope with the given fields; its `id` is their hash.
    pub fn new(
        ip: String,
        scheme: String,
        host: String,
        ua: String,
        email: String,
        custom: String,
        window: i32,
        tab: i32,
        frame: i32,
    ) -> (r: Self)
        ensures
            r@.ip == ip@,
            r@.scheme == scheme@,
            r@.host == host@,
            r@.ua == ua@,
            r@.email == email@,
            r@.custom == custom@,
            r@.window == window,
            r@.tab == tab,
            r@.frame == frame,
            r@.id == scope_id(
                ip@,
                scheme@,
                host@,
                ua@,
                email@,
                custom@,
                window as int,
                tab as int,
                frame as int,
            ),
            well_formed(r@),
    {
        let mut scope = Scope {
            ip,
            scheme,
            host,
            ua,
            email,
            custom,
            window,
            tab,
            frame,
            id: String::new(),
        };
        let id = scope.hash();
        scope.id = id;
        scope
    }

    /// The hash of the fields other than `id`.
    pub fn hash(&self) -> (r: String)
        ensures
            r@ == id_of(self@),
    {
        let mut v: Vec<char> = Vec::new();
        extend_str(&mut v, self.scheme.as_str());
        v.push('.');
        extend_str(&mut v, self.host.as_str());
        v.push('.');
        extend_str(&mut v, self.ua.as_str());
        v.push('.');
        extend_str(&mut v, self.ip.as_str());
        v.push('.');
        extend_str(&mut v, self.email.as_str());
        v.push('.');
        extend_str(&mut v, self.custom.as_str());
        v.push('.');
        push_signed(&mut v, self.window as i64);
        v.push('.');
        push_signed(&mut v, self.tab as i64);
        v.push('.');
        push_signed(&mut v, self.frame as i64);
        let ghost text = scope_text(
            self@.ip,
            self@.scheme,
            self@.host,
            self@.ua,
            self@.email,
            self@.custom,
            self@.window,
            self@.tab,
            self@.frame,
        );
        assert(v@ =~= text);
        let s = string_of(v.as_slice());
        proof {
            assert(text.len() > 0);
            lemma_encoding_not_empty(text);
        }
        hash(s.as_str().as_bytes(), SCOPE_ID_LEN, SCOPE_ID_CODES)
    }

    /// The scope in one line: its name, then each field with its value, the
    /// texts quoted as `{:?}` quotes them.
    pub fn to_string(&self) -> (r: String)
        ensures
            r@ == layout(
                quoted(self@.id),
                quoted(self@.ip),
                quoted(self@.scheme),
                quoted(self@.host),
                quoted(self@.ua),
                quoted(self@.email),
                quoted(self@.custom),
                self@.window,
                self@.tab,
                self@.frame,
            ),
    {
        let id = quote(self.id.as_str());
        let ip = quote(self.ip.as_str());
        let scheme = quote(self.scheme.as_str());
        let host = quote(self.host.as_str());
        let ua = quote(self.ua.as_str());
        let email = quote(self.email.as_str());
        let custom = quote(self.custom.as_str());
        describe(
            id.as_str(),
            ip.as_str(),
            scheme.as_str(),
            host.as_str(),
            ua.as_str(),
            email.as_str(),
            custom.as_str(),
            self.window,
            self.tab,
            self.frame,
        )
    }

    /// Whether two scopes hold the same values.
    pub fn same(&self, other: &Scope) -> (r: bool)
        ensures
            r == (self@ == other@),
    {
        self.id == other.id && self.ip == other.ip && self.scheme == other.scheme && self.host
            == other.host && self.ua == other.ua && self.email == other.email && self.custom
            == other.custom && self.window == other.window && self.tab == other.tab && self.frame
            == other.frame
    }

    /// A copy that holds the same values.
    pub fn copy(&self) -> (r: Scope)
        ensures
            r@ == self@,
    {
        Scope {
            id: self.id.clone(),
            ip: self.ip.clone(),
            scheme: self.scheme.clone(),
            host: self.host.clone(),
            ua: self.ua.clone(),
            email: self.email.clone(),
            custom: self.custom.clone(),
            window: self.window,
            tab: self.tab,
            frame: self.frame,
        }
    }
}

/// Two scopes made from the same fields have the same `id`: the `id` is a
/// function of the fields and of nothing else.
pub proof fn lemma_same_fields_same_id(a: ScopeView, b: ScopeView)
    requires
        well_formed(a),
        well_formed(b),
        a.ip == b.ip,
        a.scheme == b.scheme,
        a.host == b.host,
        a.ua == b.ua,
        a.email == b.email,
        a.custom == b.custom,
        a.window == b.window,
        a.tab == b.tab,
        a.frame == b.frame,
    ensures
        a.id == b.id,
        a == b,
{
}

/// An `id` has sixteen characters.
pub proof fn lemma_id_length(v: ScopeView)
    requires
        well_formed(v),
    ensures
        v.id.len() == 16,
{
}

} // verus!
