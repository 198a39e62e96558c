//! Requests, responses and their headers as plain values, and the verdicts
//! that decision logic gives on a request.

use vstd::prelude::*;
use vstd::string::*;
use crate::text::{chars_of, is_text, same_chars, string_of};
use crate::uri::{parse_uri, uri_parts, JsUri};

verus! {

/// The lower case form of an ASCII letter; any other character is itself.
pub open spec fn lower_char(c: char) -> char {
    if 65 <= c as u32 <= 90 {
        ((c as u32 + 32) as u8) as char
    } else {
        c
    }
}

/// The text with its ASCII letters in lower case.
pub open spec fn lower(s: Seq<char>) -> Seq<char> {
    Seq::new(s.len(), |i: int| lower_char(s[i]))
}

/// Puts ASCII letters into lower case.
pub fn to_lower(v: &[char]) -> (r: Vec<char>)
    ensures
        r@ == lower(v@),
{
    let mut r: Vec<char> = Vec::new();
    let mut i: usize = 0;
    while i < v.len()
        invariant
            i <= v.len(),
            r@ == lower(v@.take(i as int)),
        decreases v.len() - i,
    {
        let c = v[i];
        let n: u32 = c as u32;
        let l: char = if 65 <= n && n <= 90 {
            ((n + 32) as u8) as char
        } else {
            c
        };
        r.push(l);
        assert(r@ =~= lower(v@.take(i + 1)));
        i += 1;
    }
    assert(v@.take(v@.len() as int) =~= v@);
    r
}

/// Header names are the same where they differ in the case of letters only.
pub open spec fn same_name(a: Seq<char>, b: Seq<char>) -> bool {
    lower(a) == lower(b)
}

/// A header line.
pub struct Header {
    pub name: String,
    pub value: String,
}

impl View for Header {
    type V = (Seq<char>, Seq<char>);

    open spec fn view(&self) -> (Seq<char>, Seq<char>) {
        (self.name@, self.value@)
    }
}

/// Header lines as mathematical values.
pub type HeaderSeq = Seq<(Seq<char>, Seq<char>)>;

/// The value of the first line named `name`.
pub open spec fn first_value(h: HeaderSeq, name: Seq<char>) -> Option<Seq<char>>
    decreases h.len(),
{
    if h.len() == 0 {
        None
    } else {
        match first_value(h.drop_last(), name) {
            Some(v) => Some(v),
            None => if same_name(h.last().0, name) {
                Some(h.last().1)
            } else {
                None
            },
        }
    }
}

/// The values of the lines named `name`, in order.
pub open spec fn values_of(h: HeaderSeq, name: Seq<char>) -> Seq<Seq<char>>
    decreases h.len(),
{
    if h.len() == 0 {
        Seq::empty()
    } else if same_name(h.last().0, name) {
        values_of(h.drop_last(), name).push(h.last().1)
    } else {
        values_of(h.drop_last(), name)
    }
}

/// The lines that are not named `name`, in order.
pub open spec fn without(h: HeaderSeq, name: Seq<char>) -> HeaderSeq
    decreases h.len(),
{
    if h.len() == 0 {
        Seq::empty()
    } else if same_name(h.last().0, name) {
        without(h.drop_last(), name)
    } else {
        without(h.drop_last(), name).push(h.last())
    }
}

/// A character that may stand in a value: none of the control characters
/// but the tab.
pub open spec fn is_value_char(c: char) -> bool {
    let n = c as u32;
    (n >= 32 && n != 127) || n == 9
}

/// A visible ASCII character, a blank or a tab.
pub open spec fn is_visible_char(c: char) -> bool {
    let n = c as u32;
    (32 <= n && n < 127) || n == 9
}

/// A value without control characters other than the tab.
pub open spec fn valid_value(v: Seq<char>) -> bool {
    forall|i: int| 0 <= i < v.len() ==> is_value_char(#[trigger] v[i])
}

/// A value of visible ASCII characters, blanks and tabs.
pub open spec fn visible(v: Seq<char>) -> bool {
    forall|i: int| 0 <= i < v.len() ==> is_visible_char(#[trigger] v[i])
}

/// A value as it is read: itself where it is visible, else empty.
pub open spec fn shown(v: Seq<char>) -> Seq<char> {
    if visible(v) {
        v
    } else {
        Seq::empty()
    }
}

fn check_valid(v: &[char]) -> (r: bool)
    ensures
        r == valid_value(v@),
{
    let mut i: usize = 0;
    while i < v.len()
        invariant
            i <= v.len(),
            valid_value(v@.take(i as int)),
        decreases v.len() - i,
    {
        let n: u32 = v[i] as u32;
        if !((n >= 32 && n != 127) || n == 9) {
            assert(!is_value_char(v@[i as int]));
            return false;
        }
        assert forall|k: int| 0 <= k < i + 1 implies is_value_char(
            #[trigger] v@.take(i + 1)[k],
        ) by {
            if k < i {
                assert(v@.take(i as int)[k] == v@.take(i + 1)[k]);
            }
        }
        i += 1;
    }
    assert(v@.take(v@.len() as int) =~= v@);
    true
}

fn check_visible(v: &[char]) -> (r: bool)
    ensures
        r == visible(v@),
{
    let mut i: usize = 0;
    while i < v.len()
        invariant
            i <= v.len(),
            visible(v@.take(i as int)),
        decreases v.len() - i,
    {
        let n: u32 = v[i] as u32;
        if !((32 <= n && n < 127) || n == 9) {
            assert(!is_visible_char(v@[i as int]));
            return false;
        }
        assert forall|k: int| 0 <= k < i + 1 implies is_visible_char(
            #[trigger] v@.take(i + 1)[k],
        ) by {
            if k < i {
                assert(v@.take(i as int)[k] == v@.take(i + 1)[k]);
            }
        }
        i += 1;
    }
    assert(v@.take(v@.len() as int) =~= v@);
    true
}

/// A stored value as it is read.
pub fn read_value(v: &str) -> (r: String)
    ensures
        r@ == shown(v@),
{
    let c = chars_of(v);
    if check_visible(c.as_slice()) {
        string_of(c.as_slice())
    } else {
        String::new()
    }
}

/// The value of the first line named `name`, as it is read.
pub open spec fn read_header(h: HeaderSeq, name: Seq<char>) -> Option<Seq<char>> {
    match first_value(h, name) {
        Some(v) => Some(shown(v)),
        None => None,
    }
}

/// The header lines of a request or a response. While `is_mut` is false the
/// lines cannot be changed.
pub struct JsHeaders {
    pub is_mut: bool,
    pub inner: Vec<Header>,
}

impl View for JsHeaders {
    type V = HeaderSeq;

    open spec fn view(&self) -> HeaderSeq {
        self.inner@.map_values(|h: Header| h@)
    }
}

impl JsHeaders {
    /// No lines, open to change.
    pub fn new() -> (r: Self)
        ensures
            r@ == HeaderSeq::empty(),
            r.is_mut,
    {
        let r = JsHeaders { is_mut: true, inner: Vec::new() };
        assert(r@ =~= HeaderSeq::empty());
        r
    }

    /// The value of the first line named `key`, as it is read.
    pub fn get(&self, key: &str) -> (r: Option<String>)
        ensures
            match r {
                Some(v) => key@.len() > 0 && first_value(self@, key@).is_some() && v@ == shown(
                    first_value(self@, key@).unwrap(),
                ),
                None => key@.len() == 0 || first_value(self@, key@).is_none(),
            },
    {
        let k = to_lower(chars_of(key).as_slice());
        if k.len() == 0 {
            return None;
        }
        let mut i: usize = 0;
        assert(self@.take(0) =~= HeaderSeq::empty());
        while i < self.inner.len()
            invariant
                i <= self.inner.len(),
                k@ == lower(key@),
                key@.len() > 0,
                first_value(self@.take(i as int), key@).is_none(),
            decreases self.inner.len() - i,
        {
            let n = to_lower(chars_of(self.inner[i].name.as_str()).as_slice());
            let ghost next = self@.take(i + 1);
            assert(next.drop_last() =~= self@.take(i as int));
            assert(next.last() == self.inner@[i as int]@);
            if same_chars(n.as_slice(), k.as_slice()) {
                let v = chars_of(self.inner[i].value.as_str());
                assert(first_value(next, key@) == Some(v@));
                proof {
                    lemma_first_value_prefix(self@, key@, i + 1);
                }
                if check_visible(v.as_slice()) {
                    return Some(string_of(v.as_slice()));
                } else {
                    return Some(String::new());
                }
            }
            i += 1;
        }
        assert(self@.take(self@.len() as int) =~= self@);
        None
    }

    /// The values of all lines named `key`, in order.
    pub fn get_all(&self, key: &str) -> (r: Vec<String>)
        ensures
            r@.map_values(|s: String| s@) == values_of(self@, key@),
    {
        let k = to_lower(chars_of(key).as_slice());
        let mut out: Vec<String> = Vec::new();
        let mut i: usize = 0;
        assert(self@.take(0) =~= HeaderSeq::empty());
        assert(out@.map_values(|s: String| s@) =~= values_of(self@.take(0), key@));
        while i < self.inner.len()
            invariant
                i <= self.inner.len(),
                k@ == lower(key@),
                out@.map_values(|s: String| s@) == values_of(self@.take(i as int), key@),
            decreases self.inner.len() - i,
        {
            let n = to_lower(chars_of(self.inner[i].name.as_str()).as_slice());
            let ghost next = self@.take(i + 1);
            let ghost before = out@.map_values(|s: String| s@);
            assert(next.drop_last() =~= self@.take(i as int));
            assert(next.last() == self.inner@[i as int]@);
            if same_chars(n.as_slice(), k.as_slice()) {
                out.push(self.inner[i].value.clone());
                assert(out@.map_values(|s: String| s@) =~= before.push(self.inner@[i as int].value@));
            }
            i += 1;
        }
        assert(self@.take(self@.len() as int) =~= self@);
        out
    }

    /// Whether a line named `key` is there.
    pub fn contains(&self, key: &str) -> (r: bool)
        ensures
            r == first_value(self@, key@).is_some(),
    {
        let k = to_lower(chars_of(key).as_slice());
        let mut i: usize = 0;
        assert(self@.take(0) =~= HeaderSeq::empty());
        while i < self.inner.len()
            invariant
                i <= self.inner.len(),
                k@ == lower(key@),
                first_value(self@.take(i as int), key@).is_none(),
            decreases self.inner.len() - i,
        {
            let n = to_lower(chars_of(self.inner[i].name.as_str()).as_slice());
            let ghost next = self@.take(i + 1);
            assert(next.drop_last() =~= self@.take(i as int));
            assert(next.last() == self.inner@[i as int]@);
            if same_chars(n.as_slice(), k.as_slice()) {
                proof {
                    lemma_first_value_prefix(self@, key@, i + 1);
                }
                return true;
            }
            i += 1;
        }
        assert(self@.take(self@.len() as int) =~= self@);
        false
    }

    /// Takes out every line named `key`, whatever `is_mut` says, and hands
    /// back the value of the first of them as it was stored.
    pub fn take(&mut self, key: &str) -> (r: Option<String>)
        ensures
            final(self)@ == without(old(self)@, key@),
            final(self).is_mut == old(self).is_mut,
            match r {
                Some(v) => first_value(old(self)@, key@) == Some(v@),
                None => first_value(old(self)@, key@).is_none(),
            },
    {
        let k = to_lower(chars_of(key).as_slice());
        let mut kept: Vec<Header> = Vec::new();
        let mut first: Option<String> = None;
        let mut all: Vec<Header> = Vec::new();
        std::mem::swap(&mut all, &mut self.inner);
        let ghost olds = all@.map_values(|h: Header| h@);
        assert(olds == old(self)@);
        let n: usize = all.len();
        let mut rest: Vec<Header> = Vec::new();
        // The lines are moved out from the back, so `rest` holds them in
        // reverse; a second pass puts what is kept in order again.
        let mut i: usize = n;
        while i > 0
            invariant
                i <= n,
                n == olds.len(),
                all@.len() == i,
                all@.map_values(|h: Header| h@) == olds.take(i as int),
                rest@.len() == n - i,
                forall|x: int|
                    0 <= x < n - i ==> (#[trigger] rest@[x])@ == olds[n - 1 - x],
            decreases i,
        {
            let h = all.pop().unwrap();
            assert(h@ == olds.take(i as int)[i - 1]);
            rest.push(h);
            i -= 1;
            assert(all@.map_values(|h: Header| h@) =~= olds.take(i as int));
        }
        let mut j: usize = 0;
        assert(olds.take(0) =~= HeaderSeq::empty());
        assert(kept@.map_values(|h: Header| h@) =~= without(olds.take(0), key@));
        while j < n
            invariant
                j <= n,
                n == olds.len(),
                k@ == lower(key@),
                rest@.len() == n - j,
                forall|x: int|
                    0 <= x < n - j ==> (#[trigger] rest@[x])@ == olds[n - 1 - x],
                kept@.map_values(|h: Header| h@) == without(olds.take(j as int), key@),
                match first {
                    Some(v) => first_value(olds.take(j as int), key@) == Some(v@),
                    None => first_value(olds.take(j as int), key@).is_none(),
                },
            decreases n - j,
        {
            let h = rest.pop().unwrap();
            assert(h@ == olds[j as int]);
            let name = to_lower(chars_of(h.name.as_str()).as_slice());
            let ghost next = olds.take(j + 1);
            let ghost before = kept@.map_values(|h: Header| h@);
            assert(next.drop_last() =~= olds.take(j as int));
            assert(next.last() == olds[j as int]);
            if same_chars(name.as_slice(), k.as_slice()) {
                if first.is_none() {
                    first = Some(h.value);
                }
            } else {
                kept.push(h);
                assert(kept@.map_values(|h: Header| h@) =~= before.push(olds[j as int]));
            }
            j += 1;
        }
        assert(olds.take(n as int) =~= olds);
        self.inner = kept;
        first
    }

    /// Takes out every line named `key` and hands back the value of the
    /// first of them as it is read. Nothing happens where the headers are
    /// closed to change or the key is empty.
    pub fn remove(&mut self, key: &str) -> (r: Option<String>)
        ensures
            final(self).is_mut == old(self).is_mut,
            if old(self).is_mut && key@.len() > 0 {
                &&& final(self)@ == without(old(self)@, key@)
                &&& match r {
                    Some(v) => first_value(old(self)@, key@).is_some() && v@ == shown(
                        first_value(old(self)@, key@).unwrap(),
                    ),
                    None => first_value(old(self)@, key@).is_none(),
                }
            } else {
                final(self)@ == old(self)@ && r.is_none()
            },
    {
        if !self.is_mut || key.unicode_len() == 0 {
            return None;
        }
        match self.take(key) {
            None => None,
            Some(v) => {
                let c = chars_of(v.as_str());
                if check_visible(c.as_slice()) {
                    Some(v)
                } else {
                    Some(String::new())
                }
            },
        }
    }

    /// Takes out every line.
    pub fn clear(&mut self)
        ensures
            final(self).is_mut == old(self).is_mut,
            final(self)@ == (if old(self).is_mut {
                HeaderSeq::empty()
            } else {
                old(self)@
            }),
    {
        if !self.is_mut {
            return ;
        }
        self.inner = Vec::new();
        assert(self@ =~= HeaderSeq::empty());
    }

    /// Whether a line with this key and value is taken in: the headers are
    /// open to change, neither is empty, and the value is a valid one.
    pub open spec fn admits(self, key: Seq<char>, value: Seq<char>) -> bool {
        self.is_mut && key.len() > 0 && value.len() > 0 && valid_value(value)
    }

    /// Adds a line at the end; the name is kept in lower case.
    pub fn append(&mut self, key: &str, value: &str)
        ensures
            final(self).is_mut == old(self).is_mut,
            final(self)@ == (if old(self).admits(key@, value@) {
                old(self)@.push((lower(key@), value@))
            } else {
                old(self)@
            }),
    {
        let k = chars_of(key);
        let v = chars_of(value);
        if !self.is_mut || k.len() == 0 || v.len() == 0 || !check_valid(v.as_slice()) {
            return ;
        }
        let name = string_of(to_lower(k.as_slice()).as_slice());
        self.inner.push(Header { name, value: string_of(v.as_slice()) });
        assert(self@ =~= old(self)@.push((lower(key@), value@)));
    }

    /// Puts a line in the place of all lines of that name.
    pub fn insert(&mut self, key: &str, value: &str)
        ensures
            final(self).is_mut == old(self).is_mut,
            final(self)@ == (if old(self).admits(key@, value@) {
                without(old(self)@, key@).push((lower(key@), value@))
            } else {
                old(self)@
            }),
    {
        let k = chars_of(key);
        let v = chars_of(value);
        if !self.is_mut || k.len() == 0 || v.len() == 0 || !check_valid(v.as_slice()) {
            return ;
        }
        let _ = self.take(key);
        let ghost mid = self@;
        let name = string_of(to_lower(k.as_slice()).as_slice());
        self.inner.push(Header { name, value: string_of(v.as_slice()) });
        assert(self@ =~= mid.push((lower(key@), value@)));
    }

    /// A copy with the same lines.
    pub fn copy_self(&self) -> (r: Self)
        ensures
            r@ == self@,
            r.is_mut == self.is_mut,
    {
        let mut inner: Vec<Header> = Vec::new();
        let mut i: usize = 0;
        assert(inner@.map_values(|h: Header| h@) =~= self@.take(0));
        while i < self.inner.len()
            invariant
                i <= self.inner.len(),
                inner@.map_values(|h: Header| h@) == self@.take(i as int),
            decreases self.inner.len() - i,
        {
            let ghost before = inner@.map_values(|h: Header| h@);
            let h = Header { name: self.inner[i].name.clone(), value: self.inner[i].value.clone() };
            assert(h@ == self.inner@[i as int]@);
            inner.push(h);
            assert(inner@.map_values(|h: Header| h@) =~= before.push(self.inner@[i as int]@));
            assert(self@.take(i + 1) =~= self@.take(i as int).push(self.inner@[i as int]@));
            i += 1;
        }
        assert(self@.take(self@.len() as int) =~= self@);
        JsHeaders { is_mut: self.is_mut, inner }
    }
}

/// What is found among the first `n` lines is found among all of them.
pub proof fn lemma_first_value_prefix(h: HeaderSeq, name: Seq<char>, n: int)
    requires
        0 <= n <= h.len(),
        first_value(h.take(n), name).is_some(),
    ensures
        first_value(h, name) == first_value(h.take(n), name),
    decreases h.len() - n,
{
    if n < h.len() {
        assert(h.drop_last().take(n) =~= h.take(n));
        lemma_first_value_prefix(h.drop_last(), name, n);
    } else {
        assert(h.take(n) =~= h);
    }
}

/// After the lines of a name are taken out, none of that name is left.
pub proof fn lemma_without_has_none(h: HeaderSeq, name: Seq<char>)
    ensures
        first_value(without(h, name), name).is_none(),
        values_of(without(h, name), name).len() == 0,
    decreases h.len(),
{
    if h.len() > 0 {
        lemma_without_has_none(h.drop_last(), name);
        if !same_name(h.last().0, name) {
            let w = without(h, name);
            assert(w.drop_last() =~= without(h.drop_last(), name));
        }
    }
}

/// The body of a request or a response.
pub struct JsBody {
    pub inner: Vec<u8>,
}

impl View for JsBody {
    type V = Seq<u8>;

    open spec fn view(&self) -> Seq<u8> {
        self.inner@
    }
}

impl JsBody {
    /// The body without bytes.
    pub fn empty() -> (r: Self)
        ensures
            r@ == Seq::<u8>::empty(),
    {
        JsBody { inner: Vec::new() }
    }

    /// The body that holds the UTF-8 form of a text.
    pub fn str(s: String) -> (r: Self)
        ensures
            r@ == vstd::utf8::encode_utf8(s@),
    {
        JsBody { inner: s.as_str().as_bytes_vec() }
    }

    /// The body that holds the given bytes.
    pub fn bytes(bytes: Vec<u8>) -> (r: Self)
        ensures
            r@ == bytes@,
    {
        JsBody { inner: bytes }
    }

    /// The bytes of the body.
    pub fn to_bytes(&self) -> (r: Vec<u8>)
        ensures
            r@ == self@,
    {
        self.inner.clone()
    }

    /// Puts other bytes in the place of the body.
    pub fn replace(&mut self, body: Vec<u8>)
        ensures
            final(self)@ == body@,
    {
        self.inner = body;
    }
}

/// The version of the protocol.
#[derive(Clone, Copy, Debug, PartialEq, Eq, Structural)]
pub enum Version {
    Http09,
    Http10,
    Http11,
    Http2,
    Http3,
}

/// The version that an upper case text names.
pub open spec fn version_named(up: Seq<char>) -> Option<Version> {
    if up == "HTTP/0.9"@ {
        Some(Version::Http09)
    } else if up == "HTTP/1.0"@ {
        Some(Version::Http10)
    } else if up == "HTTP/1.1"@ {
        Some(Version::Http11)
    } else if up == "HTTP/2.0"@ {
        Some(Version::Http2)
    } else if up == "HTTP/3.0"@ {
        Some(Version::Http3)
    } else {
        None
    }
}

/// The upper case form of a text by the rules of Unicode.
pub uninterp spec fn upper_text(s: Seq<char>) -> Seq<char>;

/// Puts a text into upper case with `str::to_uppercase`.
#[verifier::external_body]
fn upper_case(s: &str) -> (r: String)
    ensures
        r@ == upper_text(s@),
{
    s.to_uppercase()
}

/// The version that a text in upper case names.
pub fn version_of_upper(up: &str) -> (r: Option<Version>)
    ensures
        r == version_named(up@),
{
    let c = chars_of(up);
    if is_text(c.as_slice(), "HTTP/0.9") {
        Some(Version::Http09)
    } else if is_text(c.as_slice(), "HTTP/1.0") {
        Some(Version::Http10)
    } else if is_text(c.as_slice(), "HTTP/1.1") {
        Some(Version::Http11)
    } else if is_text(c.as_slice(), "HTTP/2.0") {
        Some(Version::Http2)
    } else if is_text(c.as_slice(), "HTTP/3.0") {
        Some(Version::Http3)
    } else {
        None
    }
}

/// The version that a text names, in letters of either case.
pub fn version_from_str(v: &str) -> (r: Option<Version>)
    ensures
        r == version_named(upper_text(v@)),
{
    let up = upper_case(v);
    version_of_upper(up.as_str())
}

/// The name of a version.
pub open spec fn version_name(v: Version) -> Seq<char> {
    match v {
        Version::Http09 => "HTTP/0.9"@,
        Version::Http10 => "HTTP/1.0"@,
        Version::Http11 => "HTTP/1.1"@,
        Version::Http2 => "HTTP/2.0"@,
        Version::Http3 => "HTTP/3.0"@,
    }
}

impl Version {
    /// The name of the version.
    pub fn name(&self) -> (r: &'static str)
        ensures
            r@ == version_name(*self),
    {
        match self {
            Version::Http09 => "HTTP/0.9",
            Version::Http10 => "HTTP/1.0",
            Version::Http11 => "HTTP/1.1",
            Version::Http2 => "HTTP/2.0",
            Version::Http3 => "HTTP/3.0",
        }
    }
}

/// The characters of which a method name can be made.
pub open spec fn is_method_char(c: char) -> bool {
    let n = c as u32;
    n == 33 || n == 42 || n == 43 || n == 45 || n == 46 || (48 <= n <= 57) || (65 <= n <= 90) || n
        == 94 || n == 95 || n == 96 || (97 <= n <= 122) || n == 124 || n == 126
}

/// A method name: not empty, and made of method characters only.
pub open spec fn is_method(s: Seq<char>) -> bool {
    s.len() > 0 && forall|i: int| 0 <= i < s.len() ==> is_method_char(#[trigger] s[i])
}

/// Whether a text can name a method.
pub fn check_method(m: &str) -> (r: bool)
    ensures
        r == is_method(m@),
{
    let v = chars_of(m);
    if v.len() == 0 {
        return false;
    }
    let mut i: usize = 0;
    while i < v.len()
        invariant
            i <= v.len(),
            v@ == m@,
            forall|k: int| 0 <= k < i ==> is_method_char(#[trigger] v@[k]),
        decreases v.len() - i,
    {
        let n: u32 = v[i] as u32;
        if !(n == 33 || n == 42 || n == 43 || n == 45 || n == 46 || (48 <= n && n <= 57) || (65
            <= n && n <= 90) || n == 94 || n == 95 || n == 96 || (97 <= n && n <= 122) || n == 124
            || n == 126) {
            assert(!is_method_char(v@[i as int]));
            return false;
        }
        i += 1;
    }
    true
}

/// A request as plain values. While `is_mut` is false its setters leave it
/// as it is.
pub struct JsRequest {
    pub is_mut: bool,
    pub method: String,
    pub uri: JsUri,
    pub version: Version,
    pub headers: JsHeaders,
    pub body: JsBody,
}

/// A response as plain values.
pub struct JsResponse {
    pub is_mut: bool,
    pub status: u16,
    pub version: Version,
    pub headers: JsHeaders,
    pub body: JsBody,
}

/// A method or status that cannot be set.
#[derive(Clone, Copy, Debug, PartialEq, Eq, Structural)]
pub enum FieldError {
    InvalidMethod,
    InvalidVersion,
    InvalidStatus,
}

impl JsRequest {
    /// A request with the given parts, open to change, of version 1.1.
    pub fn new(method: String, uri: JsUri, headers: JsHeaders, body: JsBody) -> (r: Result<
        Self,
        FieldError,
    >)
        ensures
            match r {
                Ok(q) => is_method(method@) && q.is_mut && q.method == method && q.uri == uri
                    && q.version == Version::Http11 && q.headers == headers && q.body == body,
                Err(e) => !is_method(method@) && e == FieldError::InvalidMethod,
            },
    {
        if !check_method(method.as_str()) {
            return Err(FieldError::InvalidMethod);
        }
        Ok(JsRequest { is_mut: true, method, uri, version: Version::Http11, headers, body })
    }

    /// Sets the method, where the request is open to change.
    pub fn set_method(&mut self, method: String) -> (r: Result<(), FieldError>)
        ensures
            final(self).is_mut == old(self).is_mut,
            final(self).uri == old(self).uri,
            final(self).version == old(self).version,
            final(self).headers == old(self).headers,
            final(self).body == old(self).body,
            if !old(self).is_mut {
                r.is_ok() && final(self).method == old(self).method
            } else if is_method(method@) {
                r.is_ok() && final(self).method == method
            } else {
                r == Err::<(), FieldError>(FieldError::InvalidMethod) && final(self).method == old(self).method
            },
    {
        if !self.is_mut {
            return Ok(());
        }
        if !check_method(method.as_str()) {
            return Err(FieldError::InvalidMethod);
        }
        self.method = method;
        Ok(())
    }

    /// The method.
    pub fn get_method(&self) -> (r: String)
        ensures
            r@ == self.method@,
    {
        self.method.clone()
    }

    /// Sets the version by its name, where the request is open to change.
    pub fn set_version(&mut self, version: &str) -> (r: Result<(), FieldError>)
        ensures
            final(self).is_mut == old(self).is_mut,
            final(self).uri == old(self).uri,
            final(self).method == old(self).method,
            final(self).headers == old(self).headers,
            final(self).body == old(self).body,
            if !old(self).is_mut {
                r.is_ok() && final(self).version == old(self).version
            } else {
                match version_named(upper_text(version@)) {
                    Some(v) => r.is_ok() && final(self).version == v,
                    None => r == Err::<(), FieldError>(FieldError::InvalidVersion) && final(self).version == old(self).version,
                }
            },
    {
        if !self.is_mut {
            return Ok(());
        }
        match version_from_str(version) {
            Some(v) => {
                self.version = v;
                Ok(())
            },
            None => Err(FieldError::InvalidVersion),
        }
    }

    /// The name of the version.
    pub fn get_version(&self) -> (r: &'static str)
        ensures
            r@ == version_name(self.version),
    {
        self.version.name()
    }

    /// Sets the address, where the request is open to change.
    pub fn set_uri(&mut self, uri: JsUri)
        ensures
            final(self).is_mut == old(self).is_mut,
            final(self).method == old(self).method,
            final(self).version == old(self).version,
            final(self).headers == old(self).headers,
            final(self).body == old(self).body,
            final(self).uri == (if old(self).is_mut {
                uri
            } else {
                old(self).uri
            }),
    {
        if !self.is_mut {
            return ;
        }
        self.uri = uri;
    }

    /// Puts other headers in the place of the headers.
    pub fn set_headers(&mut self, headers: JsHeaders)
        ensures
            final(self).headers == headers,
            final(self).is_mut == old(self).is_mut,
            final(self).method == old(self).method,
            final(self).version == old(self).version,
            final(self).uri == old(self).uri,
            final(self).body == old(self).body,
    {
        self.headers = headers;
    }

    /// Puts another body in the place of the body.
    pub fn set_body(&mut self, body: JsBody)
        ensures
            final(self).body == body,
            final(self).is_mut == old(self).is_mut,
            final(self).method == old(self).method,
            final(self).version == old(self).version,
            final(self).uri == old(self).uri,
            final(self).headers == old(self).headers,
    {
        self.body = body;
    }
}

/// A status code that a response can carry.
pub open spec fn is_status(code: u16) -> bool {
    100 <= code < 1000
}

impl JsResponse {
    /// A response with the given parts, open to change, of version 1.1.
    pub fn new(status: u16, headers: JsHeaders, body: JsBody) -> (r: Result<Self, FieldError>)
        ensures
            match r {
                Ok(p) => is_status(status) && p.is_mut && p.status == status && p.version
                    == Version::Http11 && p.headers == headers && p.body == body,
                Err(e) => !is_status(status) && e == FieldError::InvalidStatus,
            },
    {
        if status < 100 || status >= 1000 {
            return Err(FieldError::InvalidStatus);
        }
        Ok(JsResponse { is_mut: true, status, version: Version::Http11, headers, body })
    }

    /// Sets the status, where the response is open to change.
    pub fn set_status(&mut self, status: u16) -> (r: Result<(), FieldError>)
        ensures
            final(self).is_mut == old(self).is_mut,
            final(self).version == old(self).version,
            final(self).headers == old(self).headers,
            final(self).body == old(self).body,
            if !old(self).is_mut {
                r.is_ok() && final(self).status == old(self).status
            } else if is_status(status) {
                r.is_ok() && final(self).status == status
            } else {
                r == Err::<(), FieldError>(FieldError::InvalidStatus) && final(self).status == old(self).status
            },
    {
        if !self.is_mut {
            return Ok(());
        }
        if status < 100 || status >= 1000 {
            return Err(FieldError::InvalidStatus);
        }
        self.status = status;
        Ok(())
    }

    /// The status.
    pub fn get_status(&self) -> (r: u16)
        ensures
            r == self.status,
    {
        self.status
    }

    /// Sets the version by its name, where the response is open to change.
    pub fn set_version(&mut self, version: &str) -> (r: Result<(), FieldError>)
        ensures
            final(self).is_mut == old(self).is_mut,
            final(self).status == old(self).status,
            final(self).headers == old(self).headers,
            final(self).body == old(self).body,
            if !old(self).is_mut {
                r.is_ok() && final(self).version == old(self).version
            } else {
                match version_named(upper_text(version@)) {
                    Some(v) => r.is_ok() && final(self).version == v,
                    None => r == Err::<(), FieldError>(FieldError::InvalidVersion) && final(self).version == old(self).version,
                }
            },
    {
        if !self.is_mut {
            return Ok(());
        }
        match version_from_str(version) {
            Some(v) => {
                self.version = v;
                Ok(())
            },
            None => Err(FieldError::InvalidVersion),
        }
    }

    /// The name of the version.
    pub fn get_version(&self) -> (r: &'static str)
        ensures
            r@ == version_name(self.version),
    {
        self.version.name()
    }

    /// Puts other headers in the place of the headers.
    pub fn set_headers(&mut self, headers: JsHeaders)
        ensures
            final(self).headers == headers,
            final(self).is_mut == old(self).is_mut,
            final(self).status == old(self).status,
            final(self).version == old(self).version,
            final(self).body == old(self).body,
    {
        self.headers = headers;
    }

    /// Puts another body in the place of the body.
    pub fn set_body(&mut self, body: JsBody)
        ensures
            final(self).body == body,
            final(self).is_mut == old(self).is_mut,
            final(self).status == old(self).status,
            final(self).version == old(self).version,
            final(self).headers == old(self).headers,
    {
        self.body = body;
    }
}

/// The way out that a request is to take: the seeds of the TLS and HTTP/2
/// fingerprints, and the address of a forward proxy, if any.
pub struct ProxyCfg {
    pub ja3: i64,
    pub h2: i64,
    pub proxy: Option<String>,
}

/// A way out as mathematical values.
pub type ProxyCfgView = (int, int, Option<Seq<char>>);

impl View for ProxyCfg {
    type V = ProxyCfgView;

    open spec fn view(&self) -> ProxyCfgView {
        (self.ja3 as int, self.h2 as int, crate::uri::opt_text(self.proxy))
    }
}

impl ProxyCfg {
    /// The default way out: no seeds and no proxy.
    pub fn default() -> (r: Self)
        ensures
            r@ == (0int, 0int, None::<Seq<char>>),
    {
        ProxyCfg { ja3: 0, h2: 0, proxy: None }
    }

    /// Whether this is the default way out.
    pub open spec fn is_default(self) -> bool {
        self.proxy.is_none() && self.ja3 == 0 && self.h2 == 0
    }

    /// Whether two ways out are the same in all three fields.
    pub fn same(&self, other: &ProxyCfg) -> (r: bool)
        ensures
            r == (self@ == other@),
    {
        let p = match &self.proxy {
            None => other.proxy.is_none(),
            Some(a) => match &other.proxy {
                Some(b) => *a == *b,
                None => false,
            },
        };
        p && self.ja3 == other.ja3 && self.h2 == other.h2
    }

    /// A copy with the same values.
    pub fn copy(&self) -> (r: ProxyCfg)
        ensures
            r@ == self@,
    {
        ProxyCfg {
            ja3: self.ja3,
            h2: self.h2,
            proxy: match &self.proxy {
                Some(p) => Some(p.clone()),
                None => None,
            },
        }
    }

    /// The way out with the given seeds and proxy address. An empty address
    /// means no proxy; another one has to be an address.
    pub fn from_parts(proxy: &str, ja3: i64, h2: i64) -> (r: Option<ProxyCfg>)
        ensures
            match r {
                Some(c) => {
                    &&& c.ja3 == ja3 && c.h2 == h2
                    &&& proxy@.len() == 0 ==> c.proxy.is_none()
                    &&& proxy@.len() > 0 ==> uri_parts(proxy@).is_some() && c.proxy.is_some()
                        && c.proxy.unwrap()@ == proxy@
                },
                None => proxy@.len() > 0 && uri_parts(proxy@).is_none(),
            },
    {
        if proxy.unicode_len() == 0 {
            return Some(ProxyCfg { ja3, h2, proxy: None });
        }
        match parse_uri(proxy) {
            Some(_) => Some(ProxyCfg { ja3, h2, proxy: Some(proxy.to_owned()) }),
            None => None,
        }
    }
}

/// The verdict on a request.
pub enum HttpAction {
    /// Answer with the fixed rejection; nothing is sent on.
    Reject,
    /// Send the request on after so many milliseconds.
    Delay(JsRequest, u64),
    /// Send the request on by the given way out.
    Proxy(JsRequest, ProxyCfg),
    /// Answer with this response; nothing is sent on.
    Respond(JsResponse),
    /// Send the request on.
    Release(JsRequest),
}

/// A verdict on a request, as decision logic hands it over.
pub struct JsHttpAction {
    pub action: HttpAction,
}

impl JsHttpAction {
    pub fn reject() -> (r: Self)
        ensures
            r.action == HttpAction::Reject,
    {
        JsHttpAction { action: HttpAction::Reject }
    }

    pub fn release(req: JsRequest) -> (r: Self)
        ensures
            r.action == HttpAction::Release(req),
    {
        JsHttpAction { action: HttpAction::Release(req) }
    }

    pub fn respond(res: JsResponse) -> (r: Self)
        ensures
            r.action == HttpAction::Respond(res),
    {
        JsHttpAction { action: HttpAction::Respond(res) }
    }

    pub fn delay(req: JsRequest, ms: u64) -> (r: Self)
        ensures
            r.action == HttpAction::Delay(req, ms),
    {
        JsHttpAction { action: HttpAction::Delay(req, ms) }
    }

    /// Sends the request by the given way out; without one, or with the
    /// default one, the request is released.
    pub fn proxy(req: JsRequest, cfg: Option<ProxyCfg>) -> (r: Self)
        ensures
            r.action == (match cfg {
                Some(c) => if c.is_default() {
                    HttpAction::Release(req)
                } else {
                    HttpAction::Proxy(req, c)
                },
                None => HttpAction::Release(req),
            }),
    {
        match cfg {
            None => JsHttpAction::release(req),
            Some(c) => {
                if c.proxy.is_none() && c.ja3 == 0 && c.h2 == 0 {
                    JsHttpAction::release(req)
                } else {
                    JsHttpAction { action: HttpAction::Proxy(req, c) }
                }
            },
        }
    }

    /// The name of the verdict.
    pub fn name(&self) -> (r: &'static str)
        ensures
            r@ == match self.action {
                HttpAction::Delay(_, _) => "delay"@,
                HttpAction::Proxy(_, _) => "proxy"@,
                HttpAction::Reject => "reject"@,
                HttpAction::Respond(_) => "respond"@,
                HttpAction::Release(_) => "release"@,
            },
    {
        match &self.action {
            HttpAction::Delay(_, _) => "delay",
            HttpAction::Proxy(_, _) => "proxy",
            HttpAction::Reject => "reject",
            HttpAction::Respond(_) => "respond",
            HttpAction::Release(_) => "release",
        }
    }
}

/// The names in a list of header lines, each once, in the order in which
/// they first stand there.
pub open spec fn names_of(h: HeaderSeq) -> Seq<Seq<char>>
    decreases h.len(),
{
    if h.len() == 0 {
        Seq::empty()
    } else if first_value(h.drop_last(), h.last().0).is_some() {
        names_of(h.drop_last())
    } else {
        names_of(h.drop_last()).push(h.last().0)
    }
}

impl JsHeaders {
    /// The names of the lines, each once.
    pub fn keys(&self) -> (r: Vec<String>)
        ensures
            r@.map_values(|s: String| s@) == names_of(self@),
    {
        let mut out: Vec<String> = Vec::new();
        let mut i: usize = 0;
        assert(self@.take(0) =~= HeaderSeq::empty());
        assert(out@.map_values(|s: String| s@) =~= names_of(self@.take(0)));
        while i < self.inner.len()
            invariant
                i <= self.inner.len(),
                out@.map_values(|s: String| s@) == names_of(self@.take(i as int)),
            decreases self.inner.len() - i,
        {
            let ghost next = self@.take(i + 1);
            let ghost before = out@.map_values(|s: String| s@);
            assert(next.drop_last() =~= self@.take(i as int));
            assert(next.last() == self.inner@[i as int]@);
            let name = to_lower(chars_of(self.inner[i].name.as_str()).as_slice());
            let mut seen = false;
            let mut j: usize = 0;
            assert(self@.take(i as int).take(0) =~= HeaderSeq::empty());
            while j < i
                invariant
                    j <= i <= self.inner.len(),
                    name@ == lower(self.inner@[i as int].name@),
                    seen == first_value(self@.take(i as int).take(j as int), self.inner@[i as int].name@).is_some(),
                decreases i - j,
            {
                let ghost part = self@.take(i as int).take(j + 1);
                assert(part.drop_last() =~= self@.take(i as int).take(j as int));
                assert(part.last() == self.inner@[j as int]@);
                let other = to_lower(chars_of(self.inner[j].name.as_str()).as_slice());
                if same_chars(other.as_slice(), name.as_slice()) {
                    seen = true;
                }
                j += 1;
            }
            assert(self@.take(i as int).take(i as int) =~= self@.take(i as int));
            if !seen {
                out.push(self.inner[i].name.clone());
                assert(out@.map_values(|s: String| s@) =~= before.push(self.inner@[i as int].name@));
            }
            i += 1;
        }
        assert(self@.take(self@.len() as int) =~= self@);
        out
    }
}

impl JsRequest {
    /// A copy of the address.
    pub fn get_uri(&self) -> (r: JsUri)
        ensures
            r@ == self.uri@,
    {
        self.uri.copy()
    }

    /// A copy of the headers.
    pub fn get_headers(&self) -> (r: JsHeaders)
        ensures
            r@ == self.headers@,
            r.is_mut == self.headers.is_mut,
    {
        self.headers.copy_self()
    }

    /// A copy of the body.
    pub fn get_body(&self) -> (r: JsBody)
        ensures
            r@ == self.body@,
    {
        JsBody { inner: self.body.to_bytes() }
    }

    /// A copy of the request that shares nothing with it.
    pub fn copy_self(&self) -> (r: JsRequest)
        ensures
            r.is_mut == self.is_mut,
            r.method@ == self.method@,
            r.uri@ == self.uri@,
            r.version == self.version,
            r.headers@ == self.headers@,
            r.headers.is_mut == self.headers.is_mut,
            r.body@ == self.body@,
    {
        JsRequest {
            is_mut: self.is_mut,
            method: self.method.clone(),
            uri: self.uri.copy(),
            version: self.version,
            headers: self.headers.copy_self(),
            body: JsBody { inner: self.body.to_bytes() },
        }
    }
}

impl JsResponse {
    /// A copy of the headers.
    pub fn get_headers(&self) -> (r: JsHeaders)
        ensures
            r@ == self.headers@,
            r.is_mut == self.headers.is_mut,
    {
        self.headers.copy_self()
    }

    /// A copy of the body.
    pub fn get_body(&self) -> (r: JsBody)
        ensures
            r@ == self.body@,
    {
        JsBody { inner: self.body.to_bytes() }
    }

    /// A copy of the response that shares nothing with it.
    pub fn copy_self(&self) -> (r: JsResponse)
        ensures
            r.is_mut == self.is_mut,
            r.status == self.status,
            r.version == self.version,
            r.headers@ == self.headers@,
            r.headers.is_mut == self.headers.is_mut,
            r.body@ == self.body@,
    {
        JsResponse {
            is_mut: self.is_mut,
            status: self.status,
            version: self.version,
            headers: self.headers.copy_self(),
            body: JsBody { inner: self.body.to_bytes() },
        }
    }
}

} // verus!
