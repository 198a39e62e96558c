//! Text helpers that plugin scripts can call.

use vstd::prelude::*;
use vstd::string::*;
use vstd::utf8::{decode_utf8, encode_utf8, valid_utf8};
use crate::text::utf8_string;
use crate::uri::{decode_component, encode_component, percent_encoded, url_decoded};
use crate::utils::{hash, hash_defined, hash_spec, mini_match, wild_match};

verus! {

/// The alphabet of `hashstr`: digits and letters of both cases.
pub const HASHSTR_CODES: u8 = 123;

/// The sixty-four characters of base64, by their value.
pub open spec fn base64_char(v: int) -> char {
    if v < 26 {
        ((65 + v) as u8) as char
    } else if v < 52 {
        ((71 + v) as u8) as char
    } else if v < 62 {
        ((v - 4) as u8) as char
    } else if v == 62 {
        '+'
    } else {
        '/'
    }
}

/// The base64 form of a run of bytes, padded with `=`.
pub open spec fn base64_text(b: Seq<u8>) -> Seq<char>
    decreases b.len(),
{
    if b.len() == 0 {
        Seq::<char>::empty()
    } else if b.len() == 1 {
        seq![base64_char(b[0] as int / 4), base64_char((b[0] as int % 4) * 16), '=', '=']
    } else if b.len() == 2 {
        seq![
            base64_char(b[0] as int / 4),
            base64_char((b[0] as int % 4) * 16 + b[1] as int / 16),
            base64_char((b[1] as int % 16) * 4),
            '=',
        ]
    } else {
        seq![
            base64_char(b[0] as int / 4),
            base64_char((b[0] as int % 4) * 16 + b[1] as int / 16),
            base64_char((b[1] as int % 16) * 4 + b[2] as int / 64),
            base64_char(b[2] as int % 64),
        ] + base64_text(b.skip(3))
    }
}

/// The bytes that a base64 text stands for, or `None` where the text is not
/// base64 as the standard engine reads it.
pub uninterp spec fn base64_bytes(s: Seq<char>) -> Option<Seq<u8>>;

/// Encodes bytes with the standard base64 engine: each three bytes become
/// four characters of the base64 alphabet, and the end is padded with `=`.
#[verifier::external_body]
fn base64_encoded(bytes: &[u8]) -> (r: String)
    ensures
        r@ == base64_text(bytes@),
{
    base64::Engine::encode(&base64::engine::general_purpose::STANDARD, bytes)
}

/// Decodes a text with the standard base64 engine.
#[verifier::external_body]
fn base64_decoded(s: &str) -> (r: Option<Vec<u8>>)
    ensures
        r.is_some() ==> base64_bytes(s@) == Some(r.unwrap()@),
        r.is_none() ==> base64_bytes(s@).is_none(),
{
    base64::Engine::decode(&base64::engine::general_purpose::STANDARD, s).ok()
}

/// The text helpers.
#[derive(Clone, Debug)]
pub struct StrUtils {}

impl StrUtils {
    /// Hashes a text to an identifier of `size` letters and digits.
    pub fn hashstr(s: String, size: u8) -> (r: String)
        requires
            hash_defined(encode_utf8(s@), size, HASHSTR_CODES),
        ensures
            r@ == hash_spec(encode_utf8(s@), size, HASHSTR_CODES),
    {
        hash(s.as_str().as_bytes(), size, HASHSTR_CODES)
    }

    /// The UTF-8 form of a text.
    pub fn str_to_bytes(s: String) -> (r: Vec<u8>)
        ensures
            r@ == encode_utf8(s@),
    {
        s.as_str().as_bytes_vec()
    }

    /// The text that UTF-8 bytes hold.
    pub fn bytes_to_utf8(bytes: Vec<u8>) -> (r: String)
        requires
            valid_utf8(bytes@),
        ensures
            r@ == decode_utf8(bytes@),
    {
        utf8_string(bytes).unwrap()
    }

    /// The text that bytes hold, or `None` where they are not UTF-8.
    pub fn try_bytes_to_utf8(bytes: Vec<u8>) -> (r: Option<String>)
        ensures
            match r {
                Some(s) => valid_utf8(bytes@) && s@ == decode_utf8(bytes@),
                None => !valid_utf8(bytes@),
            },
    {
        utf8_string(bytes)
    }

    /// Whether `target` matches `pattern`.
    pub fn mini_match(pattern: String, target: String) -> (r: bool)
        ensures
            r == wild_match(pattern@, target@),
    {
        mini_match(pattern.as_str(), target.as_str())
    }

    /// The percent encoded form of a text.
    pub fn url_encode(s: String) -> (r: String)
        ensures
            r@ == percent_encoded(encode_utf8(s@)),
    {
        encode_component(s.as_str())
    }

    /// The text that a percent encoded text stands for.
    pub fn url_decode(s: String) -> (r: Option<String>)
        ensures
            match r {
                Some(t) => url_decoded(s@) == Some(t@),
                None => url_decoded(s@).is_none(),
            },
    {
        decode_component(s.as_str())
    }

    /// The base64 form of bytes.
    pub fn base64_encode(bytes: Vec<u8>) -> (r: String)
        ensures
            r@ == base64_text(bytes@),
    {
        base64_encoded(bytes.as_slice())
    }

    /// The bytes that a base64 text stands for.
    pub fn base64_decode(s: String) -> (r: Option<Vec<u8>>)
        ensures
            match r {
                Some(b) => base64_bytes(s@) == Some(b@),
                None => base64_bytes(s@).is_none(),
            },
    {
        base64_decoded(s.as_str())
    }
}

} // verus!
