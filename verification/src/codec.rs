//! The content codings of a body: which ones a message names, and how a body
//! is taken out of them and put into them again.

use vstd::prelude::*;
use vstd::string::*;
use crate::message::{
    first_value, lemma_without_has_none, values_of, without, HeaderSeq, JsHeaders, JsRequest,
    JsResponse, lower,
};
use crate::text::{
    chars_of, is_space, is_text, lemma_index_from, lemma_index_is, lemma_split_joined,
    lemma_trim_start_skip, split, split_spec, string_of, trim, trim_end_spec, trim_spec,
    trim_start_spec,
};

verus! {

/// What can go wrong in the proxy engine.
#[derive(Debug)]
pub enum Error {
    /// The certificate authority refused its key or certificate.
    Tls(String),
    /// The network failed.
    Network(String),
    /// A body could not be decoded or encoded.
    Decode,
    Unknown,
}

/// An error in words.
pub open spec fn error_text(e: Error) -> Seq<char> {
    match e {
        Error::Tls(why) => "invalid CA: "@ + why@,
        Error::Network(why) => "network error: "@ + why@,
        Error::Decode => "unable to decode body"@,
        Error::Unknown => "unknown error"@,
    }
}

impl Error {
    /// The error in words.
    pub fn to_string(&self) -> (r: String)
        ensures
            r@ == error_text(*self),
    {
        let mut v: Vec<char> = Vec::new();
        match self {
            Error::Tls(why) => {
                crate::text::extend_str(&mut v, "invalid CA: ");
                crate::text::extend_str(&mut v, why.as_str());
            },
            Error::Network(why) => {
                crate::text::extend_str(&mut v, "network error: ");
                crate::text::extend_str(&mut v, why.as_str());
            },
            Error::Decode => {
                crate::text::extend_str(&mut v, "unable to decode body");
            },
            Error::Unknown => {
                crate::text::extend_str(&mut v, "unknown error");
            },
        }
        assert(v@ =~= error_text(*self));
        string_of(v.as_slice())
    }
}

/// The name of the header that lists the content codings.
pub open spec fn content_encoding() -> Seq<char> {
    "content-encoding"@
}

/// The name of the header that gives the length of the body.
pub open spec fn content_length() -> Seq<char> {
    "content-length"@
}

/// The codings of a body that the engine can undo and apply.
#[derive(Clone, Copy, Debug, PartialEq, Eq, Structural)]
pub enum Codec {
    Gzip,
    Deflate,
    Brotli,
    Zstd,
}

/// The bytes that a gzip stream holds, or `None` where the bytes are none.
pub uninterp spec fn gunzipped(data: Seq<u8>) -> Option<Seq<u8>>;

/// The bytes that a zlib stream holds.
pub uninterp spec fn inflated(data: Seq<u8>) -> Option<Seq<u8>>;

/// The bytes that a brotli stream holds.
pub uninterp spec fn unbrotlied(data: Seq<u8>) -> Option<Seq<u8>>;

/// The bytes that a zstd stream holds.
pub uninterp spec fn unzstd(data: Seq<u8>) -> Option<Seq<u8>>;

/// The gzip stream that is made of some bytes.
pub uninterp spec fn gzipped(data: Seq<u8>) -> Option<Seq<u8>>;

/// The zlib stream that is made of some bytes.
pub uninterp spec fn deflated(data: Seq<u8>) -> Option<Seq<u8>>;

/// The brotli stream that is made of some bytes.
pub uninterp spec fn brotlied(data: Seq<u8>) -> Option<Seq<u8>>;

/// The zstd stream that is made of some bytes.
pub uninterp spec fn zstd_of(data: Seq<u8>) -> Option<Seq<u8>>;

/// Reads a gzip stream to its end with `GzipDecoder`.
#[verifier::external_body]
fn gzip_decode(data: &[u8]) -> (r: Option<Vec<u8>>)
    ensures
        r.is_some() ==> gunzipped(data@) == Some(r.unwrap()@),
        r.is_none() ==> gunzipped(data@).is_none(),
{
    let mut out = Vec::new();
    let mut reader = async_compression::tokio::bufread::GzipDecoder::new(data);
    futures::executor::block_on(tokio::io::AsyncReadExt::read_to_end(&mut reader, &mut out))
        .ok().map(|_| out)
}

/// Reads a zlib stream to its end with `ZlibDecoder`.
#[verifier::external_body]
fn zlib_decode(data: &[u8]) -> (r: Option<Vec<u8>>)
    ensures
        r.is_some() ==> inflated(data@) == Some(r.unwrap()@),
        r.is_none() ==> inflated(data@).is_none(),
{
    let mut out = Vec::new();
    let mut reader = async_compression::tokio::bufread::ZlibDecoder::new(data);
    futures::executor::block_on(tokio::io::AsyncReadExt::read_to_end(&mut reader, &mut out))
        .ok().map(|_| out)
}

/// Reads a brotli stream to its end with `BrotliDecoder`.
#[verifier::external_body]
fn brotli_decode(data: &[u8]) -> (r: Option<Vec<u8>>)
    ensures
        r.is_some() ==> unbrotlied(data@) == Some(r.unwrap()@),
        r.is_none() ==> unbrotlied(data@).is_none(),
{
    let mut out = Vec::new();
    let mut reader = async_compression::tokio::bufread::BrotliDecoder::new(data);
    futures::executor::block_on(tokio::io::AsyncReadExt::read_to_end(&mut reader, &mut out))
        .ok().map(|_| out)
}

/// Reads a zstd stream to its end with `ZstdDecoder`.
#[verifier::external_body]
fn zstd_decode(data: &[u8]) -> (r: Option<Vec<u8>>)
    ensures
        r.is_some() ==> unzstd(data@) == Some(r.unwrap()@),
        r.is_none() ==> unzstd(data@).is_none(),
{
    let mut out = Vec::new();
    let mut reader = async_compression::tokio::bufread::ZstdDecoder::new(data);
    futures::executor::block_on(tokio::io::AsyncReadExt::read_to_end(&mut reader, &mut out))
        .ok().map(|_| out)
}

/// Writes bytes as a gzip stream with `GzipEncoder`.
#[verifier::external_body]
fn gzip_encode(data: &[u8]) -> (r: Option<Vec<u8>>)
    ensures
        r.is_some() ==> gzipped(data@) == Some(r.unwrap()@),
        r.is_none() ==> gzipped(data@).is_none(),
{
    let mut out = Vec::new();
    let mut reader = async_compression::tokio::bufread::GzipEncoder::new(data);
    futures::executor::block_on(tokio::io::AsyncReadExt::read_to_end(&mut reader, &mut out))
        .ok().map(|_| out)
}

/// Writes bytes as a zlib stream with `ZlibEncoder`.
#[verifier::external_body]
fn zlib_encode(data: &[u8]) -> (r: Option<Vec<u8>>)
    ensures
        r.is_some() ==> deflated(data@) == Some(r.unwrap()@),
        r.is_none() ==> deflated(data@).is_none(),
{
    let mut out = Vec::new();
    let mut reader = async_compression::tokio::bufread::ZlibEncoder::new(data);
    futures::executor::block_on(tokio::io::AsyncReadExt::read_to_end(&mut reader, &mut out))
        .ok().map(|_| out)
}

/// Writes bytes as a brotli stream with `BrotliEncoder`.
#[verifier::external_body]
fn brotli_encode(data: &[u8]) -> (r: Option<Vec<u8>>)
    ensures
        r.is_some() ==> brotlied(data@) == Some(r.unwrap()@),
        r.is_none() ==> brotlied(data@).is_none(),
{
    let mut out = Vec::new();
    let mut reader = async_compression::tokio::bufread::BrotliEncoder::new(data);
    futures::executor::block_on(tokio::io::AsyncReadExt::read_to_end(&mut reader, &mut out))
        .ok().map(|_| out)
}

/// Writes bytes as a zstd stream with `ZstdEncoder`.
#[verifier::external_body]
fn zstd_encode(data: &[u8]) -> (r: Option<Vec<u8>>)
    ensures
        r.is_some() ==> zstd_of(data@) == Some(r.unwrap()@),
        r.is_none() ==> zstd_of(data@).is_none(),
{
    let mut out = Vec::new();
    let mut reader = async_compression::tokio::bufread::ZstdEncoder::new(data);
    futures::executor::block_on(tokio::io::AsyncReadExt::read_to_end(&mut reader, &mut out))
        .ok().map(|_| out)
}

/// The bytes that a stream of the given coding holds.
pub open spec fn decoded(c: Codec, data: Seq<u8>) -> Option<Seq<u8>> {
    match c {
        Codec::Gzip => gunzipped(data),
        Codec::Deflate => inflated(data),
        Codec::Brotli => unbrotlied(data),
        Codec::Zstd => unzstd(data),
    }
}

/// The stream of the given coding that is made of some bytes.
pub open spec fn encoded(c: Codec, data: Seq<u8>) -> Option<Seq<u8>> {
    match c {
        Codec::Gzip => gzipped(data),
        Codec::Deflate => deflated(data),
        Codec::Brotli => brotlied(data),
        Codec::Zstd => zstd_of(data),
    }
}

impl Codec {
    /// Takes bytes out of this coding.
    pub fn decode(&self, data: &[u8]) -> (r: Option<Vec<u8>>)
        ensures
            r.is_some() ==> decoded(*self, data@) == Some(r.unwrap()@),
            r.is_none() ==> decoded(*self, data@).is_none(),
    {
        match self {
            Codec::Gzip => gzip_decode(data),
            Codec::Deflate => zlib_decode(data),
            Codec::Brotli => brotli_decode(data),
            Codec::Zstd => zstd_decode(data),
        }
    }

    /// Puts bytes into this coding.
    pub fn encode(&self, data: &[u8]) -> (r: Option<Vec<u8>>)
        ensures
            r.is_some() ==> encoded(*self, data@) == Some(r.unwrap()@),
            r.is_none() ==> encoded(*self, data@).is_none(),
    {
        match self {
            Codec::Gzip => gzip_encode(data),
            Codec::Deflate => zlib_encode(data),
            Codec::Brotli => brotli_encode(data),
            Codec::Zstd => zstd_encode(data),
        }
    }
}

/// What a coding's name asks for: nothing (`identity`), one of the codings,
/// or, for an unknown name, `None`.
pub open spec fn coding_named(token: Seq<char>) -> Option<Option<Codec>> {
    if token == "identity"@ {
        Some(None)
    } else if token == "gzip"@ || token == "x-gzip"@ {
        Some(Some(Codec::Gzip))
    } else if token == "deflate"@ {
        Some(Some(Codec::Deflate))
    } else if token == "br"@ {
        Some(Some(Codec::Brotli))
    } else if token == "zstd"@ {
        Some(Some(Codec::Zstd))
    } else {
        None
    }
}

/// Reads the name of a coding.
pub fn coding_of(token: &[char]) -> (r: Option<Option<Codec>>)
    ensures
        r == coding_named(token@),
{
    if is_text(token, "identity") {
        Some(None)
    } else if is_text(token, "gzip") || is_text(token, "x-gzip") {
        Some(Some(Codec::Gzip))
    } else if is_text(token, "deflate") {
        Some(Some(Codec::Deflate))
    } else if is_text(token, "br") {
        Some(Some(Codec::Brotli))
    } else if is_text(token, "zstd") {
        Some(Some(Codec::Zstd))
    } else {
        None
    }
}

/// A body taken out of the coding of the given name.
pub open spec fn decode_step(token: Seq<char>, body: Seq<u8>) -> Option<Seq<u8>> {
    match coding_named(token) {
        None => None,
        Some(None) => Some(body),
        Some(Some(c)) => decoded(c, body),
    }
}

/// A body put into the coding of the given name.
pub open spec fn encode_step(token: Seq<char>, body: Seq<u8>) -> Option<Seq<u8>> {
    match coding_named(token) {
        None => None,
        Some(None) => Some(body),
        Some(Some(c)) => encoded(c, body),
    }
}

/// A body taken out of a stack of codings, in the order of the list: the
/// first coding of the list is undone first, so the list names the codings
/// from the outermost in.
pub open spec fn decode_chain(tokens: Seq<Seq<char>>, body: Seq<u8>) -> Option<Seq<u8>>
    decreases tokens.len(),
{
    if tokens.len() == 0 {
        Some(body)
    } else {
        match decode_step(tokens.first(), body) {
            None => None,
            Some(b) => decode_chain(tokens.drop_first(), b),
        }
    }
}

/// A body put into a stack of codings so that the list describes it: the
/// first coding of the list is the outermost, the one that is laid on last.
pub open spec fn encode_chain(tokens: Seq<Seq<char>>, body: Seq<u8>) -> Option<Seq<u8>>
    decreases tokens.len(),
{
    if tokens.len() == 0 {
        Some(body)
    } else {
        match encode_chain(tokens.drop_first(), body) {
            None => None,
            Some(b) => encode_step(tokens.first(), b),
        }
    }
}

/// Codings are undone in the order of the list: to take a body out of the
/// codings of two lists, one after the other, is to take it out of those of
/// the first list and then out of those of the second.
pub proof fn lemma_decoding_follows_the_list(
    first: Seq<Seq<char>>,
    second: Seq<Seq<char>>,
    body: Seq<u8>,
)
    ensures
        decode_chain(first + second, body) == (match decode_chain(first, body) {
            Some(b) => decode_chain(second, b),
            None => None,
        }),
    decreases first.len(),
{
    if first.len() == 0 {
        assert(first + second =~= second);
    } else {
        let all = first + second;
        assert(all.first() == first.first());
        assert(all.drop_first() =~= first.drop_first() + second);
        match decode_step(first.first(), body) {
            Some(b) => {
                lemma_decoding_follows_the_list(first.drop_first(), second, b);
            },
            None => {},
        }
    }
}

/// Codings are laid on from the end of the list: to put a body into the
/// codings of two lists, one after the other, is to put it into those of the
/// second list and then into those of the first.
pub proof fn lemma_encoding_follows_the_list(
    first: Seq<Seq<char>>,
    second: Seq<Seq<char>>,
    body: Seq<u8>,
)
    ensures
        encode_chain(first + second, body) == (match encode_chain(second, body) {
            Some(b) => encode_chain(first, b),
            None => None,
        }),
    decreases first.len(),
{
    if first.len() == 0 {
        assert(first + second =~= second);
    } else {
        let all = first + second;
        assert(all.first() == first.first());
        assert(all.drop_first() =~= first.drop_first() + second);
        lemma_encoding_follows_the_list(first.drop_first(), second, body);
    }
}

/// Whether a body can be put into a stack of codings and comes out of it
/// again as it was.
pub open spec fn reads_back(tokens: Seq<Seq<char>>, body: Seq<u8>) -> bool {
    encode_chain(tokens, body) matches Some(coded) && decode_chain(tokens, coded) == Some(body)
}

/// The names in one header value: its pieces between commas, trimmed.
pub open spec fn pieces(value: Seq<char>) -> Seq<Seq<char>> {
    Seq::new(split_spec(value, ',').len(), |i: int| trim_spec(split_spec(value, ',')[i]))
}

/// The names in a list of header values, in order.
pub open spec fn token_list(values: Seq<Seq<char>>) -> Seq<Seq<char>>
    decreases values.len(),
{
    if values.len() == 0 {
        Seq::empty()
    } else {
        token_list(values.drop_last()) + pieces(values.last())
    }
}

/// The codings that the headers name, in the order of the headers.
pub open spec fn codings_of(h: HeaderSeq) -> Seq<Seq<char>> {
    token_list(values_of(h, content_encoding()))
}

/// The view of a list of names.
pub open spec fn names(v: Vec<Vec<char>>) -> Seq<Seq<char>> {
    v.deep_view()
}

fn pieces_of(value: &str, out: &mut Vec<Vec<char>>)
    ensures
        final(out).deep_view() == old(out).deep_view() + pieces(value@),
{
    let c = chars_of(value);
    let parts = split(c.as_slice(), ',');
    let mut i: usize = 0;
    let ghost all = pieces(value@);
    assert(all.take(0) =~= Seq::<Seq<char>>::empty());
    assert(out.deep_view() =~= old(out).deep_view() + all.take(0));
    while i < parts.len()
        invariant
            i <= parts.len(),
            parts.deep_view() == split_spec(value@, ','),
            all == pieces(value@),
            out.deep_view() == old(out).deep_view() + all.take(i as int),
        decreases parts.len() - i,
    {
        let t = trim(parts[i].as_slice());
        let ghost before = out.deep_view();
        assert(parts.deep_view()[i as int] == parts@[i as int]@);
        out.push(t);
        assert(out.deep_view() =~= before.push(t@)) by {
            assert(out@.len() == before.len() + 1);
            assert forall|k: int| 0 <= k < out@.len() implies #[trigger] out.deep_view()[k]
                == before.push(t@)[k] by {}
        }
        assert(all.take(i + 1) =~= all.take(i as int).push(all[i as int]));
        assert(out.deep_view() =~= old(out).deep_view() + all.take(i + 1));
        i += 1;
    }
    assert(all.take(all.len() as int) =~= all);
}

/// The codings that the headers name.
pub fn extract_encodings(headers: &JsHeaders) -> (r: Vec<Vec<char>>)
    ensures
        r.deep_view() == codings_of(headers@),
{
    let values = headers.get_all("content-encoding");
    let ghost vs = values@.map_values(|s: String| s@);
    let mut out: Vec<Vec<char>> = Vec::new();
    let mut i: usize = 0;
    assert(vs.take(0) =~= Seq::<Seq<char>>::empty());
    assert(out.deep_view() =~= token_list(vs.take(0)));
    while i < values.len()
        invariant
            i <= values.len(),
            vs == values@.map_values(|s: String| s@),
            out.deep_view() == token_list(vs.take(i as int)),
        decreases values.len() - i,
    {
        let ghost next = vs.take(i + 1);
        assert(next.drop_last() =~= vs.take(i as int));
        assert(next.last() == values@[i as int]@);
        pieces_of(values[i].as_str(), &mut out);
        i += 1;
    }
    assert(vs.take(vs.len() as int) =~= vs);
    out
}

/// What one step of decoding or encoding gives, given what the name of the
/// coding asks for and, where it asks for a coding, what the coding made of
/// the body: an unknown name and a coding that fails are errors, `identity`
/// leaves the body as it is.
pub fn step_result(coding: Option<Option<Codec>>, body: Vec<u8>, made: Option<Vec<u8>>) -> (r:
    Result<Vec<u8>, Error>)
    ensures
        match coding {
            None => r matches Err(e) && e is Decode,
            Some(None) => r == Ok::<Vec<u8>, Error>(body),
            Some(Some(_)) => match made {
                Some(b) => r == Ok::<Vec<u8>, Error>(b),
                None => r matches Err(e) && e is Decode,
            },
        },
{
    match coding {
        None => Err(Error::Decode),
        Some(None) => Ok(body),
        Some(Some(_)) => match made {
            Some(b) => Ok(b),
            None => Err(Error::Decode),
        },
    }
}

/// Takes a body out of the codings of a list, in the order of the list.
pub fn decode_body(encodings: &Vec<Vec<char>>, body: Vec<u8>) -> (r: Result<Vec<u8>, Error>)
    ensures
        match r {
            Ok(b) => decode_chain(encodings.deep_view(), body@) == Some(b@),
            Err(e) => e is Decode && decode_chain(encodings.deep_view(), body@).is_none(),
        },
{
    let ghost given = body@;
    let mut work = body;
    let ghost tokens = encodings.deep_view();
    let mut i: usize = 0;
    assert(tokens.skip(0) =~= tokens);
    while i < encodings.len()
        invariant
            i <= encodings.len(),
            tokens == encodings.deep_view(),
            decode_chain(tokens.skip(i as int), work@) == decode_chain(tokens, given),
            given == body@,
        decreases encodings.len() - i,
    {
        let ghost cur = tokens.skip(i as int);
        assert(cur.first() == encodings@[i as int]@);
        assert(cur.drop_first() =~= tokens.skip(i + 1));
        let coding = coding_of(encodings[i].as_slice());
        let made = match coding {
            Some(Some(c)) => c.decode(work.as_slice()),
            _ => None,
        };
        match step_result(coding, work, made) {
            Ok(b) => {
                work = b;
            },
            Err(e) => {
                return Err(e);
            },
        }
        i += 1;
    }
    Ok(work)
}

/// Puts a body into the codings of a list so that the list describes it: the
/// last coding of the list is laid on first, the first one last.
pub fn encode_chain_body(encodings: &Vec<Vec<char>>, body: Vec<u8>) -> (r: Result<
    Vec<u8>,
    Error,
>)
    ensures
        match r {
            Ok(b) => encode_chain(encodings.deep_view(), body@) == Some(b@),
            Err(e) => e is Decode && encode_chain(encodings.deep_view(), body@).is_none(),
        },
{
    let ghost given = body@;
    let mut work = body;
    let ghost tokens = encodings.deep_view();
    let mut i: usize = encodings.len();
    assert(tokens.skip(i as int) =~= Seq::<Seq<char>>::empty());
    while i > 0
        invariant
            i <= encodings.len(),
            tokens == encodings.deep_view(),
            encode_chain(tokens.skip(i as int), given) == Some(work@),
            given == body@,
        decreases i,
    {
        let ghost cur = tokens.skip(i - 1);
        assert(cur.first() == encodings@[i - 1]@);
        assert(cur.drop_first() =~= tokens.skip(i as int));
        let coding = coding_of(encodings[i - 1].as_slice());
        let made = match coding {
            Some(Some(c)) => c.encode(work.as_slice()),
            _ => None,
        };
        match step_result(coding, work, made) {
            Ok(b) => {
                work = b;
            },
            Err(e) => {
                proof {
                    lemma_encode_suffix_fails(tokens, given, i - 1);
                }
                return Err(e);
            },
        }
        i -= 1;
    }
    assert(tokens.skip(0) =~= tokens);
    Ok(work)
}

/// Where a body cannot be put into the codings of a list from the `n`th on,
/// it cannot be put into all of them.
pub proof fn lemma_encode_suffix_fails(tokens: Seq<Seq<char>>, body: Seq<u8>, n: int)
    requires
        0 <= n <= tokens.len(),
        encode_chain(tokens.skip(n), body).is_none(),
    ensures
        encode_chain(tokens, body).is_none(),
    decreases n,
{
    if n > 0 {
        assert(tokens.skip(n - 1).drop_first() =~= tokens.skip(n));
        lemma_encode_suffix_fails(tokens, body, n - 1);
    } else {
        assert(tokens.skip(0) =~= tokens);
    }
}

/// Whether two byte strings are the same.
pub fn same_bytes(a: &[u8], b: &[u8]) -> (r: bool)
    ensures
        r == (a@ == b@),
{
    if a.len() != b.len() {
        return false;
    }
    let mut i: usize = 0;
    while i < a.len()
        invariant
            i <= a.len(),
            a.len() == b.len(),
            a@.take(i as int) == b@.take(i as int),
        decreases a.len() - i,
    {
        if a[i] != b[i] {
            return false;
        }
        assert(a@.take(i + 1) =~= a@.take(i as int).push(a@[i as int]));
        assert(b@.take(i + 1) =~= b@.take(i as int).push(b@[i as int]));
        i += 1;
    }
    assert(a@.take(a.len() as int) =~= a@);
    assert(b@.take(b.len() as int) =~= b@);
    true
}

/// Puts a body into the codings of a list and reads it back. The coded body
/// is handed out only if it comes out of the codings again as the body that
/// was put in: what is handed out is coded as the list says.
pub fn encode_checked(encodings: &Vec<Vec<char>>, body: Vec<u8>) -> (r: Result<Vec<u8>, Error>)
    ensures
        match r {
            Ok(b) => encode_chain(encodings.deep_view(), body@) == Some(b@) && decode_chain(
                encodings.deep_view(),
                b@,
            ) == Some(body@),
            Err(e) => e is Decode && !reads_back(encodings.deep_view(), body@),
        },
{
    let given = body.clone();
    let coded = match encode_chain_body(encodings, body) {
        Ok(b) => b,
        Err(e) => {
            return Err(e);
        },
    };
    let again = match decode_body(encodings, coded.clone()) {
        Ok(b) => b,
        Err(e) => {
            return Err(e);
        },
    };
    if same_bytes(again.as_slice(), given.as_slice()) {
        Ok(coded)
    } else {
        Err(Error::Decode)
    }
}

/// Puts a body into one coding.
pub fn encode_body(encoding: &str, body: Vec<u8>) -> (r: Result<Vec<u8>, Error>)
    ensures
        match r {
            Ok(b) => encode_step(encoding@, body@) == Some(b@),
            Err(e) => e is Decode && encode_step(encoding@, body@).is_none(),
        },
{
    let t = chars_of(encoding);
    let coding = coding_of(t.as_slice());
    let made = match coding {
        Some(Some(c)) => c.encode(body.as_slice()),
        _ => None,
    };
    step_result(coding, body, made)
}

/// Headers and body of a message after decoding.
///
/// Without a content coding header nothing changes. Else the length header
/// goes; where it said `0` that is all, and where it did not the body is
/// taken out of its codings and the coding header goes too.
pub open spec fn decoded_message(h: HeaderSeq, body: Seq<u8>) -> Option<(HeaderSeq, Seq<u8>)> {
    if first_value(h, content_encoding()).is_none() {
        Some((h, body))
    } else if first_value(h, content_length()) == Some("0"@) {
        Some((without(h, content_length()), body))
    } else {
        match decode_chain(codings_of(without(h, content_length())), body) {
            None => None,
            Some(b) => Some((without(without(h, content_length()), content_encoding()), b)),
        }
    }
}

/// Whether the body of a message is to be decoded, given its headers: it is
/// where the headers name a coding and do not give the length `0`.
pub open spec fn wants_decoding(h: HeaderSeq) -> bool {
    first_value(h, content_encoding()).is_some() && first_value(h, content_length()) != Some(
        "0"@,
    )
}

/// Prepares the headers of a message for the decoding of its body, and hands
/// out the codings to undo, if the body is to be decoded. Headers that name
/// no coding stay as they are; from the others the length goes.
pub fn begin_decoding(headers: &mut JsHeaders) -> (r: Option<Vec<Vec<char>>>)
    ensures
        final(headers).is_mut == old(headers).is_mut,
        final(headers)@ == (if first_value(old(headers)@, content_encoding()).is_none() {
            old(headers)@
        } else {
            without(old(headers)@, content_length())
        }),
        match r {
            Some(list) => wants_decoding(old(headers)@) && list.deep_view() == codings_of(
                without(old(headers)@, content_length()),
            ),
            None => !wants_decoding(old(headers)@),
        },
{
    if !headers.contains("content-encoding") {
        return None;
    }
    let length = headers.take("content-length");
    match length {
        Some(v) => {
            let c = chars_of(v.as_str());
            if is_text(c.as_slice(), "0") {
                return None;
            }
        },
        None => {},
    }
    Some(extract_encodings(headers))
}

/// Takes the names of the codings out of the headers of a message whose body
/// was decoded.
pub fn end_decoding(headers: &mut JsHeaders)
    ensures
        final(headers).is_mut == old(headers).is_mut,
        final(headers)@ == without(old(headers)@, content_encoding()),
{
    let _ = headers.take("content-encoding");
}

fn decode_parts(headers: &mut JsHeaders, body: Vec<u8>) -> (r: Result<Vec<u8>, Error>)
    ensures
        final(headers).is_mut == old(headers).is_mut,
        match r {
            Ok(b) => decoded_message(old(headers)@, body@) == Some((final(headers)@, b@)),
            Err(e) => e is Decode && decoded_message(old(headers)@, body@).is_none(),
        },
{
    match begin_decoding(headers) {
        None => Ok(body),
        Some(encodings) => {
            let body = match decode_body(&encodings, body) {
                Ok(b) => b,
                Err(e) => {
                    return Err(e);
                },
            };
            end_decoding(headers);
            Ok(body)
        },
    }
}

/// Takes the body of a response out of its content codings.
pub fn decode_response(res: JsResponse) -> (r: Result<JsResponse, Error>)
    ensures
        match r {
            Ok(d) => {
                &&& decoded_message(res.headers@, res.body@) == Some((d.headers@, d.body@))
                &&& d.status == res.status && d.version == res.version && d.is_mut == res.is_mut
                &&& d.headers.is_mut == res.headers.is_mut
            },
            Err(e) => e is Decode && decoded_message(res.headers@, res.body@).is_none(),
        },
{
    let mut res = res;
    let mut body: Vec<u8> = Vec::new();
    std::mem::swap(&mut body, &mut res.body.inner);
    match decode_parts(&mut res.headers, body) {
        Ok(b) => {
            res.body.inner = b;
            Ok(res)
        },
        Err(e) => Err(e),
    }
}

/// Takes the body of a request out of its content codings.
pub fn decode_request(req: JsRequest) -> (r: Result<JsRequest, Error>)
    ensures
        match r {
            Ok(d) => {
                &&& decoded_message(req.headers@, req.body@) == Some((d.headers@, d.body@))
                &&& d.method == req.method && d.uri == req.uri && d.version == req.version
                    && d.is_mut == req.is_mut
                &&& d.headers.is_mut == req.headers.is_mut
            },
            Err(e) => e is Decode && decoded_message(req.headers@, req.body@).is_none(),
        },
{
    let mut req = req;
    let mut body: Vec<u8> = Vec::new();
    std::mem::swap(&mut body, &mut req.body.inner);
    match decode_parts(&mut req.headers, body) {
        Ok(b) => {
            req.body.inner = b;
            Ok(req)
        },
        Err(e) => Err(e),
    }
}

/// Headers and body of a message after encoding with one coding.
///
/// The length header goes; where it said `0` that is all, and where it did
/// not the body is put into the coding and the coding's name is added to the
/// headers.
pub open spec fn encoded_message(encoding: Seq<char>, h: HeaderSeq, body: Seq<u8>) -> Option<
    (HeaderSeq, Seq<u8>),
> {
    if first_value(h, content_length()) == Some("0"@) {
        Some((without(h, content_length()), body))
    } else {
        match encode_step(encoding, body) {
            None => None,
            Some(b) => Some((without(h, content_length()).push((content_encoding(), encoding)), b)),
        }
    }
}

fn push_header(headers: &mut JsHeaders, name: &str, value: &str)
    ensures
        final(headers).is_mut == old(headers).is_mut,
        final(headers)@ == old(headers)@.push((name@, value@)),
{
    headers.inner.push(
        crate::message::Header { name: name.to_owned(), value: value.to_owned() },
    );
    assert(headers@ =~= old(headers)@.push((name@, value@)));
}

fn encode_parts(encoding: &str, headers: &mut JsHeaders, body: Vec<u8>) -> (r: Result<
    Vec<u8>,
    Error,
>)
    ensures
        final(headers).is_mut == old(headers).is_mut,
        match r {
            Ok(b) => encoded_message(encoding@, old(headers)@, body@) == Some(
                (final(headers)@, b@),
            ),
            Err(e) => e is Decode && encoded_message(encoding@, old(headers)@, body@).is_none(),
        },
{
    let length = headers.take("content-length");
    match length {
        Some(v) => {
            let c = chars_of(v.as_str());
            if is_text(c.as_slice(), "0") {
                return Ok(body);
            }
        },
        None => {},
    }
    let body = match encode_body(encoding, body) {
        Ok(b) => b,
        Err(e) => {
            return Err(e);
        },
    };
    push_header(headers, "content-encoding", encoding);
    Ok(body)
}

/// Puts the body of a response into one content coding.
pub fn encode_response(encoding: &str, res: JsResponse) -> (r: Result<JsResponse, Error>)
    ensures
        match r {
            Ok(d) => {
                &&& encoded_message(encoding@, res.headers@, res.body@) == Some(
                    (d.headers@, d.body@),
                )
                &&& d.status == res.status && d.version == res.version && d.is_mut == res.is_mut
                &&& d.headers.is_mut == res.headers.is_mut
            },
            Err(e) => e is Decode && encoded_message(encoding@, res.headers@, res.body@).is_none(),
        },
{
    let mut res = res;
    let mut body: Vec<u8> = Vec::new();
    std::mem::swap(&mut body, &mut res.body.inner);
    match encode_parts(encoding, &mut res.headers, body) {
        Ok(b) => {
            res.body.inner = b;
            Ok(res)
        },
        Err(e) => Err(e),
    }
}

/// Puts the body of a request into one content coding.
pub fn encode_request(encoding: &str, req: JsRequest) -> (r: Result<JsRequest, Error>)
    ensures
        match r {
            Ok(d) => {
                &&& encoded_message(encoding@, req.headers@, req.body@) == Some(
                    (d.headers@, d.body@),
                )
                &&& d.method == req.method && d.uri == req.uri && d.version == req.version
                    && d.is_mut == req.is_mut
                &&& d.headers.is_mut == req.headers.is_mut
            },
            Err(e) => e is Decode && encoded_message(encoding@, req.headers@, req.body@).is_none(),
        },
{
    let mut req = req;
    let mut body: Vec<u8> = Vec::new();
    std::mem::swap(&mut body, &mut req.body.inner);
    match encode_parts(encoding, &mut req.headers, body) {
        Ok(b) => {
            req.body.inner = b;
            Ok(req)
        },
        Err(e) => Err(e),
    }
}

/// The header value that lists the given codings: their names joined by
/// `, `.
pub open spec fn listed(tokens: Seq<Seq<char>>) -> Seq<char>
    decreases tokens.len(),
{
    if tokens.len() == 0 {
        Seq::<char>::empty()
    } else if tokens.len() == 1 {
        tokens[0]
    } else {
        listed(tokens.drop_last()) + ", "@ + tokens.last()
    }
}

/// Headers and body of a message after its body was put into a stack of
/// codings again: no length header and one coding header, which lists the
/// codings as they were given, and a body that comes out of these codings as
/// it went in. With no codings to apply nothing changes.
pub open spec fn sealed_message(tokens: Seq<Seq<char>>, h: HeaderSeq, body: Seq<u8>) -> Option<
    (HeaderSeq, Seq<u8>),
> {
    if tokens.len() == 0 {
        Some((h, body))
    } else if !reads_back(tokens, body) {
        None
    } else {
        Some(
            (
                without(without(h, content_length()), content_encoding()).push(
                    (content_encoding(), listed(tokens)),
                ),
                encode_chain(tokens, body).unwrap(),
            ),
        )
    }
}

fn list_text(tokens: &Vec<Vec<char>>) -> (r: String)
    ensures
        r@ == listed(tokens.deep_view()),
{
    let mut v: Vec<char> = Vec::new();
    let mut i: usize = 0;
    let ghost all = tokens.deep_view();
    assert(all.take(0) =~= Seq::<Seq<char>>::empty());
    while i < tokens.len()
        invariant
            i <= tokens.len(),
            all == tokens.deep_view(),
            v@ == listed(all.take(i as int)),
        decreases tokens.len() - i,
    {
        let ghost next = all.take(i + 1);
        assert(next.drop_last() =~= all.take(i as int));
        assert(next.last() == tokens@[i as int]@);
        if i > 0 {
            crate::text::extend_str(&mut v, ", ");
        }
        crate::text::extend_chars(&mut v, tokens[i].as_slice());
        proof {
            if i == 0 {
                assert(next[0] == tokens@[0]@);
                assert(v@ =~= listed(next));
            } else {
                assert(v@ =~= listed(next));
            }
        }
        i += 1;
    }
    assert(all.take(all.len() as int) =~= all);
    string_of(v.as_slice())
}

/// Puts the body of a response into the given codings again and names them
/// in its headers as they were given, so that the headers say how the body
/// is coded: the body is read back before it is handed out, and a body that
/// does not come out of the codings as it went in is an error.
pub fn seal_response(res: JsResponse, encodings: &Vec<Vec<char>>) -> (r: Result<JsResponse, Error>)
    ensures
        match r {
            Ok(d) => {
                &&& sealed_message(encodings.deep_view(), res.headers@, res.body@) == Some(
                    (d.headers@, d.body@),
                )
                &&& d.status == res.status && d.version == res.version && d.is_mut == res.is_mut
                &&& d.headers.is_mut == res.headers.is_mut
            },
            Err(e) => e is Decode && sealed_message(
                encodings.deep_view(),
                res.headers@,
                res.body@,
            ).is_none(),
        },
{
    if encodings.len() == 0 {
        return Ok(res);
    }
    let mut res = res;
    let mut body: Vec<u8> = Vec::new();
    std::mem::swap(&mut body, &mut res.body.inner);
    let body = match encode_checked(encodings, body) {
        Ok(b) => b,
        Err(e) => {
            return Err(e);
        },
    };
    let _ = res.headers.take("content-length");
    let _ = res.headers.take("content-encoding");
    let value = list_text(encodings);
    push_header(&mut res.headers, "content-encoding", value.as_str());
    res.body.inner = body;
    Ok(res)
}

/// After sealing, the headers say how the body is coded: they name exactly
/// the codings that the body was put into, they give no length, and the body
/// comes out of the codings that they name as the body that was sealed.
pub proof fn lemma_sealed_headers_name_codings(
    tokens: Seq<Seq<char>>,
    h: HeaderSeq,
    body: Seq<u8>,
)
    requires
        tokens.len() > 0,
        sealed_message(tokens, h, body).is_some(),
    ensures
        values_of(sealed_message(tokens, h, body).unwrap().0, content_encoding()) == seq![
            listed(tokens),
        ],
        first_value(sealed_message(tokens, h, body).unwrap().0, content_length()).is_none(),
        encode_chain(tokens, body) == Some(sealed_message(tokens, h, body).unwrap().1),
        decode_chain(tokens, sealed_message(tokens, h, body).unwrap().1) == Some(body),
{
    let base = without(without(h, content_length()), content_encoding());
    let out = base.push((content_encoding(), listed(tokens)));
    lemma_without_has_none(without(h, content_length()), content_encoding());
    lemma_without_has_none(h, content_length());
    lemma_without_keeps_none(without(h, content_length()), content_length(), content_encoding());
    assert(out.drop_last() =~= base);
    assert(values_of(out, content_encoding()) =~= seq![listed(tokens)]);
    assert(lower(content_encoding()) != lower(content_length())) by {
        reveal_strlit("content-encoding");
        reveal_strlit("content-length");
        assert(lower(content_encoding()).len() != lower(content_length()).len());
    }
}

/// Headers without a line of some name stay as they are when the lines of
/// that name are taken out, and hold no value of that name.
pub proof fn lemma_absent_name(h: HeaderSeq, name: Seq<char>)
    requires
        first_value(h, name).is_none(),
    ensures
        without(h, name) == h,
        values_of(h, name) == Seq::<Seq<char>>::empty(),
    decreases h.len(),
{
    if h.len() > 0 {
        lemma_absent_name(h.drop_last(), name);
        assert(h.drop_last().push(h.last()) =~= h);
    } else {
        assert(without(h, name) =~= h);
    }
}

/// A text without commas and white space.
pub open spec fn plain_name(t: Seq<char>) -> bool {
    forall|i: int| 0 <= i < t.len() ==> (#[trigger] t[i]) != ',' && !is_space(t[i])
}

/// A text without commas and white space is the one name that it lists.
pub proof fn lemma_plain_name(t: Seq<char>)
    requires
        plain_name(t),
    ensures
        pieces(t) == seq![t],
{
    lemma_index_from(t, ',', 0);
    assert(split_spec(t, ',') == seq![t]);
    assert(trim_start_spec(t) == t);
    assert(trim_end_spec(t) == t);
    assert(pieces(t) =~= seq![t]);
}

/// The names of the codings hold no comma and no white space.
pub proof fn lemma_names_are_plain(t: Seq<char>)
    requires
        coding_named(t).is_some(),
    ensures
        plain_name(t),
        pieces(t) == seq![t],
{
    reveal_strlit("identity");
    reveal_strlit("gzip");
    reveal_strlit("x-gzip");
    reveal_strlit("deflate");
    reveal_strlit("br");
    reveal_strlit("zstd");
    assert forall|i: int| 0 <= i < t.len() implies (#[trigger] t[i]) != ',' && !is_space(t[i]) by {
        let c = t[i];
        assert(c == 'i' || c == 'd' || c == 'e' || c == 'n' || c == 't' || c == 'y' || c == 'g'
            || c == 'z' || c == 'p' || c == 'x' || c == '-' || c == 'f' || c == 'l' || c == 'a'
            || c == 'b' || c == 'r' || c == 's');
    }
    lemma_plain_name(t);
}

/// A list of names without commas and white space is read back from the
/// header value that lists them.
pub proof fn lemma_listed_names(tokens: Seq<Seq<char>>)
    requires
        tokens.len() > 0,
        forall|k: int| 0 <= k < tokens.len() ==> plain_name(#[trigger] tokens[k]),
    ensures
        pieces(listed(tokens)) == tokens,
    decreases tokens.len(),
{
    if tokens.len() == 1 {
        lemma_plain_name(tokens[0]);
        assert(pieces(listed(tokens)) =~= tokens);
    } else {
        let front = tokens.drop_last();
        let t = tokens.last();
        let head = listed(front);
        let tail = seq![' '] + t;
        assert forall|k: int| 0 <= k < front.len() implies plain_name(#[trigger] front[k]) by {
            assert(front[k] == tokens[k]);
        }
        lemma_listed_names(front);
        reveal_strlit(", ");
        assert(", "@ =~= seq![','] + seq![' ']);
        assert(listed(tokens) =~= head + seq![','] + tail);
        lemma_split_joined(head, tail, ',');
        assert(plain_name(t));
        assert forall|i: int| 0 <= i < tail.len() implies #[trigger] tail[i] != ',' by {
            if i > 0 {
                assert(tail[i] == t[i - 1]);
            }
        }
        lemma_index_is(tail, ',', 0, tail.len() as int);
        assert(split_spec(tail, ',') == seq![tail]);
        assert(is_space(tail[0]));
        lemma_trim_start_skip(tail, 1);
        assert(tail.skip(1) =~= t);
        assert(trim_start_spec(t) == t);
        assert(trim_end_spec(t) == t);
        assert(trim_spec(tail) == t);
        let parts = split_spec(listed(tokens), ',');
        let before = split_spec(head, ',');
        assert(parts == before + seq![tail]);
        assert(pieces(head) == front);
        assert(before.len() == front.len());
        assert forall|i: int| 0 <= i < tokens.len() implies #[trigger] pieces(listed(tokens))[i]
            == tokens[i] by {
            if i < front.len() {
                assert(parts[i] == before[i]);
                assert(pieces(head)[i] == trim_spec(before[i]));
                assert(front[i] == tokens[i]);
            } else {
                assert(parts[i] == tail);
            }
        }
        assert(pieces(listed(tokens)) =~= tokens);
    }
}

/// Where a body can be put into the codings of a list, every name of the
/// list is the name of a coding.
pub proof fn lemma_encoded_names(tokens: Seq<Seq<char>>, body: Seq<u8>)
    requires
        encode_chain(tokens, body).is_some(),
    ensures
        forall|k: int| 0 <= k < tokens.len() ==> coding_named(#[trigger] tokens[k]).is_some(),
    decreases tokens.len(),
{
    if tokens.len() > 0 {
        lemma_encoded_names(tokens.drop_first(), body);
        assert forall|k: int| 0 <= k < tokens.len() implies coding_named(
            #[trigger] tokens[k],
        ).is_some() by {
            if k > 0 {
                assert(tokens[k] == tokens.drop_first()[k - 1]);
            }
        }
    }
}

/// What is put into a coding comes out of it: where a message without a
/// coding and without a length was put into a coding, and the coding gives
/// back the body, decoding gives back the message, headers and body.
pub proof fn lemma_encoded_message_reads_back(encoding: Seq<char>, h: HeaderSeq, body: Seq<u8>)
    requires
        first_value(h, content_encoding()).is_none(),
        first_value(h, content_length()).is_none(),
        encoded_message(encoding, h, body).is_some(),
        decode_step(encoding, encoded_message(encoding, h, body).unwrap().1) == Some(body),
    ensures
        decoded_message(
            encoded_message(encoding, h, body).unwrap().0,
            encoded_message(encoding, h, body).unwrap().1,
        ) == Some((h, body)),
{
    let coded = encoded_message(encoding, h, body).unwrap();
    let line = (content_encoding(), encoding);
    lemma_absent_name(h, content_length());
    lemma_absent_name(h, content_encoding());
    assert(coded.0 == h.push(line));
    assert(coded.0.drop_last() =~= h);
    assert(lower(content_encoding()) != lower(content_length())) by {
        reveal_strlit("content-encoding");
        reveal_strlit("content-length");
        assert(lower(content_encoding()).len() != lower(content_length()).len());
    }
    assert(first_value(coded.0, content_encoding()) == Some(encoding));
    assert(first_value(coded.0, content_length()).is_none());
    assert(without(coded.0, content_length()) == coded.0);
    assert(values_of(coded.0, content_encoding()) == seq![encoding]);
    let one = seq![encoding];
    let none = Seq::<Seq<char>>::empty();
    assert(one.last() == encoding && one.first() == encoding);
    assert(one.drop_last() =~= none);
    assert(one.drop_first() =~= none);
    assert(token_list(none) =~= none);
    assert(token_list(one) =~= pieces(encoding));
    lemma_names_are_plain(encoding);
    assert(codings_of(coded.0) == one);
    assert(decode_chain(none, body) == Some(body));
    assert(decode_chain(one, coded.1) == Some(body));
    assert(without(coded.0, content_encoding()) == h);
}

/// A message that was sealed reads back: decoding it gives the body that
/// was sealed, under the headers that were sealed but for coding and length.
pub proof fn lemma_sealed_message_reads_back(tokens: Seq<Seq<char>>, h: HeaderSeq, body: Seq<u8>)
    requires
        tokens.len() > 0,
        sealed_message(tokens, h, body).is_some(),
    ensures
        decoded_message(
            sealed_message(tokens, h, body).unwrap().0,
            sealed_message(tokens, h, body).unwrap().1,
        ) == Some((without(without(h, content_length()), content_encoding()), body)),
{
    let base = without(without(h, content_length()), content_encoding());
    let sealed = sealed_message(tokens, h, body).unwrap();
    let line = (content_encoding(), listed(tokens));
    lemma_without_has_none(without(h, content_length()), content_encoding());
    lemma_without_has_none(h, content_length());
    lemma_without_keeps_none(without(h, content_length()), content_length(), content_encoding());
    lemma_absent_name(base, content_length());
    lemma_absent_name(base, content_encoding());
    assert(sealed.0 == base.push(line));
    assert(sealed.0.drop_last() =~= base);
    assert(lower(content_encoding()) != lower(content_length())) by {
        reveal_strlit("content-encoding");
        reveal_strlit("content-length");
        assert(lower(content_encoding()).len() != lower(content_length()).len());
    }
    assert(first_value(sealed.0, content_encoding()) == Some(listed(tokens)));
    assert(first_value(sealed.0, content_length()).is_none());
    assert(without(sealed.0, content_length()) == sealed.0);
    assert(values_of(sealed.0, content_encoding()) == seq![listed(tokens)]);
    let one = seq![listed(tokens)];
    let none = Seq::<Seq<char>>::empty();
    assert(one.last() == listed(tokens));
    assert(one.drop_last() =~= none);
    assert(token_list(none) =~= none);
    assert(token_list(one) =~= pieces(listed(tokens)));
    lemma_encoded_names(tokens, body);
    assert forall|k: int| 0 <= k < tokens.len() implies plain_name(#[trigger] tokens[k]) by {
        lemma_names_are_plain(tokens[k]);
    }
    lemma_listed_names(tokens);
    assert(codings_of(sealed.0) == tokens);
    assert(without(sealed.0, content_encoding()) == base);
}

/// Taking out the lines of one name leaves a name that was not there as
/// absent as before.
pub proof fn lemma_without_keeps_none(h: HeaderSeq, absent: Seq<char>, taken: Seq<char>)
    requires
        first_value(h, absent).is_none(),
    ensures
        first_value(without(h, taken), absent).is_none(),
    decreases h.len(),
{
    if h.len() > 0 {
        lemma_without_keeps_none(h.drop_last(), absent, taken);
        if !crate::message::same_name(h.last().0, taken) {
            assert(without(h, taken).drop_last() =~= without(h.drop_last(), taken));
        }
    }
}

} // verus!
