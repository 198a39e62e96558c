//! The engine's own pages: which page a request is for, and what the
//! administrative interface takes for a valid setting.

use vstd::prelude::*;
use vstd::string::*;
use crate::handle::{non_empty, segments};
use crate::message::{without, HeaderSeq, JsHeaders};
use crate::text::{
    chars_of, extend_chars, extend_str, has_prefix, has_suffix, is_text, parse_decimal, parse_int,
    split, split_once, split_once_spec, split_spec, starts_with, ends_with, string_of,
};
use crate::uri::Param;

verus! {

/// Whether a request is for a worker script: its `sec-fetch-dest` ends in
/// `worker`.
pub fn is_worker_request(dest: &str) -> (r: bool)
    ensures
        r == ends_with(dest@, "worker"@),
{
    has_suffix(chars_of(dest).as_slice(), "worker")
}

/// Whether the worker script is the engine's own, which is empty before the
/// plugin scripts are put into it.
pub fn is_own_worker(path: &str) -> (r: bool)
    ensures
        r == (path@ == "/cthulhu.js"@),
{
    is_text(chars_of(path).as_slice(), "/cthulhu.js")
}

/// The headers of a worker request as they go upstream: the script is
/// fetched anew, whatever the browser has of it.
pub open spec fn uncached(h: HeaderSeq) -> HeaderSeq {
    without(
        without(without(h, "if-modified-since"@), "if-none-match"@),
        "if-unmodified-since"@,
    )
}

/// Takes the cache conditions out of the headers of a worker request.
pub fn strip_cache_headers(headers: &mut JsHeaders)
    ensures
        final(headers)@ == uncached(old(headers)@),
        final(headers).is_mut == old(headers).is_mut,
{
    let _ = headers.take("if-modified-since");
    let _ = headers.take("if-none-match");
    let _ = headers.take("if-unmodified-since");
}

/// What a request to the pages of a plugin asks for.
#[derive(Clone, Copy, Debug, PartialEq, Eq, Structural)]
pub enum PluginRoute {
    /// The host names no plugin.
    Invalid,
    /// A question to the plugin.
    Ask,
    /// A script that the plugin writes on demand.
    Dynamic,
    /// A file of the plugin.
    Static,
}

/// The id of the plugin that a host names: what stands before the first dot.
pub open spec fn plugin_id_of(host: Seq<char>) -> Seq<char> {
    match split_once_spec(host, '.') {
        Some((id, _)) => id,
        None => Seq::<char>::empty(),
    }
}

/// The route of a request to the pages of a plugin.
pub open spec fn plugin_route_of(host: Seq<char>, path: Seq<char>) -> PluginRoute {
    if plugin_id_of(host).len() == 0 {
        PluginRoute::Invalid
    } else if starts_with(path, "/ask"@) {
        PluginRoute::Ask
    } else if starts_with(path, "/dynamic/"@) {
        PluginRoute::Dynamic
    } else {
        PluginRoute::Static
    }
}

/// The id of the plugin that a host names.
pub fn plugin_id(host: &str) -> (r: String)
    ensures
        r@ == plugin_id_of(host@),
{
    match split_once(chars_of(host).as_slice(), '.') {
        Some((id, _)) => string_of(id.as_slice()),
        None => String::new(),
    }
}

/// Decides what a request to the pages of a plugin asks for.
pub fn plugin_route(host: &str, path: &str) -> (r: PluginRoute)
    ensures
        r == plugin_route_of(host@, path@),
{
    let id = plugin_id(host);
    let p = chars_of(path);
    if id.as_str().unicode_len() == 0 {
        PluginRoute::Invalid
    } else if has_prefix(p.as_slice(), "/ask") {
        PluginRoute::Ask
    } else if has_prefix(p.as_slice(), "/dynamic/") {
        PluginRoute::Dynamic
    } else {
        PluginRoute::Static
    }
}

/// Whether a path that leads to no file is answered with "not found" rather
/// than with the index page: it is where something follows its first dot.
pub fn names_a_file(path: &str) -> (r: bool)
    ensures
        r == (match split_once_spec(path@, '.') {
            Some((_, end)) => end.len() > 0,
            None => false,
        }),
{
    match split_once(chars_of(path).as_slice(), '.') {
        Some((_, end)) => end.len() > 0,
        None => false,
    }
}

/// The parts of a path joined by `/`.
pub open spec fn slashed(parts: Seq<Seq<char>>) -> Seq<char>
    decreases parts.len(),
{
    if parts.len() == 0 {
        Seq::<char>::empty()
    } else if parts.len() == 1 {
        parts[0]
    } else {
        slashed(parts.drop_last()) + "/"@ + parts.last()
    }
}

/// A path with single forward slashes between its parts and none at its
/// ends.
pub fn normal_path(path: &str) -> (r: String)
    ensures
        r@ == slashed(segments(path@)),
{
    let c = chars_of(path);
    let mut flat: Vec<char> = Vec::new();
    let mut i: usize = 0;
    while i < c.len()
        invariant
            i <= c.len(),
            c@ == path@,
            flat@ == Seq::new(i as nat, |k: int| if path@[k] == '\\' { '/' } else { path@[k] }),
        decreases c.len() - i,
    {
        let ch = c[i];
        flat.push(if ch == '\\' { '/' } else { ch });
        assert(flat@ =~= Seq::new(
            (i + 1) as nat,
            |k: int| if path@[k] == '\\' { '/' } else { path@[k] },
        ));
        i += 1;
    }
    let parts = split(flat.as_slice(), '/');
    let ghost all = parts.deep_view();
    let mut out: Vec<char> = Vec::new();
    let mut first = true;
    let mut j: usize = 0;
    assert(all.take(0) =~= Seq::<Seq<char>>::empty());
    while j < parts.len()
        invariant
            j <= parts.len(),
            all == parts.deep_view(),
            out@ == slashed(non_empty(all.take(j as int))),
            first == (non_empty(all.take(j as int)).len() == 0),
        decreases parts.len() - j,
    {
        let ghost next = all.take(j + 1);
        proof {
            assert(next.drop_last() =~= all.take(j as int));
            assert(next.last() == parts@[j as int]@);
        }
        if parts[j].len() > 0 {
            if !first {
                extend_str(&mut out, "/");
            }
            extend_chars(&mut out, parts[j].as_slice());
            proof {
                let kept = non_empty(next);
                assert(kept.drop_last() =~= non_empty(all.take(j as int)));
                assert(kept.last() == parts@[j as int]@);
                if first {
                    assert(kept.len() == 1);
                    assert(out@ =~= kept[0]);
                } else {
                    assert(out@ =~= slashed(kept));
                }
            }
            first = false;
        }
        j += 1;
    }
    assert(all.take(all.len() as int) =~= all);
    string_of(out.as_slice())
}

/// The parameters after one more pair of a query. The key is what stands
/// before the first `=`, the value what stands between the first and the
/// second; a pair without a key is passed over, and a later value for a key
/// takes the place of an earlier one.
pub open spec fn pair_step(
    acc: Seq<(Seq<char>, Seq<char>)>,
    pair: Seq<char>,
) -> Seq<(Seq<char>, Seq<char>)> {
    let parts = split_spec(pair, '=');
    if parts[0].len() == 0 {
        acc
    } else {
        crate::uri::put_param(
            acc,
            parts[0],
            if parts.len() > 1 {
                parts[1]
            } else {
                Seq::<char>::empty()
            },
        )
    }
}

/// The parameters of a query, pair by pair.
pub open spec fn pairs_from(
    items: Seq<Seq<char>>,
    acc: Seq<(Seq<char>, Seq<char>)>,
) -> Seq<(Seq<char>, Seq<char>)>
    decreases items.len(),
{
    if items.len() == 0 {
        acc
    } else {
        pairs_from(items.skip(1), pair_step(acc, items[0]))
    }
}

/// The parameters of a request to the administrative interface, as they
/// stand in its query: nothing is decoded.
pub fn query_pairs(query: &str) -> (r: Vec<Param>)
    ensures
        r@.map_values(|p: Param| p@) == pairs_from(split_spec(query@, '&'), Seq::empty()),
{
    let c = chars_of(query);
    let items = split(c.as_slice(), '&');
    let mut out: Vec<Param> = Vec::new();
    let mut i: usize = 0;
    assert(items.deep_view().skip(0) =~= items.deep_view());
    assert(out@.map_values(|p: Param| p@) =~= Seq::empty());
    while i < items.len()
        invariant
            i <= items.len(),
            items.deep_view() == split_spec(query@, '&'),
            pairs_from(items.deep_view().skip(i as int), out@.map_values(|p: Param| p@))
                == pairs_from(split_spec(query@, '&'), Seq::empty()),
        decreases items.len() - i,
    {
        let ghost rest = items.deep_view().skip(i as int);
        let ghost acc = out@.map_values(|p: Param| p@);
        assert(rest[0] == items@[i as int]@);
        assert(rest.skip(1) =~= items.deep_view().skip(i + 1));
        let parts = split(items[i].as_slice(), '=');
        assert(parts.deep_view()[0] == parts@[0]@);
        if parts[0].len() > 0 {
            let key = string_of(parts[0].as_slice());
            let value = if parts.len() > 1 {
                assert(parts.deep_view()[1] == parts@[1]@);
                string_of(parts[1].as_slice())
            } else {
                String::new()
            };
            let mut at: usize = 0;
            let ghost k = key@;
            assert(acc.skip(0) =~= acc);
            while at < out.len() && !(out[at].key == key)
                invariant
                    at <= out.len(),
                    k == key@,
                    acc == out@.map_values(|p: Param| p@),
                    crate::uri::param_index(acc, k) == at + crate::uri::param_index(
                        acc.skip(at as int),
                        k,
                    ),
                decreases out.len() - at,
            {
                assert(acc.skip(at as int)[0] == out@[at as int]@);
                assert(acc.skip(at as int).skip(1) =~= acc.skip(at + 1));
                at += 1;
            }
            proof {
                if at < out.len() {
                    assert(acc.skip(at as int)[0] == out@[at as int]@);
                } else {
                    assert(acc.skip(at as int).len() == 0);
                }
            }
            let p = Param { key, value };
            if at < out.len() {
                out.set(at, p);
            } else {
                out.push(p);
            }
            assert(out@.map_values(|p: Param| p@) =~= pair_step(acc, rest[0]));
        }
        i += 1;
    }
    out
}

/// The levels of a plugin's log.
pub fn is_log_level(level: &str) -> (r: bool)
    ensures
        r == (level@ == "info"@ || level@ == "debug"@ || level@ == "error"@ || level@ == "warn"@),
{
    let l = chars_of(level);
    is_text(l.as_slice(), "info") || is_text(l.as_slice(), "debug") || is_text(
        l.as_slice(),
        "error",
    ) || is_text(l.as_slice(), "warn")
}

/// The number of log lines that are handed out at once.
pub const LOG_PAGE: usize = 150;

/// The lines of a log from `index` on, a page of them at most.
pub open spec fn log_page(lines: Seq<String>, index: int) -> Seq<String> {
    if index >= lines.len() {
        Seq::empty()
    } else if index + LOG_PAGE >= lines.len() {
        lines.skip(index)
    } else {
        lines.subrange(index, index + LOG_PAGE)
    }
}

/// The page of a log that begins at `index`.
pub fn log_window(lines: Vec<String>, index: u64) -> (r: Vec<String>)
    ensures
        r@ == log_page(lines@, index as int),
{
    let ghost given = lines@;
    let mut all = lines;
    let n: usize = all.len();
    if index >= n as u64 {
        return Vec::new();
    }
    let start: usize = index as usize;
    let mut tail = all.split_off(start);
    if tail.len() > LOG_PAGE {
        tail.truncate(LOG_PAGE);
    }
    assert(tail@ =~= log_page(given, index as int)) by {
        assert(given.skip(start as int) =~= given.subrange(start as int, n as int));
    }
    tail
}

/// Why a setting is refused.
#[derive(Clone, Copy, Debug, PartialEq, Eq, Structural)]
pub enum ConfigError {
    /// The value is not of the type of the setting.
    WrongType,
    /// A setting of type `obj` has no value of its own.
    ObjectValue,
    /// The type of the setting is unknown.
    UnknownType,
    /// The port is not above 100 and at most 65535.
    PortRange,
    /// The file that the value names is not there.
    FileMissing,
}

/// What else is to be done when a setting changes.
#[derive(Clone, Copy, Debug, PartialEq, Eq, Structural)]
pub enum ConfigEffect {
    /// The value is stored and that is all.
    Store,
    /// Every other setting named `enabled` is switched off first.
    EnableOnly,
    /// The proxy of the system is set or cleared.
    SystemProxy(bool),
}

/// What is known of a value beyond its text.
pub struct ValueFacts {
    /// Whether the value is a JSON number.
    pub is_number: bool,
    /// Whether a file of that name is there.
    pub file_exists: bool,
}

/// The port that a text names, or zero.
pub open spec fn port_of(val: Seq<char>) -> int {
    match parse_decimal(val, 0, 0xffff_ffff) {
        Some(n) => n,
        None => 0,
    }
}

/// Whether a value is of the given type, as far as the type asks anything.
pub open spec fn type_check(kind: Seq<char>, val: Seq<char>, facts: ValueFacts) -> Option<
    ConfigError,
> {
    if kind == "str"@ || kind == "list"@ {
        None
    } else if kind == "num"@ {
        if facts.is_number {
            None
        } else {
            Some(ConfigError::WrongType)
        }
    } else if kind == "bool"@ {
        if val == "true"@ || val == "false"@ {
            None
        } else {
            Some(ConfigError::WrongType)
        }
    } else if kind == "obj"@ {
        Some(ConfigError::ObjectValue)
    } else {
        Some(ConfigError::UnknownType)
    }
}

/// What the key of a setting asks of its value, and what follows from the
/// change.
pub open spec fn key_check(key: Seq<char>, val: Seq<char>, facts: ValueFacts) -> Result<
    ConfigEffect,
    ConfigError,
> {
    if key == "port"@ {
        if 100 < port_of(val) <= 65535 {
            Ok(ConfigEffect::Store)
        } else {
            Err(ConfigError::PortRange)
        }
    } else if key == "enabled"@ {
        Ok(ConfigEffect::EnableOnly)
    } else if key == "key"@ || key == "cert"@ {
        if facts.file_exists {
            Ok(ConfigEffect::Store)
        } else {
            Err(ConfigError::FileMissing)
        }
    } else if key == "systemProxy"@ {
        Ok(ConfigEffect::SystemProxy(val == "true"@))
    } else {
        Ok(ConfigEffect::Store)
    }
}

/// Whether a setting may take a value: the type is checked first, then the
/// key.
pub open spec fn config_check(
    kind: Seq<char>,
    key: Seq<char>,
    val: Seq<char>,
    facts: ValueFacts,
) -> Result<ConfigEffect, ConfigError> {
    match type_check(kind, val, facts) {
        Some(e) => Err(e),
        None => key_check(key, val, facts),
    }
}

/// Checks a new value for a setting.
pub fn check_config_value(kind: &str, key: &str, val: &str, facts: ValueFacts) -> (r: Result<
    ConfigEffect,
    ConfigError,
>)
    ensures
        r == config_check(kind@, key@, val@, facts),
{
    let t = chars_of(kind);
    let k = chars_of(key);
    let v = chars_of(val);
    if is_text(t.as_slice(), "str") || is_text(t.as_slice(), "list") {
    } else if is_text(t.as_slice(), "num") {
        if !facts.is_number {
            return Err(ConfigError::WrongType);
        }
    } else if is_text(t.as_slice(), "bool") {
        if !(is_text(v.as_slice(), "true") || is_text(v.as_slice(), "false")) {
            return Err(ConfigError::WrongType);
        }
    } else if is_text(t.as_slice(), "obj") {
        return Err(ConfigError::ObjectValue);
    } else {
        return Err(ConfigError::UnknownType);
    }
    if is_text(k.as_slice(), "port") {
        let port: i64 = match parse_int(v.as_slice(), 0, 0xffff_ffff) {
            Some(n) => n,
            None => 0,
        };
        if 100 < port && port <= 65535 {
            Ok(ConfigEffect::Store)
        } else {
            Err(ConfigError::PortRange)
        }
    } else if is_text(k.as_slice(), "enabled") {
        Ok(ConfigEffect::EnableOnly)
    } else if is_text(k.as_slice(), "key") || is_text(k.as_slice(), "cert") {
        if facts.file_exists {
            Ok(ConfigEffect::Store)
        } else {
            Err(ConfigError::FileMissing)
        }
    } else if is_text(k.as_slice(), "systemProxy") {
        Ok(ConfigEffect::SystemProxy(is_text(v.as_slice(), "true")))
    } else {
        Ok(ConfigEffect::Store)
    }
}

/// The priority with which a plugin may change traffic, as it is stored: a
/// negative one counts as none.
pub fn stored_priority(net_modify: i64) -> (r: i64)
    ensures
        r == (if net_modify < 0 {
            0
        } else {
            net_modify
        }),
{
    if net_modify < 0 {
        0
    } else {
        net_modify
    }
}

/// Whether a path of a plugin's description stays inside the plugin's
/// directory: it does not begin with `../`.
pub fn stays_inside(path: &str) -> (r: bool)
    ensures
        r == !starts_with(path@, "../"@),
{
    !has_prefix(chars_of(path).as_slice(), "../")
}

/// What the engine does with a message from one of its pages.
pub enum SessionReply {
    /// It answers with this message.
    Send(crate::ws::Message),
    /// It stops listening.
    Stop,
    /// It ends the session and stops listening.
    Close,
}

/// The text with which the engine answers a message that asks for nothing.
pub const NOTHING_TO_DO: &'static str = "<nothing todo>";

/// The reply to a message from a page: a ping gets an empty pong, a pong and
/// a close end the listening, the close also the session, and everything
/// else gets the text that says there is nothing to do.
pub fn session_reply(msg: &crate::ws::Message) -> (r: SessionReply)
    ensures
        match *msg {
            crate::ws::Message::Ping(_) => r matches SessionReply::Send(
                crate::ws::Message::Pong(d),
            ) && d@.len() == 0,
            crate::ws::Message::Pong(_) => r is Stop,
            crate::ws::Message::Close(_) => r is Close,
            _ => r matches SessionReply::Send(crate::ws::Message::Text(t)) && t@ == NOTHING_TO_DO@,
        },
{
    match msg {
        crate::ws::Message::Ping(_) => SessionReply::Send(crate::ws::Message::Pong(Vec::new())),
        crate::ws::Message::Pong(_) => SessionReply::Stop,
        crate::ws::Message::Close(_) => SessionReply::Close,
        _ => SessionReply::Send(crate::ws::Message::Text(NOTHING_TO_DO.to_owned())),
    }
}

} // verus!
