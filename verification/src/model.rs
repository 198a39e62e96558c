//! The records that the engine reads: plugins and settings.

use vstd::prelude::*;
use crate::text::{chars_of, split, split_spec, string_of};

verus! {

/// An installed plugin.
#[derive(Clone, Debug)]
pub struct Plugin {
    pub id: String,
    pub name: String,
    pub version: String,
    pub intro: String,
    pub logo_path: String,
    pub web_root: String,
    pub web_index: String,
    pub path: String,
    pub server_path: String,
    pub worker_path: String,
    /// The content scripts, joined by commas.
    pub content_paths: String,
    /// The dynamic links, joined by commas.
    pub dynamic_links: String,
    /// The host patterns that the plugin is for, joined by commas; empty
    /// means every host.
    pub matches: String,
    /// 1 where the plugin may watch traffic.
    pub net_monitor: i64,
    /// Above zero where the plugin may change traffic; the lower value goes
    /// first.
    pub net_modify: i64,
    pub enable: i64,
    /// When the plugin was installed, on a clock that only grows.
    pub install_time: i64,
}

/// One setting.
#[derive(Clone, Debug)]
pub struct Config {
    pub id: i64,
    pub key: String,
    pub label: String,
    /// The type of the value: `str`, `num`, `bool`, `list` or `obj`.
    pub kind: String,
    pub value: String,
    pub parent_id: i64,
}

/// A list of host patterns that is in force where `enabled` is set.
#[derive(Clone, Debug)]
pub struct HostList {
    pub enabled: bool,
    pub list: Vec<String>,
}

/// Where the key and the certificate of the authority are.
#[derive(Clone, Debug)]
pub struct CertCfg {
    pub key: String,
    pub cert: String,
}

/// The texts of a list.
pub open spec fn texts(v: Seq<String>) -> Seq<Seq<char>> {
    v.map_values(|s: String| s@)
}

/// The pieces of a text between commas, as strings.
pub fn comma_list(s: &str) -> (r: Vec<String>)
    ensures
        texts(r@) == split_spec(s@, ','),
{
    let c = chars_of(s);
    let parts = split(c.as_slice(), ',');
    let mut out: Vec<String> = Vec::new();
    let mut i: usize = 0;
    let ghost all = parts.deep_view();
    assert(texts(out@) =~= all.take(0));
    while i < parts.len()
        invariant
            i <= parts.len(),
            all == parts.deep_view(),
            texts(out@) == all.take(i as int),
        decreases parts.len() - i,
    {
        let t = string_of(parts[i].as_slice());
        assert(all[i as int] == parts@[i as int]@);
        let ghost before = texts(out@);
        out.push(t);
        assert(texts(out@) =~= before.push(t@));
        assert(all.take(i + 1) =~= all.take(i as int).push(all[i as int]));
        i += 1;
    }
    assert(all.take(all.len() as int) =~= all);
    out
}

impl Plugin {
    /// The host patterns of the plugin.
    pub fn patterns(&self) -> (r: Vec<String>)
        ensures
            texts(r@) == split_spec(self.matches@, ','),
    {
        comma_list(self.matches.as_str())
    }

    /// The content scripts of the plugin.
    pub fn contents(&self) -> (r: Vec<String>)
        ensures
            texts(r@) == split_spec(self.content_paths@, ','),
    {
        comma_list(self.content_paths.as_str())
    }
}

} // verus!
