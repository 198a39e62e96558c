//! The shared state of the engine: the tables that tie sessions, scopes and
//! ways out together, the loaded plugins, and the observers under way.

use vstd::prelude::*;
use vstd::string::*;
use crate::handle::any_match;
use crate::message::ProxyCfg;
use crate::model::Plugin;
use crate::scope::{Scope, ScopeView};
use crate::table::{lemma_position, position, Entry, Exchange, Table};
use crate::text::{chars_of, split, split_spec};
use crate::utils::{match_text, wild_match};

verus! {

/// The tables of the connection engine. `S` is the sink over which a session
/// is reached.
pub struct ClientManager<S> {
    /// The sink of each session.
    pub sinks: Table<String, S>,
    /// The sessions of each scope.
    pub sessions: Table<Scope, Vec<String>>,
    /// The way out of each scope.
    pub proxy_datas: Table<Scope, ProxyCfg>,
    /// The scope of each request that is under way.
    pub ctx_map_scope_keys: Table<Exchange, Scope>,
    /// The scope of each id.
    pub scope_keys: Table<String, Scope>,
}

/// The texts of a list of strings.
pub open spec fn ids(v: Vec<String>) -> Seq<Seq<char>> {
    v@.map_values(|s: String| s@)
}

/// Every scope stands under its own id.
pub open spec fn keyed_by_id(m: Map<Seq<char>, Scope>) -> bool {
    forall|k: Seq<char>| #[trigger] m.dom().contains(k) ==> m[k]@.id == k
}

impl<S> ClientManager<S> {
    /// No table holds a key twice, and every scope that can be looked up by
    /// id stands under its own id.
    pub open spec fn wf(&self) -> bool {
        &&& self.sinks.wf()
        &&& self.sessions.wf()
        &&& self.proxy_datas.wf()
        &&& self.ctx_map_scope_keys.wf()
        &&& self.scope_keys.wf()
        &&& keyed_by_id(self.scope_keys.map())
    }

    /// Empty tables.
    pub fn new() -> (r: Self)
        ensures
            r.wf(),
            r.sinks.count() == 0,
            r.sessions.count() == 0,
            r.proxy_datas.count() == 0,
            r.ctx_map_scope_keys.count() == 0,
            r.scope_keys.count() == 0,
    {
        ClientManager {
            sinks: Table::new(),
            sessions: Table::new(),
            proxy_datas: Table::new(),
            ctx_map_scope_keys: Table::new(),
            scope_keys: Table::new(),
        }
    }

    /// Makes a scope known under its id.
    pub fn set_scope_key(&mut self, key: Scope)
        requires
            old(self).wf(),
        ensures
            final(self).wf(),
            final(self).scope_keys.map() == old(self).scope_keys.map().insert(key@.id, key),
            final(self).sinks == old(self).sinks,
            final(self).sessions == old(self).sessions,
            final(self).proxy_datas == old(self).proxy_datas,
            final(self).ctx_map_scope_keys == old(self).ctx_map_scope_keys,
    {
        let id = key.id.clone();
        let ghost before = self.scope_keys.map();
        self.scope_keys.insert(id, key);
        proof {
            let after = self.scope_keys.map();
            assert forall|k: Seq<char>| #[trigger] after.dom().contains(k) implies after[k]@.id
                == k by {
                if k != id@ {
                    assert(before.dom().contains(k));
                }
            }
        }
    }

    /// The scope with the given id.
    pub fn scope_by_id(&self, id: &String) -> (r: Option<&Scope>)
        requires
            self.wf(),
        ensures
            match r {
                Some(s) => self.scope_keys.has(id@) && *s == self.scope_keys.value(id@) && s@.id
                    == id@,
                None => !self.scope_keys.has(id@),
            },
    {
        proof {
            if self.scope_keys.has(id@) {
                assert(self.scope_keys.map().dom().contains(id@));
            }
        }
        self.scope_keys.get(id)
    }

    /// Adds a session to a scope and keeps its sink.
    pub fn add_session_sink(&mut self, scope_key: Scope, session_id: String, sink: S)
        requires
            old(self).wf(),
        ensures
            final(self).wf(),
            final(self).sinks.map() == old(self).sinks.map().insert(session_id@, sink),
            final(self).sessions.has(scope_key@),
            ids(final(self).sessions.value(scope_key@)) == with_id(
                if old(self).sessions.has(scope_key@) {
                    ids(old(self).sessions.value(scope_key@))
                } else {
                    Seq::<Seq<char>>::empty()
                },
                session_id@,
            ),
            forall|k: ScopeView|
                k != scope_key@ ==> final(self).sessions.has(k) == old(self).sessions.has(k) && (
                final(self).sessions.has(k) ==> final(self).sessions.value(k) == old(self).sessions.value(k)),
            final(self).proxy_datas == old(self).proxy_datas,
            final(self).ctx_map_scope_keys == old(self).ctx_map_scope_keys,
            final(self).scope_keys == old(self).scope_keys,
    {
        let ghost old_map = self.sessions.map();
        let mut list: Vec<String> = match self.sessions.remove(&scope_key) {
            Some(l) => l,
            None => Vec::new(),
        };
        let ghost base = ids(list);
        assert(base =~= if old(self).sessions.has(scope_key@) {
            ids(old(self).sessions.value(scope_key@))
        } else {
            Seq::<Seq<char>>::empty()
        });
        let mut found = false;
        let mut i: usize = 0;
        while i < list.len()
            invariant
                i <= list.len(),
                base == ids(list),
                found == exists|j: int| 0 <= j < i && #[trigger] base[j] == session_id@,
            decreases list.len() - i,
        {
            if list[i] == session_id {
                assert(base[i as int] == session_id@);
                found = true;
            }
            i += 1;
        }
        if !found {
            list.push(session_id.clone());
            assert(ids(list) =~= base.push(session_id@));
        }
        let ghost mid = self.sessions.map();
        self.sessions.insert(scope_key, list);
        self.sinks.insert(session_id, sink);
        proof {
            let fin = self.sessions.map();
            assert(fin == old_map.remove(scope_key@).insert(scope_key@, list));
            assert(fin.dom().contains(scope_key@));
            assert forall|k: ScopeView| k != scope_key@ implies final(self).sessions.has(k) == old(self).sessions.has(k) && (final(self).sessions.has(k) ==> final(self).sessions.value(k)
                == old(self).sessions.value(k)) by {
                assert(fin.dom().contains(k) == old_map.dom().contains(k));
                if fin.dom().contains(k) {
                    assert(fin[k] == old_map[k]);
                }
            }
            assert(fin[scope_key@] == list);
        }
    }

    /// Records the way out of a scope.
    pub fn set_proxy(&mut self, scope_key: Scope, proxy_cfg: ProxyCfg)
        requires
            old(self).wf(),
        ensures
            final(self).wf(),
            final(self).proxy_datas.map() == old(self).proxy_datas.map().insert(
                scope_key@,
                proxy_cfg,
            ),
            final(self).sinks == old(self).sinks,
            final(self).sessions == old(self).sessions,
            final(self).ctx_map_scope_keys == old(self).ctx_map_scope_keys,
            final(self).scope_keys == old(self).scope_keys,
    {
        self.proxy_datas.insert(scope_key, proxy_cfg);
    }

    /// The way out that was recorded for a scope.
    pub fn proxy_of(&self, scope_key: &Scope) -> (r: Option<&ProxyCfg>)
        ensures
            match r {
                Some(c) => self.proxy_datas.has(scope_key@) && *c == self.proxy_datas.value(
                    scope_key@,
                ),
                None => !self.proxy_datas.has(scope_key@),
            },
    {
        self.proxy_datas.get(scope_key)
    }

    /// Ties a request that is under way to its scope, so that its response
    /// finds the scope again.
    pub fn remember_scope(&mut self, client_addr: String, uri: String, scope: Scope)
        requires
            old(self).wf(),
        ensures
            final(self).wf(),
            final(self).ctx_map_scope_keys.map() == old(self).ctx_map_scope_keys.map().insert(
                (client_addr@, uri@),
                scope,
            ),
            final(self).sinks == old(self).sinks,
            final(self).sessions == old(self).sessions,
            final(self).proxy_datas == old(self).proxy_datas,
            final(self).scope_keys == old(self).scope_keys,
    {
        self.ctx_map_scope_keys.insert(Exchange { client_addr, uri }, scope);
    }

    /// Takes the scope of a request out of the table: a response looks its
    /// scope up once.
    pub fn take_scope(&mut self, client_addr: String, uri: String) -> (r: Option<Scope>)
        requires
            old(self).wf(),
        ensures
            final(self).wf(),
            final(self).ctx_map_scope_keys.map() == old(self).ctx_map_scope_keys.map().remove(
                (client_addr@, uri@),
            ),
            !final(self).ctx_map_scope_keys.has((client_addr@, uri@)),
            match r {
                Some(s) => old(self).ctx_map_scope_keys.has((client_addr@, uri@)) && s == old(self).ctx_map_scope_keys.value((client_addr@, uri@)),
                None => !old(self).ctx_map_scope_keys.has((client_addr@, uri@)),
            },
            final(self).sinks == old(self).sinks,
            final(self).sessions == old(self).sessions,
            final(self).proxy_datas == old(self).proxy_datas,
            final(self).scope_keys == old(self).scope_keys,
    {
        let key = Exchange { client_addr, uri };
        self.ctx_map_scope_keys.remove(&key)
    }

    /// A copy of the scope of a request; the table keeps it, as the messages
    /// of one socket all look it up.
    pub fn find_scope(&self, client_addr: String, uri: String) -> (r: Option<Scope>)
        ensures
            match r {
                Some(s) => self.ctx_map_scope_keys.has((client_addr@, uri@)) && s@
                    == self.ctx_map_scope_keys.value((client_addr@, uri@))@,
                None => !self.ctx_map_scope_keys.has((client_addr@, uri@)),
            },
    {
        let key = Exchange { client_addr, uri };
        match self.ctx_map_scope_keys.get(&key) {
            Some(s) => Some(s.copy()),
            None => None,
        }
    }

    /// Forgets the sink of a session that was closed, and hands it back.
    pub fn close_sink(&mut self, session_id: &String) -> (r: Option<S>)
        requires
            old(self).wf(),
        ensures
            final(self).wf(),
            final(self).sinks.map() == old(self).sinks.map().remove(session_id@),
            !final(self).sinks.has(session_id@),
            match r {
                Some(s) => old(self).sinks.has(session_id@) && s == old(self).sinks.value(
                    session_id@,
                ),
                None => !old(self).sinks.has(session_id@),
            },
            final(self).sessions == old(self).sessions,
            final(self).proxy_datas == old(self).proxy_datas,
            final(self).ctx_map_scope_keys == old(self).ctx_map_scope_keys,
            final(self).scope_keys == old(self).scope_keys,
    {
        self.sinks.remove(session_id)
    }
}

/// A list of ids without the given id.
pub open spec fn without_id(list: Seq<Seq<char>>, id: Seq<char>) -> Seq<Seq<char>>
    decreases list.len(),
{
    if list.len() == 0 {
        Seq::empty()
    } else if list.last() == id {
        without_id(list.drop_last(), id)
    } else {
        without_id(list.drop_last(), id).push(list.last())
    }
}

impl<S> ClientManager<S> {
    /// Ends a session: its sink is forgotten and handed back, and the scope
    /// does not count the session any more. A scope without sessions keeps
    /// its line.
    pub fn close_session(&mut self, scope_key: &Scope, session_id: &String) -> (r: Option<S>)
        requires
            old(self).wf(),
        ensures
            final(self).wf(),
            final(self).sinks.map() == old(self).sinks.map().remove(session_id@),
            match r {
                Some(s) => old(self).sinks.has(session_id@) && s == old(self).sinks.value(
                    session_id@,
                ),
                None => !old(self).sinks.has(session_id@),
            },
            final(self).sessions.has(scope_key@) == old(self).sessions.has(scope_key@),
            old(self).sessions.has(scope_key@) ==> ids(final(self).sessions.value(scope_key@))
                == without_id(ids(old(self).sessions.value(scope_key@)), session_id@),
            forall|k: ScopeView|
                k != scope_key@ ==> final(self).sessions.has(k) == old(self).sessions.has(k) && (
                final(self).sessions.has(k) ==> final(self).sessions.value(k) == old(self).sessions.value(k)),
            final(self).proxy_datas == old(self).proxy_datas,
            final(self).ctx_map_scope_keys == old(self).ctx_map_scope_keys,
            final(self).scope_keys == old(self).scope_keys,
    {
        let sink = self.sinks.remove(session_id);
        let ghost old_map = self.sessions.map();
        match self.sessions.remove(scope_key) {
            None => {
                proof {
                    assert(self.sessions.map() =~= old_map);
                    assert forall|k: ScopeView| k != scope_key@ implies final(self).sessions.has(k)
                        == old(self).sessions.has(k) && (final(self).sessions.has(k) ==> final(self).sessions.value(k) == old(self).sessions.value(k)) by {
                        assert(self.sessions.map().dom().contains(k) == old_map.dom().contains(k));
                        if old_map.dom().contains(k) {
                            assert(self.sessions.map()[k] == old_map[k]);
                        }
                    }
                }
            },
            Some(list) => {
                let ghost base = ids(list);
                let mut list = list;
                let mut kept: Vec<String> = Vec::new();
                let mut back: Vec<String> = Vec::new();
                let n: usize = list.len();
                let mut i: usize = n;
                while i > 0
                    invariant
                        i <= n,
                        n == base.len(),
                        list@.len() == i,
                        ids(list) == base.take(i as int),
                        back@.len() == n - i,
                        forall|x: int| 0 <= x < n - i ==> (#[trigger] back@[x])@ == base[n - 1 - x],
                    decreases i,
                {
                    let t = list.pop().unwrap();
                    assert(t@ == base.take(i as int)[i - 1]);
                    back.push(t);
                    i -= 1;
                    assert(ids(list) =~= base.take(i as int));
                }
                let mut j: usize = 0;
                assert(base.take(0) =~= Seq::<Seq<char>>::empty());
                assert(ids(kept) =~= without_id(base.take(0), session_id@));
                while j < n
                    invariant
                        j <= n,
                        n == base.len(),
                        back@.len() == n - j,
                        forall|x: int| 0 <= x < n - j ==> (#[trigger] back@[x])@ == base[n - 1 - x],
                        ids(kept) == without_id(base.take(j as int), session_id@),
                    decreases n - j,
                {
                    let t = back.pop().unwrap();
                    assert(t@ == base[j as int]);
                    let ghost next = base.take(j + 1);
                    let ghost before = ids(kept);
                    assert(next.drop_last() =~= base.take(j as int));
                    assert(next.last() == base[j as int]);
                    if !(t == *session_id) {
                        kept.push(t);
                        assert(ids(kept) =~= before.push(base[j as int]));
                    }
                    j += 1;
                }
                assert(base.take(n as int) =~= base);
                self.sessions.insert(scope_key.copy(), kept);
                proof {
                    let fin = self.sessions.map();
                    assert(fin == old_map.remove(scope_key@).insert(scope_key@, kept));
                    assert(fin.dom().contains(scope_key@));
                    assert(fin[scope_key@] == kept);
                    assert forall|k: ScopeView| k != scope_key@ implies final(self).sessions.has(k)
                        == old(self).sessions.has(k) && (final(self).sessions.has(k) ==> final(self).sessions.value(k) == old(self).sessions.value(k)) by {
                        assert(fin.dom().contains(k) == old_map.dom().contains(k));
                        if fin.dom().contains(k) {
                            assert(fin[k] == old_map[k]);
                        }
                    }
                }
            },
        }
        sink
    }
}

/// A list of ids with one more id, unless it is there already.
pub open spec fn with_id(list: Seq<Seq<char>>, id: Seq<char>) -> Seq<Seq<char>> {
    if exists|j: int| 0 <= j < list.len() && #[trigger] list[j] == id {
        list
    } else {
        list.push(id)
    }
}

/// Under one id the tables hold one scope, and it is the scope of that id.
pub proof fn lemma_one_scope_per_id<S>(m: ClientManager<S>, i: int, j: int)
    requires
        m.wf(),
        0 <= i < m.scope_keys.entries@.len(),
        0 <= j < m.scope_keys.entries@.len(),
        m.scope_keys.entries@[i].key@ == m.scope_keys.entries@[j].key@,
    ensures
        i == j,
        m.scope_keys.entries@[i].value == m.scope_keys.entries@[j].value,
        m.scope_keys.entries@[i].value@.id == m.scope_keys.entries@[i].key@,
{
    crate::table::lemma_one_value_per_key(m.scope_keys, i, j);
    let k = m.scope_keys.entries@[i].key@;
    lemma_position(m.scope_keys.entries@, k);
    let p = position(m.scope_keys.entries@, k);
    crate::table::lemma_one_value_per_key(m.scope_keys, i, p);
    assert(m.scope_keys.map().dom().contains(k));
}

/// A plugin together with what runs it. `C` is the running script context,
/// which a plugin without a server script does not have.
pub struct PluginCtx<C> {
    pub plugin: Plugin,
    pub ctx: Option<C>,
}

/// The loaded plugins.
pub struct PluginManager<C> {
    pub ctxs: Table<String, PluginCtx<C>>,
}

/// Whether a plugin is for a host: it has a server script, and its patterns
/// are empty or one of them matches the host.
pub open spec fn serves(p: Plugin, host: Seq<char>) -> bool {
    p.server_path@.len() > 0 && (p.matches@.len() == 0 || any_match(
        split_spec(p.matches@, ','),
        host,
    ))
}

/// Whether a plugin watches the traffic of a host.
pub open spec fn monitors(p: Plugin, host: Seq<char>) -> bool {
    serves(p, host) && p.net_monitor == 1
}

/// Whether a plugin may change the traffic of a host.
pub open spec fn modifies(p: Plugin, host: Seq<char>) -> bool {
    serves(p, host) && p.net_modify >= 1
}

/// Whether plugin `a` goes before plugin `b` when both may change traffic:
/// the lower priority value first, and of two equal ones the one that was
/// installed first.
pub open spec fn goes_before(a: Plugin, b: Plugin) -> bool {
    a.net_modify < b.net_modify || (a.net_modify == b.net_modify && a.install_time
        < b.install_time)
}

/// The positions below `n` of the plugins that serve the host, in order.
pub open spec fn serving(ps: Seq<Plugin>, host: Seq<char>, n: int) -> Seq<usize>
    decreases n,
{
    if n <= 0 {
        Seq::empty()
    } else if serves(ps[n - 1], host) {
        serving(ps, host, n - 1).push((n - 1) as usize)
    } else {
        serving(ps, host, n - 1)
    }
}

/// The positions below `n` of the plugins that watch the host, in order.
pub open spec fn watching(ps: Seq<Plugin>, host: Seq<char>, n: int) -> Seq<usize>
    decreases n,
{
    if n <= 0 {
        Seq::empty()
    } else if monitors(ps[n - 1], host) {
        watching(ps, host, n - 1).push((n - 1) as usize)
    } else {
        watching(ps, host, n - 1)
    }
}

/// Whether the plugin at `i` is the one that changes the traffic of the
/// host: it may change it, no other such plugin goes before it, and it goes
/// before those that stand before it in the list.
pub open spec fn is_chosen(ps: Seq<Plugin>, host: Seq<char>, i: int) -> bool {
    &&& 0 <= i < ps.len()
    &&& modifies(ps[i], host)
    &&& forall|j: int| 0 <= j < ps.len() && modifies(#[trigger] ps[j], host) ==> !goes_before(
        ps[j],
        ps[i],
    )
    &&& forall|j: int| 0 <= j < i && modifies(#[trigger] ps[j], host) ==> goes_before(
        ps[i],
        ps[j],
    )
}

/// No plugin of the list may change the traffic of the host.
pub open spec fn none_modifies(ps: Seq<Plugin>, host: Seq<char>) -> bool {
    forall|j: int| 0 <= j < ps.len() ==> !modifies(#[trigger] ps[j], host)
}

/// The plugins that a list of references leads to.
pub open spec fn plugins_of(v: Seq<&Plugin>) -> Seq<Plugin> {
    v.map_values(|p: &Plugin| *p)
}

/// The plugins that have a say on the traffic of a host, by their positions.
pub struct Selection {
    /// All plugins that serve the host.
    pub all: Vec<usize>,
    /// Those that watch its traffic.
    pub monitors: Vec<usize>,
    /// The one that changes its traffic, if any.
    pub modify: Option<usize>,
}

/// Whether a plugin serves the host.
pub fn plugin_serves(p: &Plugin, host: &[char]) -> (r: bool)
    ensures
        r == serves(*p, host@),
{
    if p.server_path.as_str().unicode_len() == 0 {
        return false;
    }
    let m = chars_of(p.matches.as_str());
    if m.len() == 0 {
        return true;
    }
    let pats = split(m.as_slice(), ',');
    let mut i: usize = 0;
    while i < pats.len()
        invariant
            i <= pats.len(),
            pats.deep_view() == split_spec(p.matches@, ','),
            p.server_path@.len() > 0,
            forall|k: int| 0 <= k < i ==> !wild_match(#[trigger] pats.deep_view()[k], host@),
        decreases pats.len() - i,
    {
        assert(pats.deep_view()[i as int] == pats@[i as int]@);
        if match_text(pats[i].as_slice(), host) {
            assert(wild_match(split_spec(p.matches@, ',')[i as int], host@));
            return true;
        }
        i += 1;
    }
    false
}

/// Picks the plugins for a host out of a list of plugins.
pub fn select_plugins(plugins: &Vec<&Plugin>, host: &str) -> (r: Selection)
    ensures
        r.all@ == serving(plugins_of(plugins@), host@, plugins@.len() as int),
        r.monitors@ == watching(plugins_of(plugins@), host@, plugins@.len() as int),
        match r.modify {
            Some(i) => is_chosen(plugins_of(plugins@), host@, i as int),
            None => none_modifies(plugins_of(plugins@), host@),
        },
{
    let h = chars_of(host);
    let ghost ps = plugins_of(plugins@);
    let mut all: Vec<usize> = Vec::new();
    let mut mons: Vec<usize> = Vec::new();
    let mut best: Option<usize> = None;
    let mut i: usize = 0;
    while i < plugins.len()
        invariant
            i <= plugins.len(),
            h@ == host@,
            ps == plugins_of(plugins@),
            all@ == serving(ps, host@, i as int),
            mons@ == watching(ps, host@, i as int),
            match best {
                Some(b) => {
                    &&& b < i
                    &&& modifies(ps[b as int], host@)
                    &&& forall|j: int|
                        0 <= j < i && modifies(#[trigger] ps[j], host@) ==> !goes_before(
                            ps[j],
                            ps[b as int],
                        )
                    &&& forall|j: int|
                        0 <= j < b && modifies(#[trigger] ps[j], host@) ==> goes_before(
                            ps[b as int],
                            ps[j],
                        )
                },
                None => forall|j: int| 0 <= j < i ==> !modifies(#[trigger] ps[j], host@),
            },
        decreases plugins.len() - i,
    {
        let p: &Plugin = plugins[i];
        assert(ps[i as int] == *p);
        if plugin_serves(p, h.as_slice()) {
            all.push(i);
            if p.net_monitor == 1 {
                mons.push(i);
            }
            if p.net_modify >= 1 {
                match best {
                    None => {
                        best = Some(i);
                    },
                    Some(b) => {
                        let q: &Plugin = plugins[b];
                        assert(ps[b as int] == *q);
                        if p.net_modify < q.net_modify || (p.net_modify == q.net_modify
                            && p.install_time < q.install_time) {
                            best = Some(i);
                        }
                    },
                }
            }
        }
        i += 1;
    }
    Selection { all, monitors: mons, modify: best }
}

impl<C> PluginManager<C> {
    /// No plugins.
    pub fn new() -> (r: Self)
        ensures
            r.ctxs.wf(),
            r.ctxs.count() == 0,
    {
        PluginManager { ctxs: Table::new() }
    }

    /// The plugins as a list, in the order of their loading.
    pub open spec fn plugins(&self) -> Seq<Plugin> {
        self.ctxs.entries@.map_values(|e: Entry<String, PluginCtx<C>>| e.value.plugin)
    }

    /// The plugins for a host, by their positions among the loaded plugins.
    pub fn ctxs_by_host(&self, host: &str) -> (r: Selection)
        ensures
            r.all@ == serving(self.plugins(), host@, self.plugins().len() as int),
            r.monitors@ == watching(self.plugins(), host@, self.plugins().len() as int),
            match r.modify {
                Some(i) => is_chosen(self.plugins(), host@, i as int),
                None => none_modifies(self.plugins(), host@),
            },
    {
        let mut list: Vec<&Plugin> = Vec::new();
        let mut i: usize = 0;
        assert(plugins_of(list@) =~= self.plugins().take(0));
        while i < self.ctxs.entries.len()
            invariant
                i <= self.ctxs.entries.len(),
                plugins_of(list@) == self.plugins().take(i as int),
            decreases self.ctxs.entries.len() - i,
        {
            let ghost before = plugins_of(list@);
            list.push(&self.ctxs.entries[i].value.plugin);
            assert(plugins_of(list@) =~= before.push(
                self.ctxs.entries@[i as int].value.plugin,
            ));
            assert(self.plugins().take(i + 1) =~= self.plugins().take(i as int).push(
                self.plugins()[i as int],
            ));
            i += 1;
        }
        assert(self.plugins().take(self.plugins().len() as int) =~= self.plugins());
        select_plugins(&list, host)
    }

    /// Loads a plugin under its id, in the place of one with the same id.
    pub fn set_ctx(&mut self, ctx: PluginCtx<C>)
        requires
            old(self).ctxs.wf(),
        ensures
            final(self).ctxs.wf(),
            final(self).ctxs.map() == old(self).ctxs.map().insert(ctx.plugin.id@, ctx),
    {
        let id = ctx.plugin.id.clone();
        self.ctxs.insert(id, ctx);
    }

    /// The plugin with the given id.
    pub fn get_ctx(&self, id: &String) -> (r: Option<&PluginCtx<C>>)
        ensures
            match r {
                Some(c) => self.ctxs.has(id@) && *c == self.ctxs.value(id@),
                None => !self.ctxs.has(id@),
            },
    {
        self.ctxs.get(id)
    }

    /// Unloads the plugin with the given id.
    pub fn del_ctx(&mut self, id: &String) -> (r: Option<PluginCtx<C>>)
        requires
            old(self).ctxs.wf(),
        ensures
            final(self).ctxs.wf(),
            final(self).ctxs.map() == old(self).ctxs.map().remove(id@),
            match r {
                Some(c) => old(self).ctxs.has(id@) && c == old(self).ctxs.value(id@),
                None => !old(self).ctxs.has(id@),
            },
    {
        self.ctxs.remove(id)
    }
}

/// Among the plugins that may change the traffic of a host exactly one is
/// chosen, and it is one with the lowest priority value, and among those the
/// one that was installed first.
pub proof fn lemma_chosen_is_lowest(ps: Seq<Plugin>, host: Seq<char>, i: int, j: int)
    requires
        is_chosen(ps, host, i),
        0 <= j < ps.len(),
        modifies(ps[j], host),
    ensures
        ps[i].net_modify <= ps[j].net_modify,
        ps[i].net_modify == ps[j].net_modify ==> ps[i].install_time <= ps[j].install_time,
        is_chosen(ps, host, j) ==> i == j,
{
    assert(!goes_before(ps[j], ps[i]));
    if is_chosen(ps, host, j) {
        assert(!goes_before(ps[i], ps[j]));
        if i < j {
            assert(goes_before(ps[j], ps[i]));
        } else if j < i {
            assert(goes_before(ps[i], ps[j]));
        }
    }
}

/// The seconds between two sweeps of the finished observers.
pub const SWEEP_SECS: u64 = 60;

/// The observers under way. `T` is the handle of a running observer.
pub struct AsyncTaskManager<T> {
    pub tasks: Vec<T>,
}

/// Whether the task at `i` is kept by a sweep: it is, unless it is marked as
/// finished.
pub open spec fn kept(finished: Seq<bool>, i: int) -> bool {
    !(0 <= i < finished.len() && finished[i])
}

/// The first `n` tasks that a sweep keeps, in order.
pub open spec fn swept<T>(tasks: Seq<T>, finished: Seq<bool>, n: int) -> Seq<T>
    decreases n,
{
    if n <= 0 {
        Seq::empty()
    } else if kept(finished, n - 1) {
        swept(tasks, finished, n - 1).push(tasks[n - 1])
    } else {
        swept(tasks, finished, n - 1)
    }
}

impl<T> AsyncTaskManager<T> {
    /// No observers.
    pub fn new() -> (r: Self)
        ensures
            r.tasks@.len() == 0,
    {
        AsyncTaskManager { tasks: Vec::new() }
    }

    /// Takes the handle of an observer that was started.
    pub fn spawn(&mut self, handle: T)
        ensures
            final(self).tasks@ == old(self).tasks@.push(handle),
    {
        self.tasks.push(handle);
    }

    /// The number of observers that are kept track of.
    pub fn len(&self) -> (r: usize)
        ensures
            r == self.tasks@.len(),
    {
        self.tasks.len()
    }

    /// Drops the handles of the observers that are marked as finished, and
    /// keeps the others in their order.
    pub fn sweep(&mut self, finished: &Vec<bool>)
        ensures
            final(self).tasks@ == swept(old(self).tasks@, finished@, old(self).tasks@.len() as int),
            final(self).tasks@.len() <= old(self).tasks@.len(),
    {
        let mut all: Vec<T> = Vec::new();
        std::mem::swap(&mut all, &mut self.tasks);
        let ghost olds = all@;
        let n: usize = all.len();
        let mut back: Vec<T> = Vec::new();
        let mut i: usize = n;
        while i > 0
            invariant
                i <= n,
                n == olds.len(),
                all@ == olds.take(i as int),
                back@.len() == n - i,
                forall|x: int| 0 <= x < n - i ==> #[trigger] back@[x] == olds[n - 1 - x],
            decreases i,
        {
            let t = all.pop().unwrap();
            assert(t == olds.take(i as int)[i - 1]);
            back.push(t);
            i -= 1;
            assert(all@ =~= olds.take(i as int));
        }
        let mut keep: Vec<T> = Vec::new();
        let mut j: usize = 0;
        while j < n
            invariant
                j <= n,
                n == olds.len(),
                back@.len() == n - j,
                forall|x: int| 0 <= x < n - j ==> #[trigger] back@[x] == olds[n - 1 - x],
                keep@ == swept(olds, finished@, j as int),
                keep@.len() <= j,
            decreases n - j,
        {
            let t = back.pop().unwrap();
            assert(t == olds[j as int]);
            let done = j < finished.len() && finished[j];
            if !done {
                keep.push(t);
            }
            j += 1;
        }
        self.tasks = keep;
    }

    /// Hands out all handles, so that the observers can be awaited; none is
    /// kept.
    pub fn join_all(&mut self) -> (r: Vec<T>)
        ensures
            r@ == old(self).tasks@,
            final(self).tasks@.len() == 0,
    {
        let mut all: Vec<T> = Vec::new();
        std::mem::swap(&mut all, &mut self.tasks);
        all
    }
}

/// A sweep keeps every observer that is not finished and drops every one
/// that is: where nothing is finished nothing changes.
pub proof fn lemma_sweep_keeps_running<T>(tasks: Seq<T>, finished: Seq<bool>, n: int)
    requires
        0 <= n <= tasks.len(),
        forall|i: int| 0 <= i < n ==> kept(finished, i),
    ensures
        swept(tasks, finished, n) == tasks.take(n),
    decreases n,
{
    if n > 0 {
        lemma_sweep_keeps_running(tasks, finished, n - 1);
        assert(kept(finished, n - 1));
        assert(tasks.take(n) =~= tasks.take(n - 1).push(tasks[n - 1]));
    } else {
        assert(tasks.take(0) =~= Seq::<T>::empty());
    }
}

} // verus!
