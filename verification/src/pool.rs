//! The pool of outbound clients: one client for each way out, kept for a
//! while and for a limited number of ways out.

use vstd::prelude::*;
use crate::message::{ProxyCfg, ProxyCfgView};
use crate::proxy::{points_here, ProxyTarget, already_sys_proxy};
use crate::table::{lemma_without_first, Key, Table};

verus! {

impl Key for ProxyCfg {
    type K = ProxyCfgView;

    open spec fn key(&self) -> ProxyCfgView {
        self@
    }

    fn same_key(&self, other: &Self) -> (r: bool) {
        self.same(other)
    }
}

/// The smallest frame size that HTTP/2 allows.
pub const MIN_FRAME_SIZE: u32 = 16384;

/// The window size of HTTP/2 before any setting.
pub const BASE_WINDOW: u32 = 65535;

/// The sizes that an HTTP/2 connection announces.
#[derive(Clone, Copy, Debug, PartialEq, Eq, Structural)]
pub struct H2Params {
    pub max_frame_size: u32,
    pub stream_window: u32,
    pub connection_window: u32,
}

/// The distance of a seed from zero.
pub open spec fn magnitude(seed: int) -> int {
    if seed < 0 {
        -seed
    } else {
        seed
    }
}

/// The sizes that belong to a seed other than zero.
pub open spec fn h2_of(seed: int) -> H2Params {
    let m = magnitude(seed);
    H2Params {
        max_frame_size: (MIN_FRAME_SIZE + (m % 1024) * 16) as u32,
        stream_window: (BASE_WINDOW + (m % 4096) * 1024) as u32,
        connection_window: (BASE_WINDOW + ((m / 4096) % 4096) * 1024) as u32,
    }
}

/// The sizes that an HTTP/2 connection announces for a seed: none for the
/// seed `0`, and else sizes that depend on the seed alone and that HTTP/2
/// allows.
pub fn h2_params(seed: i64) -> (r: Option<H2Params>)
    ensures
        seed == 0 ==> r.is_none(),
        seed != 0 ==> r == Some(h2_of(seed as int)),
        r.is_some() ==> 16384 <= r.unwrap().max_frame_size <= 16777215 && r.unwrap().stream_window
            <= 0x7fff_ffff && r.unwrap().connection_window <= 0x7fff_ffff,
{
    if seed == 0 {
        return None;
    }
    let m: u64 = if seed == i64::MIN {
        9223372036854775808u64
    } else if seed < 0 {
        (-seed) as u64
    } else {
        seed as u64
    };
    let a: u32 = (m % 1024) as u32;
    let b: u32 = (m % 4096) as u32;
    let c: u32 = ((m / 4096) % 4096) as u32;
    Some(
        H2Params {
            max_frame_size: MIN_FRAME_SIZE + a * 16,
            stream_window: BASE_WINDOW + b * 1024,
            connection_window: BASE_WINDOW + c * 1024,
        },
    )
}

/// How a client for a way out is made.
#[derive(Clone, Debug)]
pub struct ClientPlan {
    /// The seed of the TLS handshake; `0` is the default handshake.
    pub tls_seed: u64,
    pub h2: Option<H2Params>,
    /// The forward proxy, if any.
    pub proxy: Option<String>,
    /// Whether the proxy of the system is picked up.
    pub system_proxy: bool,
}

/// The seed of the handshake that belongs to a fingerprint seed.
pub open spec fn tls_seed_of(ja3: int) -> u64 {
    if ja3 < 0 {
        (ja3 + 0x1_0000_0000_0000_0000) as u64
    } else {
        ja3 as u64
    }
}

/// Plans the client for a way out. The proxy of the system is left alone
/// where it is this engine, which listens on `port`: else every request
/// would come back to the engine.
pub fn client_plan(profile: &ProxyCfg, port: u16, system: &Vec<ProxyTarget>) -> (r: ClientPlan)
    ensures
        r.tls_seed == tls_seed_of(profile.ja3 as int),
        (r.tls_seed == 0) == (profile.ja3 == 0),
        profile.h2 == 0 ==> r.h2.is_none(),
        profile.h2 != 0 ==> r.h2 == Some(h2_of(profile.h2 as int)),
        crate::uri::opt_text(r.proxy) == profile@.2,
        r.system_proxy == !points_here(port, system@),
{
    let tls_seed: u64 = if profile.ja3 < 0 {
        (profile.ja3 as i128 + 0x1_0000_0000_0000_0000i128) as u64
    } else {
        profile.ja3 as u64
    };
    ClientPlan {
        tls_seed,
        h2: h2_params(profile.h2),
        proxy: match &profile.proxy {
            Some(p) => Some(p.clone()),
            None => None,
        },
        system_proxy: !already_sys_proxy(port, system),
    }
}

/// A client in the pool, and when it was made.
pub struct Pooled<C> {
    pub client: C,
    pub made_at: u64,
}

/// The pool. A client is handed out for `ttl` seconds after it was made, and
/// the pool holds at most `capacity` clients.
pub struct ClientPool<C> {
    pub clients: Table<ProxyCfg, Pooled<C>>,
    pub capacity: usize,
    pub ttl: u64,
}

impl<C> ClientPool<C> {
    /// No way out stands twice, and the pool is not over its capacity.
    pub open spec fn wf(&self) -> bool {
        self.clients.wf() && self.clients.count() <= self.capacity
    }

    /// Whether the pool has a client for a way out that is still handed out
    /// at the time `now`.
    pub open spec fn serves(&self, profile: ProxyCfgView, now: u64) -> bool {
        self.clients.has(profile) && now - self.clients.value(profile).made_at <= self.ttl
            && self.clients.value(profile).made_at <= now
    }

    /// What a pool with room for a client keeps when it takes a client for a
    /// way out: everything, where it has a client for that way out or is not
    /// full, and else everything but the client that came first.
    pub open spec fn kept(&self, profile: ProxyCfgView) -> Map<ProxyCfgView, Pooled<C>> {
        if self.clients.has(profile) || self.clients.count() < self.capacity {
            self.clients.map()
        } else {
            self.clients.map().remove(self.clients.entries@[0].key.key())
        }
    }

    /// An empty pool.
    pub fn new(capacity: usize, ttl: u64) -> (r: Self)
        ensures
            r.wf(),
            r.capacity == capacity,
            r.ttl == ttl,
            r.clients.count() == 0,
    {
        ClientPool { clients: Table::new(), capacity, ttl }
    }

    /// The client for a way out, where the pool has one that is not older
    /// than the pool allows.
    pub fn get(&self, profile: &ProxyCfg, now: u64) -> (r: Option<&C>)
        ensures
            match r {
                Some(c) => self.serves(profile@, now) && *c == self.clients.value(
                    profile@,
                ).client,
                None => !self.serves(profile@, now),
            },
    {
        match self.clients.get(profile) {
            Some(p) => {
                if p.made_at <= now && now - p.made_at <= self.ttl {
                    Some(&p.client)
                } else {
                    None
                }
            },
            None => None,
        }
    }

    /// Takes a client that was made at the time `now` for a way out, in the
    /// place of the one the pool had for it. A full pool makes room first by
    /// dropping the client that came first; every other client stays. A pool
    /// without room for any client stays empty.
    pub fn put(&mut self, profile: ProxyCfg, client: C, now: u64)
        requires
            old(self).wf(),
        ensures
            final(self).wf(),
            final(self).capacity == old(self).capacity,
            final(self).ttl == old(self).ttl,
            old(self).capacity > 0 ==> final(self).serves(profile@, now),
            old(self).capacity > 0 ==> final(self).clients.value(profile@).client == client,
            old(self).capacity > 0 ==> final(self).clients.map() == old(self).kept(profile@).insert(
                profile@,
                (Pooled { client, made_at: now }),
            ),
            old(self).capacity == 0 ==> final(self).clients == old(self).clients,
    {
        if self.capacity == 0 {
            return ;
        }
        if !self.clients.contains(&profile) && self.clients.len() >= self.capacity {
            let e = self.clients.entries.remove(0);
            proof {
                assert(self.clients.entries@ =~= old(self).clients.entries@.skip(1));
                lemma_without_first(old(self).clients, self.clients);
            }
        }
        let ghost p = profile@;
        self.clients.insert(profile, Pooled { client, made_at: now });
        proof {
            assert(self.clients.map().dom().contains(p));
            assert(self.clients.map()[p].made_at == now);
        }
    }
}

} // verus!
