//! The proxy setting of the system: how it is set, and whether it already
//! points at this engine.

use vstd::prelude::*;
use vstd::string::*;
use crate::model::{texts, HostList};
use crate::text::{chars_of, extend_str, is_text, push_decimal, string_of, decimal_nat};

verus! {

/// The commands that set or clear the proxy of the system, in order.
pub open spec fn proxy_commands(enable: bool, proxy_addr: Seq<char>, no_proxys: Seq<char>) -> Seq<
    Seq<char>,
> {
    if enable {
        let set = seq!["export http_proxy="@ + proxy_addr, "export https_proxy="@ + proxy_addr];
        if no_proxys.len() > 0 {
            set.push("export no_proxy="@ + no_proxys)
        } else {
            set
        }
    } else {
        seq!["unset http_proxy"@, "unset https_proxy"@, "unset no_proxy"@]
    }
}

fn command(head: &str, tail: &str) -> (r: String)
    ensures
        r@ == head@ + tail@,
{
    let mut v: Vec<char> = Vec::new();
    extend_str(&mut v, head);
    extend_str(&mut v, tail);
    string_of(v.as_slice())
}

/// The commands that make `proxy_addr` the proxy of the system, or clear the
/// setting. The hosts of `no_proxys` are left out of the proxy.
pub fn set_system_proxy(enable: bool, proxy_addr: &str, no_proxys: &str) -> (r: Vec<String>)
    ensures
        texts(r@) == proxy_commands(enable, proxy_addr@, no_proxys@),
{
    let mut r: Vec<String> = Vec::new();
    if enable {
        r.push(command("export http_proxy=", proxy_addr));
        r.push(command("export https_proxy=", proxy_addr));
        if no_proxys.unicode_len() > 0 {
            r.push(command("export no_proxy=", no_proxys));
        }
    } else {
        r.push("unset http_proxy".to_owned());
        r.push("unset https_proxy".to_owned());
        r.push("unset no_proxy".to_owned());
    }
    assert(texts(r@) =~= proxy_commands(enable, proxy_addr@, no_proxys@));
    r
}

/// The address of the engine on this machine.
pub open spec fn local_address(port: u16) -> Seq<char> {
    "127.0.0.1:"@ + decimal_nat(port as nat)
}

/// The address under which the engine is the proxy of the system.
pub fn proxy_address(port: u16) -> (r: String)
    ensures
        r@ == local_address(port),
{
    let mut v: Vec<char> = Vec::new();
    extend_str(&mut v, "127.0.0.1:");
    push_decimal(&mut v, port as u64);
    string_of(v.as_slice())
}

/// The patterns of a list joined by `;`.
pub open spec fn semicolons(list: Seq<Seq<char>>) -> Seq<char>
    decreases list.len(),
{
    if list.len() == 0 {
        Seq::<char>::empty()
    } else if list.len() == 1 {
        list[0]
    } else {
        semicolons(list.drop_last()) + ";"@ + list.last()
    }
}

/// The hosts that are left out of the system proxy: those of the list of
/// refused hosts, where it is in force.
pub fn no_proxy_list(black: &HostList) -> (r: String)
    ensures
        r@ == (if black.enabled {
            semicolons(texts(black.list@))
        } else {
            Seq::<char>::empty()
        }),
{
    let mut v: Vec<char> = Vec::new();
    if black.enabled {
        let ghost all = texts(black.list@);
        let mut i: usize = 0;
        assert(all.take(0) =~= Seq::<Seq<char>>::empty());
        while i < black.list.len()
            invariant
                i <= black.list.len(),
                all == texts(black.list@),
                v@ == semicolons(all.take(i as int)),
            decreases black.list.len() - i,
        {
            let ghost next = all.take(i + 1);
            assert(next.drop_last() =~= all.take(i as int));
            assert(next.last() == black.list@[i as int]@);
            if i > 0 {
                extend_str(&mut v, ";");
            }
            extend_str(&mut v, black.list[i].as_str());
            proof {
                if i == 0 {
                    assert(next[0] == black.list@[0]@);
                }
                assert(v@ =~= semicolons(next));
            }
            i += 1;
        }
        assert(all.take(all.len() as int) =~= all);
    }
    string_of(v.as_slice())
}

/// What is known of the address to which a system proxy points.
#[derive(Clone, Debug)]
pub struct ProxyTarget {
    pub host: String,
    pub port: u16,
    /// Whether the host is an IP address, and if so, whether it is a
    /// loopback or an unspecified address.
    pub local_ip: Option<bool>,
}

/// Whether a target is on this machine: a loopback or unspecified address,
/// or the name `localhost`.
pub open spec fn is_local(t: ProxyTarget) -> bool {
    t.local_ip == Some(true) || t.host@ == "localhost"@
}

/// Whether the system proxy points at this engine already: the first target
/// on this machine decides, by its port.
pub open spec fn points_here(port: u16, targets: Seq<ProxyTarget>) -> bool
    decreases targets.len(),
{
    if targets.len() == 0 {
        false
    } else if is_local(targets[0]) {
        targets[0].port == port
    } else {
        points_here(port, targets.skip(1))
    }
}

/// Whether the engine must not pick up the proxy of the system, because that
/// proxy is the engine itself.
pub fn already_sys_proxy(port: u16, targets: &Vec<ProxyTarget>) -> (r: bool)
    ensures
        r == points_here(port, targets@),
{
    let mut i: usize = 0;
    assert(targets@.skip(0) =~= targets@);
    while i < targets.len()
        invariant
            i <= targets.len(),
            points_here(port, targets@.skip(i as int)) == points_here(port, targets@),
        decreases targets.len() - i,
    {
        let t = &targets[i];
        assert(targets@.skip(i as int)[0] == targets@[i as int]);
        assert(targets@.skip(i as int).skip(1) =~= targets@.skip(i + 1));
        let local = match t.local_ip {
            Some(b) => b,
            None => false,
        };
        let named = is_text(chars_of(t.host.as_str()).as_slice(), "localhost");
        if local || named {
            return t.port == port;
        }
        i += 1;
    }
    false
}

} // verus!
