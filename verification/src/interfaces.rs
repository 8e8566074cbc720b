//! Which of a host's addresses a broadcast can leave from.

use vstd::prelude::*;

verus! {

/// An IPv4 address of an interface, with its broadcast address and netmask
/// where the interface has them. Addresses are four octets, first octet first.
#[derive(Clone, Copy, Debug, PartialEq, Eq)]
pub struct V4IfAddr {
    pub ip: [u8; 4],
    pub broadcast: Option<[u8; 4]>,
    pub netmask: Option<[u8; 4]>,
}

/// One address of an interface. Only IPv4 addresses carry data here.
#[derive(Clone, Copy, Debug, PartialEq, Eq)]
pub enum Addr {
    V4(V4IfAddr),
    V6,
}

/// An address in `127.0.0.0/8`.
pub open spec fn is_loopback(ip: [u8; 4]) -> bool {
    ip@[0] == 127
}

/// What `get_broadcastable_v4_interfaces` keeps of one address: the IPv4
/// addresses that are not loopback and have a broadcast address.
pub open spec fn broadcastable(addr: Addr) -> Option<V4IfAddr> {
    match addr {
        Addr::V4(v4) => if is_loopback(v4.ip) || v4.broadcast is None {
            None
        } else {
            Some(v4)
        },
        Addr::V6 => None,
    }
}

/// What `get_addresses` keeps of one address: the IPv4 addresses, without the
/// loopback ones unless `include_local` is set.
pub open spec fn listed(addr: Addr, include_local: bool) -> Option<V4IfAddr> {
    match addr {
        Addr::V4(v4) => if !include_local && is_loopback(v4.ip) {
            None
        } else {
            Some(v4)
        },
        Addr::V6 => None,
    }
}

fn loopback(ip: &[u8; 4]) -> (r: bool)
    ensures
        r == is_loopback(*ip),
{
    ip[0] == 127
}

/// The addresses a broadcast can be sent from, in the order they were listed.
pub fn get_broadcastable_v4_interfaces(addrs: &Vec<Addr>) -> (out: Vec<V4IfAddr>)
    ensures
        out@ == addrs@.filter_map(|a: Addr| broadcastable(a)),
        forall|k: int| 0 <= k < out@.len() ==> (#[trigger] out@[k]).broadcast is Some,
        forall|k: int| 0 <= k < out@.len() ==> !is_loopback((#[trigger] out@[k]).ip),
{
    let ghost keep = |a: Addr| broadcastable(a);
    let mut cast_to_networks: Vec<V4IfAddr> = Vec::new();
    let mut i: usize = 0;
    while i < addrs.len()
        invariant
            i <= addrs@.len(),
            keep == (|a: Addr| broadcastable(a)),
            cast_to_networks@ == addrs@.take(i as int).filter_map(keep),
            forall|k: int|
                0 <= k < cast_to_networks@.len() ==> (#[trigger] cast_to_networks@[k]).broadcast
                    is Some,
            forall|k: int|
                0 <= k < cast_to_networks@.len() ==> !is_loopback(
                    (#[trigger] cast_to_networks@[k]).ip,
                ),
        decreases addrs@.len() - i,
    {
        proof {
            addrs@.lemma_filter_map_take_succ(keep, i as int);
        }
        match addrs[i] {
            Addr::V4(v4_addr) => {
                if !(loopback(&v4_addr.ip) || v4_addr.broadcast.is_none()) {
                    cast_to_networks.push(v4_addr);
                }
            },
            Addr::V6 => {},
        }
        i += 1;
    }
    assert(addrs@.take(i as int) =~= addrs@);
    cast_to_networks
}

/// The IPv4 addresses of the host, in the order they were listed; the loopback
/// ones only when `include_local` is set.
pub fn get_addresses(addrs: &Vec<Addr>, include_local: bool) -> (out: Vec<V4IfAddr>)
    ensures
        out@ == addrs@.filter_map(|a: Addr| listed(a, include_local)),
{
    let ghost keep = |a: Addr| listed(a, include_local);
    let mut networks: Vec<V4IfAddr> = Vec::new();
    let mut i: usize = 0;
    while i < addrs.len()
        invariant
            i <= addrs@.len(),
            keep == (|a: Addr| listed(a, include_local)),
            networks@ == addrs@.take(i as int).filter_map(keep),
        decreases addrs@.len() - i,
    {
        proof {
            addrs@.lemma_filter_map_take_succ(keep, i as int);
        }
        match addrs[i] {
            Addr::V4(v4_addr) => {
                if include_local || !loopback(&v4_addr.ip) {
                    networks.push(v4_addr);
                }
            },
            Addr::V6 => {},
        }
        i += 1;
    }
    assert(addrs@.take(i as int) =~= addrs@);
    networks
}

} // verus!
