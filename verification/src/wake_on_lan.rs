//! Sending the magic packet out of every interface that can broadcast.

use vstd::prelude::*;
use crate::interfaces::{broadcastable, get_broadcastable_v4_interfaces, Addr};
use crate::magic_packet::{create_magic_packet, magic_packet, MAC_ADDRESS_SIZE};
use crate::net::{bytes_of, Datagram, SocketAddress};

verus! {

/// The UDP port that Wake-on-LAN packets are sent to.
pub const WAKE_ON_LAN_PORT: u16 = 9;

/// Whether `d` is the wake datagram for `mac` from `from` to `to`: bound to an
/// ephemeral port on `from`, addressed to port 9 on `to`, carrying the magic
/// packet.
pub open spec fn is_wake_datagram(d: Datagram, mac: Seq<u8>, from: [u8; 4], to: [u8; 4]) -> bool {
    &&& d.from == (SocketAddress { ip: from, port: 0 })
    &&& d.to == (SocketAddress { ip: to, port: 9 })
    &&& d.payload@ == magic_packet(mac)
}

/// The magic packet for `mac_address` as a datagram from `from` to `to`.
pub fn send_from_to(mac_address: [u8; MAC_ADDRESS_SIZE], from: [u8; 4], to: [u8; 4]) -> (d:
    Datagram)
    ensures
        is_wake_datagram(d, mac_address@, from, to),
{
    let packet = create_magic_packet(mac_address);
    Datagram {
        from: SocketAddress { ip: from, port: 0 },
        to: SocketAddress { ip: to, port: WAKE_ON_LAN_PORT },
        payload: bytes_of(packet.as_slice()),
    }
}

/// The datagrams of one wake attempt: one for each address of `addrs` that a
/// broadcast can leave from, in the order they were listed.
pub fn send(mac_address: [u8; MAC_ADDRESS_SIZE], addrs: &Vec<Addr>) -> (out: Vec<Datagram>)
    ensures
        out@.len() == addrs@.filter_map(|a: Addr| broadcastable(a)).len(),
        forall|k: int|
            0 <= k < out@.len() ==> {
                let nif = addrs@.filter_map(|a: Addr| broadcastable(a))[k];
                is_wake_datagram(#[trigger] out@[k], mac_address@, nif.ip, nif.broadcast.unwrap())
            },
{
    let interfaces = get_broadcastable_v4_interfaces(addrs);
    let mut out: Vec<Datagram> = Vec::new();
    let mut i: usize = 0;
    while i < interfaces.len()
        invariant
            i <= interfaces@.len(),
            out@.len() == i,
            forall|k: int| 0 <= k < interfaces@.len() ==> (#[trigger] interfaces@[k]).broadcast is Some,
            forall|k: int|
                0 <= k < i ==> is_wake_datagram(
                    #[trigger] out@[k],
                    mac_address@,
                    interfaces@[k].ip,
                    interfaces@[k].broadcast.unwrap(),
                ),
        decreases interfaces@.len() - i,
    {
        let interface = interfaces[i];
        match interface.broadcast {
            Some(to) => {
                out.push(send_from_to(mac_address, interface.ip, to));
            },
            None => {
                assert(false);
            },
        }
        i += 1;
    }
    out
}

/// How one wake attempt went, given for each datagram whether it was sent:
/// the position of the first that failed, or `None` when all were sent.
pub fn first_failure(sent: &Vec<bool>) -> (failed: Option<usize>)
    ensures
        failed is None <==> forall|k: int| 0 <= k < sent@.len() ==> sent@[k],
        failed matches Some(i) ==> i < sent@.len() && !sent@[i as int] && forall|k: int|
            0 <= k < i ==> sent@[k],
{
    let mut i: usize = 0;
    while i < sent.len()
        invariant
            i <= sent@.len(),
            forall|k: int| 0 <= k < i ==> sent@[k],
        decreases sent@.len() - i,
    {
        if !sent[i] {
            return Some(i);
        }
        i += 1;
    }
    None
}

} // verus!
