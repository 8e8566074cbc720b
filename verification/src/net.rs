//! Plain values for what goes over the wire: socket addresses and datagrams.

use vstd::prelude::*;

verus! {

/// An IPv4 socket address. Port 0 asks the system for an ephemeral port.
#[derive(Clone, Copy, Debug, PartialEq, Eq)]
pub struct SocketAddress {
    pub ip: [u8; 4],
    pub port: u16,
}

/// A UDP datagram to send: the local address to bind, the destination and
/// the body.
#[derive(Clone, Debug, PartialEq, Eq)]
pub struct Datagram {
    pub from: SocketAddress,
    pub to: SocketAddress,
    pub payload: Vec<u8>,
}

/// Copies a byte slice into a vector.
pub fn bytes_of(bytes: &[u8]) -> (out: Vec<u8>)
    ensures
        out@ == bytes@,
{
    let mut out: Vec<u8> = Vec::new();
    let mut i: usize = 0;
    while i < bytes.len()
        invariant
            i <= bytes@.len(),
            out@ == bytes@.take(i as int),
        decreases bytes@.len() - i,
    {
        out.push(bytes[i]);
        assert(bytes@.take(i + 1) =~= bytes@.take(i as int).push(bytes@[i as int]));
        i += 1;
    }
    assert(bytes@.take(i as int) =~= bytes@);
    out
}

} // verus!
