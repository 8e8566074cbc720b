//! The Wake-on-LAN payload.

use vstd::prelude::*;

verus! {

pub const MAC_ADDRESS_SIZE: usize = 6;

pub const MAGIC_PACKET_TOTAL_SIZE_BYTES: usize = 102;

pub const HEADER_SIZE_BYTES: usize = 6;

pub const TARGET_MAC_ADDRESS_REPETITIONS: usize = 16;

/// The payload for a hardware address: six bytes `0xFF`, then the address
/// sixteen times over.
pub open spec fn magic_packet(mac: Seq<u8>) -> Seq<u8> {
    Seq::new(
        102,
        |i: int|
            if i < 6 {
                0xFFu8
            } else {
                mac[(i - 6) % 6]
            },
    )
}

/// Builds the magic packet that wakes the adapter with address `mac_address`.
pub fn create_magic_packet(mac_address: [u8; MAC_ADDRESS_SIZE]) -> (packet: [
    u8;
    MAGIC_PACKET_TOTAL_SIZE_BYTES
])
    ensures
        packet@ == magic_packet(mac_address@),
        packet@.len() == 102,
        forall|k: int| 0 <= k < 6 ==> packet@[k] == 0xFFu8,
        forall|i: int, j: int|
            0 <= i < 16 && 0 <= j < 6 ==> #[trigger] packet@[6 + 6 * i + j] == mac_address@[j],
{
    let mut packet = [0u8;MAGIC_PACKET_TOTAL_SIZE_BYTES];
    let mut k: usize = 0;
    while k < HEADER_SIZE_BYTES
        invariant
            k <= 6,
            forall|n: int| 0 <= n < k ==> packet@[n] == 0xFFu8,
        decreases 6 - k,
    {
        packet[k] = u8::MAX;
        k += 1;
    }
    let mut i: usize = 0;
    while i < TARGET_MAC_ADDRESS_REPETITIONS
        invariant
            i <= 16,
            forall|n: int| 0 <= n < 6 ==> packet@[n] == 0xFFu8,
            forall|n: int| 6 <= n < 6 + 6 * i ==> packet@[n] == mac_address@[(n - 6) % 6],
        decreases 16 - i,
    {
        let offset: usize = HEADER_SIZE_BYTES + i * MAC_ADDRESS_SIZE;
        let mut j: usize = 0;
        while j < MAC_ADDRESS_SIZE
            invariant
                i < 16,
                j <= 6,
                offset == 6 + 6 * i,
                forall|n: int| 0 <= n < 6 ==> packet@[n] == 0xFFu8,
                forall|n: int| 6 <= n < offset + j ==> packet@[n] == mac_address@[(n - 6) % 6],
            decreases 6 - j,
        {
            packet[offset + j] = mac_address[j];
            j += 1;
        }
        i += 1;
    }
    assert(packet@ =~= magic_packet(mac_address@));
    assert forall|i: int, j: int| 0 <= i < 16 && 0 <= j < 6 implies #[trigger] packet@[6 + 6 * i
        + j] == mac_address@[j] by {
        assert((6 * i + j) % 6 == j) by (nonlinear_arith)
            requires
                0 <= i,
                0 <= j < 6,
        ;
    }
    packet
}

} // verus!
