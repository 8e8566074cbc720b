use wake_runner::magic_packet::{
    create_magic_packet, HEADER_SIZE_BYTES, MAC_ADDRESS_SIZE, MAGIC_PACKET_TOTAL_SIZE_BYTES,
    TARGET_MAC_ADDRESS_REPETITIONS,
};

#[test]
fn packet_is_header_then_sixteen_copies() {
    let mac = [0xAA, 0xBB, 0xCC, 0xDD, 0xEE, 0xFF];
    let packet = create_magic_packet(mac);
    assert_eq!(packet.len(), 102);
    assert_eq!(&packet[..6], &[0xFF; 6]);
    for i in 0..16 {
        assert_eq!(&packet[6 + 6 * i..6 + 6 * i + 6], &mac);
    }
}

#[test]
fn packet_of_distinct_bytes_keeps_their_order() {
    let mac = [1, 2, 3, 4, 5, 6];
    let packet = create_magic_packet(mac);
    assert_eq!(packet[6], 1);
    assert_eq!(packet[7], 2);
    assert_eq!(packet[11], 6);
    assert_eq!(packet[12], 1);
    assert_eq!(packet[96], 1);
    assert_eq!(packet[101], 6);
}

#[test]
fn packet_of_zero_address_still_has_its_header() {
    let packet = create_magic_packet([0; 6]);
    assert!(packet[..6].iter().all(|b| *b == 0xFF));
    assert!(packet[6..].iter().all(|b| *b == 0));
}

#[test]
fn packet_for_broadcast_address_is_all_ones() {
    let packet = create_magic_packet([0xFF; 6]);
    assert_eq!(packet, [0xFF; 102]);
}

#[test]
fn sizes_add_up() {
    assert_eq!(MAC_ADDRESS_SIZE, 6);
    assert_eq!(HEADER_SIZE_BYTES, 6);
    assert_eq!(TARGET_MAC_ADDRESS_REPETITIONS, 16);
    assert_eq!(
        MAGIC_PACKET_TOTAL_SIZE_BYTES,
        HEADER_SIZE_BYTES + TARGET_MAC_ADDRESS_REPETITIONS * MAC_ADDRESS_SIZE
    );
}
