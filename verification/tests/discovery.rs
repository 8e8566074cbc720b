use wake_runner::discovery::{
    discovery_server, encode_response, parse_response, ping_for_wake_runner_address, probes,
    DiscoveryRound, RoundEvent, RoundState, ROUND_TIMEOUT_MS, UDP_DISCOVERY_PORT,
};
use wake_runner::interfaces::{Addr, V4IfAddr};
use wake_runner::net::{bytes_of, SocketAddress};

fn reply(sender: [u8; 4], payload: &[u8]) -> RoundEvent {
    RoundEvent::Reply { sender, payload: payload.to_vec() }
}

#[test]
fn response_is_little_endian() {
    assert_eq!(encode_response(8080), [0x90, 0x1F]);
    assert_eq!(encode_response(5000), [0x88, 0x13]);
    assert_eq!(encode_response(0), [0, 0]);
    assert_eq!(encode_response(65535), [0xFF, 0xFF]);
    assert_eq!(encode_response(256), [0, 1]);
    assert_eq!(encode_response(8080), 8080u16.to_le_bytes());
}

#[test]
fn parse_reads_exactly_two_bytes() {
    assert_eq!(parse_response(&[0x90, 0x1F]), Some(8080));
    assert_eq!(parse_response(&[0x88, 0x13]), Some(5000));
    assert_eq!(parse_response(&[0xFF, 0xFF]), Some(65535));
    assert_eq!(parse_response(&[]), None);
    assert_eq!(parse_response(&[0x90]), None);
    assert_eq!(parse_response(&[0x90, 0x1F, 0x00]), None);
}

#[test]
fn every_port_round_trips() {
    for port in [0u16, 1, 9, 255, 256, 5000, 8080, 23032, 65535] {
        assert_eq!(parse_response(&encode_response(port)), Some(port));
    }
}

#[test]
fn responder_answers_any_probe_with_its_port() {
    assert_eq!(discovery_server(&[0xAA, 0xBB, 0xCC, 0xDD, 0xEE, 0xFF], 5000), [0x88, 0x13]);
    assert_eq!(discovery_server(&[], 5000), [0x88, 0x13]);
    assert_eq!(discovery_server(b"anything at all", 8080), [0x90, 0x1F]);
}

#[test]
fn probes_carry_the_raw_address_to_the_discovery_port() {
    let mac = [0xAA, 0xBB, 0xCC, 0xDD, 0xEE, 0xFF];
    let addrs = vec![
        Addr::V4(V4IfAddr { ip: [127, 0, 0, 1], broadcast: Some([127, 255, 255, 255]), netmask: None }),
        Addr::V4(V4IfAddr { ip: [192, 168, 1, 10], broadcast: Some([192, 168, 1, 255]), netmask: None }),
    ];
    let out = probes(mac, &addrs);
    assert_eq!(UDP_DISCOVERY_PORT, 23032);
    assert_eq!(out.len(), 1);
    assert_eq!(out[0].from, SocketAddress { ip: [192, 168, 1, 10], port: 0 });
    assert_eq!(out[0].to, SocketAddress { ip: [192, 168, 1, 255], port: 23032 });
    assert_eq!(out[0].payload, mac.to_vec());
}

#[test]
fn round_resolves_to_sender_and_port_8080() {
    let events = vec![reply([192, 168, 1, 42], &8080u16.to_le_bytes()), RoundEvent::TimedOut];
    assert_eq!(
        ping_for_wake_runner_address(&events),
        Some(SocketAddress { ip: [192, 168, 1, 42], port: 8080 })
    );
}

#[test]
fn three_byte_reply_is_ignored_and_round_times_out() {
    let events = vec![reply([192, 168, 1, 42], &[0x90, 0x1F, 0x00]), RoundEvent::TimedOut];
    assert_eq!(ping_for_wake_runner_address(&events), None);
}

#[test]
fn malformed_reply_does_not_end_the_round() {
    let events = vec![
        reply([192, 168, 1, 7], &[1]),
        reply([192, 168, 1, 7], &[1, 2, 3]),
        reply([192, 168, 1, 42], &[0x88, 0x13]),
    ];
    assert_eq!(
        ping_for_wake_runner_address(&events),
        Some(SocketAddress { ip: [192, 168, 1, 42], port: 5000 })
    );
}

#[test]
fn only_the_first_well_formed_reply_counts() {
    let events = vec![
        reply([10, 0, 0, 1], &[0x01, 0x00]),
        reply([10, 0, 0, 2], &[0x02, 0x00]),
    ];
    assert_eq!(
        ping_for_wake_runner_address(&events),
        Some(SocketAddress { ip: [10, 0, 0, 1], port: 1 })
    );
}

#[test]
fn reply_after_the_timeout_is_too_late() {
    let events = vec![RoundEvent::TimedOut, reply([10, 0, 0, 1], &[0x01, 0x00])];
    assert_eq!(ping_for_wake_runner_address(&events), None);
}

#[test]
fn round_without_events_finds_nothing() {
    assert_eq!(ping_for_wake_runner_address(&Vec::new()), None);
}

#[test]
fn round_steps_one_event_at_a_time() {
    let mut round = DiscoveryRound::new();
    assert_eq!(round.state(), RoundState::Listening);
    assert!(!round.is_finished());
    assert_eq!(round.step(&reply([10, 0, 0, 1], &[1, 2, 3])), RoundState::Listening);
    let found = RoundState::Resolved(SocketAddress { ip: [10, 0, 0, 1], port: 0x0201 });
    assert_eq!(round.step(&reply([10, 0, 0, 1], &[1, 2])), found);
    assert!(round.is_finished());
    assert_eq!(round.step(&RoundEvent::TimedOut), found);
    assert_eq!(round.step(&reply([10, 0, 0, 9], &[9, 9])), found);

    let mut round = DiscoveryRound::new();
    assert_eq!(round.step(&RoundEvent::TimedOut), RoundState::NotFound);
    assert_eq!(round.step(&reply([10, 0, 0, 1], &[1, 2])), RoundState::NotFound);
    assert_eq!(ROUND_TIMEOUT_MS, 300);
}

#[test]
fn bytes_of_copies() {
    assert_eq!(bytes_of(&[1, 2, 3]), vec![1, 2, 3]);
    assert_eq!(bytes_of(&[]), Vec::<u8>::new());
}
