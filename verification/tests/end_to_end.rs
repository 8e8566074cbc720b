use wake_runner::control::{ping, ping_wake_runner, runner_uri_from_socket};
use wake_runner::backoff::BackoffAction;
use wake_runner::discovery::{discovery_server, ping_for_wake_runner_address, probes, RoundEvent};
use wake_runner::interfaces::{Addr, V4IfAddr};
use wake_runner::locator::{LocatorAction, LocatorEvent, RemoteWakeLocator};
use wake_runner::magic_packet::create_magic_packet;
use wake_runner::net::SocketAddress;
use wake_runner::wake_on_lan::send;

#[test]
fn client_wakes_and_finds_runner_on_port_5000() {
    let mac = [0xAA, 0xBB, 0xCC, 0xDD, 0xEE, 0xFF];
    let host = vec![Addr::V4(V4IfAddr {
        ip: [192, 168, 1, 10],
        broadcast: Some([192, 168, 1, 255]),
        netmask: Some([255, 255, 255, 0]),
    })];
    let runner_ip = [192, 168, 1, 20];

    let mut locator = RemoteWakeLocator::new(0, 40_000, 10);

    assert_eq!(locator.next_wake(), BackoffAction::WaitThenSend { delay_ms: 25 });
    let wakes = send(mac, &host);
    assert_eq!(wakes.len(), 1);
    assert_eq!(wakes[0].from, SocketAddress { ip: [192, 168, 1, 10], port: 0 });
    assert_eq!(wakes[0].to, SocketAddress { ip: [192, 168, 1, 255], port: 9 });
    assert_eq!(wakes[0].payload, create_magic_packet(mac).to_vec());

    let sent = probes(mac, &host);
    assert_eq!(sent.len(), 1);
    assert_eq!(sent[0].to, SocketAddress { ip: [192, 168, 1, 255], port: 23032 });

    let answer = discovery_server(&sent[0].payload, 5000);
    let found = ping_for_wake_runner_address(&vec![RoundEvent::Reply {
        sender: runner_ip,
        payload: answer.to_vec(),
    }]);
    assert_eq!(found, Some(SocketAddress { ip: [192, 168, 1, 20], port: 5000 }));

    assert_eq!(
        locator.awake_wake_runner(40, LocatorEvent::RoundFinished(found)),
        LocatorAction::Return(Some(SocketAddress { ip: [192, 168, 1, 20], port: 5000 }))
    );
    assert_eq!(locator.next_wake(), BackoffAction::Stop);
}

#[test]
fn runner_uri_is_http_address_and_port() {
    assert_eq!(
        runner_uri_from_socket(SocketAddress { ip: [192, 168, 1, 20], port: 5000 }),
        "http://192.168.1.20:5000"
    );
    assert_eq!(runner_uri_from_socket(SocketAddress { ip: [0, 0, 0, 0], port: 0 }), "http://0.0.0.0:0");
    assert_eq!(
        runner_uri_from_socket(SocketAddress { ip: [255, 255, 255, 255], port: 65535 }),
        "http://255.255.255.255:65535"
    );
    assert_eq!(runner_uri_from_socket(SocketAddress { ip: [10, 0, 9, 100], port: 80 }), "http://10.0.9.100:80");
}

#[test]
fn only_pong_is_a_live_runner() {
    assert_eq!(ping(), "pong");
    assert_eq!(ping_wake_runner(&"pong".to_string()), Some(()));
    assert_eq!(ping_wake_runner(&"Pong".to_string()), None);
    assert_eq!(ping_wake_runner(&"".to_string()), None);
    assert_eq!(ping_wake_runner(&"pong ".to_string()), None);
}
