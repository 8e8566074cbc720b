//! The discovery handshake: a client broadcasts the target's hardware address
//! and the runner answers with the port of its control plane.

use vstd::prelude::*;
use crate::interfaces::{broadcastable, get_broadcastable_v4_interfaces, Addr};
use crate::magic_packet::MAC_ADDRESS_SIZE;
use crate::net::{bytes_of, Datagram, SocketAddress};

verus! {

/// The UDP port the runner listens on for probes.
pub const UDP_DISCOVERY_PORT: u16 = 23032;

/// How long one round waits for an answer, in milliseconds.
pub const ROUND_TIMEOUT_MS: u64 = 300;

/// The body of a response: the port as two bytes, low byte first.
pub open spec fn response_bytes(port: u16) -> Seq<u8> {
    seq![(port % 256) as u8, (port / 256) as u8]
}

/// The port a response body carries: `Some` for exactly two bytes, read low
/// byte first; `None` for any other length.
pub open spec fn response_port(payload: Seq<u8>) -> Option<u16> {
    if payload.len() == 2 {
        Some((payload[0] + 256 * payload[1]) as u16)
    } else {
        None
    }
}

/// Encodes the control-plane port for a response.
pub fn encode_response(port: u16) -> (out: [u8; 2])
    ensures
        out@ == response_bytes(port),
{
    let low: u8 = (port % 256) as u8;
    let high: u8 = (port / 256) as u8;
    let out = [low, high];
    assert(out@ =~= response_bytes(port));
    out
}

/// Reads the port out of a response body; a body of any length but two is
/// not a response.
pub fn parse_response(payload: &[u8]) -> (port: Option<u16>)
    ensures
        port == response_port(payload@),
{
    if payload.len() != 2 {
        return None;
    }
    let low: u16 = payload[0] as u16;
    let high: u16 = payload[1] as u16;
    Some(low + 256 * high)
}

/// Every port survives encoding and parsing.
pub proof fn lemma_response_round_trip(port: u16)
    ensures
        response_port(response_bytes(port)) == Some(port),
{
}

/// A body that parses is the encoding of the port it parses to.
pub proof fn lemma_parsed_response_is_encoding(payload: Seq<u8>)
    requires
        response_port(payload) is Some,
    ensures
        response_bytes(response_port(payload).unwrap()) == payload,
{
    assert(response_bytes(response_port(payload).unwrap()) =~= payload);
}

/// The runner's answer to a datagram on the discovery port. Whatever the probe
/// holds, the answer is the control-plane port.
pub fn discovery_server(probe: &[u8], server_listen_port: u16) -> (reply: [u8; 2])
    ensures
        reply@ == response_bytes(server_listen_port),
{
    encode_response(server_listen_port)
}

/// Whether `d` is the probe for `mac` on one interface: bound to an ephemeral
/// port on `from`, addressed to the discovery port on `to`, carrying the six
/// address bytes.
pub open spec fn is_probe(d: Datagram, mac: Seq<u8>, from: [u8; 4], to: [u8; 4]) -> bool {
    &&& d.from == (SocketAddress { ip: from, port: 0 })
    &&& d.to == (SocketAddress { ip: to, port: 23032 })
    &&& d.payload@ == mac
}

/// The probes of one round: one for each address of `addrs` that a broadcast
/// can leave from, in the order they were listed.
pub fn probes(mac_address: [u8; MAC_ADDRESS_SIZE], addrs: &Vec<Addr>) -> (out: Vec<Datagram>)
    ensures
        out@.len() == addrs@.filter_map(|a: Addr| broadcastable(a)).len(),
        forall|k: int|
            0 <= k < out@.len() ==> {
                let nif = addrs@.filter_map(|a: Addr| broadcastable(a))[k];
                is_probe(#[trigger] out@[k], mac_address@, nif.ip, nif.broadcast.unwrap())
            },
{
    let interfaces = get_broadcastable_v4_interfaces(addrs);
    let mut out: Vec<Datagram> = Vec::new();
    let mut i: usize = 0;
    while i < interfaces.len()
        invariant
            i <= interfaces@.len(),
            out@.len() == i,
            forall|k: int|
                0 <= k < interfaces@.len() ==> (#[trigger] interfaces@[k]).broadcast is Some,
            forall|k: int|
                0 <= k < i ==> is_probe(
                    #[trigger] out@[k],
                    mac_address@,
                    interfaces@[k].ip,
                    interfaces@[k].broadcast.unwrap(),
                ),
        decreases interfaces@.len() - i,
    {
        let interface = interfaces[i];
        match interface.broadcast {
            Some(to) => {
                out.push(
                    Datagram {
                        from: SocketAddress { ip: interface.ip, port: 0 },
                        to: SocketAddress { ip: to, port: UDP_DISCOVERY_PORT },
                        payload: bytes_of(mac_address.as_slice()),
                    },
                );
            },
            None => {
                assert(false);
            },
        }
        i += 1;
    }
    out
}

/// What a listener of a round can see.
#[derive(Clone, Debug, PartialEq, Eq)]
pub enum RoundEvent {
    /// A datagram arrived on one of the round's sockets.
    Reply { sender: [u8; 4], payload: Vec<u8> },
    /// The round's timer ran out.
    TimedOut,
}

/// The address an event resolves the round to, if it does: a reply of exactly
/// two bytes gives the sender's address with the port it carries.
pub open spec fn resolved_by(event: RoundEvent) -> Option<SocketAddress> {
    match event {
        RoundEvent::Reply { sender, payload } => match response_port(payload@) {
            Some(port) => Some(SocketAddress { ip: sender, port }),
            None => None,
        },
        RoundEvent::TimedOut => None,
    }
}

/// The outcome of a round that sees `events` in this order: the address of the
/// first well-formed reply, unless the timer runs out first. Malformed replies
/// are passed over, and nothing after the deciding event counts.
pub open spec fn round_outcome(events: Seq<RoundEvent>) -> Option<SocketAddress>
    decreases events.len(),
{
    if events.len() == 0 {
        None
    } else if events[0] is TimedOut {
        None
    } else if resolved_by(events[0]) is Some {
        resolved_by(events[0])
    } else {
        round_outcome(events.skip(1))
    }
}

/// Where a round stands.
#[derive(Clone, Copy, Debug, PartialEq, Eq)]
pub enum RoundState {
    /// No well-formed reply yet, and time is left.
    Listening,
    /// A well-formed reply came first.
    Resolved(SocketAddress),
    /// The timer ran out first.
    NotFound,
}

/// The state after `event`. A finished round takes no further event.
pub open spec fn round_step(state: RoundState, event: RoundEvent) -> RoundState {
    match state {
        RoundState::Listening => if event is TimedOut {
            RoundState::NotFound
        } else {
            match resolved_by(event) {
                Some(addr) => RoundState::Resolved(addr),
                None => RoundState::Listening,
            }
        },
        _ => state,
    }
}

/// The state after all of `events`, taken in order from `state`.
pub open spec fn round_run(state: RoundState, events: Seq<RoundEvent>) -> RoundState
    decreases events.len(),
{
    if events.len() == 0 {
        state
    } else {
        round_run(round_step(state, events[0]), events.skip(1))
    }
}

/// What a state means to the caller of the round.
pub open spec fn state_outcome(state: RoundState) -> Option<SocketAddress> {
    match state {
        RoundState::Resolved(addr) => Some(addr),
        _ => None,
    }
}

/// One discovery round, fed event by event.
pub struct DiscoveryRound {
    state: RoundState,
}

impl DiscoveryRound {
    pub closed spec fn view(&self) -> RoundState {
        self.state
    }

    /// A round that has just sent its probes.
    pub fn new() -> (round: Self)
        ensures
            round@ == RoundState::Listening,
    {
        DiscoveryRound { state: RoundState::Listening }
    }

    /// Where the round stands.
    pub fn state(&self) -> (state: RoundState)
        ensures
            state == self@,
    {
        self.state
    }

    /// Whether the round is over, so that its listeners are to be cancelled.
    pub fn is_finished(&self) -> (done: bool)
        ensures
            done == !(self@ is Listening),
    {
        match self.state {
            RoundState::Listening => false,
            _ => true,
        }
    }

    /// Takes one event. The first well-formed reply or the timeout, whichever
    /// comes first, ends the round; a malformed reply changes nothing.
    pub fn step(&mut self, event: &RoundEvent) -> (state: RoundState)
        ensures
            final(self)@ == round_step(old(self)@, *event),
            state == final(self)@,
    {
        match self.state {
            RoundState::Listening => {
                match event {
                    RoundEvent::TimedOut => {
                        self.state = RoundState::NotFound;
                    },
                    RoundEvent::Reply { sender, payload } => {
                        match parse_response(payload.as_slice()) {
                            Some(port) => {
                                self.state = RoundState::Resolved(
                                    SocketAddress { ip: *sender, port },
                                );
                            },
                            None => {},
                        }
                    },
                }
            },
            _ => {},
        }
        self.state
    }
}

/// From a round still listening, running the events gives what `round_outcome`
/// says; a finished round keeps its state whatever comes.
pub proof fn lemma_round_run(state: RoundState, events: Seq<RoundEvent>)
    ensures
        state is Listening ==> state_outcome(round_run(state, events)) == round_outcome(events),
        !(state is Listening) ==> round_run(state, events) == state,
    decreases events.len(),
{
    if events.len() > 0 {
        lemma_round_run(round_step(state, events[0]), events.skip(1));
    }
}

/// The outcome of one round over the events its listeners saw, in the order
/// they saw them.
pub fn ping_for_wake_runner_address(events: &Vec<RoundEvent>) -> (found: Option<SocketAddress>)
    ensures
        found == round_outcome(events@),
{
    let mut round = DiscoveryRound::new();
    let mut i: usize = 0;
    assert(events@.skip(0) =~= events@);
    while i < events.len() && !round.is_finished()
        invariant
            i <= events@.len(),
            round_run(round@, events@.skip(i as int)) == round_run(
                RoundState::Listening,
                events@,
            ),
        decreases events@.len() - i,
    {
        proof {
            assert(events@.skip(i as int).skip(1) =~= events@.skip(i + 1));
            assert(events@.skip(i as int)[0] == events@[i as int]);
        }
        round.step(&events[i]);
        i += 1;
    }
    proof {
        lemma_round_run(RoundState::Listening, events@);
        lemma_round_run(round@, events@.skip(i as int));
        if round@ is Listening {
            assert(events@.skip(i as int).len() == 0);
        }
    }
    match round.state() {
        RoundState::Resolved(addr) => Some(addr),
        _ => None,
    }
}

/// The first well-formed reply wins: when the event at `k` is a well-formed
/// reply and nothing before it is either the timeout or a well-formed reply,
/// the round resolves to that reply's sender and port, whatever follows.
pub proof fn lemma_first_reply_wins(events: Seq<RoundEvent>, k: int)
    requires
        0 <= k < events.len(),
        resolved_by(events[k]) is Some,
        forall|j: int| 0 <= j < k ==> !(events[j] is TimedOut) && resolved_by(events[j]) is None,
    ensures
        round_outcome(events) == resolved_by(events[k]),
    decreases k,
{
    if k > 0 {
        let rest = events.skip(1);
        assert(forall|j: int| 0 <= j < k - 1 ==> rest[j] == events[j + 1]);
        lemma_first_reply_wins(rest, k - 1);
    }
}

/// A round that sees no well-formed reply before its timeout finds nothing:
/// replies of a wrong length are passed over.
pub proof fn lemma_malformed_replies_time_out(events: Seq<RoundEvent>, k: int)
    requires
        0 <= k <= events.len(),
        k < events.len() ==> events[k] is TimedOut,
        forall|j: int| 0 <= j < k ==> resolved_by(events[j]) is None,
    ensures
        round_outcome(events) is None,
    decreases k,
{
    if k > 0 && !(events[0] is TimedOut) {
        let rest = events.skip(1);
        assert(forall|j: int| 0 <= j < k - 1 ==> rest[j] == events[j + 1]);
        lemma_malformed_replies_time_out(rest, k - 1);
    }
}

} // verus!
