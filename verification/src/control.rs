//! Talking to the runner's control plane once it was found.

use vstd::prelude::*;
use crate::net::SocketAddress;

verus! {

/// The decimal digit for `d`.
pub open spec fn digit(d: nat) -> char {
    (48 + d) as char
}

/// `n` in decimal, without leading zeros.
pub open spec fn decimal(n: nat) -> Seq<char>
    decreases n,
{
    if n < 10 {
        seq![digit(n)]
    } else {
        decimal(n / 10).push(digit(n % 10))
    }
}

/// An address as four decimal numbers with dots between them.
pub open spec fn dotted(ip: [u8; 4]) -> Seq<char> {
    decimal(ip@[0] as nat) + seq!['.'] + decimal(ip@[1] as nat) + seq!['.'] + decimal(
        ip@[2] as nat,
    ) + seq!['.'] + decimal(ip@[3] as nat)
}

/// The base of the runner's URIs: `http://`, the address, a colon and the
/// port.
pub open spec fn runner_uri(socket: SocketAddress) -> Seq<char> {
    seq!['h', 't', 't', 'p', ':', '/', '/'] + dotted(socket.ip) + seq![':'] + decimal(
        socket.port as nat,
    )
}

/// Appends one character to a string.
///
/// Calls `String::push`, which puts the character at the end and leaves what
/// was there as it is.
#[verifier::external_body]
fn push_char(text: &mut String, c: char)
    ensures
        final(text)@ == old(text)@.push(c),
{
    text.push(c);
}

fn push_decimal(text: &mut String, n: u16)
    ensures
        final(text)@ == old(text)@ + decimal(n as nat),
    decreases n,
{
    if n >= 10 {
        push_decimal(text, n / 10);
    }
    let d: u8 = (n % 10) as u8;
    push_char(text, (48u8 + d) as char);
    assert(final(text)@ =~= old(text)@ + decimal(n as nat));
}

/// The base URI of the runner whose control plane listens on `socket`.
pub fn runner_uri_from_socket(socket: SocketAddress) -> (uri: String)
    ensures
        uri@ == runner_uri(socket),
{
    let mut uri = String::new();
    push_char(&mut uri, 'h');
    push_char(&mut uri, 't');
    push_char(&mut uri, 't');
    push_char(&mut uri, 'p');
    push_char(&mut uri, ':');
    push_char(&mut uri, '/');
    push_char(&mut uri, '/');
    push_decimal(&mut uri, socket.ip[0] as u16);
    push_char(&mut uri, '.');
    push_decimal(&mut uri, socket.ip[1] as u16);
    push_char(&mut uri, '.');
    push_decimal(&mut uri, socket.ip[2] as u16);
    push_char(&mut uri, '.');
    push_decimal(&mut uri, socket.ip[3] as u16);
    push_char(&mut uri, ':');
    push_decimal(&mut uri, socket.port);
    assert(uri@ =~= runner_uri(socket));
    uri
}

/// The runner's answer to a ping.
pub fn ping() -> (reply: String)
    ensures
        reply@ == "pong"@,
{
    "pong".to_owned()
}

/// Whether a reply to a ping shows a live runner: it does exactly when it is
/// `pong`.
pub fn ping_wake_runner(reply: &String) -> (alive: Option<()>)
    ensures
        alive is Some <==> reply@ == "pong"@,
{
    let expected = ping();
    if *reply == expected {
        Some(())
    } else {
        None
    }
}

} // verus!
