use base64::Engine as _;
use vstd::prelude::*;

use crate::mac::{mac_octet, mac_text, magic_packet, magic_payload, parse_mac_address};
use crate::wire::{decode_message, encode_message, envelope_of, message_bytes, MessageView, WakeMessage};

verus! {

/// What the agent does with a frame from the server.
#[derive(Debug)]
pub enum AgentStep {
    /// The frame is no wake request: nothing to do.
    Ignore,
    /// Broadcast this magic packet for this MAC address, then report how the
    /// send went.
    Wake { mac: [u8; 6], packet: Vec<u8> },
    /// The device's MAC address does not parse: send this negative answer and
    /// nothing else.
    Reply(Vec<u8>),
}

/// The MAC address text of the device that a wake request names.
pub open spec fn requested_mac(b: Seq<u8>) -> Option<Seq<char>> {
    match envelope_of(b) {
        Some(MessageView::WakeUpRequest(d)) => Some(d.mac_address),
        _ => None,
    }
}

/// Handles one frame that the agent received: a wake request whose MAC
/// address parses becomes a magic packet; one whose address does not parse
/// gets a negative answer; anything else is passed over.
pub fn handle_wake_frame(data: &[u8]) -> (r: AgentStep)
    ensures
        match requested_mac(data@) {
            None => r is Ignore,
            Some(text) => if mac_text(text) {
                r matches AgentStep::Wake { mac, packet } && packet@ == magic_payload(mac@)
                    && forall|j: int| 0 <= j < 6 ==> mac@[j] == mac_octet(text, j)
            } else {
                r matches AgentStep::Reply(bytes) && bytes@ == message_bytes(
                    MessageView::WakeUpResponse(false),
                )
            },
        },
{
    let decoded = decode_message(data);
    match decoded {
        Some(WakeMessage::WakeUpRequest(device)) => match parse_mac_address(
            device.mac_address.as_str(),
        ) {
            Some(mac) => {
                let packet = magic_packet(mac);
                AgentStep::Wake { mac, packet }
            },
            None => AgentStep::Reply(encode_message(&WakeMessage::WakeUpResponse(false))),
        },
        _ => AgentStep::Ignore,
    }
}

/// The answer the agent sends once it has tried to broadcast a magic packet:
/// a positive answer after a successful send, none after a failed one.
pub fn reply_after_send(sent: bool) -> (r: Option<Vec<u8>>)
    ensures
        sent ==> (r matches Some(bytes) && bytes@ == message_bytes(
            MessageView::WakeUpResponse(true),
        )),
        !sent ==> r is None,
{
    if sent {
        Some(encode_message(&WakeMessage::WakeUpResponse(true)))
    } else {
        None
    }
}

/// The headers that open the agent's session transport, in order: the
/// handshake key, the upgrade headers, the server's host and the agent's name.
pub open spec fn header_list(host: Seq<char>, key: Seq<char>) -> Seq<(Seq<char>, Seq<char>)> {
    seq![
        ("sec-websocket-key"@, key),
        ("connection"@, "Upgrade"@),
        ("upgrade"@, "websocket"@),
        ("sec-websocket-version"@, "13"@),
        ("sec-websocket-extensions"@, "permessage-deflate; client_max_window_bits"@),
        ("host"@, host),
        ("user-agent"@, "WakeMeUp - Client/1.0"@),
    ]
}

pub open spec fn headers_view(h: Seq<(String, String)>) -> Seq<(Seq<char>, Seq<char>)> {
    h.map_values(|p: (String, String)| (p.0@, p.1@))
}

fn header(name: &str, value: &str) -> (r: (String, String))
    ensures
        r.0@ == name@,
        r.1@ == value@,
{
    (String::from_str(name), String::from_str(value))
}

/// The session transport's handshake headers for `host`, with the handshake
/// key `key`.
pub fn websocket_headers(host: &str, key: &str) -> (r: Vec<(String, String)>)
    ensures
        headers_view(r@) == header_list(host@, key@),
{
    let mut h: Vec<(String, String)> = Vec::new();
    h.push(header("sec-websocket-key", key));
    h.push(header("connection", "Upgrade"));
    h.push(header("upgrade", "websocket"));
    h.push(header("sec-websocket-version", "13"));
    h.push(header("sec-websocket-extensions", "permessage-deflate; client_max_window_bits"));
    h.push(header("host", host));
    h.push(header("user-agent", "WakeMeUp - Client/1.0"));
    assert(headers_view(h@) =~= header_list(host@, key@));
    h
}

/// What base64's standard engine makes of some bytes.
pub uninterp spec fn base64_of(b: Seq<u8>) -> Seq<char>;

/// A character of the standard base64 alphabet, or the padding `=`.
pub open spec fn is_base64_char(c: char) -> bool {
    ||| 'A' <= c <= 'Z'
    ||| 'a' <= c <= 'z'
    ||| '0' <= c <= '9'
    ||| c == '+'
    ||| c == '/'
    ||| c == '='
}

/// Relies on base64's `STANDARD.encode`: the standard alphabet with padding,
/// four characters for every started group of three bytes; the text depends on
/// the bytes alone.
#[verifier::external_body]
fn base64_encode(b: &[u8]) -> (r: String)
    requires
        b@.len() <= usize::MAX / 4,
    ensures
        r@ == base64_of(b@),
        r@.len() == 4 * ((b@.len() + 2) / 3),
        forall|i: int| 0 <= i < r@.len() ==> is_base64_char(#[trigger] r@[i]),
{
    base64::engine::general_purpose::STANDARD.encode(b)
}

/// Relies on rand's `random`: sixteen bytes from the thread's generator.
/// Nothing is promised of their values.
#[verifier::external_body]
fn random_key_bytes() -> (r: [u8; 16]) {
    rand::random::<[u8; 16]>()
}

/// The base64 text of sixteen fresh random bytes, as a handshake key.
pub fn handshake_key() -> (r: String)
    ensures
        exists|k: Seq<u8>| k.len() == 16 && r@ == base64_of(k),
        r@.len() == 24,
        forall|i: int| 0 <= i < r@.len() ==> is_base64_char(#[trigger] r@[i]),
{
    let bytes = random_key_bytes();
    base64_encode(bytes.as_slice())
}

/// The handshake headers for `host`, with a fresh handshake key.
pub fn generate_websocket_headers(host: &str) -> (r: Vec<(String, String)>)
    ensures
        exists|k: Seq<u8>| k.len() == 16 && headers_view(r@) == header_list(host@, base64_of(k)),
        r@.len() == 7,
        r@[0].1@.len() == 24,
{
    let key = handshake_key();
    let r = websocket_headers(host, key.as_str());
    proof {
        assert(headers_view(r@).len() == r@.len());
        assert(headers_view(r@)[0] == (r@[0].0@, r@[0].1@));
    }
    r
}

} // verus!
