use wakeup_relay::agent::{
    generate_websocket_headers, handle_wake_frame, handshake_key, reply_after_send,
    websocket_headers, AgentStep,
};
use wakeup_relay::mac::{magic_packet, parse_mac_address};
use wakeup_relay::wire::{encode_message, Device, WakeMessage};

const MAC: [u8; 6] = [0xAA, 0xBB, 0xCC, 0xDD, 0xEE, 0xFF];

fn expected_packet(mac: [u8; 6]) -> Vec<u8> {
    let mut v = vec![0xFF; 6];
    for _ in 0..16 {
        v.extend_from_slice(&mac);
    }
    v
}

#[test]
fn magic_packet_payload() {
    let p = magic_packet(MAC);
    assert_eq!(p.len(), 102);
    assert_eq!(&p[..6], &[0xFF; 6]);
    for i in 0..16 {
        assert_eq!(&p[6 + 6 * i..12 + 6 * i], &MAC);
    }
    assert_eq!(p, expected_packet(MAC));
    assert_eq!(magic_packet([0; 6]), expected_packet([0; 6]));
}

#[test]
fn mac_parsing() {
    assert_eq!(parse_mac_address("AA:BB:CC:DD:EE:FF"), Some(MAC));
    assert_eq!(parse_mac_address("aa:bb:cc:dd:ee:ff"), Some(MAC));
    assert_eq!(parse_mac_address("0f:1E:2d:3C:4b:5A"), Some([0x0F, 0x1E, 0x2D, 0x3C, 0x4B, 0x5A]));
    assert_eq!(parse_mac_address("AA:BB:CC"), None);
    assert_eq!(parse_mac_address("GG:BB:CC:DD:EE:FF"), None);
    assert_eq!(parse_mac_address(""), None);
    assert_eq!(parse_mac_address("AA:BB:CC:DD:EE:FF:00"), None);
    assert_eq!(parse_mac_address("AA-BB-CC-DD-EE-FF"), None);
    assert_eq!(parse_mac_address("A:BB:CC:DD:EE:FFF"), None);
    assert_eq!(parse_mac_address("AA:BB:CC:DD:EE:F"), None);
}

fn request(mac: &str) -> Vec<u8> {
    encode_message(&WakeMessage::WakeUpRequest(Device {
        device_id: 3,
        name: "desk".to_string(),
        mac_address: mac.to_string(),
    }))
}

#[test]
fn agent_wakes_a_parsable_mac() {
    match handle_wake_frame(&request("AA:BB:CC:DD:EE:FF")) {
        AgentStep::Wake { mac, packet } => {
            assert_eq!(mac, MAC);
            assert_eq!(packet, expected_packet(MAC));
        }
        other => panic!("unexpected {other:?}"),
    }
}

#[test]
fn agent_answers_no_to_a_malformed_mac() {
    for bad in ["AA:BB:CC", "GG:BB:CC:DD:EE:FF"] {
        match handle_wake_frame(&request(bad)) {
            AgentStep::Reply(bytes) => {
                assert_eq!(bytes, encode_message(&WakeMessage::WakeUpResponse(false)))
            }
            other => panic!("unexpected {other:?}"),
        }
    }
}

#[test]
fn agent_ignores_other_frames() {
    assert!(matches!(handle_wake_frame(&[]), AgentStep::Ignore));
    assert!(matches!(handle_wake_frame(&[1, 2, 3]), AgentStep::Ignore));
    let response = encode_message(&WakeMessage::WakeUpResponse(true));
    assert!(matches!(handle_wake_frame(&response), AgentStep::Ignore));
}

#[test]
fn agent_reply_after_send() {
    assert_eq!(reply_after_send(true), Some(vec![0x12, 0x04, 0x0a, 0x02, 0x08, 0x01]));
    assert_eq!(reply_after_send(false), None);
}

#[test]
fn handshake_headers() {
    let h = websocket_headers("example.org:8080", "a2V5");
    let expected = [
        ("sec-websocket-key", "a2V5"),
        ("connection", "Upgrade"),
        ("upgrade", "websocket"),
        ("sec-websocket-version", "13"),
        ("sec-websocket-extensions", "permessage-deflate; client_max_window_bits"),
        ("host", "example.org:8080"),
        ("user-agent", "WakeMeUp - Client/1.0"),
    ];
    assert_eq!(h.len(), expected.len());
    for (got, want) in h.iter().zip(expected.iter()) {
        assert_eq!((got.0.as_str(), got.1.as_str()), *want);
    }
}

#[test]
fn handshake_key_is_base64_of_sixteen_bytes() {
    let k = handshake_key();
    assert_eq!(k.len(), 24);
    assert!(k.ends_with("=="));
    assert!(k[..22].chars().all(|c| c.is_ascii_alphanumeric() || c == '+' || c == '/'));
    let h = generate_websocket_headers("host:1");
    assert_eq!(h[0].0, "sec-websocket-key");
    assert_eq!(h[0].1.len(), 24);
    assert_eq!(h[5].1, "host:1");
}
