use wakeup_relay::wire::{
    decode_message, encode_basic_response, encode_message, put_varint, read_varint, Device,
    WakeMessage,
};

fn device(id: i32, name: &str, mac: &str) -> Device {
    Device { device_id: id, name: name.to_string(), mac_address: mac.to_string() }
}

#[test]
fn varint_bytes() {
    for (v, bytes) in [
        (0u64, vec![0x00]),
        (1, vec![0x01]),
        (127, vec![0x7f]),
        (128, vec![0x80, 0x01]),
        (300, vec![0xac, 0x02]),
        (u64::MAX, vec![0xff, 0xff, 0xff, 0xff, 0xff, 0xff, 0xff, 0xff, 0xff, 0x01]),
    ] {
        let mut out = vec![9u8];
        put_varint(&mut out, v);
        assert_eq!(out[1..], bytes[..]);
        assert_eq!(read_varint(&out, 1), Some((v, out.len())));
    }
}

#[test]
fn varint_rejects_non_canonical_and_truncated() {
    assert_eq!(read_varint(&[0x80, 0x00], 0), None);
    assert_eq!(read_varint(&[0x80], 0), None);
    assert_eq!(read_varint(&[], 0), None);
    assert_eq!(
        read_varint(&[0xff, 0xff, 0xff, 0xff, 0xff, 0xff, 0xff, 0xff, 0xff, 0x02], 0),
        None
    );
}

#[test]
fn response_encoding() {
    assert_eq!(
        encode_message(&WakeMessage::WakeUpResponse(true)),
        vec![0x12, 0x04, 0x0a, 0x02, 0x08, 0x01]
    );
    assert_eq!(
        encode_message(&WakeMessage::WakeUpResponse(false)),
        vec![0x12, 0x04, 0x0a, 0x02, 0x08, 0x00]
    );
    assert_eq!(encode_basic_response(true), vec![0x08, 0x01]);
    assert_eq!(encode_basic_response(false), vec![0x08, 0x00]);
}

#[test]
fn request_encoding() {
    let bytes = encode_message(&WakeMessage::WakeUpRequest(device(5, "pc", "AB")));
    assert_eq!(
        bytes,
        vec![0x0a, 0x0c, 0x0a, 0x0a, 0x08, 0x05, 0x12, 0x02, b'p', b'c', 0x1a, 0x02, b'A', b'B']
    );
}

#[test]
fn decode_round_trip() {
    let messages = [
        WakeMessage::WakeUpResponse(true),
        WakeMessage::WakeUpResponse(false),
        WakeMessage::WakeUpRequest(device(1, "desktop", "AA:BB:CC:DD:EE:FF")),
        WakeMessage::WakeUpRequest(device(-1, "", "")),
        WakeMessage::WakeUpRequest(device(i32::MIN, "Büro-PC ☕", "x")),
        WakeMessage::WakeUpRequest(device(i32::MAX, &"n".repeat(300), "m")),
    ];
    for m in messages {
        let bytes = encode_message(&m);
        assert_eq!(decode_message(&bytes), Some(m));
    }
}

#[test]
fn decode_rejects_what_is_no_envelope() {
    let good = encode_message(&WakeMessage::WakeUpRequest(device(1, "a", "b")));
    for cut in 0..good.len() {
        assert_eq!(decode_message(&good[..cut]), None, "{cut}");
    }
    // A trailing zero byte is a key with field number 0.
    let mut longer = good.clone();
    longer.push(0);
    assert_eq!(decode_message(&longer), None);
    // No request and no response.
    assert_eq!(decode_message(&[0x1a, 0x00]), None);
    // Field 1 of the envelope with the varint wire type.
    assert_eq!(decode_message(&[0x08, 0x01]), None);
    // Wire type 3 is not read.
    assert_eq!(decode_message(&[0x0b]), None);
    // Invalid UTF-8 in the name.
    assert_eq!(
        decode_message(&[0x0a, 0x0b, 0x0a, 0x09, 0x08, 0x01, 0x12, 0x01, 0xff, 0x1a, 0x01, b'x']),
        None
    );
}

#[test]
fn decode_fills_in_omitted_defaults() {
    assert_eq!(decode_message(&[0x12, 0x00]), Some(WakeMessage::WakeUpResponse(false)));
    assert_eq!(decode_message(&[0x12, 0x02, 0x0a, 0x00]), Some(WakeMessage::WakeUpResponse(false)));
    assert_eq!(decode_message(&[0x0a, 0x00]), Some(WakeMessage::WakeUpRequest(device(0, "", ""))));
    assert_eq!(
        decode_message(&[0x0a, 0x06, 0x0a, 0x04, 0x08, 0x01, 0x12, 0x00]),
        Some(WakeMessage::WakeUpRequest(device(1, "", "")))
    );
    // Any non-zero success value reads as true.
    assert_eq!(
        decode_message(&[0x12, 0x04, 0x0a, 0x02, 0x08, 0x02]),
        Some(WakeMessage::WakeUpResponse(true))
    );
}

#[test]
fn decode_skips_unknown_fields_and_takes_the_last_value() {
    // Unknown varint, fixed64, fixed32 and bytes fields around the response.
    let bytes = [
        0x20, 0x05, // field 4, varint
        0x29, 1, 2, 3, 4, 5, 6, 7, 8, // field 5, fixed64
        0x12, 0x09, 0x0a, 0x02, 0x08, 0x01, 0x35, 0, 0, 0, 0, // response, with a fixed32 inside
        0x3a, 0x01, 0x00, // field 7, bytes
    ];
    assert_eq!(decode_message(&bytes), Some(WakeMessage::WakeUpResponse(true)));
    // Device fields in another order, with the id given twice.
    let record = [0x1a, 0x01, b'm', 0x08, 0x01, 0x12, 0x01, b'n', 0x08, 0x07];
    let mut wrapper = vec![0x0a, record.len() as u8];
    wrapper.extend_from_slice(&record);
    let mut envelope = vec![0x0a, wrapper.len() as u8];
    envelope.extend_from_slice(&wrapper);
    assert_eq!(decode_message(&envelope), Some(WakeMessage::WakeUpRequest(device(7, "n", "m"))));
    // Of a request followed by a response, the response counts.
    let mut both = envelope.clone();
    both.extend_from_slice(&[0x12, 0x02, 0x0a, 0x00]);
    assert_eq!(decode_message(&both), Some(WakeMessage::WakeUpResponse(false)));
}

#[test]
fn decode_reads_an_id_from_its_low_bits() {
    // 2^32 + 5 as a varint: the id keeps the low 32 bits.
    let record = [0x08, 0x85, 0x80, 0x80, 0x80, 0x10];
    let mut wrapper = vec![0x0a, record.len() as u8];
    wrapper.extend_from_slice(&record);
    let mut envelope = vec![0x0a, wrapper.len() as u8];
    envelope.extend_from_slice(&wrapper);
    assert_eq!(decode_message(&envelope), Some(WakeMessage::WakeUpRequest(device(5, "", ""))));
}
