use directscreen_core::client::{decode_touch_packet, encode_touch_packet, DsapiError, TouchEvent};
use directscreen_core::daemon::TOUCH_PACKET_BYTES;

fn coord(bytes: &[u8], field: &str) -> Result<u32, DsapiError> {
    let raw = f32::from_le_bytes([bytes[0], bytes[1], bytes[2], bytes[3]]);
    if !raw.is_finite() || raw < 0.0 || raw > u32::MAX as f32 {
        return Err(DsapiError::ParseError(format!("invalid_touch_{}:{}", field, raw)));
    }
    Ok(raw.round() as u32)
}

fn encode(event: TouchEvent) -> Result<[u8; TOUCH_PACKET_BYTES], DsapiError> {
    let (x, y) = match event {
        TouchEvent::Down { x, y, .. } | TouchEvent::Move { x, y, .. } => (x, y),
        TouchEvent::Up { .. } => (0, 0),
    };
    let bytes = encode_touch_packet(event, (x as f32).to_bits(), (y as f32).to_bits())?;
    let mut out = [0u8; TOUCH_PACKET_BYTES];
    out.copy_from_slice(&bytes);
    Ok(out)
}

fn decode(raw: &[u8; TOUCH_PACKET_BYTES]) -> Result<TouchEvent, DsapiError> {
    decode_touch_packet(raw, coord(&raw[8..12], "x"), coord(&raw[12..16], "y"))
}

fn message(e: &DsapiError) -> String {
    match e {
        DsapiError::IoError(s) | DsapiError::ProtocolError(s) | DsapiError::ParseError(s) => s.clone(),
    }
}

#[test]
fn touch_packet_roundtrip_down() {
    let original = TouchEvent::Down { id: 7, x: 120, y: 340 };
    let raw = encode(original).expect("encode");
    let decoded = decode(&raw).expect("decode");
    assert_eq!(decoded, original);
}

#[test]
fn touch_packet_roundtrip_up() {
    let original = TouchEvent::Up { id: 99 };
    let raw = encode(original).expect("encode");
    let decoded = decode(&raw).expect("decode");
    assert_eq!(decoded, original);
}

#[test]
fn touch_packet_rejects_unknown_kind() {
    let mut raw = [0u8; TOUCH_PACKET_BYTES];
    raw[0] = 42;
    let err = decode(&raw).expect_err("must fail");
    assert!(message(&err).contains("unknown_touch_packet_kind"));
}

#[test]
fn touch_packet_move_layout_and_pointer_checks() {
    let raw = encode(TouchEvent::Move { id: 3, x: 1, y: 2 }).expect("encode");
    assert_eq!(raw[0], 2);
    assert_eq!(&raw[4..8], &3i32.to_le_bytes());
    assert_eq!(&raw[8..12], &1.0f32.to_le_bytes());
    let err = encode(TouchEvent::Up { id: 0x8000_0000 }).expect_err("too large");
    assert_eq!(message(&err), "pointer_id_out_of_range:2147483648");
    let mut neg = [0u8; TOUCH_PACKET_BYTES];
    neg[0] = 1;
    neg[4..8].copy_from_slice(&(-4i32).to_le_bytes());
    assert_eq!(message(&decode(&neg).expect_err("negative")), "negative_pointer_id:-4");
}
