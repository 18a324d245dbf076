use directscreen_core::api::{Decision, Status};
use directscreen_core::ctl_wire::{read_response, ResponseDecodeError};
use directscreen_core::engine::{RectRegion, RuntimeEngine, TouchEvent};
use directscreen_core::protocol::{
    encode_request, encode_response, execute_binary_command, parse_binary_command,
    parse_binary_header, BinaryCommand, BinaryOpcode, BinaryResponse, BinaryTouchPayload,
    BINARY_COMMAND_HEADER_BYTES, BINARY_PROTOCOL_MAGIC, BINARY_PROTOCOL_VERSION,
};

fn build_frame(seq: u64, opcode: BinaryOpcode, payload: &[u8]) -> Vec<u8> {
    let mut out = Vec::with_capacity(BINARY_COMMAND_HEADER_BYTES + payload.len());
    out.extend_from_slice(&BINARY_PROTOCOL_MAGIC.to_le_bytes());
    out.extend_from_slice(&BINARY_PROTOCOL_VERSION.to_le_bytes());
    out.extend_from_slice(&opcode.code().to_le_bytes());
    out.extend_from_slice(&(payload.len() as u32).to_le_bytes());
    out.extend_from_slice(&seq.to_le_bytes());
    out.extend_from_slice(payload);
    out
}

#[test]
fn parse_binary_command_rejects_bad_magic() {
    let mut frame = build_frame(1, BinaryOpcode::Ping, &[]);
    frame[0] = 0;
    let err = parse_binary_command(&frame).expect_err("must reject");
    assert_eq!(err, Status::InvalidArgument);
}

#[test]
fn parse_binary_command_rejects_bad_shapes() {
    assert_eq!(parse_binary_command(&[0u8; 19]), Err(Status::InvalidArgument));
    let mut frame = build_frame(1, BinaryOpcode::Ping, &[]);
    frame[4] = 2;
    assert_eq!(parse_binary_command(&frame), Err(Status::InvalidArgument));
    let mut frame = build_frame(1, BinaryOpcode::Ping, &[]);
    frame.push(0);
    assert_eq!(parse_binary_command(&frame), Err(Status::InvalidArgument));
    let frame = build_frame(1, BinaryOpcode::Ping, &[1]);
    assert_eq!(parse_binary_command(&frame), Err(Status::InvalidArgument));
    let mut frame = build_frame(1, BinaryOpcode::Ping, &[]);
    frame[6] = 11;
    assert_eq!(parse_binary_command(&frame), Err(Status::InvalidArgument));
    let frame = build_frame(1, BinaryOpcode::TouchMove, &[0u8; 11]);
    assert_eq!(parse_binary_command(&frame), Err(Status::InvalidArgument));
}

#[test]
fn parse_binary_header_reads_fields() {
    let frame = build_frame(0x0102_0304_0506_0708, BinaryOpcode::RenderGet, &[]);
    let h = parse_binary_header(&frame).expect("header");
    assert_eq!(h.magic, 0x5041_5344);
    assert_eq!(h.version, 1);
    assert_eq!(h.opcode, 10);
    assert_eq!(h.payload_len, 0);
    assert_eq!(h.seq, 0x0102_0304_0506_0708);
    assert_eq!(&frame[0..4], b"DSAP");
}

#[test]
fn encoded_request_decodes_back() {
    let cmd = BinaryCommand::TouchMove {
        seq: 77,
        payload: BinaryTouchPayload { pointer_id: -3, x: 1.5f32.to_bits(), y: 2.5f32.to_bits() },
    };
    let frame = encode_request(&cmd);
    assert_eq!(frame.len(), 32);
    assert_eq!(parse_binary_command(&frame), Ok(cmd));
}

#[test]
fn ping_and_version_binary_commands() {
    let mut engine = RuntimeEngine::default();

    let ping_resp = execute_binary_command(&mut engine, &build_frame(7, BinaryOpcode::Ping, &[]));
    assert_eq!(ping_resp.status, Status::Success);
    assert_eq!(ping_resp.seq, 7);
    assert_eq!(ping_resp.opcode, BinaryOpcode::Ping.code());
    assert_eq!(ping_resp.values[0], 1);

    let version_resp = execute_binary_command(&mut engine, &build_frame(8, BinaryOpcode::Version, &[]));
    assert_eq!(version_resp.status, Status::Success);
    assert_eq!(version_resp.seq, 8);
    assert_eq!(version_resp.opcode, BinaryOpcode::Version.code());
    assert_eq!(&version_resp.values[0..3], &[0, 1, 0]);
}

#[test]
fn undecodable_frame_is_answered_with_zero_head() {
    let mut engine = RuntimeEngine::default();
    let resp = execute_binary_command(&mut engine, &[1, 2, 3]);
    assert_eq!(resp.status, Status::InvalidArgument);
    assert_eq!(resp.seq, 0);
    assert_eq!(resp.opcode, 0);
    assert_eq!(resp.values, [0u64; 8]);
}

#[test]
fn display_set_then_get_binary_commands() {
    let mut engine = RuntimeEngine::default();

    let mut payload = Vec::with_capacity(20);
    payload.extend_from_slice(&1920u32.to_le_bytes());
    payload.extend_from_slice(&1080u32.to_le_bytes());
    payload.extend_from_slice(&120.0f32.to_bits().to_le_bytes());
    payload.extend_from_slice(&480u32.to_le_bytes());
    payload.extend_from_slice(&1u32.to_le_bytes());

    let set_resp = execute_binary_command(&mut engine, &build_frame(10, BinaryOpcode::DisplaySet, &payload));
    assert_eq!(set_resp.status, Status::Success);

    let get_resp = execute_binary_command(&mut engine, &build_frame(11, BinaryOpcode::DisplayGet, &[]));
    assert_eq!(get_resp.status, Status::Success);
    assert_eq!(get_resp.values[0], 1920);
    assert_eq!(get_resp.values[1], 1080);
    assert_eq!(get_resp.values[2], 120.0f32.to_bits() as u64);
    assert_eq!(get_resp.values[3], 480);
    assert_eq!(get_resp.values[4], 1);
}

#[test]
fn touch_move_binary_command_returns_route() {
    let mut engine = RuntimeEngine::default();
    engine
        .add_region_rect(RectRegion {
            region_id: 99,
            decision: Decision::Block,
            x: 0.0f32.to_bits(),
            y: 0.0f32.to_bits(),
            w: 100.0f32.to_bits(),
            h: 100.0f32.to_bits(),
        })
        .expect("add region");
    engine
        .touch_down(TouchEvent { pointer_id: 1, x: 10.0f32.to_bits(), y: 20.0f32.to_bits() }, &vec![true])
        .expect("touch down");

    let mut payload = Vec::with_capacity(12);
    payload.extend_from_slice(&1i32.to_le_bytes());
    payload.extend_from_slice(&10.0f32.to_bits().to_le_bytes());
    payload.extend_from_slice(&20.0f32.to_bits().to_le_bytes());

    let resp = execute_binary_command(&mut engine, &build_frame(12, BinaryOpcode::TouchMove, &payload));
    assert_eq!(resp.status, Status::Success);
    assert_eq!(resp.values[0] as i64 as i32, Decision::Block.code());
    assert_eq!(resp.values[1] as i64 as i32, 99);

    let count = execute_binary_command(&mut engine, &build_frame(13, BinaryOpcode::TouchCount, &[]));
    assert_eq!(count.values[0], 1);
    let clear = execute_binary_command(&mut engine, &build_frame(14, BinaryOpcode::TouchClear, &[]));
    assert_eq!(clear.status, Status::Success);
    assert_eq!(engine.active_touch_count(), 0);
    let again = execute_binary_command(&mut engine, &build_frame(15, BinaryOpcode::TouchMove, &payload));
    assert_eq!(again.status, Status::OutOfRange);
}

#[test]
fn render_submit_and_get_binary_commands() {
    let mut engine = RuntimeEngine::default();
    let payload = [8u32.to_le_bytes(), 2u32.to_le_bytes(), 3u32.to_le_bytes()].concat();

    let submit_resp = execute_binary_command(&mut engine, &build_frame(20, BinaryOpcode::RenderSubmit, &payload));
    assert_eq!(submit_resp.status, Status::Success);
    assert_eq!(submit_resp.values[0], 1);
    assert_eq!(submit_resp.values[1], 8);
    assert_eq!(submit_resp.values[2], 2);
    assert_eq!(submit_resp.values[3], 3);

    let get_resp = execute_binary_command(&mut engine, &build_frame(21, BinaryOpcode::RenderGet, &[]));
    assert_eq!(get_resp.status, Status::Success);
    assert_eq!(get_resp.values[0], 1);
    assert_eq!(get_resp.values[1], 8);
    assert_eq!(get_resp.values[2], 2);
    assert_eq!(get_resp.values[3], 3);
}

#[test]
fn encoded_response_reads_back() {
    let resp = BinaryResponse {
        seq: 42,
        opcode: 9,
        status: Status::OutOfRange,
        values: [1, 2, 3, 4, 5, 6, 7, u64::MAX],
    };
    let bytes = encode_response(resp, &[]);
    assert_eq!(bytes.len(), 88);
    let back = read_response(&bytes).expect("decode").expect("one response");
    assert_eq!(back.seq, 42);
    assert_eq!(back.opcode, 9);
    assert_eq!(back.status, Status::OutOfRange);
    assert_eq!(back.values, resp.values);
    let with_body = encode_response(resp, &[9, 9]);
    assert_eq!(with_body.len(), 90);
    assert_eq!(u32::from_le_bytes([with_body[8], with_body[9], with_body[10], with_body[11]]), 70);
}

#[test]
fn read_response_reports_each_failure() {
    assert_eq!(read_response(&[]), Ok(None));
    assert_eq!(read_response(&[1, 2, 3]), Err(ResponseDecodeError::Truncated));
    let resp = BinaryResponse::with_status(1, 1, Status::Success);
    let good = encode_response(resp, &[]);
    let mut bad = good.clone();
    bad[0] = 0;
    assert_eq!(read_response(&bad), Err(ResponseDecodeError::HeaderInvalid));
    let mut bad = good.clone();
    bad[8] = 67;
    assert_eq!(read_response(&bad), Err(ResponseDecodeError::PayloadLenInvalid));
    let mut bad = good.clone();
    bad[20] = 9;
    assert_eq!(read_response(&bad), Err(ResponseDecodeError::StatusInvalid));
    assert_eq!(read_response(&good[0..40]), Err(ResponseDecodeError::Truncated));
    assert_eq!(read_response(&good[0..20]), Err(ResponseDecodeError::Truncated));
    assert_eq!(ResponseDecodeError::Truncated.message(), "binary_response_truncated");
}
