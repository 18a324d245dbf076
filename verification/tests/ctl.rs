use directscreen_core::ctl_wire::ctl_request;
use directscreen_core::protocol::{encode_request, parse_binary_command, BinaryCommand};
use directscreen_core::api::Status;
use directscreen_core::ctl_wire::{
    format_response, parse_command_line, parse_command_tokens, response_floats, BinaryCtlCommand, BinaryCtlResponse,
};

fn bits_of(tokens: &[&str]) -> Vec<Option<u32>> {
    tokens.iter().map(|t| t.parse::<f32>().ok().map(f32::to_bits)).collect()
}

fn parse(tokens: &[&str]) -> Result<BinaryCtlCommand, String> {
    let owned: Vec<String> = tokens.iter().map(|t| t.to_string()).collect();
    parse_command_tokens(&owned, &bits_of(tokens))
}

fn parse_line(line: &str) -> Result<BinaryCtlCommand, String> {
    let tokens: Vec<&str> = line.split_ascii_whitespace().collect();
    parse_command_line(line, &bits_of(&tokens))
}

fn resp(status: Status, values: [u64; 8]) -> BinaryCtlResponse {
    BinaryCtlResponse { seq: 1, opcode: 1, status, values }
}

fn reply(cmd: &BinaryCtlCommand, r: &BinaryCtlResponse) -> String {
    let texts: Vec<String> =
        response_floats(cmd, r).iter().map(|(b, d)| format!("{:.*}", *d, f32::from_bits(*b))).collect();
    format_response(cmd, r, &texts)
}

#[test]
fn ctl_parse_bare_commands_any_case() {
    assert!(matches!(parse(&["ping"]), Ok(BinaryCtlCommand::Ping)));
    assert!(matches!(parse(&["Version"]), Ok(BinaryCtlCommand::Version)));
    assert!(matches!(parse(&["filter_chain_clear"]), Ok(BinaryCtlCommand::FilterClear)));
    assert_eq!(parse(&["PING", "x"]).unwrap_err(), "ping_args_invalid");
    assert_eq!(parse(&[]).unwrap_err(), "empty_command");
    assert_eq!(parse(&["Bogus", "1"]).unwrap_err(), "unsupported_command:Bogus");
}

#[test]
fn ctl_parse_display_set_carries_float_bits() {
    match parse(&["DISPLAY_SET", "1080", "2400", "60.5", "420", "1"]) {
        Ok(BinaryCtlCommand::DisplaySet { width, height, refresh_hz_bits, density_dpi, rotation }) => {
            assert_eq!((width, height, density_dpi, rotation), (1080, 2400, 420, 1));
            assert_eq!(f32::from_bits(refresh_hz_bits), 60.5);
        },
        other => panic!("unexpected {:?}", other),
    }
    assert_eq!(parse(&["DISPLAY_SET", "1080", "x", "60", "420", "1"]).unwrap_err(), "invalid_u32:x");
    assert_eq!(parse(&["DISPLAY_SET", "1080", "2400", "fast", "420", "1"]).unwrap_err(), "invalid_f32:fast");
    assert_eq!(parse(&["DISPLAY_SET", "1"]).unwrap_err(), "display_set_args_invalid");
}

#[test]
fn ctl_parse_touch_move_and_wait() {
    match parse(&["touch_move", "-3", "1.5", "2"]) {
        Ok(BinaryCtlCommand::TouchMove { pointer_id, x_bits, y_bits }) => {
            assert_eq!(pointer_id, -3);
            assert_eq!(f32::from_bits(x_bits), 1.5);
            assert_eq!(f32::from_bits(y_bits), 2.0);
        },
        other => panic!("unexpected {:?}", other),
    }
    assert_eq!(parse(&["TOUCH_MOVE", "p", "1", "2"]).unwrap_err(), "invalid_i32:p");
    assert!(matches!(
        parse(&["DISPLAY_WAIT", "7", "100"]),
        Ok(BinaryCtlCommand::DisplayWait { last_seq: 7, timeout_ms: 100 })
    ));
    assert_eq!(parse(&["DISPLAY_WAIT", "-1", "100"]).unwrap_err(), "invalid_u64:-1");
}

#[test]
fn ctl_parse_filter_chain() {
    match parse(&["FILTER_CHAIN_SET", "2", "3", "1.5", "5", "2"]) {
        Ok(BinaryCtlCommand::FilterChainSet { passes }) => {
            assert_eq!(passes.len(), 2);
            assert_eq!(passes[0].radius, 3);
            assert_eq!(f32::from_bits(passes[0].sigma_bits), 1.5);
            assert_eq!(passes[1].radius, 5);
            assert_eq!(f32::from_bits(passes[1].sigma_bits), 2.0);
        },
        other => panic!("unexpected {:?}", other),
    }
    assert_eq!(parse(&["FILTER_CHAIN_SET", "2", "3", "1.5"]).unwrap_err(), "filter_chain_set_args_invalid");
    assert_eq!(parse(&["FILTER_CHAIN_SET"]).unwrap_err(), "filter_chain_set_args_invalid");
    assert_eq!(parse(&["FILTER_CHAIN_SET", "1", "r", "1"]).unwrap_err(), "invalid_u32:r");
    match parse(&["FILTER_SET_GAUSSIAN", "4", "0.5"]) {
        Ok(BinaryCtlCommand::FilterChainSet { passes }) => {
            assert_eq!(passes.len(), 1);
            assert_eq!(passes[0].radius, 4);
        },
        other => panic!("unexpected {:?}", other),
    }
}

#[test]
fn ctl_parse_line_splits_on_ascii_space() {
    assert!(matches!(parse_line("  render_submit 1\t2  3\n"), Ok(BinaryCtlCommand::RenderSubmit {
        draw_calls: 1,
        frost_passes: 2,
        text_calls: 3,
    })));
    assert_eq!(parse_line("").unwrap_err(), "empty_command");
}

#[test]
fn ctl_format_replies() {
    let ok = Status::Success;
    assert_eq!(reply(&BinaryCtlCommand::Ping, &resp(ok, [0; 8])), "OK PONG");
    assert_eq!(reply(&BinaryCtlCommand::Version, &resp(ok, [1, 2, 3, 0, 0, 0, 0, 0])), "OK 1.2.3");
    assert_eq!(
        reply(&BinaryCtlCommand::DisplayGet, &resp(ok, [1080, 2400, 60.0f32.to_bits() as u64, 420, 0, 0, 0, 0])),
        "OK 1080 2400 60.00 420 0"
    );
    let wait = BinaryCtlCommand::DisplayWait { last_seq: 1, timeout_ms: 5 };
    assert_eq!(reply(&wait, &resp(ok, [0; 8])), "OK TIMEOUT");
    assert_eq!(
        reply(&wait, &resp(ok, [9, 1080, 2400, 90.0f32.to_bits() as u64, 420, 1, 1, 0])),
        "OK 9 1080 2400 90.00 420 1"
    );
    let mv = BinaryCtlCommand::TouchMove { pointer_id: 0, x_bits: 0, y_bits: 0 };
    assert_eq!(reply(&mv, &resp(ok, [(-5i64) as u64, 7, 0, 0, 0, 0, 0, 0])), "OK -5 7");
    assert_eq!(reply(&BinaryCtlCommand::TouchCount, &resp(ok, [2, 0, 0, 0, 0, 0, 0, 0])), "OK 2");
    assert_eq!(
        reply(&BinaryCtlCommand::FilterGet, &resp(ok, [1, 1, 2, 3, 1.5f32.to_bits() as u64, 5, 2.0f32.to_bits() as u64, 0])),
        "OK backend=vulkan gpu_active=1 pass_count=2 first_gaussian=3:1.500 second_gaussian=5:2.000"
    );
    assert_eq!(reply(&BinaryCtlCommand::Shutdown, &resp(ok, [0; 8])), "OK SHUTDOWN");
    assert_eq!(reply(&BinaryCtlCommand::Ping, &resp(Status::InvalidArgument, [0; 8])), "ERR INVALID_ARGUMENT");
}

#[test]
fn ctl_request_maps_to_protocol_commands() {
    let cmd = parse(&["TOUCH_MOVE", "2", "1.5", "3"]).expect("parse");
    let req = ctl_request(9, &cmd).expect("has opcode");
    match req {
        BinaryCommand::TouchMove { seq, payload } => {
            assert_eq!(seq, 9);
            assert_eq!(payload.pointer_id, 2);
            assert_eq!(payload.x, 1.5f32.to_bits());
        },
        other => panic!("unexpected {:?}", other),
    }
    let frame = encode_request(&req);
    assert_eq!(parse_binary_command(&frame), Ok(req));
    let wait = parse(&["DISPLAY_WAIT", "1", "5"]).expect("parse");
    assert!(ctl_request(1, &wait).is_none());
    let filt = parse(&["FILTER_GET"]).expect("parse");
    assert!(ctl_request(1, &filt).is_none());
}
