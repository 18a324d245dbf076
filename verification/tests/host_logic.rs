use directscreen_core::client::check_submit_reply;
use directscreen_core::cli_args::{parse_region_fields, parse_stream_args};
use directscreen_core::framepull::{HeaderLine, RecvStep, bind_map_len, framepull_args, recv_step, wait_request_line};
use directscreen_core::api::{Decision, RenderStats, RouteResult, Status};
use directscreen_core::daemon::{
    control_header_step, control_max_payload, response_requests_shutdown, status_error_line,
    worker_failures_after, HeaderStep, LineAssembler, LineStep,
};
use directscreen_core::ffi_types::{
    filter_runtime_info, DsapiHwBufferDesc, DsapiRenderStats, DsapiRouteResult, FILTER_BACKEND_CPU, FILTER_BACKEND_VULKAN,
};
use directscreen_core::frame_requests::{
    bound_capacity, bound_line, classify_data_line, frame_line, present_line, span_fits, DataRequest,
    INITIAL_BOUND_FD_CAPACITY,
};
use directscreen_core::input_args::parse_input_args;
use directscreen_core::protocol::{BinaryOpcode, BinaryResponse};
use directscreen_core::touch_router::{InputRecord, ABS_MT_POSITION_X, ABS_MT_TRACKING_ID, EV_ABS, EV_SYN, SYN_REPORT};
use directscreen_core::touch_tracker::TouchTracker;

fn args(words: &[&str]) -> Vec<String> {
    let mut v = vec!["dsapiinput".to_string()];
    v.extend(words.iter().map(|w| w.to_string()));
    v
}

#[test]
fn input_args_parse_full_set() {
    let a = parse_input_args(&args(&[
        "--device", "/dev/input/event3", "--max-x", "4095", "--max-y", "4095", "--width", "1080",
        "--height", "2400", "--rotation", "1", "--quiet",
    ]))
    .expect("parse");
    assert_eq!(a.device, "/dev/input/event3");
    assert_eq!(a.cfg.max_x, 4095);
    assert_eq!(a.cfg.width, 1080);
    assert_eq!(a.cfg.height, 2400);
    assert_eq!(a.cfg.rotation, 1);
    assert!(a.quiet);
    assert_eq!(a.data_socket, "artifacts/run/dsapi.data.sock");
}

#[test]
fn input_args_explicit_data_socket_wins() {
    let a = parse_input_args(&args(&[
        "--device", "d", "--max-x", "1", "--max-y", "1", "--width", "1", "--height", "1",
        "--data-socket", "/tmp/x.sock",
    ]))
    .expect("parse");
    assert_eq!(a.data_socket, "/tmp/x.sock");
    assert_eq!(a.cfg.rotation, 0);
    assert!(!a.quiet);
}

#[test]
fn input_args_errors() {
    assert_eq!(parse_input_args(&args(&["--bogus"])).unwrap_err(), "unknown_arg:--bogus");
    assert_eq!(parse_input_args(&args(&["--device"])).unwrap_err(), "missing_device_path");
    assert_eq!(parse_input_args(&args(&["--max-x", "abc"])).unwrap_err(), "invalid_max_x_value");
    assert_eq!(parse_input_args(&args(&[])).unwrap_err(), "missing_device");
    assert_eq!(parse_input_args(&args(&["--device", "d"])).unwrap_err(), "missing_max_x");
    assert_eq!(
        parse_input_args(&args(&[
            "--device", "d", "--max-x", "0", "--max-y", "1", "--width", "1", "--height", "1"
        ]))
        .unwrap_err(),
        "mapping_values_must_be_positive"
    );
    assert_eq!(
        parse_input_args(&args(&[
            "--device", "d", "--max-x", "1", "--max-y", "1", "--width", "1", "--height", "1",
            "--rotation", "4"
        ]))
        .unwrap_err(),
        "rotation_must_be_0_3"
    );
}

#[test]
fn data_lines_are_classified() {
    assert_eq!(classify_data_line("RENDER_FRAME_BIND_SHM", false), DataRequest::BindShm);
    assert_eq!(classify_data_line(" stream_touch_v1 \n", false), DataRequest::TouchStream);
    assert_eq!(
        classify_data_line("RENDER_FRAME_WAIT_SHM_PRESENT 7 250", true),
        DataRequest::WaitShmPresent { last_seq: 7, timeout_ms: 250 }
    );
    assert_eq!(
        classify_data_line("RENDER_FRAME_WAIT_SHM_PRESENT 7 250", false),
        DataRequest::Refuse(Status::InvalidArgument)
    );
    assert_eq!(classify_data_line("HELLO", true), DataRequest::Refuse(Status::InvalidArgument));
}

#[test]
fn bound_buffer_size_and_reply_lines() {
    assert_eq!(bound_capacity(10), INITIAL_BOUND_FD_CAPACITY);
    assert_eq!(bound_capacity(1_000_000), 1_000_000);
    assert_eq!(bound_line(524288), "OK BOUND 524288\n");
    assert_eq!(frame_line(3, 2, 1, 8), "OK 3 2 1 8\n");
    assert_eq!(present_line(3, 2, 1, 8, 77), "OK 3 2 1 RGBA8888 8 77\n");
}

#[test]
fn line_assembler_splits_and_drops_long_lines() {
    let mut a = LineAssembler::new(4);
    for b in b"ab" {
        assert_eq!(a.push(*b), LineStep::More);
    }
    assert_eq!(a.push(b'\n'), LineStep::Line(b"ab\n".to_vec()));
    for b in b"abcd" {
        assert_eq!(a.push(*b), LineStep::More);
    }
    assert_eq!(a.push(b'e'), LineStep::More);
    assert_eq!(a.push(b'\n'), LineStep::TooLong);
    assert_eq!(a.push(b'x'), LineStep::More);
    assert_eq!(a.finish(), LineStep::Line(b"x".to_vec()));
    assert_eq!(a.finish(), LineStep::Closed);
}

#[test]
fn control_header_steps() {
    assert_eq!(control_max_payload(4), 20);
    assert_eq!(control_max_payload(4096), 4096);
    assert_eq!(
        control_header_step(&[0u8; 10], 100),
        HeaderStep::Refuse { status: Status::InvalidArgument, close: false }
    );
    let mut h = [0u8; 20];
    h[8..12].copy_from_slice(&200u32.to_le_bytes());
    assert_eq!(control_header_step(&h, 100), HeaderStep::Refuse { status: Status::OutOfRange, close: true });
    assert_eq!(control_header_step(&h, 200), HeaderStep::ReadPayload(200));
}

#[test]
fn worker_and_reply_helpers() {
    assert_eq!(worker_failures_after(3, 10_000), 0);
    assert_eq!(worker_failures_after(3, 9_999), 4);
    assert_eq!(worker_failures_after(u32::MAX, 1), u32::MAX);
    assert_eq!(status_error_line(Status::OutOfRange), "ERR OUT_OF_RANGE\n");
    let resp = BinaryResponse { seq: 1, opcode: BinaryOpcode::Shutdown.code(), status: Status::Success, values: [0; 8] };
    assert!(response_requests_shutdown(&resp));
    let other = BinaryResponse { seq: 1, opcode: BinaryOpcode::Ping.code(), status: Status::Success, values: [0; 8] };
    assert!(!response_requests_shutdown(&other));
}

#[test]
fn ffi_views_copy_fields() {
    let r = DsapiRouteResult::from_route(RouteResult { decision: Decision::Block, region_id: 9 });
    assert_eq!(r.region_id, 9);
    assert_eq!(r.decision, 1);
    let s = DsapiRenderStats::from_stats(RenderStats {
        frame_seq: 5,
        draw_calls: 2,
        frost_passes: 1,
        text_calls: 3,
    });
    assert_eq!(s.frame_seq, 5);
    assert_eq!(s.text_calls, 3);
    let cpu = filter_runtime_info(None);
    assert_eq!(cpu.backend_kind, FILTER_BACKEND_CPU);
    assert_eq!(filter_runtime_info(Some(true)).backend_kind, FILTER_BACKEND_VULKAN);
}

#[test]
fn take_frame_gives_pending_and_resets() {
    let mut t = TouchTracker::new();
    let ev = |event_type: u16, code: u16, value: i32| InputRecord { event_type, code, value };
    assert!(!t.on_event(ev(EV_ABS, ABS_MT_TRACKING_ID, 4), 10));
    assert!(!t.on_event(ev(EV_ABS, ABS_MT_POSITION_X, 100), 11));
    assert!(t.on_event(ev(EV_SYN, SYN_REPORT, 0), 12));
    let frame = t.take_frame();
    assert_eq!(frame.len(), 1);
    assert_eq!(frame[0].0, 0);
    assert_eq!(frame[0].1.pointer_id, 4);
    assert_eq!(frame[0].1.raw_x, 100);
    assert_eq!(frame[0].1.event_time_us, 11);
    assert!(t.take_frame().is_empty());
}

#[test]
fn header_line_collects_until_newline() {
    let mut h = HeaderLine::new();
    h.push_chunk(b"OK SHM_BO").expect("chunk");
    assert!(!h.done);
    h.push_chunk(b"UND 64 0\r\nignored").expect("chunk");
    assert!(h.done);
    assert_eq!(h.bytes, b"OK SHM_BOUND 64 0".to_vec());
}

#[test]
fn header_line_refuses_long_lines() {
    let mut h = HeaderLine::new();
    let long = vec![b'a'; 5000];
    let err = h.push_chunk(&long).expect_err("too long");
    assert_eq!(err.code, 4);
    assert_eq!(err.message, "frame_pull_error=header_too_long");
}

#[test]
fn recv_steps_and_layout() {
    let mut h = HeaderLine::new();
    match recv_step(0, &h, "", true, false) {
        RecvStep::Fail(e) => assert_eq!(e.message, "frame_pull_error=header_eof"),
        other => panic!("unexpected {:?}", other),
    }
    h.push_chunk(b"OK\n").unwrap();
    assert_eq!(recv_step(3, &h, "OK", true, false), RecvStep::More);
    assert_eq!(recv_step(3, &h, "OK", true, true), RecvStep::Done);
    match recv_step(0, &h, "OK", true, false) {
        RecvStep::Fail(e) => {
            assert_eq!(e.code, 5);
            assert_eq!(e.message, "frame_pull_error=bind_missing_fd line='OK'");
        }
        other => panic!("unexpected {:?}", other),
    }
    assert_eq!(bind_map_len(64, 16).unwrap(), 80);
    assert_eq!(bind_map_len(usize::MAX, 1).unwrap_err().code, 6);
    assert_eq!(wait_request_line(250), "RENDER_FRAME_WAIT_SHM_PRESENT 0 250");
    let args: Vec<String> = vec!["p".into(), " /tmp/d.sock ".into(), "out.rgba".into()];
    assert_eq!(framepull_args(&args), Some(("/tmp/d.sock".to_string(), "out.rgba".to_string())));
    let blank: Vec<String> = vec!["p".into(), "  ".into(), "out".into()];
    assert_eq!(framepull_args(&blank), None);
}

#[test]
fn region_arguments_split_into_fields() {
    let (id, d, g) = parse_region_fields("rect:block:7:0:0:100.5:50").expect("region");
    assert_eq!(id, 7);
    assert_eq!(d, Decision::Block);
    assert_eq!(g, vec!["0".to_string(), "0".to_string(), "100.5".to_string(), "50".to_string()]);
    assert_eq!(parse_region_fields("rect:pass:-1:1:2:3:4").unwrap().1, Decision::Pass);
    assert_eq!(parse_region_fields("rect:maybe:1:0:0:1:1").unwrap_err(), Status::InvalidArgument);
    assert_eq!(parse_region_fields("rect:pass:x:0:0:1:1").unwrap_err(), Status::InvalidArgument);
    assert_eq!(parse_region_fields("rect:pass:1:0:0:1").unwrap_err(), Status::InvalidArgument);
    assert_eq!(parse_region_fields("circle:pass:1:0:0:1:1").unwrap_err(), Status::InvalidArgument);
}

#[test]
fn stream_arguments() {
    let a = |w: &[&str]| {
        let mut v = vec!["dsapistream".to_string()];
        v.extend(w.iter().map(|s| s.to_string()));
        v
    };
    assert_eq!(parse_stream_args(&a(&[])), Some(("artifacts/run/dsapi.sock".to_string(), false)));
    assert_eq!(parse_stream_args(&a(&["--quiet", "--control-socket", "/tmp/c.sock"])), Some(("/tmp/c.sock".to_string(), true)));
    assert_eq!(parse_stream_args(&a(&["--control-socket"])), None);
    assert_eq!(parse_stream_args(&a(&["--verbose"])), None);
}

#[test]
fn hw_buffer_window_checks() {
    let d = DsapiHwBufferDesc { width: 2, height: 2, stride: 2, format: 1, usage: 0, byte_offset: 4, byte_len: 32 };
    assert_eq!(d.frame_window(3), Ok((32, 4, 16)));
    assert_eq!(d.frame_window(-1), Err(Status::InvalidArgument));
    assert_eq!(DsapiHwBufferDesc { format: 2, ..d }.frame_window(3), Err(Status::InvalidArgument));
    assert_eq!(DsapiHwBufferDesc { stride: 0, ..d }.frame_window(3), Err(Status::InvalidArgument));
    assert_eq!(DsapiHwBufferDesc { byte_len: 0, ..d }.frame_window(3), Err(Status::OutOfRange));
    assert_eq!(DsapiHwBufferDesc { byte_offset: 32, ..d }.frame_window(3), Err(Status::InvalidArgument));
    assert_eq!(DsapiHwBufferDesc { byte_offset: 20, ..d }.frame_window(3), Err(Status::InvalidArgument));
    assert_eq!(DsapiHwBufferDesc { byte_len: 70_000_000, ..d }.frame_window(3), Err(Status::OutOfRange));
}

#[test]
fn submit_reply_checks() {
    assert_eq!(check_submit_reply("OK 9 2 1 RGBA8888 8 123", 2, 1, 8).unwrap(), 9);
    let e = check_submit_reply("OK 9 2 1 RGBA8888 8", 2, 1, 8).unwrap_err();
    assert_eq!(e.to_string(), "protocol_error: RENDER_FRAME_SUBMIT_RGBA_RAW_bad_token_count:5 line=OK 9 2 1 RGBA8888 8");
    let e = check_submit_reply("OK 9 2 1 BGRA 8 1", 2, 1, 8).unwrap_err();
    assert_eq!(e.to_string(), "protocol_error: RENDER_FRAME_SUBMIT_RGBA_RAW_bad_pixel_format:OK 9 2 1 BGRA 8 1");
    let e = check_submit_reply("OK x 2 1 RGBA8888 8 1", 2, 1, 8).unwrap_err();
    assert_eq!(e.to_string(), "parse_error: invalid_frame_seq:x");
    let e = check_submit_reply("OK 9 3 1 RGBA8888 12 1", 2, 1, 8).unwrap_err();
    assert_eq!(e.to_string(), "protocol_error: submit_frame_response_size_mismatch line=OK 9 3 1 RGBA8888 12 1");
    let e = check_submit_reply("OK 9 2 1 RGBA8888 4 1", 2, 1, 8).unwrap_err();
    assert_eq!(e.to_string(), "protocol_error: submit_frame_response_len_mismatch line=OK 9 2 1 RGBA8888 4 1");
    let e = check_submit_reply("ERR BUSY", 2, 1, 8).unwrap_err();
    assert_eq!(e.to_string(), "protocol_error: ERR BUSY");
}

#[test]
fn shared_buffer_spans_must_fit() {
    assert!(span_fits(0, 100, 100));
    assert!(span_fits(40, 60, 100));
    assert!(!span_fits(41, 60, 100));
    assert!(!span_fits(0, 101, 100));
    assert!(!span_fits(usize::MAX, 2, usize::MAX));
}
