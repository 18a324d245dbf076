use directscreen_core::api::Status;
use directscreen_core::daemon::{
    apply_touch_packet, backoff_delay, try_acquire_connection, TOUCH_PACKET_BYTES,
    TOUCH_PACKET_CLEAR, TOUCH_PACKET_DOWN, TOUCH_PACKET_MOVE, TOUCH_PACKET_UP,
};
use directscreen_core::daemon_config::{
    parse_allowed_uids, parse_auth_permissive, parse_daemon_config, DaemonEnv,
};
use directscreen_core::engine::RuntimeEngine;
use directscreen_core::frame_requests::{
    parse_frame_bind_shm_request, parse_frame_submit_shm_request,
    parse_frame_wait_shm_present_request,
};

fn touch_packet(kind: u8, pointer_id: i32, x: f32, y: f32) -> [u8; TOUCH_PACKET_BYTES] {
    let mut out = [0u8; TOUCH_PACKET_BYTES];
    out[0] = kind;
    out[4..8].copy_from_slice(&pointer_id.to_le_bytes());
    out[8..12].copy_from_slice(&x.to_le_bytes());
    out[12..16].copy_from_slice(&y.to_le_bytes());
    out
}

fn empty_env() -> DaemonEnv {
    DaemonEnv {
        control_socket_path: None,
        socket_path: None,
        data_socket_path: None,
        render_output_dir: None,
        supervise_presenter_cmd: None,
        supervise_input_cmd: None,
        supervise_restart_ms: None,
        max_connections: None,
        dispatch_workers: None,
        socket_rw_timeout_ms: None,
        command_max_bytes: None,
        available_parallelism: Some(4),
    }
}

fn no_hits(engine: &RuntimeEngine) -> Vec<bool> {
    vec![false; engine.regions().len()]
}

#[test]
fn parse_daemon_config_parses_supervise_fields() {
    let args = vec![
        "dsapid".to_string(),
        "--socket".to_string(),
        "/tmp/a.sock".to_string(),
        "--render-output-dir".to_string(),
        "/tmp/render".to_string(),
        "--supervise-presenter".to_string(),
        "echo presenter".to_string(),
        "--supervise-input".to_string(),
        "echo input".to_string(),
        "--supervise-restart-ms".to_string(),
        "777".to_string(),
        "--max-connections".to_string(),
        "321".to_string(),
        "--dispatch-workers".to_string(),
        "8".to_string(),
    ];
    let uids = parse_allowed_uids(None, &vec![1000]);
    let cfg = parse_daemon_config(&args, &empty_env(), uids, false).expect("parse daemon cfg");
    assert_eq!(cfg.control_socket_path, "/tmp/a.sock");
    assert_eq!(cfg.data_socket_path, "/tmp/a.data.sock");
    assert_eq!(cfg.render_output_dir, "/tmp/render");
    assert_eq!(cfg.supervise_presenter_cmd.as_deref(), Some("echo presenter"));
    assert_eq!(cfg.supervise_input_cmd.as_deref(), Some("echo input"));
    assert_eq!(cfg.supervise_restart_ms, 777);
    assert_eq!(cfg.max_connections, 321);
    assert_eq!(cfg.dispatch_workers, 8);
    assert!(!cfg.allowed_uids.is_empty());
}

#[test]
fn parse_daemon_config_rejects_unknown_arg() {
    let args = vec!["dsapid".to_string(), "--bad".to_string()];
    let uids = parse_allowed_uids(None, &vec![1000]);
    let err = parse_daemon_config(&args, &empty_env(), uids, false).expect_err("must fail");
    assert!(err.contains("unknown_arg"));
}

#[test]
fn parse_frame_bind_shm_request_accepts_header() {
    let out = parse_frame_bind_shm_request("RENDER_FRAME_BIND_SHM").expect("parse bind shm");
    assert!(out);
}

#[test]
fn parse_frame_bind_shm_request_rejects_extra_tokens() {
    let out = parse_frame_bind_shm_request("RENDER_FRAME_BIND_SHM x").expect_err("reject");
    assert_eq!(out, Status::InvalidArgument);
}

#[test]
fn parse_frame_wait_shm_present_request_accepts() {
    let out = parse_frame_wait_shm_present_request("RENDER_FRAME_WAIT_SHM_PRESENT 7 16")
        .expect("parse")
        .expect("request");
    assert_eq!(out.0, 7);
    assert_eq!(out.1, 16);
}

#[test]
fn parse_frame_wait_shm_present_request_rejects_extra_tokens() {
    let out = parse_frame_wait_shm_present_request("RENDER_FRAME_WAIT_SHM_PRESENT 7 16 x")
        .expect_err("reject");
    assert_eq!(out, Status::InvalidArgument);
}

#[test]
fn touch_stream_binary_packets_drive_touch_state() {
    let mut engine = RuntimeEngine::default();
    let h = no_hits(&engine);
    let _ = apply_touch_packet(&mut engine, &touch_packet(TOUCH_PACKET_DOWN, 7, 11.0, 22.0), &h);
    assert_eq!(engine.active_touch_count(), 1);

    let _ = apply_touch_packet(&mut engine, &touch_packet(TOUCH_PACKET_MOVE, 7, 12.0, 23.0), &h);
    assert_eq!(engine.active_touch_count(), 1);

    let _ = apply_touch_packet(&mut engine, &touch_packet(TOUCH_PACKET_UP, 7, 12.0, 23.0), &h);
    assert_eq!(engine.active_touch_count(), 0);
}

#[test]
fn touch_stream_clear_packet_resets_active_touches() {
    let mut engine = RuntimeEngine::default();
    let h = no_hits(&engine);
    let _ = apply_touch_packet(&mut engine, &touch_packet(TOUCH_PACKET_DOWN, 3, 1.0, 1.0), &h);
    assert_eq!(engine.active_touch_count(), 1);

    let _ = apply_touch_packet(&mut engine, &touch_packet(TOUCH_PACKET_CLEAR, 0, 0.0, 0.0), &h);
    assert_eq!(engine.active_touch_count(), 0);
}

#[test]
fn touch_packet_with_unknown_kind_is_rejected() {
    let mut engine = RuntimeEngine::default();
    let h = no_hits(&engine);
    let r = apply_touch_packet(&mut engine, &touch_packet(9, 1, 1.0, 1.0), &h);
    assert_eq!(r.err(), Some(Status::InvalidArgument));
    assert_eq!(engine.active_touch_count(), 0);
}

#[test]
fn allowed_uids_from_list_drop_repeats_and_blank_pieces() {
    let uids = parse_allowed_uids(Some(" 0, 2000,,0 "), &vec![1000]).expect("uids");
    assert_eq!(uids, vec![0, 2000]);
    let blank = parse_allowed_uids(Some("   "), &vec![1000]).expect("defaults");
    assert_eq!(blank, vec![1000]);
    let bad = parse_allowed_uids(Some("0,abc"), &vec![1000]).expect_err("invalid");
    assert_eq!(bad, "invalid_allowed_uid:abc");
    let empty = parse_allowed_uids(Some(",,"), &vec![1000]).expect_err("empty");
    assert_eq!(empty, "allowed_uids_empty");
}

#[test]
fn auth_permissive_words() {
    assert!(parse_auth_permissive(Some(" Yes "), false));
    assert!(!parse_auth_permissive(Some("off"), true));
    assert!(parse_auth_permissive(Some("maybe"), true));
    assert!(!parse_auth_permissive(None, false));
}

#[test]
fn daemon_config_defaults_derive_data_socket() {
    let args = vec!["dsapid".to_string(), "--control-socket".to_string(), "/run/x.sock".to_string()];
    let cfg = parse_daemon_config(&args, &empty_env(), Ok(vec![0]), true).expect("cfg");
    assert_eq!(cfg.data_socket_path, "/run/x.data.sock");
    assert!(cfg.auth_permissive);
}

#[test]
fn backoff_doubles_and_caps() {
    assert_eq!(backoff_delay(500, 0), 500);
    assert_eq!(backoff_delay(500, 1), 1000);
    assert_eq!(backoff_delay(500, 3), 4000);
}

#[test]
fn connection_limit_is_respected() {
    assert_eq!(try_acquire_connection(0, 2), Some(1));
    assert_eq!(try_acquire_connection(2, 2), None);
}

#[test]
fn frame_submit_shm_request_needs_fields() {
    assert!(parse_frame_submit_shm_request("RENDER_FRAME_SUBMIT_SHM").is_err());
}
