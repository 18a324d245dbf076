use directscreen_core::client::{expected_rgba_len, parse_ok_tokens};
use directscreen_core::daemon::parse_worker_command;
use directscreen_core::module_registry::ModuleState;
use directscreen_core::module_runtime::{env_key_valid, parse_module_state, parse_scope_allow};
use directscreen_core::pixels::FILTER_PASS_KIND_GAUSSIAN;

#[test]
fn gaussian_pass_kind_constant_stable() {
    assert_eq!(FILTER_PASS_KIND_GAUSSIAN, 1);
}

#[test]
fn parse_worker_command_accepts_simple_command() {
    let cmd = parse_worker_command("./scripts/dsapi.sh presenter run").expect("parse");
    assert_eq!(cmd.program, "./scripts/dsapi.sh");
    assert_eq!(cmd.args, vec!["presenter".to_string(), "run".to_string()]);
}

#[test]
fn parse_worker_command_rejects_shell_meta() {
    let err = parse_worker_command("echo ok; id").expect_err("must reject");
    assert!(err.contains("shell_meta"));
}

#[test]
fn parse_ok_tokens_parses_payload() {
    let tokens = parse_ok_tokens("OK 1 2 3").expect("parse ok tokens");
    assert_eq!(tokens, vec!["1", "2", "3"]);
}

#[test]
fn parse_ok_tokens_rejects_error_line() {
    let err = parse_ok_tokens("ERR INVALID_ARGUMENT").expect_err("should fail");
    assert_eq!(err.to_string(), "protocol_error: ERR INVALID_ARGUMENT");
}

#[test]
fn expected_rgba_len_computes_bytes() {
    let len = expected_rgba_len(2, 3).expect("len");
    assert_eq!(len, 24);
}

#[test]
fn expected_rgba_len_rejects_overflow() {
    let err = expected_rgba_len(u32::MAX, u32::MAX).expect_err("must overflow");
    assert_eq!(err.to_string(), "parse_error: frame_size_overflow");
}

#[test]
fn parse_scope_allow_values() {
    assert_eq!(parse_scope_allow("allow"), Some(true));
    assert_eq!(parse_scope_allow("deny"), Some(false));
    assert_eq!(parse_scope_allow("1"), Some(true));
    assert_eq!(parse_scope_allow("0"), Some(false));
    assert_eq!(parse_scope_allow("x"), None);
}

#[test]
fn module_state_parse_roundtrip() {
    assert_eq!(parse_module_state("ready"), Some(ModuleState::Ready));
    assert_eq!(parse_module_state("running"), Some(ModuleState::Running));
    assert_eq!(parse_module_state("none"), None);
}

#[test]
fn env_key_validation() {
    assert!(env_key_valid("ABC"));
    assert!(env_key_valid("A1_B"));
    assert!(!env_key_valid("a1"));
    assert!(!env_key_valid("1A"));
}
