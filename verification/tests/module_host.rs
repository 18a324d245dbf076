use directscreen_core::api::Status;
use directscreen_core::module_files::{
    action_entries, disk_module, format_env_values, main_cap_index, module_env_items, parse_env_values,
};
use directscreen_core::module_files::EnvValue;
use directscreen_core::module_registry::{ModuleErrorRecord, ModuleRecord, ModuleState};
use directscreen_core::module_runtime::{
    ExecOutput, ModuleRuntime, ModuleRuntimeConfig, ModuleRuntimeRpcError,
};
use directscreen_core::module_session::{HostAction, HostEvent, ModuleProbe, RpcOutcome};

#[derive(Clone)]
struct FakeModule {
    id: String,
    disabled: bool,
    meta: Option<String>,
    actions: Vec<(String, String)>,
    caps: Vec<(String, String)>,
    env_spec: Option<String>,
    env_values: Option<String>,
    pid: Option<String>,
    exit_code: i32,
    stdout: String,
}

fn module(id: &str) -> FakeModule {
    FakeModule {
        id: id.to_string(),
        disabled: false,
        meta: None,
        actions: Vec::new(),
        caps: Vec::new(),
        env_spec: None,
        env_values: None,
        pid: None,
        exit_code: 0,
        stdout: String::new(),
    }
}

struct FakeHost {
    modules: Vec<FakeModule>,
    ran: Vec<String>,
}

impl FakeHost {
    fn find(&mut self, id: &str) -> Option<&mut FakeModule> {
        self.modules.iter_mut().find(|m| m.id == id)
    }

    fn perform(&mut self, action: &HostAction) -> HostEvent {
        match action {
            HostAction::ScanDisk => HostEvent::Scanned(Some(
                self.modules
                    .iter()
                    .map(|m| disk_module(&m.id, m.meta.as_deref(), m.actions.len(), m.disabled))
                    .collect(),
            )),
            HostAction::Probe { module_id } => {
                let probe = match self.find(module_id) {
                    Some(m) => ModuleProbe {
                        dir_exists: true,
                        disabled: m.disabled,
                        meta_text: m.meta.clone(),
                        actions: m.actions.clone(),
                        caps: m.caps.clone(),
                        env_spec: m.env_spec.clone(),
                        env_values: m.env_values.clone(),
                        pid: m.pid.clone(),
                    },
                    None => ModuleProbe {
                        dir_exists: false,
                        disabled: false,
                        meta_text: None,
                        actions: Vec::new(),
                        caps: Vec::new(),
                        env_spec: None,
                        env_values: None,
                        pid: None,
                    },
                };
                HostEvent::Probed(probe)
            }
            HostAction::RunAction { module_id, action_id } => {
                self.ran.push(format!("{}:{}", module_id, action_id));
                let m = self.find(module_id).expect("module");
                HostEvent::Ran(Some(ExecOutput {
                    code: m.exit_code,
                    stdout: m.stdout.clone(),
                    stderr: String::new(),
                    timed_out: false,
                }))
            }
            HostAction::RunCap { module_id, cap_stem, func } => {
                self.ran.push(format!("{}:{}:{}", module_id, cap_stem, func));
                let m = self.find(module_id).expect("module");
                HostEvent::Ran(Some(ExecOutput {
                    code: m.exit_code,
                    stdout: m.stdout.clone(),
                    stderr: String::new(),
                    timed_out: false,
                }))
            }
            HostAction::WriteDisabledFlag { module_id } => {
                self.find(module_id).expect("module").disabled = true;
                HostEvent::Wrote(true)
            }
            HostAction::RemoveDisabledFlag { module_id } => {
                self.find(module_id).expect("module").disabled = false;
                HostEvent::Wrote(true)
            }
            HostAction::RemoveModuleFiles { module_id } => {
                self.modules.retain(|m| &m.id != module_id);
                HostEvent::Wrote(true)
            }
            HostAction::WriteEnvValues { module_id, text } => {
                self.find(module_id).expect("module").env_values = Some(text.clone());
                HostEvent::Wrote(true)
            }
        }
    }
}

fn runtime() -> ModuleRuntime {
    ModuleRuntime::new(ModuleRuntimeConfig::under("/data/adb/dsapi"))
}

fn serve(
    rt: &mut ModuleRuntime,
    host: &mut FakeHost,
    request: &str,
) -> (Result<String, ModuleRuntimeRpcError>, bool) {
    let mut events: Vec<HostEvent> = Vec::new();
    loop {
        let mut attempt = rt.clone();
        match attempt.handle_rpc(request, 0, &events, 1000) {
            RpcOutcome::Need(action) => {
                let ev = host.perform(&action);
                events.push(ev);
            }
            RpcOutcome::Done { reply, save } => {
                *rt = attempt;
                return (reply, save);
            }
        }
    }
}

fn ok(r: (Result<String, ModuleRuntimeRpcError>, bool)) -> String {
    match r.0 {
        Ok(s) => s,
        Err(e) => panic!("unexpected error {:?}", e),
    }
}

fn err(r: (Result<String, ModuleRuntimeRpcError>, bool)) -> ModuleRuntimeRpcError {
    match r.0 {
        Ok(s) => panic!("unexpected reply {}", s),
        Err(e) => e,
    }
}

#[test]
fn empty_request_is_refused_without_host_work() {
    let mut rt = runtime();
    let out = rt.handle_rpc("   ", 0, &Vec::new(), 1);
    match out {
        RpcOutcome::Done { reply: Err(e), save } => {
            assert_eq!(e.status, Status::InvalidArgument);
            assert_eq!(e.body, "ksu_dsapi_error=module_rpc_empty");
            assert!(!save);
        }
        other => panic!("unexpected {:?}", other),
    }
}

#[test]
fn first_step_scans_disk() {
    let mut rt = runtime();
    match rt.handle_rpc("MODULE_SYNC", 0, &Vec::new(), 1) {
        RpcOutcome::Need(a) => assert_eq!(a, HostAction::ScanDisk),
        other => panic!("unexpected {:?}", other),
    }
    let out = rt.handle_rpc("MODULE_SYNC", 0, &vec![HostEvent::Scanned(None)], 1);
    match out {
        RpcOutcome::Done { reply: Err(e), save } => {
            assert_eq!(e.body, "ksu_dsapi_error=module_sync_failed");
            assert!(!save);
        }
        other => panic!("unexpected {:?}", other),
    }
}

#[test]
fn sync_counts_modules_on_disk() {
    let mut rt = runtime();
    let mut host = FakeHost { modules: vec![module("demo")], ran: Vec::new() };
    let line = ok(serve(&mut rt, &mut host, "module_sync"));
    assert_eq!(line, "module_action=synced total=1 event_seq=1");
    assert_eq!(rt.count(), 1);
}

#[test]
fn unknown_command_is_reported_after_sync() {
    let mut rt = runtime();
    let mut host = FakeHost { modules: vec![module("demo")], ran: Vec::new() };
    let (reply, save) = serve(&mut rt, &mut host, "MODULE_FLY demo");
    let e = reply.expect_err("unknown");
    assert!(e.body.contains("module_rpc_unknown_command"));
    assert!(save);
    assert_eq!(rt.count(), 1);
}

#[test]
fn start_runs_start_action_and_takes_reported_state() {
    let mut rt = runtime();
    let mut m = module("demo");
    m.actions.push(("start".to_string(), "echo start".to_string()));
    m.stdout = "state=running reason=up".to_string();
    let mut host = FakeHost { modules: vec![m], ran: Vec::new() };
    let line = ok(serve(&mut rt, &mut host, "MODULE_START demo"));
    assert_eq!(line, "module_action=started id=demo package=* user=0");
    assert_eq!(host.ran, vec!["demo:start".to_string()]);
    let rec = rt.get("demo").expect("record");
    assert_eq!(rec.state, ModuleState::Running);
    assert_eq!(rec.reason, "up");
}

#[test]
fn start_falls_back_to_main_capability() {
    let mut rt = runtime();
    let mut m = module("demo");
    m.meta = Some("MAIN_CAP_ID=main\n".to_string());
    m.caps.push(("b".to_string(), "CAP_ID=main\n".to_string()));
    m.caps.push(("a".to_string(), "CAP_ID=other\n".to_string()));
    let mut host = FakeHost { modules: vec![m], ran: Vec::new() };
    ok(serve(&mut rt, &mut host, "MODULE_START demo"));
    assert_eq!(host.ran, vec!["demo:b:cap_start".to_string()]);
    assert_eq!(rt.get("demo").unwrap().state, ModuleState::Ready);
}

#[test]
fn failed_start_marks_error() {
    let mut rt = runtime();
    let mut m = module("demo");
    m.actions.push(("start".to_string(), String::new()));
    m.exit_code = 3;
    let mut host = FakeHost { modules: vec![m], ran: Vec::new() };
    let e = err(serve(&mut rt, &mut host, "MODULE_START demo"));
    assert_eq!(e.status, Status::InternalError);
    assert_eq!(e.body, "ksu_dsapi_error=module_start_failed");
    let rec = rt.get("demo").unwrap();
    assert_eq!(rec.state, ModuleState::Error);
    assert_eq!(rec.reason, "action_failed");
}

#[test]
fn start_without_script_needs_main_capability() {
    let mut rt = runtime();
    let mut host = FakeHost { modules: vec![module("demo")], ran: Vec::new() };
    let e = err(serve(&mut rt, &mut host, "MODULE_START demo"));
    assert_eq!(e.body, "ksu_dsapi_error=main_cap_missing");
}

#[test]
fn disabled_module_does_not_start() {
    let mut rt = runtime();
    let mut m = module("demo");
    m.disabled = true;
    m.actions.push(("start".to_string(), String::new()));
    let mut host = FakeHost { modules: vec![m], ran: Vec::new() };
    let e = err(serve(&mut rt, &mut host, "MODULE_START demo"));
    assert_eq!(e.body, "ksu_dsapi_error=module_disabled");
    assert!(host.ran.is_empty());
}

#[test]
fn disable_then_enable_round_trip() {
    let mut rt = runtime();
    let mut m = module("demo");
    m.actions.push(("stop".to_string(), String::new()));
    let mut host = FakeHost { modules: vec![m], ran: Vec::new() };
    assert_eq!(ok(serve(&mut rt, &mut host, "MODULE_DISABLE demo")), "module_action=disabled id=demo");
    assert!(host.modules[0].disabled);
    let rec = rt.get("demo").unwrap();
    assert!(!rec.enabled);
    assert_eq!(rec.state, ModuleState::Disabled);
    assert_eq!(ok(serve(&mut rt, &mut host, "MODULE_ENABLE demo")), "module_action=enabled id=demo");
    let rec = rt.get("demo").unwrap();
    assert!(rec.enabled);
    assert_eq!(rec.state, ModuleState::Installed);
}

#[test]
fn env_set_keeps_values_in_key_order() {
    let mut rt = runtime();
    let mut m = module("demo");
    m.env_values = Some("B=2\nA=1\n".to_string());
    let mut host = FakeHost { modules: vec![m], ran: Vec::new() };
    let line = ok(serve(&mut rt, &mut host, "MODULE_ENV_SET demo C x y"));
    assert_eq!(line, "module_env=updated id=demo key=C");
    assert_eq!(host.modules[0].env_values.as_deref(), Some("A=1\nB=2\nC=x y\n"));
    let line = ok(serve(&mut rt, &mut host, "MODULE_ENV_UNSET demo A"));
    assert_eq!(line, "module_env=unset id=demo key=A");
    assert_eq!(host.modules[0].env_values.as_deref(), Some("B=2\nC=x y\n"));
    let e = err(serve(&mut rt, &mut host, "MODULE_ENV_SET demo bad v"));
    assert_eq!(e.body, "ksu_dsapi_error=module_env_key_invalid");
}

#[test]
fn action_list_rows_in_id_order() {
    let mut rt = runtime();
    let mut m = module("demo");
    m.actions.push(("zeta".to_string(), "ACTION_NAME=\"Zed\"\n".to_string()));
    m.actions.push(("alpha".to_string(), "ACTION_DANGER=yes\n".to_string()));
    let mut host = FakeHost { modules: vec![m], ran: Vec::new() };
    let text = ok(serve(&mut rt, &mut host, "MODULE_ACTION_LIST demo"));
    assert_eq!(text, "module_action_row=alpha|alpha|1\nmodule_action_row=zeta|Zed|0");
}

#[test]
fn action_run_reports_output_and_failures() {
    let mut rt = runtime();
    let mut m = module("demo");
    m.actions.push(("hello".to_string(), String::new()));
    m.stdout = "hi there  \n".to_string();
    let mut host = FakeHost { modules: vec![m], ran: Vec::new() };
    let text = ok(serve(&mut rt, &mut host, "MODULE_ACTION_RUN demo hello"));
    assert_eq!(text, "hi there\nmodule_action=ran id=demo action=hello package=* user=0");
    let e = err(serve(&mut rt, &mut host, "MODULE_ACTION_RUN demo nope"));
    assert_eq!(e.body, "ksu_dsapi_error=module_action_missing id=demo action=nope");
    host.modules[0].exit_code = 2;
    let e = err(serve(&mut rt, &mut host, "MODULE_ACTION_RUN demo hello"));
    assert_eq!(e.body, "ksu_dsapi_error=module_action_failed id=demo action=hello exit=2");
}

#[test]
fn status_shows_pid_and_record() {
    let mut rt = runtime();
    let mut m = module("demo");
    m.pid = Some(" 1234\n".to_string());
    let mut host = FakeHost { modules: vec![m], ran: Vec::new() };
    let text = ok(serve(&mut rt, &mut host, "MODULE_STATUS demo"));
    assert_eq!(
        text,
        "module_status id=demo state=installed pid=1234 reason=- enabled=1 main_cap="
    );
}

#[test]
fn list_gives_one_row_per_module() {
    let mut rt = runtime();
    let mut a = module("alpha");
    a.meta = Some("MODULE_NAME=\"Alpha Mod\"\nMODULE_VERSION=2\n".to_string());
    a.actions.push(("x".to_string(), String::new()));
    let b = module("beta");
    let mut host = FakeHost { modules: vec![b, a], ran: Vec::new() };
    let text = ok(serve(&mut rt, &mut host, "MODULE_LIST"));
    assert_eq!(
        text,
        "module_row=alpha|Alpha Mod|module|2|installed|1||1|-\nmodule_row=beta|beta|module|0|installed|1||0|-"
    );
}

#[test]
fn scope_rule_denies_start() {
    let mut rt = runtime();
    let mut m = module("demo");
    m.actions.push(("start".to_string(), String::new()));
    let mut host = FakeHost { modules: vec![m], ran: Vec::new() };
    let line = ok(serve(&mut rt, &mut host, "MODULE_SCOPE_SET demo com.app 0 deny"));
    assert_eq!(line, "module_scope=updated id=demo package=com.app user=0 policy=deny");
    let e = err(serve(&mut rt, &mut host, "MODULE_START demo com.app 0"));
    assert!(e.body.starts_with("ksu_dsapi_error=scope_denied"));
    assert!(host.ran.is_empty());
    let ok_line = ok(serve(&mut rt, &mut host, "MODULE_START demo com.other 0"));
    assert_eq!(ok_line, "module_action=started id=demo package=com.other user=0");
}

#[test]
fn reload_all_counts_failures() {
    let mut rt = runtime();
    let mut a = module("alpha");
    a.actions.push(("start".to_string(), String::new()));
    a.actions.push(("stop".to_string(), String::new()));
    let mut b = module("beta");
    b.actions.push(("start".to_string(), String::new()));
    b.actions.push(("stop".to_string(), String::new()));
    b.exit_code = 1;
    let mut host = FakeHost { modules: vec![a, b], ran: Vec::new() };
    let e = err(serve(&mut rt, &mut host, "MODULE_RELOAD_ALL"));
    assert_eq!(e.status, Status::InternalError);
    assert_eq!(e.body, "module_action=reloaded_all total=2 failed=1 failed_ids=beta");
}

#[test]
fn remove_forgets_module() {
    let mut rt = runtime();
    let mut host = FakeHost { modules: vec![module("demo")], ran: Vec::new() };
    let line = ok(serve(&mut rt, &mut host, "MODULE_REMOVE demo"));
    assert_eq!(line, "module_action=removed id=demo");
    assert!(rt.get("demo").is_none());
    assert!(host.modules.is_empty());
}

#[test]
fn detail_lists_head_actions_and_env() {
    let mut rt = runtime();
    let mut m = module("demo");
    m.meta = Some("MODULE_DESC=A demo\n".to_string());
    m.actions.push(("go".to_string(), String::new()));
    m.env_spec = Some("# comment\nLEVEL|3|int|Level|How much\nbad|x\n".to_string());
    m.env_values = Some("LEVEL=5\n".to_string());
    let mut host = FakeHost { modules: vec![m], ran: Vec::new() };
    let text = ok(serve(&mut rt, &mut host, "MODULE_DETAIL demo"));
    assert_eq!(
        text,
        "id=demo\nname=demo\nkind=module\nversion=0\ndesc=A demo\n\
status=state=installed pid=- reason=- enabled=1 main_cap=\n\
module_action_row=go|go|0\nmodule_env_row=LEVEL|5|3|int|Level|How much"
    );
}

#[test]
fn env_values_parse_and_format() {
    let values = parse_env_values("B = 2\nbad=1\nA=1\nno equals\nB=3\n");
    assert_eq!(format_env_values(&values), "A=1\nB=3\n");
    let items = module_env_items("KEY\n", &values);
    assert_eq!(items.len(), 1);
    assert_eq!(items[0].value_type, "text");
    assert_eq!(items[0].label, "KEY");
    assert_eq!(items[0].desc, "-");
    assert_eq!(items[0].value, "");
}

#[test]
fn action_entries_skip_invalid_ids() {
    let scripts = vec![
        ("b".to_string(), "ACTION_NAME='Bee'\nACTION_NAME=Second\n".to_string()),
        ("bad id".to_string(), String::new()),
        ("a".to_string(), "ACTION_DANGER=\"on\"\n".to_string()),
    ];
    let entries = action_entries(&scripts);
    assert_eq!(entries.len(), 2);
    assert_eq!((entries[0].id.as_str(), entries[0].danger), ("a", true));
    assert_eq!((entries[1].id.as_str(), entries[1].name.as_str()), ("b", "Second"));
}

#[test]
fn main_cap_prefers_first_file_name() {
    let caps = vec![
        ("z".to_string(), String::new()),
        ("m".to_string(), "CAP_ID=main\n".to_string()),
        ("c".to_string(), "CAP_ID=main\n".to_string()),
    ];
    assert_eq!(main_cap_index("", &caps), Some(2));
    assert_eq!(main_cap_index("main", &caps), Some(2));
    assert_eq!(main_cap_index("z", &caps), Some(0));
    assert_eq!(main_cap_index("none", &caps), None);
}

#[test]
fn env_values_written_read_back() {
    let values = vec![
        EnvValue { key: "ALPHA".to_string(), value: "x=y".to_string() },
        EnvValue { key: "BETA_2".to_string(), value: String::new() },
    ];
    let text = format_env_values(&values);
    assert_eq!(text, "ALPHA=x=y\nBETA_2=\n");
    let back = parse_env_values(&text);
    assert_eq!(back, values);
}

#[test]
fn registry_file_written_read_back() {
    let mut rt = runtime();
    let mut a = ModuleRecord::new("demo.a");
    a.name = "Demo\tA\\".to_string();
    a.state = ModuleState::Running;
    a.reason = "line\nbreak".to_string();
    a.action_count = 7;
    a.auto_start = true;
    a.last_error = Some(ModuleErrorRecord::new_at("start", "E_X", "failed", "exit 3", 99));
    rt.upsert(a).expect("upsert a");
    let mut b = ModuleRecord::new("demo.b");
    b.enabled = false;
    b.state = ModuleState::Disabled;
    rt.upsert(b).expect("upsert b");
    rt.set_last_error(ModuleErrorRecord::new_at("rpc", "E_Y", "bad", "-", 5));
    let text = rt.registry_file_text();

    let mut back = runtime();
    back.load_registry_text(&text, 1234);
    let la = back.get("demo.a").expect("a back");
    assert_eq!(la.name, "Demo\tA\\");
    assert_eq!(la.state, ModuleState::Running);
    assert_eq!(la.reason, "line\nbreak");
    assert_eq!(la.action_count, 7);
    assert!(la.auto_start);
    assert_eq!(la.updated_at_ms, 1234);
    let e = la.last_error.expect("error back");
    assert_eq!((e.scope.as_str(), e.code.as_str(), e.message.as_str(), e.detail.as_str(), e.ts_ms), ("start", "E_X", "failed", "exit 3", 99));
    let lb = back.get("demo.b").expect("b back");
    assert!(!lb.enabled);
    assert_eq!(lb.state, ModuleState::Disabled);
    assert!(lb.last_error.is_none());
    let le = back.last_error().expect("last error back");
    assert_eq!(le.code, "E_Y");
    assert_eq!(le.detail, "-");
    assert_eq!(back.count(), 2);
}

#[test]
fn scope_file_written_read_back() {
    let mut rt = runtime();
    rt.scope_set("demo.a", true, "com.example", 10, false).expect("scope a");
    rt.scope_set("demo.a", true, "*", -1, true).expect("scope a wildcard");
    rt.scope_set("demo.b", true, "com.other", 0, true).expect("scope b");
    let text = rt.scope_file_text();

    let mut back = runtime();
    back.load_scope_text(&text);
    assert_eq!(back.scope_file_text(), text);
    assert_eq!(back.scope_list_lines(Some("demo.a")), rt.scope_list_lines(Some("demo.a")));
    assert_eq!(back.scope_list_lines(None), rt.scope_list_lines(None));
}

#[test]
fn fresh_runtime_sync_reply() {
    let mut rt = runtime();
    let mut host = FakeHost { modules: Vec::new(), ran: Vec::new() };
    let line = ok(serve(&mut rt, &mut host, "module_sync"));
    assert_eq!(line, "module_action=synced total=0 event_seq=0");
}

#[test]
fn missing_module_id_runs_nothing() {
    let mut rt = runtime();
    let mut host = FakeHost { modules: vec![module("demo")], ran: Vec::new() };
    for request in ["MODULE_STOP", "MODULE_DISABLE demo extra", "MODULE_START", "MODULE_RELOAD"] {
        let e = err(serve(&mut rt, &mut host, request));
        assert_eq!(e.status, Status::InvalidArgument);
        assert_eq!(e.body, "ksu_dsapi_error=module_id_missing");
    }
    assert!(host.ran.is_empty());
    assert!(rt.get("demo").unwrap().enabled);
}

#[test]
fn reload_all_counts_reloaded_modules() {
    let mut rt = runtime();
    let mut alpha = module("alpha");
    alpha.actions = vec![("start".to_string(), String::new()), ("stop".to_string(), String::new())];
    let beta = module("beta");
    let mut host = FakeHost { modules: vec![alpha, beta], ran: Vec::new() };
    let e = err(serve(&mut rt, &mut host, "MODULE_RELOAD_ALL"));
    assert_eq!(e.status, Status::InternalError);
    assert_eq!(e.body, "module_action=reloaded_all total=2 failed=1 failed_ids=beta");
}

#[test]
fn start_of_disabled_module_keeps_it_disabled() {
    let mut rt = runtime();
    let mut m = module("demo");
    m.actions.push(("start".to_string(), String::new()));
    m.actions.push(("stop".to_string(), String::new()));
    let mut host = FakeHost { modules: vec![m], ran: Vec::new() };
    assert_eq!(ok(serve(&mut rt, &mut host, "MODULE_DISABLE demo")), "module_action=disabled id=demo");
    let ran_before = host.ran.len();
    let e = err(serve(&mut rt, &mut host, "MODULE_START demo"));
    assert_eq!(e.status, Status::InvalidArgument);
    assert_eq!(e.body, "ksu_dsapi_error=module_disabled");
    assert_eq!(host.ran.len(), ran_before);
    let rec = rt.get("demo").unwrap();
    assert!(!rec.enabled);
    assert_eq!(rec.state, ModuleState::Disabled);
    assert_eq!(rec.last_error.unwrap().code, "E_MODULE_DISABLED");
    let last = rt.last_error().unwrap();
    assert_eq!(last.code, "E_MODULE_DISABLED");
    assert_eq!(last.detail, "op=start");
}

#[test]
fn scope_set_again_keeps_one_row_with_last_policy() {
    let mut rt = runtime();
    let mut host = FakeHost { modules: vec![module("demo")], ran: Vec::new() };
    ok(serve(&mut rt, &mut host, "MODULE_SCOPE_SET demo com.other 5 allow"));
    ok(serve(&mut rt, &mut host, "MODULE_SCOPE_SET demo com.app 0 allow"));
    ok(serve(&mut rt, &mut host, "MODULE_SCOPE_SET demo com.app 0 deny"));
    let text = ok(serve(&mut rt, &mut host, "MODULE_SCOPE_LIST demo"));
    let rows: Vec<&str> = text.lines().filter(|l| l.starts_with("module_scope_row=demo|com.app|0|")).collect();
    assert_eq!(rows, vec!["module_scope_row=demo|com.app|0|deny"]);
    assert_eq!(
        text,
        "module_scope_row=demo|com.other|5|allow\nmodule_scope_row=demo|com.app|0|deny"
    );
}
