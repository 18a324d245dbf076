use directscreen_core::module_registry::{ModuleRecord, ModuleRegistry, ModuleState};

#[test]
fn upsert_and_list_keep_stable_order() {
    let mut reg = ModuleRegistry::default();

    let mut b = ModuleRecord::new("test.b");
    b.state = ModuleState::Running;
    reg.upsert(b).expect("upsert b");

    let mut a = ModuleRecord::new("test.a");
    a.state = ModuleState::Stopped;
    reg.upsert(a).expect("upsert a");

    let ids: Vec<String> = reg.list().into_iter().map(|v| v.id).collect();
    assert_eq!(ids, vec!["test.a".to_string(), "test.b".to_string()]);
    assert!(reg.event_seq() >= 2);
}

#[test]
fn reload_by_id_reports_disabled() {
    let mut reg = ModuleRegistry::default();
    let mut r = ModuleRecord::new("dsapi.demo.touch_ui");
    r.enabled = false;
    r.state = ModuleState::Disabled;
    reg.upsert(r).expect("upsert");

    let err = reg.reload_by_id("dsapi.demo.touch_ui").expect_err("disabled should fail");
    assert_eq!(err.code, "E_MODULE_DISABLED");
    let last = reg.last_error().expect("last error");
    assert_eq!(last.code, "E_MODULE_DISABLED");
}

#[test]
fn reload_all_skips_disabled_and_collects_failed_ids() {
    let mut reg = ModuleRegistry::default();

    let mut ok = ModuleRecord::new("m.ok");
    ok.enabled = true;
    ok.state = ModuleState::Stopped;
    reg.upsert(ok).expect("upsert ok");

    let mut disabled = ModuleRecord::new("m.disabled");
    disabled.enabled = false;
    disabled.state = ModuleState::Disabled;
    reg.upsert(disabled).expect("upsert disabled");

    let out = reg.reload_all();
    assert_eq!(out.total, 1);
    assert_eq!(out.failed, 0);
    assert!(out.failed_ids.is_empty());

    let changed = reg.get("m.ok").expect("m.ok exists");
    assert_eq!(changed.state, ModuleState::Ready);
}

#[test]
fn invalid_module_id_is_refused() {
    let mut reg = ModuleRegistry::default();
    let err = reg.upsert(ModuleRecord::new("bad id!")).expect_err("must refuse");
    assert_eq!(err.code, "E_MODULE_ID_INVALID");
    assert_eq!(reg.count(), 0);
    let trimmed = reg.upsert(ModuleRecord::new("  spaced.id ")).expect("trimmed id");
    assert_eq!(trimmed.id, "spaced.id");
    assert!(reg.remove("spaced.id"));
    assert!(!reg.remove("spaced.id"));
}

#[test]
fn module_registry_roundtrip_in_runtime_engine() {
    let mut engine = directscreen_core::engine::RuntimeEngine::default();
    let mut record = ModuleRecord::new("test.touch_demo");
    record.state = ModuleState::Running;
    record.reason = "-".to_string();
    engine.module_registry_upsert(record).expect("upsert");

    let listed = engine.module_registry_list().expect("list");
    assert_eq!(listed.len(), 1);
    assert_eq!(listed[0].id, "test.touch_demo");

    let reloaded = engine.module_registry_reload("test.touch_demo").expect("reload");
    assert_eq!(reloaded.state, ModuleState::Ready);
}

#[test]
fn engine_registry_counts_errors_and_removal() {
    let mut engine = directscreen_core::engine::RuntimeEngine::default();
    assert_eq!(engine.module_registry_count().unwrap(), 0);
    assert_eq!(engine.module_registry_event_seq().unwrap(), 0);
    engine.module_registry_upsert(ModuleRecord::new("demo.a")).expect("upsert");
    assert_eq!(engine.module_registry_count().unwrap(), 1);
    assert_eq!(engine.module_registry_event_seq().unwrap(), 1);
    assert!(engine.module_registry_get("demo.a").unwrap().is_some());
    assert!(engine.module_registry_get("demo.b").unwrap().is_none());
    let err = engine.module_registry_reload("demo.b").expect_err("unknown module");
    assert_eq!(err.code, "E_MODULE_NOT_FOUND");
    let bad = engine.module_registry_upsert(ModuleRecord::new("bad id!")).expect_err("invalid id");
    assert_eq!(bad.code, "E_MODULE_ID_INVALID");
    engine.module_registry_clear_error().unwrap();
    assert!(engine.module_registry_last_error().unwrap().is_none());
    let all = engine.module_registry_reload_all().unwrap();
    assert_eq!(all.total, 1);
    assert_eq!(all.failed, 0);
    assert!(engine.module_registry_remove("demo.a").unwrap());
    assert!(!engine.module_registry_remove("demo.a").unwrap());
    assert_eq!(engine.module_registry_count().unwrap(), 0);
}

#[test]
fn event_counter_sums_each_call() {
    let mut reg = ModuleRegistry::default();
    let start = reg.event_seq();
    reg.upsert(ModuleRecord::new("m.one")).expect("upsert");
    assert!(reg.upsert(ModuleRecord::new("bad id!")).is_err());
    assert!(!reg.remove("m.missing"));
    let _ = reg.get("m.one");
    assert!(reg.reload_by_id("m.missing").is_err());
    reg.clear_last_error();
    assert!(reg.remove("m.one"));
    assert_eq!(reg.event_seq(), start + 3);
}
