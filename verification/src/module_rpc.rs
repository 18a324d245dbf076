use vstd::prelude::*;
use crate::api::Status;
use crate::module_registry::{ModuleRecord, ModuleState, state_name, id_ok, lemma_valid_id_sanitized};
use crate::module_runtime::{
    ModuleRuntime, ModuleRpcRequest, RpcShape, ExecOutput, ModuleRuntimeRpcError, ScopeContext,
    token_sanitized, pipe_sanitized, sanitize_token, sanitize_pipe_field, parse_status_kv, kv_state,
    kv_reason, flag_text,
};
use crate::text::{
    chars_of, string_from_chars, push_str, push_all, push_decimal, push_signed_decimal, decimal_text,
    signed_decimal_text, ws_tokens, trim, trim_end, trim_chars,
};

verus! {

/// What folding a status check into the record of `module_id` makes of
/// the runtime `o`: `n` keeps the scope rules and the modules; a module
/// whose disable flag is set becomes disabled; else a failed status script
/// leaves it in `Error` with reason `action_failed`, a successful one sets
/// the reported state (if any), the reported reason (else `-`) and clears
/// the record's error; with no script nothing changes.
pub open spec fn status_refreshed(o: ModuleRuntime, n: ModuleRuntime, module_id: Seq<char>, disabled: bool, out: Option<ExecOutput>) -> bool {
    let a = n.reg()@[module_id];
    let b = o.reg()@[module_id];
    &&& n.scopes() == o.scopes()
    &&& n.reg()@.dom() == o.reg()@.dom()
    &&& disabled ==> !a.enabled && a.state == ModuleState::Disabled && a.reason@ == "disabled"@
    &&& !disabled ==> match out {
        None => n.reg() == o.reg(),
        Some(o2) => if o2.code != 0 {
            a.state == ModuleState::Error && a.reason@ == "action_failed"@
        } else {
            let kv = ws_tokens(o2.stdout@);
            &&& a.enabled
            &&& a.state == match kv_state(kv) {
                Some(st) => st,
                None => b.state,
            }
            &&& a.reason@ == match kv_reason(kv) {
                Some(v) => v,
                None => "-"@,
            }
            &&& a.last_error is None
        },
    }
}

impl ModuleRuntime {
    /// Marks a module disabled at time `now`: not enabled, state
    /// `Disabled`, reason `disabled`; nothing happens for an unknown module.
    pub fn mark_disabled_at(&mut self, module_id: &str, now: u64)
        requires
            old(self).wf(),
        ensures
            final(self).wf(),
            final(self).scopes() == old(self).scopes(),
            final(self).reg().spec_last_error() == old(self).reg().spec_last_error(),
            !old(self).reg()@.contains_key(module_id@) ==> final(self).reg()@ == old(self).reg()@,
            old(self).reg()@.contains_key(module_id@) ==> {
                let n = final(self).reg()@[module_id@];
                let o = old(self).reg()@[module_id@];
                &&& final(self).reg()@.dom() == old(self).reg()@.dom()
                &&& !n.enabled && n.state == ModuleState::Disabled && n.reason@ == "disabled"@
                &&& n.name == o.name && n.last_error == o.last_error && n.main_cap == o.main_cap
            },
    {
        let mut rec = match self.get(module_id) {
            Some(v) => v,
            None => return,
        };
        proof {
            self.lemma_reg_ids();
            lemma_valid_id_sanitized(rec.id@);
        }
        rec.enabled = false;
        rec.state = ModuleState::Disabled;
        rec.reason = "disabled".to_owned();
        let _ = self.upsert_at(rec, now);
        proof {
            assert(final(self).reg()@.dom() =~= old(self).reg()@.dom());
        }
    }

    /// Marks a module enabled at time `now`; a disabled module goes back to
    /// `Installed` with reason `-`. Nothing happens for an unknown module.
    pub fn mark_enabled_at(&mut self, module_id: &str, now: u64)
        requires
            old(self).wf(),
        ensures
            final(self).wf(),
            final(self).scopes() == old(self).scopes(),
            final(self).reg().spec_last_error() == old(self).reg().spec_last_error(),
            !old(self).reg()@.contains_key(module_id@) ==> final(self).reg()@ == old(self).reg()@,
            old(self).reg()@.contains_key(module_id@) ==> {
                let n = final(self).reg()@[module_id@];
                let o = old(self).reg()@[module_id@];
                &&& final(self).reg()@.dom() == old(self).reg()@.dom()
                &&& n.enabled
                &&& o.state == ModuleState::Disabled ==> n.state == ModuleState::Installed && n.reason@ == "-"@
                &&& o.state != ModuleState::Disabled ==> n.state == o.state && n.reason == o.reason
                &&& n.name == o.name && n.last_error == o.last_error && n.main_cap == o.main_cap
            },
    {
        let mut rec = match self.get(module_id) {
            Some(v) => v,
            None => return,
        };
        proof {
            self.lemma_reg_ids();
            lemma_valid_id_sanitized(rec.id@);
        }
        rec.enabled = true;
        if rec.state == ModuleState::Disabled {
            rec.state = ModuleState::Installed;
            rec.reason = "-".to_owned();
        }
        let _ = self.upsert_at(rec, now);
        proof {
            assert(final(self).reg()@.dom() =~= old(self).reg()@.dom());
        }
    }

    /// Forgets a removed module: its record and its scope rules.
    pub fn forget_module(&mut self, module_id: &str)
        requires
            old(self).wf(),
        ensures
            final(self).wf(),
            final(self).reg()@ == old(self).reg()@.remove(module_id@),
            final(self).scopes()@ == old(self).scopes()@.remove(module_id@),
    {
        let _ = self.remove(module_id);
        self.clear_scope_rules(module_id);
    }

    /// Folds a status check into a module's record at time `now`. A module
    /// whose disable flag is set becomes disabled. Otherwise, when a status
    /// script ran (`out`), a failure is committed as a failed action and a
    /// success sets the reported state (if any), the reported reason (else
    /// `-`) and clears the record's error; with no script nothing changes.
    /// An unknown module is the error `module_not_found`.
    pub fn refresh_status_at(&mut self, module_id: &str, disabled: bool, out: Option<&ExecOutput>, now: u64) -> (r: Result<(), ModuleRuntimeRpcError>)
        requires
            old(self).wf(),
        ensures
            final(self).wf(),
            final(self).scopes() == old(self).scopes(),
            !old(self).reg()@.contains_key(module_id@) ==> (r matches Err(e) && e.status == Status::InvalidArgument
                && e.body@ == "ksu_dsapi_error=module_not_found"@) && final(self).reg() == old(self).reg(),
            old(self).reg()@.contains_key(module_id@) ==> r is Ok && status_refreshed(
                *old(self),
                *final(self),
                module_id@,
                disabled,
                match out {
                    Some(x) => Some(*x),
                    None => None,
                },
            ),
    {
        let mut rec = match self.get(module_id) {
            Some(v) => v,
            None => return Err(ModuleRuntimeRpcError::invalid("ksu_dsapi_error=module_not_found")),
        };
        proof {
            self.lemma_reg_ids();
            lemma_valid_id_sanitized(rec.id@);
        }
        rec.enabled = !disabled;
        if disabled {
            rec.state = ModuleState::Disabled;
            rec.reason = "disabled".to_owned();
            let _ = self.upsert_at(rec, now);
            proof {
                assert(final(self).reg()@.dom() =~= old(self).reg()@.dom());
            }
            return Ok(());
        }
        match out {
            None => Ok(()),
            Some(o) => {
                if o.code != 0 {
                    self.commit_exec_state_at(module_id, o, ModuleState::Error, now);
                    return Ok(());
                }
                let status = parse_status_kv(o.stdout.as_str());
                match status.state {
                    Some(v) => {
                        rec.state = v;
                    },
                    None => {},
                }
                rec.reason = match status.reason {
                    Some(v) => v,
                    None => "-".to_owned(),
                };
                rec.last_error = None;
                let _ = self.upsert_at(rec, now);
                proof {
                    assert(final(self).reg()@.dom() =~= old(self).reg()@.dom());
                }
                Ok(())
            },
        }
    }
}

/// The status text of a record: state, last pid, sanitized reason,
/// enabled flag and sanitized main capability.
pub open spec fn status_text(r: ModuleRecord, pid: Seq<char>) -> Seq<char> {
    "state="@ + state_name(r.state) + " pid="@ + pid + " reason="@ + token_sanitized(r.reason@)
        + " enabled="@ + flag_text(r.enabled) + " main_cap="@ + token_sanitized(r.main_cap@)
}

/// The status text of a record, as `status_text` says.
pub fn module_status_text(rec: &ModuleRecord, pid: &str) -> (r: String)
    ensures
        r@ == status_text(*rec, pid@),
{
    let mut v: Vec<char> = Vec::new();
    push_str(&mut v, "state=");
    push_str(&mut v, rec.state.as_str());
    push_str(&mut v, " pid=");
    push_str(&mut v, pid);
    push_str(&mut v, " reason=");
    push_str(&mut v, sanitize_token(rec.reason.as_str()).as_str());
    push_str(&mut v, " enabled=");
    push_str(&mut v, if rec.enabled { "1" } else { "0" });
    push_str(&mut v, " main_cap=");
    push_str(&mut v, sanitize_token(rec.main_cap.as_str()).as_str());
    assert(v@ =~= status_text(*rec, pid@));
    string_from_chars(&v)
}

/// The pid shown for a module: the sanitized trimmed content of its pid
/// file, or `-` when there is none or it is blank.
pub open spec fn pid_text(content: Option<Seq<char>>) -> Seq<char> {
    match content {
        Some(c) => if trim(c).len() == 0 {
            "-"@
        } else {
            token_sanitized(trim(c))
        },
        None => "-"@,
    }
}

/// The pid shown for a module, from its pid file's content.
pub fn module_last_pid(content: Option<&str>) -> (r: String)
    ensures
        r@ == pid_text(
            match content {
                Some(c) => Some(c@),
                None => None,
            },
        ),
{
    match content {
        Some(c) => {
            let t = trim_chars(&chars_of(c));
            if t.len() == 0 {
                "-".to_owned()
            } else {
                sanitize_token(string_from_chars(&t).as_str())
            }
        },
        None => "-".to_owned(),
    }
}

/// The listing row of a record: `module_row=` and its fields separated by
/// `|`, text fields made safe for the separator.
pub open spec fn row_text(r: ModuleRecord) -> Seq<char> {
    "module_row="@ + r.id@ + "|"@ + pipe_sanitized(r.name@) + "|"@ + pipe_sanitized(r.kind@) + "|"@
        + pipe_sanitized(r.version@) + "|"@ + state_name(r.state) + "|"@ + flag_text(r.enabled) + "|"@
        + pipe_sanitized(r.main_cap@) + "|"@ + decimal_text(r.action_count as nat) + "|"@
        + pipe_sanitized(r.reason@)
}

/// The listing row of a record, as `row_text` says.
pub fn module_row_text(rec: &ModuleRecord) -> (r: String)
    ensures
        r@ == row_text(*rec),
{
    let mut v: Vec<char> = Vec::new();
    push_str(&mut v, "module_row=");
    push_str(&mut v, rec.id.as_str());
    push_str(&mut v, "|");
    push_str(&mut v, sanitize_pipe_field(rec.name.as_str()).as_str());
    push_str(&mut v, "|");
    push_str(&mut v, sanitize_pipe_field(rec.kind.as_str()).as_str());
    push_str(&mut v, "|");
    push_str(&mut v, sanitize_pipe_field(rec.version.as_str()).as_str());
    push_str(&mut v, "|");
    push_str(&mut v, rec.state.as_str());
    push_str(&mut v, "|");
    push_str(&mut v, if rec.enabled { "1" } else { "0" });
    push_str(&mut v, "|");
    push_str(&mut v, sanitize_pipe_field(rec.main_cap.as_str()).as_str());
    push_str(&mut v, "|");
    push_decimal(&mut v, rec.action_count as u64);
    push_str(&mut v, "|");
    push_str(&mut v, sanitize_pipe_field(rec.reason.as_str()).as_str());
    assert(v@ =~= row_text(*rec));
    string_from_chars(&v)
}

/// The listing row of an action: id, safe name, and `1` when it is
/// dangerous.
pub open spec fn action_row_text(id: Seq<char>, name: Seq<char>, danger: bool) -> Seq<char> {
    "module_action_row="@ + id + "|"@ + pipe_sanitized(name) + "|"@ + flag_text(danger)
}

/// The listing row of an action, as `action_row_text` says.
pub fn module_action_row(id: &str, name: &str, danger: bool) -> (r: String)
    ensures
        r@ == action_row_text(id@, name@, danger),
{
    let mut v: Vec<char> = Vec::new();
    push_str(&mut v, "module_action_row=");
    push_str(&mut v, id);
    push_str(&mut v, "|");
    push_str(&mut v, sanitize_pipe_field(name).as_str());
    push_str(&mut v, "|");
    push_str(&mut v, if danger { "1" } else { "0" });
    assert(v@ =~= action_row_text(id@, name@, danger));
    string_from_chars(&v)
}

/// The reply a request gets once its work is done, for the requests whose
/// reply is one line about the request itself: `total` and `event_seq`
/// are the registry's size and event count for a sync.
pub open spec fn done_text(q: RpcShape, total: nat, event_seq: nat) -> Option<Seq<char>> {
    match q {
        RpcShape::Sync => Some(
            "module_action=synced total="@ + decimal_text(total) + " event_seq="@ + decimal_text(event_seq),
        ),
        RpcShape::Start(id, pkg, user) => Some(
            "module_action=started id="@ + id + " package="@ + pkg + " user="@ + signed_decimal_text(
                user as int,
            ),
        ),
        RpcShape::Stop(id) => Some("module_action=stopped id="@ + id),
        RpcShape::Reload(id, pkg, user) => Some(
            "module_action=reloaded id="@ + id + " package="@ + pkg + " user="@ + signed_decimal_text(
                user as int,
            ),
        ),
        RpcShape::Disable(id) => Some("module_action=disabled id="@ + id),
        RpcShape::Enable(id) => Some("module_action=enabled id="@ + id),
        RpcShape::Remove(id) => Some("module_action=removed id="@ + id),
        RpcShape::EnvSet(id, key, _) => Some("module_env=updated id="@ + id + " key="@ + key),
        RpcShape::EnvUnset(id, key) => Some("module_env=unset id="@ + id + " key="@ + key),
        RpcShape::ScopeSet(id, pkg, user, allow) => Some(
            "module_scope=updated id="@ + id + " package="@ + pkg + " user="@ + signed_decimal_text(
                user as int,
            ) + " policy="@ + if allow {
                "allow"@
            } else {
                "deny"@
            },
        ),
        RpcShape::ScopeClear(id) => Some("module_scope=cleared id="@ + id),
        _ => None,
    }
}

/// The one-line reply of a finished request, as `done_text` says.
pub fn rpc_done_line(q: &ModuleRpcRequest, total: u64, event_seq: u64) -> (r: Option<String>)
    ensures
        match done_text(q@, total as nat, event_seq as nat) {
            Some(t) => r matches Some(s) && s@ == t,
            None => r is None,
        },
{
    let mut v: Vec<char> = Vec::new();
    match q {
        ModuleRpcRequest::Sync => {
            push_str(&mut v, "module_action=synced total=");
            push_decimal(&mut v, total);
            push_str(&mut v, " event_seq=");
            push_decimal(&mut v, event_seq);
        },
        ModuleRpcRequest::Start { module_id, scope } => {
            push_str(&mut v, "module_action=started id=");
            push_str(&mut v, module_id.as_str());
            push_str(&mut v, " package=");
            push_str(&mut v, scope.package_name.as_str());
            push_str(&mut v, " user=");
            push_signed_decimal(&mut v, scope.user_id as i64);
        },
        ModuleRpcRequest::Stop { module_id } => {
            push_str(&mut v, "module_action=stopped id=");
            push_str(&mut v, module_id.as_str());
        },
        ModuleRpcRequest::Reload { module_id, scope } => {
            push_str(&mut v, "module_action=reloaded id=");
            push_str(&mut v, module_id.as_str());
            push_str(&mut v, " package=");
            push_str(&mut v, scope.package_name.as_str());
            push_str(&mut v, " user=");
            push_signed_decimal(&mut v, scope.user_id as i64);
        },
        ModuleRpcRequest::Disable { module_id } => {
            push_str(&mut v, "module_action=disabled id=");
            push_str(&mut v, module_id.as_str());
        },
        ModuleRpcRequest::Enable { module_id } => {
            push_str(&mut v, "module_action=enabled id=");
            push_str(&mut v, module_id.as_str());
        },
        ModuleRpcRequest::Remove { module_id } => {
            push_str(&mut v, "module_action=removed id=");
            push_str(&mut v, module_id.as_str());
        },
        ModuleRpcRequest::EnvSet { module_id, key, .. } => {
            push_str(&mut v, "module_env=updated id=");
            push_str(&mut v, module_id.as_str());
            push_str(&mut v, " key=");
            push_str(&mut v, key.as_str());
        },
        ModuleRpcRequest::EnvUnset { module_id, key } => {
            push_str(&mut v, "module_env=unset id=");
            push_str(&mut v, module_id.as_str());
            push_str(&mut v, " key=");
            push_str(&mut v, key.as_str());
        },
        ModuleRpcRequest::ScopeSet { module_id, package_name, user_id, allow } => {
            push_str(&mut v, "module_scope=updated id=");
            push_str(&mut v, module_id.as_str());
            push_str(&mut v, " package=");
            push_str(&mut v, package_name.as_str());
            push_str(&mut v, " user=");
            push_signed_decimal(&mut v, *user_id as i64);
            push_str(&mut v, " policy=");
            push_str(&mut v, if *allow { "allow" } else { "deny" });
        },
        ModuleRpcRequest::ScopeClear { module_id } => {
            push_str(&mut v, "module_scope=cleared id=");
            push_str(&mut v, module_id.as_str());
        },
        _ => {
            return None;
        },
    }
    assert(v@ =~= done_text(q@, total as nat, event_seq as nat)->Some_0);
    Some(string_from_chars(&v))
}

/// The `,`-joined ids, or `-` for none.
pub open spec fn joined_ids(ids: Seq<Seq<char>>) -> Seq<char>
    decreases ids.len(),
{
    if ids.len() == 0 {
        "-"@
    } else if ids.len() == 1 {
        ids[0]
    } else {
        joined_ids(ids.drop_last()) + ","@ + ids.last()
    }
}

/// The reply to a reload of every module: how many were reloaded, how many
/// failed and which. With failures it is an internal error carrying the
/// same line.
pub fn reload_all_reply(total: u32, failed: u32, failed_ids: &Vec<String>) -> (r: Result<String, ModuleRuntimeRpcError>)
    ensures
        ({
            let line = "module_action=reloaded_all total="@ + decimal_text(total as nat) + " failed="@
                + decimal_text(failed as nat) + " failed_ids="@ + joined_ids(
                failed_ids@.map_values(|s: String| s@),
            );
            &&& failed == 0 ==> (r matches Ok(s) && s@ == line)
            &&& failed > 0 ==> (r matches Err(e) && e.status == Status::InternalError && e.body@ == line)
        }),
{
    let mut v: Vec<char> = Vec::new();
    push_str(&mut v, "module_action=reloaded_all total=");
    push_decimal(&mut v, total as u64);
    push_str(&mut v, " failed=");
    push_decimal(&mut v, failed as u64);
    push_str(&mut v, " failed_ids=");
    let ghost head = v@;
    let ghost ids = failed_ids@.map_values(|s: String| s@);
    if failed_ids.len() == 0 {
        push_str(&mut v, "-");
    } else {
        let mut i: usize = 0;
        while i < failed_ids.len()
            invariant
                i <= failed_ids@.len(),
                failed_ids@.len() > 0,
                ids == failed_ids@.map_values(|s: String| s@),
                i == 0 ==> v@ == head,
                i > 0 ==> v@ == head + joined_ids(ids.take(i as int)),
            decreases failed_ids@.len() - i,
        {
            assert(ids.take(i + 1).drop_last() =~= ids.take(i as int));
            if i > 0 {
                push_str(&mut v, ",");
            }
            push_str(&mut v, failed_ids[i].as_str());
            i += 1;
            proof {
                if i == 1 {
                    assert(v@ =~= head + joined_ids(ids.take(1)));
                }
            }
        }
        assert(ids.take(failed_ids@.len() as int) =~= ids);
    }
    let line = string_from_chars(&v);
    if failed > 0 {
        return Err(ModuleRuntimeRpcError::internal(line.as_str()));
    }
    Ok(line)
}

impl ModuleRuntime {
    /// The checks before a module starts, at time `now`: the id must be
    /// valid and its directory present, the module known, and enabled; a
    /// disabled module gets `E_MODULE_DISABLED` recorded and the error
    /// `module_disabled`.
    pub fn start_gate_at(&mut self, module_id: &str, dir_exists: bool, now: u64) -> (r: Result<(), ModuleRuntimeRpcError>)
        requires
            old(self).wf(),
        ensures
            final(self).wf(),
            final(self).scopes() == old(self).scopes(),
            !id_ok(module_id@) || !dir_exists ==> r is Err && final(self).reg() == old(self).reg(),
            !id_ok(module_id@) ==> (r matches Err(e) && e.status == Status::InvalidArgument
                && e.body@ == "ksu_dsapi_error=module_id_invalid"@),
            id_ok(module_id@) && !dir_exists ==> (r matches Err(e) && e.status == Status::InvalidArgument
                && e.body@ == "ksu_dsapi_error=module_not_found"@),
            id_ok(module_id@) && dir_exists && !old(self).reg()@.contains_key(module_id@) ==> (r matches Err(e)
                && e.status == Status::InvalidArgument && e.body@ == "ksu_dsapi_error=module_not_found"@)
                && final(self).reg() == old(self).reg(),
            id_ok(module_id@) && dir_exists && old(self).reg()@.contains_key(module_id@) ==> {
                &&& old(self).reg()@[module_id@].enabled ==> r is Ok && final(self).reg() == old(self).reg()
                &&& !old(self).reg()@[module_id@].enabled ==> (r matches Err(e) && e.status == Status::InvalidArgument
                    && e.body@ == "ksu_dsapi_error=module_disabled"@) && crate::module_runtime::error_recorded(
                    *old(self),
                    *final(self),
                    module_id@,
                    "E_MODULE_DISABLED"@,
                    "module_disabled"@,
                    "op=start"@,
                    now,
                )
            },
    {
        match ModuleRuntime::ensure_module_exists(module_id, dir_exists) {
            Ok(()) => {},
            Err(e) => return Err(e),
        }
        let rec = match self.get(module_id) {
            Some(v) => v,
            None => return Err(ModuleRuntimeRpcError::invalid("ksu_dsapi_error=module_not_found")),
        };
        if !rec.enabled {
            self.record_error_at(module_id, "E_MODULE_DISABLED", "module_disabled", "op=start", now);
            return Err(ModuleRuntimeRpcError::invalid("ksu_dsapi_error=module_disabled"));
        }
        Ok(())
    }

    /// Commits a script's outcome at time `now` (as `commit_exec_state_at`
    /// says) and answers it: a non-zero exit is the internal error
    /// `failure`.
    pub fn finish_exec_at(&mut self, module_id: &str, out: &ExecOutput, ok_state: ModuleState, failure: &str, now: u64) -> (r: Result<(), ModuleRuntimeRpcError>)
        requires
            old(self).wf(),
        ensures
            final(self).wf(),
            final(self).scopes() == old(self).scopes(),
            crate::module_runtime::exec_committed(*old(self), *final(self), module_id@, *out, ok_state),
            out.code == 0 ==> r is Ok,
            out.code != 0 ==> (r matches Err(e) && e.status == Status::InternalError && e.body@ == failure@),
    {
        self.commit_exec_state_at(module_id, out, ok_state, now);
        if out.code != 0 {
            return Err(ModuleRuntimeRpcError::internal(failure));
        }
        Ok(())
    }
}

/// The error of an action that exited with `code`.
pub open spec fn action_failed_text(module_id: Seq<char>, action_id: Seq<char>, code: i32) -> Seq<char> {
    "ksu_dsapi_error=module_action_failed id="@ + module_id + " action="@ + action_id + " exit="@
        + signed_decimal_text(code as int)
}

/// The error of an action that exited with `code`, as
/// `action_failed_text` says.
pub fn action_failed_error(module_id: &str, action_id: &str, code: i32) -> (r: ModuleRuntimeRpcError)
    ensures
        r.status == Status::InternalError,
        r.body@ == action_failed_text(module_id@, action_id@, code),
{
    let mut v: Vec<char> = Vec::new();
    push_str(&mut v, "ksu_dsapi_error=module_action_failed id=");
    push_str(&mut v, module_id);
    push_str(&mut v, " action=");
    push_str(&mut v, action_id);
    push_str(&mut v, " exit=");
    push_signed_decimal(&mut v, code as i64);
    ModuleRuntimeRpcError::internal(string_from_chars(&v).as_str())
}

/// The reply to an action run: what the action printed, without trailing
/// white space and then a newline (nothing when it printed only white
/// space), then the summary line.
pub open spec fn action_run_text(stdout: Seq<char>, module_id: Seq<char>, action_id: Seq<char>, scope_pkg: Seq<char>, user: i32) -> Seq<char> {
    let head = if trim(stdout).len() == 0 {
        Seq::<char>::empty()
    } else {
        trim_end(stdout) + seq!['\n']
    };
    head + "module_action=ran id="@ + module_id + " action="@ + action_id + " package="@ + scope_pkg
        + " user="@ + signed_decimal_text(user as int)
}

/// The reply to an action run, as `action_run_text` says.
pub fn action_run_reply(stdout: &str, module_id: &str, action_id: &str, scope: &ScopeContext) -> (r: String)
    ensures
        r@ == action_run_text(stdout@, module_id@, action_id@, scope.package_name@, scope.user_id),
{
    let mut v: Vec<char> = Vec::new();
    let sv = chars_of(stdout);
    let t = trim_chars(&sv);
    if t.len() > 0 {
        let e = crate::text::trim_end_chars(&sv);
        push_all(&mut v, &e);
        v.push('\n');
    }
    push_str(&mut v, "module_action=ran id=");
    push_str(&mut v, module_id);
    push_str(&mut v, " action=");
    push_str(&mut v, action_id);
    push_str(&mut v, " package=");
    push_str(&mut v, scope.package_name.as_str());
    push_str(&mut v, " user=");
    push_signed_decimal(&mut v, scope.user_id as i64);
    assert(v@ =~= action_run_text(stdout@, module_id@, action_id@, scope.package_name@, scope.user_id));
    string_from_chars(&v)
}

} // verus!
