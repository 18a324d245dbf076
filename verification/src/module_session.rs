use vstd::prelude::*;
use crate::api::Status;
use crate::module_registry::{ModuleState, id_ok};
use crate::module_runtime::{
    ModuleRuntime, ModuleRpcRequest, RpcShape, ExecOutput, DiskModule, ModuleRuntimeRpcError, ScopeContext,
    parse_rpc_request, join_lines, module_meta_with_alias, env_key_valid, };
use crate::module_rpc::{
    rpc_done_line, module_status_text, module_last_pid, module_row_text, module_action_row, reload_all_reply,
    action_failed_error, action_run_reply,
};
use crate::module_files::{
    parse_env_values, env_put, env_remove, format_env_values, module_env_items, module_env_row,
    action_entries, main_cap_index, cap_candidate, script_name, };
use crate::text::{chars_of, string_from_chars, split_ws, ws_tokens, push_str, split_on, text_lt, text_lines, upper_seq};
use crate::keyed::ids_sorted;
use crate::module_files::{ActionEntry, EnvValue, action_view, actions_of, env_view, env_settings, env_spec_items, env_values_text};
use crate::module_rpc::action_row_text;
use crate::module_runtime::{pipe_sanitized, env_key_ok, scope_verdict, exec_committed, error_recorded};
use crate::module_rpc::{action_failed_text, action_run_text, status_refreshed, status_text, pid_text};
use crate::module_registry::ModuleRecord;
use crate::text::has_prefix;

verus! {

/// What the host found in a module's directory when it looked.
#[derive(Debug, Clone)]
pub struct ModuleProbe {
    /// The module directory exists.
    pub dir_exists: bool,
    /// The module's disable flag exists.
    pub disabled: bool,
    /// The `dsapi.module` description, when it could be read.
    pub meta_text: Option<String>,
    /// The `.sh` scripts of `actions/`: stem and text of each.
    pub actions: Vec<(String, String)>,
    /// The `.sh` scripts of `capabilities/`: stem and text of each.
    pub caps: Vec<(String, String)>,
    /// The `env.spec` text, when it could be read.
    pub env_spec: Option<String>,
    /// The `env.values` text, when it could be read.
    pub env_values: Option<String>,
    /// The content of the module's `pid` state file, when it could be read.
    pub pid: Option<String>,
}

/// What the host did for a request, in the order the request asked.
#[derive(Debug)]
pub enum HostEvent {
    /// The modules on disk, or none when the module directories could not
    /// be made.
    Scanned(Option<Vec<DiskModule>>),
    /// What a look at a module's files found.
    Probed(ModuleProbe),
    /// What a script gave back, or none when it could not be started.
    Ran(Option<ExecOutput>),
    /// Whether a file was written.
    Wrote(bool),
}

/// What a request asks of the host next.
#[derive(Debug, Clone, PartialEq, Eq)]
pub enum HostAction {
    /// Make the module directories and list the modules on disk.
    ScanDisk,
    /// Look at a module's files.
    Probe { module_id: String },
    /// Run the action script `actions/<action_id>.sh` of a module.
    RunAction { module_id: String, action_id: String },
    /// Run the function `func` of the capability script
    /// `capabilities/<cap_stem>.sh` of a module.
    RunCap { module_id: String, cap_stem: String, func: String },
    /// Write the module's disable flag.
    WriteDisabledFlag { module_id: String },
    /// Remove the module's disable flag, whatever comes of it.
    RemoveDisabledFlag { module_id: String },
    /// Remove the module's directory, its state and its disable flag,
    /// whatever comes of it.
    RemoveModuleFiles { module_id: String },
    /// Write the module's `env.values` file with `text`.
    WriteEnvValues { module_id: String, text: String },
}

/// Where a request stands: it needs the host to act, or it is answered
/// (`save`: the registry and scope files are to be written).
#[derive(Debug)]
pub enum RpcOutcome {
    Need(HostAction),
    Done { reply: Result<String, ModuleRuntimeRpcError>, save: bool },
}

/// The host's events, read in order.
pub struct HostLog<'a> {
    pub events: &'a Vec<HostEvent>,
    pub pos: usize,
}

/// The answer a request gets when the host sent an event it did not ask for.
pub open spec fn is_mismatch(o: RpcOutcome) -> bool {
    o matches RpcOutcome::Done { reply: Err(e), save: true } && e.status == Status::InternalError
        && e.body@ == "ksu_dsapi_error=module_host_event_mismatch"@
}

/// The answer a request gets when the host sent an event it did not ask for.
fn host_mismatch() -> (r: RpcOutcome)
    ensures
        is_mismatch(r),
{
    RpcOutcome::Done {
        reply: Err(ModuleRuntimeRpcError::internal("ksu_dsapi_error=module_host_event_mismatch")),
        save: true,
    }
}

impl<'a> HostLog<'a> {
    pub open spec fn left(&self) -> int {
        self.events@.len() - self.pos
    }

    /// The next event, which must be a look at `module_id`'s files; when
    /// there is none yet the host is asked for it.
    fn probe(&mut self, module_id: &str) -> (r: Result<&'a ModuleProbe, RpcOutcome>)
        requires
            old(self).pos <= old(self).events@.len(),
        ensures
            final(self).events == old(self).events,
            final(self).pos <= final(self).events@.len(),
            final(self).pos >= old(self).pos,
            old(self).pos == old(self).events@.len() ==> (r matches Err(RpcOutcome::Need(HostAction::Probe { module_id: m }))
                && m@ == module_id@),
            old(self).pos < old(self).events@.len() ==> final(self).pos == old(self).pos + 1 && match old(self).events@[old(self).pos as int] {
                HostEvent::Probed(q) => r matches Ok(x) && *x == q,
                _ => r matches Err(o) && is_mismatch(o),
            },
    {
        if self.pos >= self.events.len() {
            return Err(RpcOutcome::Need(HostAction::Probe { module_id: module_id.to_owned() }));
        }
        let ev = &self.events[self.pos];
        self.pos = self.pos + 1;
        match ev {
            HostEvent::Probed(p) => Ok(p),
            _ => Err(host_mismatch()),
        }
    }

    /// The next event, which must be the outcome of running `action`'s
    /// script; when there is none yet the host is asked to run it.
    fn ran(&mut self, action: HostAction) -> (r: Result<Option<&'a ExecOutput>, RpcOutcome>)
        requires
            old(self).pos <= old(self).events@.len(),
        ensures
            final(self).events == old(self).events,
            final(self).pos <= final(self).events@.len(),
            final(self).pos >= old(self).pos,
            old(self).pos == old(self).events@.len() ==> r == Err::<Option<&'a ExecOutput>, RpcOutcome>(RpcOutcome::Need(action)),
            old(self).pos < old(self).events@.len() ==> final(self).pos == old(self).pos + 1 && match old(self).events@[old(self).pos as int] {
                HostEvent::Ran(Some(o)) => r matches Ok(Some(x)) && *x == o,
                HostEvent::Ran(None) => r matches Ok(None),
                _ => r matches Err(o) && is_mismatch(o),
            },
    {
        if self.pos >= self.events.len() {
            return Err(RpcOutcome::Need(action));
        }
        let ev = &self.events[self.pos];
        self.pos = self.pos + 1;
        match ev {
            HostEvent::Ran(o) => match o {
                Some(out) => Ok(Some(out)),
                None => Ok(None),
            },
            _ => Err(host_mismatch()),
        }
    }

    /// The next event, which must say whether `action`'s file work was
    /// done; when there is none yet the host is asked to do it.
    fn wrote(&mut self, action: HostAction) -> (r: Result<bool, RpcOutcome>)
        requires
            old(self).pos <= old(self).events@.len(),
        ensures
            final(self).events == old(self).events,
            final(self).pos <= final(self).events@.len(),
            final(self).pos >= old(self).pos,
            old(self).pos == old(self).events@.len() ==> r == Err::<bool, RpcOutcome>(RpcOutcome::Need(action)),
            old(self).pos < old(self).events@.len() ==> final(self).pos == old(self).pos + 1 && match old(self).events@[old(self).pos as int] {
                HostEvent::Wrote(ok) => r == Ok::<bool, RpcOutcome>(ok),
                _ => r matches Err(o) && is_mismatch(o),
            },
    {
        if self.pos >= self.events.len() {
            return Err(RpcOutcome::Need(action));
        }
        let ev = &self.events[self.pos];
        self.pos = self.pos + 1;
        match ev {
            HostEvent::Wrote(ok) => Ok(*ok),
            _ => Err(host_mismatch()),
        }
    }
}


/// The host's events are still the same, and reading moved forward.
pub open spec fn log_moved<'a>(before: HostLog<'a>, after: HostLog<'a>) -> bool {
    after.events == before.events && before.pos <= after.pos <= after.events@.len()
}

/// A script named `id` is among `scripts`.
pub open spec fn has_script(scripts: Seq<(String, String)>, id: Seq<char>) -> bool {
    exists|i: int| 0 <= i < scripts.len() && (#[trigger] scripts[i]).0@ == id
}

/// The text of a file that may not have been read; empty when it was not.
pub open spec fn text_of(t: Option<String>) -> Seq<char> {
    match t {
        Some(x) => x@,
        None => Seq::<char>::empty(),
    }
}

/// The main capability a module's description names: its `MAIN_CAP_ID`,
/// else its `DSAPI_MAIN_CAP_ID`, else none (empty).
pub open spec fn configured_main_cap(p: ModuleProbe) -> Seq<char> {
    let lines = split_on(text_of(p.meta_text), '\n');
    match crate::module_runtime::meta_lookup(lines, "MAIN_CAP_ID"@ + "="@) {
        Some(v) => v,
        None => match crate::module_runtime::meta_lookup(lines, "DSAPI_MAIN_CAP_ID"@ + "="@) {
            Some(v) => v,
            None => ""@,
        },
    }
}

/// Capability script `i` of `caps` is the main one for `configured`: it may
/// serve, and no script that may serve has a file name that comes first.
pub open spec fn is_main_cap(configured: Seq<char>, caps: Seq<(String, String)>, i: int) -> bool {
    &&& 0 <= i < caps.len()
    &&& cap_candidate(configured, caps[i].0@, caps[i].1@)
    &&& forall|j: int|
        0 <= j < caps.len() && cap_candidate(configured, caps[j].0@, caps[j].1@) ==> !text_lt(
            script_name(#[trigger] caps[j].0@),
            script_name(caps[i].0@),
        )
}

/// `stem` is the stem of the main capability script of a module whose
/// files are `p` (`None`: no script may serve).
pub open spec fn main_cap_is(p: ModuleProbe, stem: Option<Seq<char>>) -> bool {
    match stem {
        Some(s) => exists|i: int| #[trigger] is_main_cap(configured_main_cap(p), p.caps@, i) && p.caps@[i].0@ == s,
        None => forall|j: int|
            0 <= j < p.caps@.len() ==> !cap_candidate(configured_main_cap(p), #[trigger] p.caps@[j].0@, p.caps@[j].1@),
    }
}

/// A request the host must first answer with a look at `module_id`'s files.
pub open spec fn asks_probe<T>(r: Result<T, RpcOutcome>, module_id: Seq<char>) -> bool {
    r matches Err(RpcOutcome::Need(HostAction::Probe { module_id: m })) && m@ == module_id
}

/// A request ended by an event of another kind than asked.
pub open spec fn mismatched<T>(r: Result<T, RpcOutcome>) -> bool {
    r matches Err(o) && is_mismatch(o)
}

/// A request refused with `status` and `body`.
pub open spec fn refused<T>(r: Result<Result<T, ModuleRuntimeRpcError>, RpcOutcome>, status: Status, body: Seq<char>) -> bool {
    r matches Ok(Err(e)) && e.status == status && e.body@ == body
}

/// Why a module that a request must find is not there: an invalid id, or
/// no directory; `None` when it is there.
pub open spec fn existence_error(module_id: Seq<char>, dir_exists: bool) -> Option<Seq<char>> {
    if !id_ok(module_id) {
        Some("ksu_dsapi_error=module_id_invalid"@)
    } else if !dir_exists {
        Some("ksu_dsapi_error=module_not_found"@)
    } else {
        None
    }
}

/// The runtime's registry and scope rules are as they were.
pub open spec fn same_state(o: ModuleRuntime, n: ModuleRuntime) -> bool {
    n.reg() == o.reg() && n.scopes() == o.scopes()
}

/// A script stands for `op` in a module whose files are `p`: an action
/// script of that name, or a main capability.
pub open spec fn op_runnable(p: ModuleProbe, op: Seq<char>) -> bool {
    has_script(p.actions@, op) || !main_cap_is(p, None)
}

/// The host is asked to run the script that stands for `op`: the action
/// script of that name, else the `cap_<op>` function of the main
/// capability.
pub open spec fn asks_run<T>(r: Result<T, RpcOutcome>, p: ModuleProbe, module_id: Seq<char>, op: Seq<char>) -> bool {
    if has_script(p.actions@, op) {
        r matches Err(RpcOutcome::Need(HostAction::RunAction { module_id: m, action_id: a })) && m@ == module_id
            && a@ == op
    } else {
        r matches Err(RpcOutcome::Need(HostAction::RunCap { module_id: m, cap_stem: c, func: f })) && m@
            == module_id && main_cap_is(p, Some(c@)) && f@ == "cap_"@ + op
    }
}

/// The error of a script for `op` that could not be started.
pub open spec fn exec_failed_text(p: ModuleProbe, op: Seq<char>) -> Seq<char> {
    if has_script(p.actions@, op) {
        "ksu_dsapi_error=module_action_exec_failed"@
    } else {
        "ksu_dsapi_error=module_cap_exec_failed"@
    }
}

/// What the script for `op` gave back, read at event `pos`; `None` when
/// there is no such outcome to read.
pub open spec fn op_finished(p: ModuleProbe, op: Seq<char>, events: Seq<HostEvent>, pos: int) -> Option<ExecOutput> {
    if op_runnable(p, op) && 0 <= pos < events.len() {
        match events[pos] {
            HostEvent::Ran(Some(o)) => Some(o),
            _ => None,
        }
    } else {
        None
    }
}

/// Where reading stands after running the script for `op` from `pos` on.
pub open spec fn op_end(p: ModuleProbe, op: Seq<char>, events: Seq<HostEvent>, pos: int) -> int {
    if op_runnable(p, op) && pos < events.len() {
        pos + 1
    } else {
        pos
    }
}

/// The answer when running the script for `op` from `pos` on gives back no
/// outcome: `main_cap_missing` when no script stands for `op`, the request
/// to run it when the events have run out, an internal error when it could
/// not be started, a mismatch for another event.
pub open spec fn op_unfinished<T>(
    p: ModuleProbe,
    module_id: Seq<char>,
    op: Seq<char>,
    events: Seq<HostEvent>,
    pos: int,
    r: Result<Result<T, ModuleRuntimeRpcError>, RpcOutcome>,
) -> bool {
    if !op_runnable(p, op) {
        refused(r, Status::InvalidArgument, "ksu_dsapi_error=main_cap_missing"@)
    } else if pos >= events.len() {
        asks_run(r, p, module_id, op)
    } else {
        match events[pos] {
            HostEvent::Ran(Some(_)) => false,
            HostEvent::Ran(None) => refused(r, Status::InternalError, exec_failed_text(p, op)),
            _ => mismatched(r),
        }
    }
}

/// The answer to a finished script `o`: success on exit 0, else the
/// internal error `failure`.
pub open spec fn finish_reply<T>(r: Result<Result<T, ModuleRuntimeRpcError>, RpcOutcome>, o: ExecOutput, failure: Seq<char>) -> bool {
    &&& o.code == 0 ==> (r matches Ok(Ok(_)))
    &&& o.code != 0 ==> refused(r, Status::InternalError, failure)
}

/// Running the script for `op` of a module whose files are `q`, from event
/// `pos` on, then committing its outcome with `ok_state` (a failure is
/// `failure`): the runtime goes from `o` to `n`, reading ends at `end`.
pub open spec fn op_step(
    o: ModuleRuntime,
    n: ModuleRuntime,
    q: ModuleProbe,
    module_id: Seq<char>,
    op: Seq<char>,
    ok_state: ModuleState,
    failure: Seq<char>,
    events: Seq<HostEvent>,
    pos: int,
    end: int,
    r: Result<Result<(), ModuleRuntimeRpcError>, RpcOutcome>,
) -> bool {
    &&& end == op_end(q, op, events, pos)
    &&& match op_finished(q, op, events, pos) {
        None => op_unfinished(q, module_id, op, events, pos, r) && same_state(o, n),
        Some(out) => crate::module_runtime::exec_committed(o, n, module_id, out, ok_state) && finish_reply(r, out, failure),
    }
}

/// What a request about a module that must exist reads first: a look at
/// its files at `pos` (asked for when the events have run out), then the
/// module must exist. `found` is what it goes on with when it does.
pub open spec fn existing_read<T>(
    module_id: Seq<char>,
    events: Seq<HostEvent>,
    pos: int,
    r: Result<Result<T, ModuleRuntimeRpcError>, RpcOutcome>,
    found: spec_fn(ModuleProbe) -> bool,
) -> bool {
    if pos >= events.len() {
        asks_probe(r, module_id)
    } else {
        match events[pos] {
            HostEvent::Probed(q) => match existence_error(module_id, q.dir_exists) {
                Some(m) => refused(r, Status::InvalidArgument, m),
                None => found(q),
            },
            _ => mismatched(r),
        }
    }
}

/// Where reading stands after the first look of a request about a module.
pub open spec fn after_look(events: Seq<HostEvent>, pos: int) -> int {
    if pos >= events.len() {
        pos
    } else {
        pos + 1
    }
}

/// The look at a module's files read at `pos`, when it is one and the
/// module exists.
pub open spec fn existing_probe(module_id: Seq<char>, events: Seq<HostEvent>, pos: int) -> Option<ModuleProbe> {
    if 0 <= pos < events.len() {
        match events[pos] {
            HostEvent::Probed(q) => if existence_error(module_id, q.dir_exists) is None {
                Some(q)
            } else {
                None
            },
            _ => None,
        }
    } else {
        None
    }
}

/// A stop of `module_id` read from event `pos` on takes the runtime from
/// `o` to `n`, ends reading at `end` and answers `r`: the module must
/// exist, then its stop script runs and is committed with `Stopped` (a
/// failure is `module_stop_failed`).
pub open spec fn stop_outcome(
    o: ModuleRuntime,
    n: ModuleRuntime,
    module_id: Seq<char>,
    events: Seq<HostEvent>,
    pos: int,
    end: int,
    r: Result<Result<(), ModuleRuntimeRpcError>, RpcOutcome>,
) -> bool {
    match existing_probe(module_id, events, pos) {
        Some(q) => op_step(
            o,
            n,
            q,
            module_id,
            "stop"@,
            ModuleState::Stopped,
            "ksu_dsapi_error=module_stop_failed"@,
            events,
            pos + 1,
            end,
            r,
        ),
        None => existing_read(module_id, events, pos, r, |q: ModuleProbe| false) && n == o && end == after_look(
            events,
            pos,
        ),
    }
}

/// Why a module may not start: it must exist, be known and be enabled.
pub open spec fn start_refusal(o: ModuleRuntime, module_id: Seq<char>, dir_exists: bool) -> Option<Seq<char>> {
    match existence_error(module_id, dir_exists) {
        Some(m) => Some(m),
        None => if !o.reg()@.contains_key(module_id) {
            Some("ksu_dsapi_error=module_not_found"@)
        } else if !o.reg()@[module_id].enabled {
            Some("ksu_dsapi_error=module_disabled"@)
        } else {
            None
        },
    }
}

/// A module may not start only because it is disabled.
pub open spec fn start_disabled(o: ModuleRuntime, module_id: Seq<char>, dir_exists: bool) -> bool {
    existence_error(module_id, dir_exists) is None && o.reg()@.contains_key(module_id) && !o.reg()@[module_id].enabled
}

/// A start of `module_id` read from event `pos` on takes the runtime from
/// `o` to `n`, ends reading at `end` and answers `r`: after a look at its
/// files the module must exist, be known and be enabled (a disabled one
/// gets `E_MODULE_DISABLED` recorded), then its start script runs and is
/// committed with `Ready` (a failure is `module_start_failed`).
pub open spec fn start_outcome(
    o: ModuleRuntime,
    n: ModuleRuntime,
    module_id: Seq<char>,
    now: u64,
    events: Seq<HostEvent>,
    pos: int,
    end: int,
    r: Result<Result<(), ModuleRuntimeRpcError>, RpcOutcome>,
) -> bool {
    if pos >= events.len() {
        asks_probe(r, module_id) && n == o && end == pos
    } else {
        match events[pos] {
            HostEvent::Probed(q) => match start_refusal(o, module_id, q.dir_exists) {
                Some(m) => {
                    &&& refused(r, Status::InvalidArgument, m)
                    &&& end == pos + 1
                    &&& !start_disabled(o, module_id, q.dir_exists) ==> same_state(o, n)
                    &&& start_disabled(o, module_id, q.dir_exists) ==> error_recorded(
                        o,
                        n,
                        module_id,
                        "E_MODULE_DISABLED"@,
                        "module_disabled"@,
                        "op=start"@,
                        now,
                    )
                },
                None => op_step(
                    o,
                    n,
                    q,
                    module_id,
                    "start"@,
                    ModuleState::Ready,
                    "ksu_dsapi_error=module_start_failed"@,
                    events,
                    pos + 1,
                    end,
                    r,
                ),
            },
            _ => mismatched(r) && n == o && end == pos + 1,
        }
    }
}

/// What comes after a stop inside a request: when the stop asked for
/// something or ended the request (`r1` is `Err`), that is the answer and
/// the runtime stays as the stop left it; else `then` holds.
pub open spec fn after_stop(
    r1: Result<Result<(), ModuleRuntimeRpcError>, RpcOutcome>,
    s: ModuleRuntime,
    k: int,
    n: ModuleRuntime,
    end: int,
    r: Result<Result<(), ModuleRuntimeRpcError>, RpcOutcome>,
    then: bool,
) -> bool {
    &&& r1 is Err ==> r == r1 && n == s && end == k
    &&& r1 is Ok ==> then
}

/// A request about a module that does not get past its first look (an
/// event run out or of another kind, or no such module) leaves the
/// runtime as it was and gives that answer.
pub open spec fn not_existing<T>(
    o: ModuleRuntime,
    n: ModuleRuntime,
    module_id: Seq<char>,
    events: Seq<HostEvent>,
    pos: int,
    end: int,
    r: Result<Result<T, ModuleRuntimeRpcError>, RpcOutcome>,
) -> bool {
    existing_read(module_id, events, pos, r, |q: ModuleProbe| false) && n == o && end == after_look(events, pos)
}

/// A reload of `module_id` read from event `pos` on: the module must
/// exist; it is stopped, and unless the stop asked for something or ended
/// the request, started whatever the stop answered.
pub open spec fn reload_outcome(
    o: ModuleRuntime,
    n: ModuleRuntime,
    module_id: Seq<char>,
    now: u64,
    events: Seq<HostEvent>,
    pos: int,
    end: int,
    r: Result<Result<(), ModuleRuntimeRpcError>, RpcOutcome>,
) -> bool {
    match existing_probe(module_id, events, pos) {
        None => not_existing(o, n, module_id, events, pos, end, r),
        Some(_) => exists|s: ModuleRuntime, k: int, r1: Result<Result<(), ModuleRuntimeRpcError>, RpcOutcome>|
            #[trigger] stop_outcome(o, s, module_id, events, pos + 1, k, r1) && after_stop(
                r1,
                s,
                k,
                n,
                end,
                r,
                start_outcome(s, n, module_id, now, events, k, end, r),
            ),
    }
}

/// The host is asked for `a`, and nothing else happens.
pub open spec fn asks<T>(r: Result<T, RpcOutcome>, a: spec_fn(HostAction) -> bool) -> bool {
    r matches Err(RpcOutcome::Need(x)) && a(x)
}

/// File work on `module_id`'s disable flag or files, read at event `k`
/// of a request: asked for when the events have run out, a mismatch for
/// another event than a written flag, else `written` with what came of it.
pub open spec fn file_step(
    s: ModuleRuntime,
    n: ModuleRuntime,
    events: Seq<HostEvent>,
    k: int,
    end: int,
    r: Result<Result<(), ModuleRuntimeRpcError>, RpcOutcome>,
    wanted: spec_fn(HostAction) -> bool,
    written: spec_fn(bool) -> bool,
) -> bool {
    if k >= events.len() {
        asks(r, wanted) && n == s && end == k
    } else {
        end == k + 1 && match events[k] {
            HostEvent::Wrote(ok) => written(ok),
            _ => mismatched(r) && n == s,
        }
    }
}

/// A disable of `module_id` read from event `pos` on: the module must
/// exist; it is stopped, its disable flag written (`module_disable_write_failed`
/// when that fails) and its record marked disabled as `mark_disabled_at`
/// says (`module_not_found` when it has none).
pub open spec fn disable_outcome(
    o: ModuleRuntime,
    n: ModuleRuntime,
    module_id: Seq<char>,
    events: Seq<HostEvent>,
    pos: int,
    end: int,
    r: Result<Result<(), ModuleRuntimeRpcError>, RpcOutcome>,
) -> bool {
    match existing_probe(module_id, events, pos) {
        None => not_existing(o, n, module_id, events, pos, end, r),
        Some(_) => exists|s: ModuleRuntime, k: int, r1: Result<Result<(), ModuleRuntimeRpcError>, RpcOutcome>|
            #[trigger] stop_outcome(o, s, module_id, events, pos + 1, k, r1) && after_stop(
                r1,
                s,
                k,
                n,
                end,
                r,
                file_step(
                    s,
                    n,
                    events,
                    k,
                    end,
                    r,
                    |a: HostAction| a matches HostAction::WriteDisabledFlag { module_id: m } && m@ == module_id,
                    |ok: bool|
                        if !ok {
                            refused(r, Status::InternalError, "ksu_dsapi_error=module_disable_write_failed"@) && n == s
                        } else if !s.reg()@.contains_key(module_id) {
                            refused(r, Status::InvalidArgument, "ksu_dsapi_error=module_not_found"@) && n == s
                        } else {
                            (r matches Ok(Ok(_))) && marked_disabled(s, n, module_id)
                        },
                ),
            ),
    }
}

/// The record of `module_id` in `n` is that of `o` marked disabled.
pub open spec fn marked_disabled(o: ModuleRuntime, n: ModuleRuntime, module_id: Seq<char>) -> bool {
    let a = n.reg()@[module_id];
    let b = o.reg()@[module_id];
    &&& n.scopes() == o.scopes()
    &&& n.reg()@.dom() == o.reg()@.dom()
    &&& !a.enabled && a.state == ModuleState::Disabled && a.reason@ == "disabled"@
    &&& a.name == b.name && a.last_error == b.last_error && a.main_cap == b.main_cap
}

/// The record of `module_id` in `n` is that of `o` marked enabled.
pub open spec fn marked_enabled(o: ModuleRuntime, n: ModuleRuntime, module_id: Seq<char>) -> bool {
    let a = n.reg()@[module_id];
    let b = o.reg()@[module_id];
    &&& n.scopes() == o.scopes()
    &&& n.reg()@.dom() == o.reg()@.dom()
    &&& a.enabled
    &&& b.state == ModuleState::Disabled ==> a.state == ModuleState::Installed && a.reason@ == "-"@
    &&& b.state != ModuleState::Disabled ==> a.state == b.state && a.reason == b.reason
    &&& a.name == b.name && a.last_error == b.last_error && a.main_cap == b.main_cap
}

/// An enable of `module_id` read from event `pos` on: the module must
/// exist; its disable flag is removed (whatever comes of it) and its record
/// marked enabled as `mark_enabled_at` says (`module_not_found` when it
/// has none).
pub open spec fn enable_outcome(
    o: ModuleRuntime,
    n: ModuleRuntime,
    module_id: Seq<char>,
    events: Seq<HostEvent>,
    pos: int,
    end: int,
    r: Result<Result<(), ModuleRuntimeRpcError>, RpcOutcome>,
) -> bool {
    match existing_probe(module_id, events, pos) {
        None => not_existing(o, n, module_id, events, pos, end, r),
        Some(_) => file_step(
            o,
            n,
            events,
            pos + 1,
            end,
            r,
            |a: HostAction| a matches HostAction::RemoveDisabledFlag { module_id: m } && m@ == module_id,
            |ok: bool|
                if !o.reg()@.contains_key(module_id) {
                    refused(r, Status::InvalidArgument, "ksu_dsapi_error=module_not_found"@) && n == o
                } else {
                    (r matches Ok(Ok(_))) && marked_enabled(o, n, module_id)
                },
        ),
    }
}

/// A removal of `module_id` read from event `pos` on: the module must
/// exist; it is stopped, its files removed (whatever comes of it) and its
/// record and scope rules dropped.
pub open spec fn remove_outcome(
    o: ModuleRuntime,
    n: ModuleRuntime,
    module_id: Seq<char>,
    events: Seq<HostEvent>,
    pos: int,
    end: int,
    r: Result<Result<(), ModuleRuntimeRpcError>, RpcOutcome>,
) -> bool {
    match existing_probe(module_id, events, pos) {
        None => not_existing(o, n, module_id, events, pos, end, r),
        Some(_) => exists|s: ModuleRuntime, k: int, r1: Result<Result<(), ModuleRuntimeRpcError>, RpcOutcome>|
            #[trigger] stop_outcome(o, s, module_id, events, pos + 1, k, r1) && after_stop(
                r1,
                s,
                k,
                n,
                end,
                r,
                file_step(
                    s,
                    n,
                    events,
                    k,
                    end,
                    r,
                    |a: HostAction| a matches HostAction::RemoveModuleFiles { module_id: m } && m@ == module_id,
                    |ok: bool|
                        (r matches Ok(Ok(_))) && n.reg()@ == s.reg()@.remove(module_id) && n.scopes()@
                            == s.scopes()@.remove(module_id),
                ),
            ),
    }
}

/// The texts of lines.
pub open spec fn lines_view(v: Seq<String>) -> Seq<Seq<char>> {
    v.map_values(|s: String| s@)
}

/// The action rows of actions, in their order.
pub open spec fn action_rows_of(es: Seq<ActionEntry>) -> Seq<Seq<char>> {
    es.map_values(|e: ActionEntry| action_row_text(e.id@, e.name@, e.danger))
}

/// `rows` are the action rows of the action scripts `scripts`, in id order.
pub open spec fn action_rows_are(scripts: Seq<(String, String)>, rows: Seq<Seq<char>>) -> bool {
    exists|es: Seq<ActionEntry>|
        ids_sorted(es) && action_view(es) == actions_of(scripts) && rows == #[trigger] action_rows_of(es)
}

/// The environment row of an item's six fields: key, value, default,
/// type, label and description.
pub open spec fn env_row_fields(f: (Seq<char>, Seq<char>, Seq<char>, Seq<char>, Seq<char>, Seq<char>)) -> Seq<char> {
    "module_env_row="@ + pipe_sanitized(f.0) + "|"@ + pipe_sanitized(f.1) + "|"@ + pipe_sanitized(f.2) + "|"@
        + pipe_sanitized(f.3) + "|"@ + pipe_sanitized(f.4) + "|"@ + pipe_sanitized(f.5)
}

/// The environment rows of a module whose files are `p`: one per variable
/// its `env.spec` declares, with the value its `env.values` sets.
pub open spec fn env_rows_of(p: ModuleProbe) -> Seq<Seq<char>> {
    env_spec_items(text_lines(text_of(p.env_spec)), env_settings(text_lines(text_of(p.env_values)))).map_values(
        |f: (Seq<char>, Seq<char>, Seq<char>, Seq<char>, Seq<char>, Seq<char>)| env_row_fields(f),
    )
}

/// `text` is the `env.values` text of a module whose files are `q` after
/// `key` is set to `value` (`Some`) or unset (`None`): its settings, key
/// sorted.
pub open spec fn env_text_after(q: ModuleProbe, key: Seq<char>, value: Option<Seq<char>>, text: Seq<char>) -> bool {
    let before = env_settings(text_lines(text_of(q.env_values)));
    let after = match value {
        Some(v) => before.insert(key, v),
        None => before.remove(key),
    };
    exists|vs: Seq<EnvValue>| ids_sorted(vs) && env_view(vs) == after && text == #[trigger] env_values_text(vs)
}

/// A change of `module_id`'s environment value `key` read from event `pos`
/// on: the module must exist and the key be valid (else
/// `module_env_key_invalid`); the new `env.values` text is then written
/// (`failure` when that fails).
pub open spec fn env_change_outcome(
    module_id: Seq<char>,
    key: Seq<char>,
    value: Option<Seq<char>>,
    failure: Seq<char>,
    events: Seq<HostEvent>,
    pos: int,
    end: int,
    r: Result<Result<(), ModuleRuntimeRpcError>, RpcOutcome>,
) -> bool {
    match existing_probe(module_id, events, pos) {
        None => existing_read(module_id, events, pos, r, |q: ModuleProbe| false) && end == after_look(events, pos),
        Some(q) => if !env_key_ok(key) {
            refused(r, Status::InvalidArgument, "ksu_dsapi_error=module_env_key_invalid"@) && end == pos + 1
        } else if pos + 1 >= events.len() {
            (r matches Err(RpcOutcome::Need(HostAction::WriteEnvValues { module_id: m, text: t })) && m@ == module_id
                && env_text_after(q, key, value, t@)) && end == pos + 1
        } else {
            end == pos + 2 && match events[pos + 1] {
                HostEvent::Wrote(ok) => if ok {
                    r matches Ok(Ok(_))
                } else {
                    refused(r, Status::InternalError, failure)
                },
                _ => mismatched(r),
            }
        },
    }
}

/// An action run of `module_id`'s `action_id` for `scope`, read from event
/// `pos` on: `scope` must be allowed (else `scope_denied`, the registry
/// recording it), the module must exist and have that action script
/// (else `module_action_missing`); the script's outcome is committed with
/// `Ready`; a non-zero exit is `module_action_failed`, else the reply
/// carries what it printed.
pub open spec fn action_run_outcome(
    o: ModuleRuntime,
    n: ModuleRuntime,
    module_id: Seq<char>,
    action_id: Seq<char>,
    pkg: Seq<char>,
    user: i32,
    now: u64,
    events: Seq<HostEvent>,
    pos: int,
    end: int,
    r: Result<Result<String, ModuleRuntimeRpcError>, RpcOutcome>,
) -> bool {
    if !scope_verdict(o.scopes().rules_of(module_id), pkg, user) {
        scope_refused(o, n, module_id, pkg, user, now, r) && end == pos
    } else {
        match existing_probe(module_id, events, pos) {
            None => existing_read(module_id, events, pos, r, |q: ModuleProbe| false) && same_state(o, n) && end
                == after_look(events, pos),
            Some(q) => if !has_script(q.actions@, action_id) {
                refused(
                    r,
                    Status::InvalidArgument,
                    "ksu_dsapi_error=module_action_missing id="@ + module_id + " action="@ + action_id,
                ) && same_state(o, n) && end == pos + 1
            } else if pos + 1 >= events.len() {
                (r matches Err(RpcOutcome::Need(HostAction::RunAction { module_id: m, action_id: a })) && m@ == module_id
                    && a@ == action_id) && same_state(o, n) && end == pos + 1
            } else {
                end == pos + 2 && match events[pos + 1] {
                    HostEvent::Ran(Some(out)) => {
                        &&& exec_committed(o, n, module_id, out, ModuleState::Ready)
                        &&& out.code != 0 ==> refused(r, Status::InternalError, action_failed_text(module_id, action_id, out.code))
                        &&& out.code == 0 ==> (r matches Ok(Ok(t)) && t@ == action_run_text(
                            out.stdout@,
                            module_id,
                            action_id,
                            pkg,
                            user,
                        ))
                    },
                    HostEvent::Ran(None) => refused(r, Status::InternalError, "ksu_dsapi_error=module_action_exec_failed"@)
                        && same_state(o, n),
                    _ => mismatched(r) && same_state(o, n),
                }
            },
        }
    }
}

/// A status check of `module_id` read from event `pos` on takes the
/// runtime from `o` to `n`, ends reading at `end` and answers `r`: an
/// unknown module is `module_not_found`; after a look at its files, a
/// module with its disable flag becomes disabled; else its status script
/// (action `status`, or `cap_status` of its main capability) runs and its
/// outcome is folded in as `status_refreshed` says; with no script nothing
/// changes.
pub open spec fn refresh_outcome(
    o: ModuleRuntime,
    n: ModuleRuntime,
    module_id: Seq<char>,
    events: Seq<HostEvent>,
    pos: int,
    end: int,
    r: Result<Result<(), ModuleRuntimeRpcError>, RpcOutcome>,
) -> bool {
    if !o.reg()@.contains_key(module_id) {
        refused(r, Status::InvalidArgument, "ksu_dsapi_error=module_not_found"@) && n == o && end == pos
    } else if pos >= events.len() {
        asks_probe(r, module_id) && n == o && end == pos
    } else {
        match events[pos] {
            HostEvent::Probed(q) => if q.disabled {
                (r matches Ok(Ok(_))) && status_refreshed(o, n, module_id, true, None) && end == pos + 1
            } else if !op_runnable(q, "status"@) {
                (r matches Ok(Ok(_))) && status_refreshed(o, n, module_id, false, None) && end == pos + 1
            } else {
                &&& end == op_end(q, "status"@, events, pos + 1)
                &&& match op_finished(q, "status"@, events, pos + 1) {
                    None => op_unfinished(q, module_id, "status"@, events, pos + 1, r) && n == o,
                    Some(out) => (r matches Ok(Ok(_))) && status_refreshed(o, n, module_id, false, Some(out)),
                }
            },
            _ => mismatched(r) && n == o && end == pos + 1,
        }
    }
}

/// The content of a file that may not have been read.
pub open spec fn opt_text(t: Option<String>) -> Option<Seq<char>> {
    match t {
        Some(x) => Some(x@),
        None => None,
    }
}

/// A status reply with its text and look at the module's files taken as
/// values.
pub open spec fn status_view<'a>(r: Result<Result<(String, &'a ModuleProbe), ModuleRuntimeRpcError>, RpcOutcome>) -> Result<
    Result<(Seq<char>, ModuleProbe), ModuleRuntimeRpcError>,
    RpcOutcome,
> {
    match r {
        Ok(Ok((t, q))) => Ok(Ok((t@, *q))),
        Ok(Err(e)) => Ok(Err(e)),
        Err(x) => Err(x),
    }
}

/// The status text of `module_id` in `n`, read after a status check: a
/// look at its files at `k` gives the pid its state shows.
pub open spec fn shown_status(
    n: ModuleRuntime,
    module_id: Seq<char>,
    events: Seq<HostEvent>,
    k: int,
    end: int,
    rv: Result<Result<(Seq<char>, ModuleProbe), ModuleRuntimeRpcError>, RpcOutcome>,
) -> bool {
    if k >= events.len() {
        asks_probe(rv, module_id) && end == k
    } else {
        end == k + 1 && match events[k] {
            HostEvent::Probed(q) => rv == Ok::<Result<(Seq<char>, ModuleProbe), ModuleRuntimeRpcError>, RpcOutcome>(
                Ok((status_text(n.reg()@[module_id], pid_text(opt_text(q.pid))), q)),
            ),
            _ => mismatched(rv),
        }
    }
}

/// The status of `module_id` read from event `pos` on: a status check as
/// `refresh_outcome` says, then, when it succeeds, the status text with
/// the pid shown by another look at the module's files.
pub open spec fn status_text_outcome(
    o: ModuleRuntime,
    n: ModuleRuntime,
    module_id: Seq<char>,
    events: Seq<HostEvent>,
    pos: int,
    end: int,
    rv: Result<Result<(Seq<char>, ModuleProbe), ModuleRuntimeRpcError>, RpcOutcome>,
) -> bool {
    exists|k: int, r1: Result<Result<(), ModuleRuntimeRpcError>, RpcOutcome>|
        #[trigger] refresh_outcome(o, n, module_id, events, pos, k, r1) && match r1 {
            Err(x) => rv == Err::<Result<(Seq<char>, ModuleProbe), ModuleRuntimeRpcError>, RpcOutcome>(x) && end == k,
            Ok(Err(e)) => rv == Ok::<Result<(Seq<char>, ModuleProbe), ModuleRuntimeRpcError>, RpcOutcome>(Err(e)) && end
                == k,
            Ok(Ok(_)) => shown_status(n, module_id, events, k, end, rv),
        }
}

/// The description a module's description file gives: `MODULE_DESC`,
/// else `DSAPI_MODULE_DESC`, else `-`.
pub open spec fn desc_of(q: ModuleProbe) -> Seq<char> {
    let lines = split_on(text_of(q.meta_text), '\n');
    match crate::module_runtime::meta_lookup(lines, "MODULE_DESC"@ + "="@) {
        Some(v) => v,
        None => match crate::module_runtime::meta_lookup(lines, "DSAPI_MODULE_DESC"@ + "="@) {
            Some(v) => v,
            None => "-"@,
        },
    }
}

/// The first lines of a module's detail: id, name, kind, version,
/// description and status.
pub open spec fn detail_head(rec: ModuleRecord, q: ModuleProbe, status: Seq<char>) -> Seq<Seq<char>> {
    seq![
        "id="@ + rec.id@,
        "name="@ + pipe_sanitized(rec.name@),
        "kind="@ + pipe_sanitized(rec.kind@),
        "version="@ + pipe_sanitized(rec.version@),
        "desc="@ + pipe_sanitized(desc_of(q)),
        "status="@ + status,
    ]
}

/// `d` is the detail of a module with record `rec`, description from `q`,
/// status `status`, and action and environment rows from `q2`.
pub open spec fn detail_text_is(rec: ModuleRecord, q: ModuleProbe, status: Seq<char>, q2: ModuleProbe, d: Seq<char>) -> bool {
    exists|rows: Seq<Seq<char>>|
        #[trigger] action_rows_are(q2.actions@, rows) && d == crate::module_runtime::join_newline(
            detail_head(rec, q, status) + rows + env_rows_of(q2),
        )
}

/// The detail of `module_id` read from event `pos` on: a status check;
/// then a look at its files for its description; then its status as
/// `status_text_outcome` says, whose look gives the action and
/// environment rows.
pub open spec fn detail_outcome(
    o: ModuleRuntime,
    n: ModuleRuntime,
    module_id: Seq<char>,
    events: Seq<HostEvent>,
    pos: int,
    end: int,
    r: Result<Result<String, ModuleRuntimeRpcError>, RpcOutcome>,
) -> bool {
    exists|s: ModuleRuntime, k: int, r1: Result<Result<(), ModuleRuntimeRpcError>, RpcOutcome>|
        #[trigger] refresh_outcome(o, s, module_id, events, pos, k, r1) && match r1 {
            Err(x) => r == Err::<Result<String, ModuleRuntimeRpcError>, RpcOutcome>(x) && n == s && end == k,
            Ok(Err(e)) => r == Ok::<Result<String, ModuleRuntimeRpcError>, RpcOutcome>(Err(e)) && n == s && end == k,
            Ok(Ok(_)) => if k >= events.len() {
                asks_probe(r, module_id) && n == s && end == k
            } else {
                match events[k] {
                    HostEvent::Probed(q) => exists|rv: Result<Result<(Seq<char>, ModuleProbe), ModuleRuntimeRpcError>, RpcOutcome>|
                        #[trigger] status_text_outcome(s, n, module_id, events, k + 1, end, rv) && match rv {
                            Err(x) => r == Err::<Result<String, ModuleRuntimeRpcError>, RpcOutcome>(x),
                            Ok(Err(e)) => r == Ok::<Result<String, ModuleRuntimeRpcError>, RpcOutcome>(Err(e)),
                            Ok(Ok((t, q2))) => r matches Ok(Ok(d)) && detail_text_is(s.reg()@[module_id], q, t, q2, d@),
                        },
                    _ => mismatched(r) && n == s && end == k + 1,
                }
            },
        }
}

/// The ids of a runtime's records, in order.
pub open spec fn ids_of(o: ModuleRuntime) -> Seq<Seq<char>> {
    o.reg().entries().map_values(|e: ModuleRecord| e.id@)
}

/// `ss` and `ps` trace the first `ss.len() - 1` status checks of a listing
/// of `ids` from event `pos` on: the runtime and the reading position
/// before and after each; each succeeded and left its module known.
pub open spec fn checks_passed(
    o: ModuleRuntime,
    ids: Seq<Seq<char>>,
    events: Seq<HostEvent>,
    pos: int,
    ss: Seq<ModuleRuntime>,
    ps: Seq<int>,
) -> bool {
    &&& ss.len() == ps.len()
    &&& 1 <= ss.len() <= ids.len() + 1
    &&& ss[0] == o
    &&& ps[0] == pos
    &&& forall|j: int|
        0 <= j < ss.len() - 1 ==> #[trigger] refresh_outcome(
            ss[j],
            ss[j + 1],
            ids[j],
            events,
            ps[j],
            ps[j + 1],
            Ok(Ok(())),
        ) && ss[j + 1].reg()@.contains_key(ids[j])
}

/// The rows of the modules checked in the trace `ss`, each as its check
/// left it.
pub open spec fn listed_rows(ids: Seq<Seq<char>>, ss: Seq<ModuleRuntime>) -> Seq<Seq<char>> {
    Seq::new((ss.len() - 1) as nat, |j: int| crate::module_rpc::row_text(ss[j + 1].reg()@[ids[j]]))
}

/// The listing of every module read from event `pos` on: the modules are
/// checked in id order as `refresh_outcome` says; when all checks succeed
/// the reply is one row per module as its check left it, one per line;
/// else the first check that does not succeed gives the answer.
pub open spec fn list_outcome(
    o: ModuleRuntime,
    n: ModuleRuntime,
    events: Seq<HostEvent>,
    pos: int,
    end: int,
    r: Result<Result<String, ModuleRuntimeRpcError>, RpcOutcome>,
) -> bool {
    let ids = ids_of(o);
    exists|ss: Seq<ModuleRuntime>, ps: Seq<int>|
        #[trigger] checks_passed(o, ids, events, pos, ss, ps) && {
            let m = ss.len() - 1;
            if m == ids.len() {
                &&& n == ss[m]
                &&& end == ps[m]
                &&& r matches Ok(Ok(t)) && t@ == crate::module_runtime::join_newline(listed_rows(ids, ss))
            } else {
                exists|r1: Result<Result<(), ModuleRuntimeRpcError>, RpcOutcome>|
                    #[trigger] refresh_outcome(ss[m], n, ids[m], events, ps[m], end, r1) && match r1 {
                        Err(x) => r == Err::<Result<String, ModuleRuntimeRpcError>, RpcOutcome>(x),
                        Ok(Err(e)) => r == Ok::<Result<String, ModuleRuntimeRpcError>, RpcOutcome>(Err(e)),
                        Ok(Ok(_)) => !n.reg()@.contains_key(ids[m]) && refused(
                            r,
                            Status::InvalidArgument,
                            "ksu_dsapi_error=module_not_found"@,
                        ),
                    }
            }
        }
}

/// A module that a reload of every module for `scope` picks: enabled, and
/// `scope` may drive it.
pub open spec fn picked(s: ModuleRuntime, module_id: Seq<char>, pkg: Seq<char>, user: i32) -> bool {
    s.reg()@[module_id].enabled && scope_verdict(s.scopes().rules_of(module_id), pkg, user)
}

/// One module of a reload of every module: it is known in `s`; when picked
/// it is reloaded as `reload_outcome` says, taking the runtime to `t` and
/// reading from `p` to `q`, and answers (`failed`: with an error); when not
/// nothing happens.
pub open spec fn reload_step(
    s: ModuleRuntime,
    t: ModuleRuntime,
    module_id: Seq<char>,
    pkg: Seq<char>,
    user: i32,
    now: u64,
    events: Seq<HostEvent>,
    p: int,
    q: int,
    selected: bool,
    failed: bool,
) -> bool {
    &&& s.reg()@.contains_key(module_id)
    &&& selected == picked(s, module_id, pkg, user)
    &&& selected ==> exists|r1: Result<Result<(), ModuleRuntimeRpcError>, RpcOutcome>|
        #[trigger] reload_outcome(s, t, module_id, now, events, p, q, r1) && (r1 matches Ok(x) && failed == x is Err)
    &&& !selected ==> t == s && q == p && !failed
}

/// `ss`, `ps`, `sel` and `fails` trace the first `sel.len()` modules of a
/// reload of every module `ids` for `scope` from event `pos` on: the
/// runtime and the reading position before and after each, whether it was
/// picked and whether its reload failed.
pub open spec fn reloads_done(
    o: ModuleRuntime,
    ids: Seq<Seq<char>>,
    pkg: Seq<char>,
    user: i32,
    now: u64,
    events: Seq<HostEvent>,
    pos: int,
    ss: Seq<ModuleRuntime>,
    ps: Seq<int>,
    sel: Seq<bool>,
    fails: Seq<bool>,
) -> bool {
    &&& ss.len() == ps.len()
    &&& ss.len() == sel.len() + 1
    &&& fails.len() == sel.len()
    &&& sel.len() <= ids.len()
    &&& ss[0] == o
    &&& ps[0] == pos
    &&& forall|j: int|
        0 <= j < sel.len() ==> #[trigger] reload_step(ss[j], ss[j + 1], ids[j], pkg, user, now, events, ps[j], ps[j + 1], sel[j], fails[j])
}

/// How many of `bs` are set.
pub open spec fn count_set(bs: Seq<bool>) -> nat
    decreases bs.len(),
{
    if bs.len() == 0 {
        0
    } else {
        count_set(bs.drop_last()) + if bs.last() {
            1nat
        } else {
            0nat
        }
    }
}

/// The ids among `ids` whose flag in `bs` is set, in order.
pub open spec fn ids_set(ids: Seq<Seq<char>>, bs: Seq<bool>) -> Seq<Seq<char>>
    decreases bs.len(),
{
    if bs.len() == 0 {
        Seq::empty()
    } else {
        let rest = ids_set(ids, bs.drop_last());
        if bs.last() {
            rest.push(ids[bs.len() - 1])
        } else {
            rest
        }
    }
}

/// The reply to a reload of every module with `total` picked, `failed`
/// failed, namely `failed_ids`: a line that counts them and names those,
/// an internal error with that line when some failed.
pub open spec fn reload_all_answer(
    r: Result<Result<String, ModuleRuntimeRpcError>, RpcOutcome>,
    total: nat,
    failed: nat,
    failed_ids: Seq<Seq<char>>,
) -> bool {
    let line = "module_action=reloaded_all total="@ + crate::text::decimal_text(total) + " failed="@
        + crate::text::decimal_text(failed) + " failed_ids="@ + crate::module_rpc::joined_ids(failed_ids);
    &&& failed == 0 ==> (r matches Ok(Ok(t)) && t@ == line)
    &&& failed > 0 ==> refused(r, Status::InternalError, line)
}

/// A reload of every module that `scope` may drive, read from event `pos`
/// on: the modules are taken in id order; each enabled one that `scope`
/// may drive is reloaded as `reload_outcome` says; the reply counts them
/// (at most `u32::MAX`) and names those whose reload failed. A reload that
/// asks for something or ends the request gives the answer; a module no
/// longer known is `module_lookup_failed`.
pub open spec fn reload_all_outcome(
    o: ModuleRuntime,
    n: ModuleRuntime,
    pkg: Seq<char>,
    user: i32,
    now: u64,
    events: Seq<HostEvent>,
    pos: int,
    end: int,
    r: Result<Result<String, ModuleRuntimeRpcError>, RpcOutcome>,
) -> bool {
    let ids = ids_of(o);
    exists|ss: Seq<ModuleRuntime>, ps: Seq<int>, sel: Seq<bool>, fails: Seq<bool>|
        #[trigger] reloads_done(o, ids, pkg, user, now, events, pos, ss, ps, sel, fails) && {
            let m = sel.len() as int;
            if m == ids.len() {
                &&& n == ss[m]
                &&& end == ps[m]
                &&& reload_all_answer(
                    r,
                    crate::module_registry::min_u32(count_set(sel)),
                    crate::module_registry::min_u32(count_set(fails)),
                    ids_set(ids, fails),
                )
            } else if !ss[m].reg()@.contains_key(ids[m]) {
                refused(r, Status::InternalError, "ksu_dsapi_error=module_lookup_failed"@) && n == ss[m] && end == ps[m]
            } else {
                &&& picked(ss[m], ids[m], pkg, user)
                &&& exists|r1: Result<Result<(), ModuleRuntimeRpcError>, RpcOutcome>|
                    #[trigger] reload_outcome(ss[m], n, ids[m], now, events, ps[m], end, r1) && (r1 matches Err(x) && r
                        == Err::<Result<String, ModuleRuntimeRpcError>, RpcOutcome>(x))
            }
        }
}

/// The answer of a request that ends with its one-line reply: what the step
/// `r1` answered, a success giving the line that `done_text` makes of the
/// request and of the runtime `n` after it.
pub open spec fn done_answer(
    q: RpcShape,
    n: ModuleRuntime,
    r1: Result<Result<(), ModuleRuntimeRpcError>, RpcOutcome>,
    r: Result<Result<String, ModuleRuntimeRpcError>, RpcOutcome>,
) -> bool {
    match r1 {
        Err(x) => r == Err::<Result<String, ModuleRuntimeRpcError>, RpcOutcome>(x),
        Ok(Err(e)) => r == Ok::<Result<String, ModuleRuntimeRpcError>, RpcOutcome>(Err(e)),
        Ok(Ok(_)) => match crate::module_rpc::done_text(q, n.reg().entries().len(), n.reg().spec_event_seq() as nat) {
            Some(t) => r matches Ok(Ok(s)) && s@ == t,
            None => r matches Ok(Err(e)) && e.status == Status::InternalError,
        },
    }
}

/// A refusal by `module_id`'s scope rules of package `pkg` and user `user`
/// at time `now`: the answer is `scope_denied` with what the refusal tells,
/// and the module's record and the registry's last error carry
/// `E_SCOPE_DENIED` as `error_recorded` says.
pub open spec fn scope_refused(
    o: ModuleRuntime,
    n: ModuleRuntime,
    module_id: Seq<char>,
    pkg: Seq<char>,
    user: i32,
    now: u64,
    r: Result<Result<String, ModuleRuntimeRpcError>, RpcOutcome>,
) -> bool {
    let detail = crate::module_runtime::scope_denied_detail(o.scopes().rules_of(module_id), module_id, pkg, user);
    &&& r matches Ok(Err(e)) && e.status == Status::InvalidArgument && e.body@ == "ksu_dsapi_error=scope_denied "@
        + crate::module_runtime::token_sanitized(detail)
    &&& error_recorded(o, n, module_id, "E_SCOPE_DENIED"@, "scope_denied"@, detail, now)
}

/// A request that drives `module_id` for package `pkg` and user `user`:
/// when the module's scope rules refuse them the answer is as
/// `scope_refused` says (reading does not move); else `then`.
pub open spec fn scope_gated(
    o: ModuleRuntime,
    n: ModuleRuntime,
    module_id: Seq<char>,
    pkg: Seq<char>,
    user: i32,
    now: u64,
    pos: int,
    end: int,
    r: Result<Result<String, ModuleRuntimeRpcError>, RpcOutcome>,
    then: bool,
) -> bool {
    if !scope_verdict(o.scopes().rules_of(module_id), pkg, user) {
        scope_refused(o, n, module_id, pkg, user, now, r) && end == pos
    } else {
        then
    }
}

/// Setting the policy `allow` of `pkg` and `user` for `module_id`, whose
/// directory exists when `dir_exists`: the module must exist and the
/// package name be valid (`scope_package_invalid`); the module's rules are
/// then as `rules_after_set` says and those of other modules stay.
pub open spec fn scope_set_done(
    o: ModuleRuntime,
    n: ModuleRuntime,
    module_id: Seq<char>,
    dir_exists: bool,
    pkg: Seq<char>,
    user: i32,
    allow: bool,
    r1: Result<(), ModuleRuntimeRpcError>,
) -> bool {
    &&& n.reg() == o.reg()
    &&& match existence_error(module_id, dir_exists) {
        Some(m) => (r1 matches Err(e) && e.status == Status::InvalidArgument && e.body@ == m) && n.scopes()@ == o.scopes()@,
        None => if !crate::module_runtime::package_ok(pkg) {
            (r1 matches Err(e) && e.status == Status::InvalidArgument && e.body@ == "ksu_dsapi_error=scope_package_invalid"@)
                && n.scopes()@ == o.scopes()@
        } else {
            &&& r1 is Ok
            &&& crate::module_runtime::rules_after_set(o.scopes().rules_of(module_id), n.scopes().rules_of(module_id), pkg, user, allow)
            &&& forall|k: Seq<char>| k != module_id ==> #[trigger] n.scopes().rules_of(k) == o.scopes().rules_of(k)
        },
    }
}

/// Dropping the scope rules of `module_id`, whose directory exists when
/// `dir_exists`: the module must exist.
pub open spec fn scope_clear_done(
    o: ModuleRuntime,
    n: ModuleRuntime,
    module_id: Seq<char>,
    dir_exists: bool,
    r1: Result<(), ModuleRuntimeRpcError>,
) -> bool {
    &&& n.reg() == o.reg()
    &&& match existence_error(module_id, dir_exists) {
        Some(m) => (r1 matches Err(e) && e.status == Status::InvalidArgument && e.body@ == m) && n.scopes()@ == o.scopes()@,
        None => r1 is Ok && n.scopes()@ == o.scopes()@.remove(module_id),
    }
}

/// A scope change of `module_id` read from event `pos` on: a look at the
/// module's files (asked for when the events have run out), then `done`
/// with whether its directory exists.
pub open spec fn scope_change(
    o: ModuleRuntime,
    n: ModuleRuntime,
    module_id: Seq<char>,
    events: Seq<HostEvent>,
    pos: int,
    end: int,
    r: Result<Result<String, ModuleRuntimeRpcError>, RpcOutcome>,
    done: spec_fn(bool) -> bool,
) -> bool {
    if pos >= events.len() {
        asks_probe(r, module_id) && n == o && end == pos
    } else {
        end == pos + 1 && match events[pos] {
            HostEvent::Probed(p) => done(p.dir_exists),
            _ => mismatched(r) && n == o,
        }
    }
}

/// The status request of `module_id` read from event `pos` on: its status
/// as `status_text_outcome` says, answered as `module_status id=<id> <status>`.
pub open spec fn status_reply(
    o: ModuleRuntime,
    n: ModuleRuntime,
    module_id: Seq<char>,
    events: Seq<HostEvent>,
    pos: int,
    end: int,
    r: Result<Result<String, ModuleRuntimeRpcError>, RpcOutcome>,
) -> bool {
    exists|rv: Result<Result<(Seq<char>, ModuleProbe), ModuleRuntimeRpcError>, RpcOutcome>|
        #[trigger] status_text_outcome(o, n, module_id, events, pos, end, rv) && match rv {
            Err(x) => r == Err::<Result<String, ModuleRuntimeRpcError>, RpcOutcome>(x),
            Ok(Err(e)) => r == Ok::<Result<String, ModuleRuntimeRpcError>, RpcOutcome>(Err(e)),
            Ok(Ok((t, _))) => r matches Ok(Ok(s)) && s@ == "module_status id="@ + module_id + " "@ + t,
        }
}

/// An environment change request `q` of `module_id`'s `key` read from
/// event `pos` on: the change as `env_change_outcome` says, the runtime
/// unchanged, a success answered with its one line.
pub open spec fn env_reply(
    o: ModuleRuntime,
    n: ModuleRuntime,
    q: RpcShape,
    module_id: Seq<char>,
    key: Seq<char>,
    value: Option<Seq<char>>,
    failure: Seq<char>,
    events: Seq<HostEvent>,
    pos: int,
    end: int,
    r: Result<Result<String, ModuleRuntimeRpcError>, RpcOutcome>,
) -> bool {
    &&& n == o
    &&& exists|r1: Result<Result<(), ModuleRuntimeRpcError>, RpcOutcome>|
        #[trigger] env_change_outcome(module_id, key, value, failure, events, pos, end, r1) && done_answer(q, o, r1, r)
}

/// A module request `request` from a peer with uid `peer_uid`, once the
/// modules found on disk `disk` are known: the registry is brought in line
/// with them (`synced_from_disk`); a request that cannot be read is refused
/// with the reading's error; else it is carried out from the second event
/// on as `dispatch_outcome` says, an answer to be saved, or a request to
/// the host.
pub open spec fn handled(
    o: ModuleRuntime,
    n: ModuleRuntime,
    disk: Seq<DiskModule>,
    request: Seq<char>,
    peer_uid: u32,
    events: Seq<HostEvent>,
    now: u64,
    r: RpcOutcome,
) -> bool {
    exists|s: ModuleRuntime|
        #[trigger] crate::module_runtime::synced_from_disk(o, s, disk, now) && s.wf() && match crate::module_runtime::rpc_parse(
            ws_tokens(request),
            peer_uid as i32,
        ) {
            Err(m) => n == s && (r matches RpcOutcome::Done { reply: Err(e), save: true } && e.status
                == Status::InvalidArgument && e.body@ == m),
            Ok(q) => exists|end: int, rd: Result<Result<String, ModuleRuntimeRpcError>, RpcOutcome>|
                #[trigger] dispatch_outcome(s, n, q, now, events, 1, end, rd) && match rd {
                    Err(x) => r == x,
                    Ok(reply) => r == RpcOutcome::Done { reply, save: true },
                },
        }
}

/// A request word that names one module and must have exactly one word
/// after it, or one that names a module first (`MODULE_START`,
/// `MODULE_RELOAD`) and must have at least one.
pub open spec fn id_word_arity_wrong(toks: Seq<Seq<char>>) -> bool {
    let w = upper_seq(toks[0]);
    let n = toks.len() - 1;
    ||| (w == "MODULE_STATUS"@ || w == "MODULE_DETAIL"@ || w == "MODULE_STOP"@ || w == "MODULE_DISABLE"@
        || w == "MODULE_ENABLE"@ || w == "MODULE_REMOVE"@ || w == "MODULE_ACTION_LIST"@ || w
        == "MODULE_ENV_LIST"@ || w == "MODULE_SCOPE_CLEAR"@) && n != 1
    ||| (w == "MODULE_START"@ || w == "MODULE_RELOAD"@) && n == 0
}

/// A request that names no module where one is needed is refused with
/// `module_id_missing`, once the registry is in line with the disk, and
/// nothing else is done: no script runs, no module changes.
pub proof fn lemma_module_id_missing(
    o: ModuleRuntime,
    n: ModuleRuntime,
    disk: Seq<DiskModule>,
    request: Seq<char>,
    peer_uid: u32,
    events: Seq<HostEvent>,
    now: u64,
    r: RpcOutcome,
)
    requires
        ws_tokens(request).len() > 0,
        id_word_arity_wrong(ws_tokens(request)),
        handled(o, n, disk, request, peer_uid, events, now, r),
    ensures
        r matches RpcOutcome::Done { reply: Err(e), save: true } && e.status == Status::InvalidArgument && e.body@
            == "ksu_dsapi_error=module_id_missing"@,
        crate::module_runtime::synced_from_disk(o, n, disk, now),
{
    reveal_strlit("MODULE_SYNC");
    reveal_strlit("MODULE_LIST");
    reveal_strlit("MODULE_STATUS");
    reveal_strlit("MODULE_DETAIL");
    reveal_strlit("MODULE_START");
    reveal_strlit("MODULE_STOP");
    reveal_strlit("MODULE_RELOAD");
    reveal_strlit("MODULE_RELOAD_ALL");
    reveal_strlit("MODULE_DISABLE");
    reveal_strlit("MODULE_ENABLE");
    reveal_strlit("MODULE_REMOVE");
    reveal_strlit("MODULE_ACTION_LIST");
    reveal_strlit("MODULE_ACTION_RUN");
    reveal_strlit("MODULE_ENV_LIST");
    reveal_strlit("MODULE_ENV_SET");
    reveal_strlit("MODULE_ENV_UNSET");
    reveal_strlit("MODULE_SCOPE_LIST");
    reveal_strlit("MODULE_SCOPE_SET");
    reveal_strlit("MODULE_SCOPE_CLEAR");
    let toks = ws_tokens(request);
    assert(toks.drop_first().len() == toks.len() - 1);
    if upper_seq(toks[0]) == "MODULE_STATUS"@ {
        assert("MODULE_STATUS"@.len() != "MODULE_SYNC"@.len());
        assert("MODULE_STATUS"@.len() != "MODULE_LIST"@.len());
        assert(crate::module_runtime::rpc_parse(toks, peer_uid as i32) == Err::<RpcShape, Seq<char>>(crate::module_runtime::rpc_missing_id()));
    }
    if upper_seq(toks[0]) == "MODULE_DETAIL"@ {
        assert("MODULE_DETAIL"@.len() != "MODULE_SYNC"@.len());
        assert("MODULE_DETAIL"@.len() != "MODULE_LIST"@.len());
        assert("MODULE_DETAIL"@[7] != "MODULE_STATUS"@[7]);
        assert(crate::module_runtime::rpc_parse(toks, peer_uid as i32) == Err::<RpcShape, Seq<char>>(crate::module_runtime::rpc_missing_id()));
    }
    if upper_seq(toks[0]) == "MODULE_STOP"@ {
        assert("MODULE_STOP"@[8] != "MODULE_SYNC"@[8]);
        assert("MODULE_STOP"@[7] != "MODULE_LIST"@[7]);
        assert("MODULE_STOP"@.len() != "MODULE_STATUS"@.len());
        assert("MODULE_STOP"@.len() != "MODULE_DETAIL"@.len());
        assert("MODULE_STOP"@.len() != "MODULE_START"@.len());
        assert(crate::module_runtime::rpc_parse(toks, peer_uid as i32) == Err::<RpcShape, Seq<char>>(crate::module_runtime::rpc_missing_id()));
    }
    if upper_seq(toks[0]) == "MODULE_DISABLE"@ {
        assert("MODULE_DISABLE"@.len() != "MODULE_SYNC"@.len());
        assert("MODULE_DISABLE"@.len() != "MODULE_LIST"@.len());
        assert("MODULE_DISABLE"@.len() != "MODULE_STATUS"@.len());
        assert("MODULE_DISABLE"@.len() != "MODULE_DETAIL"@.len());
        assert("MODULE_DISABLE"@.len() != "MODULE_START"@.len());
        assert("MODULE_DISABLE"@.len() != "MODULE_STOP"@.len());
        assert("MODULE_DISABLE"@.len() != "MODULE_RELOAD"@.len());
        assert("MODULE_DISABLE"@.len() != "MODULE_RELOAD_ALL"@.len());
        assert(crate::module_runtime::rpc_parse(toks, peer_uid as i32) == Err::<RpcShape, Seq<char>>(crate::module_runtime::rpc_missing_id()));
    }
    if upper_seq(toks[0]) == "MODULE_ENABLE"@ {
        assert("MODULE_ENABLE"@.len() != "MODULE_SYNC"@.len());
        assert("MODULE_ENABLE"@.len() != "MODULE_LIST"@.len());
        assert("MODULE_ENABLE"@[7] != "MODULE_STATUS"@[7]);
        assert("MODULE_ENABLE"@[7] != "MODULE_DETAIL"@[7]);
        assert("MODULE_ENABLE"@.len() != "MODULE_START"@.len());
        assert("MODULE_ENABLE"@.len() != "MODULE_STOP"@.len());
        assert("MODULE_ENABLE"@[7] != "MODULE_RELOAD"@[7]);
        assert("MODULE_ENABLE"@.len() != "MODULE_RELOAD_ALL"@.len());
        assert("MODULE_ENABLE"@.len() != "MODULE_DISABLE"@.len());
        assert(crate::module_runtime::rpc_parse(toks, peer_uid as i32) == Err::<RpcShape, Seq<char>>(crate::module_runtime::rpc_missing_id()));
    }
    if upper_seq(toks[0]) == "MODULE_REMOVE"@ {
        assert("MODULE_REMOVE"@.len() != "MODULE_SYNC"@.len());
        assert("MODULE_REMOVE"@.len() != "MODULE_LIST"@.len());
        assert("MODULE_REMOVE"@[7] != "MODULE_STATUS"@[7]);
        assert("MODULE_REMOVE"@[7] != "MODULE_DETAIL"@[7]);
        assert("MODULE_REMOVE"@.len() != "MODULE_START"@.len());
        assert("MODULE_REMOVE"@.len() != "MODULE_STOP"@.len());
        assert("MODULE_REMOVE"@[9] != "MODULE_RELOAD"@[9]);
        assert("MODULE_REMOVE"@.len() != "MODULE_RELOAD_ALL"@.len());
        assert("MODULE_REMOVE"@.len() != "MODULE_DISABLE"@.len());
        assert("MODULE_REMOVE"@[7] != "MODULE_ENABLE"@[7]);
        assert(crate::module_runtime::rpc_parse(toks, peer_uid as i32) == Err::<RpcShape, Seq<char>>(crate::module_runtime::rpc_missing_id()));
    }
    if upper_seq(toks[0]) == "MODULE_ACTION_LIST"@ {
        assert("MODULE_ACTION_LIST"@.len() != "MODULE_SYNC"@.len());
        assert("MODULE_ACTION_LIST"@.len() != "MODULE_LIST"@.len());
        assert("MODULE_ACTION_LIST"@.len() != "MODULE_STATUS"@.len());
        assert("MODULE_ACTION_LIST"@.len() != "MODULE_DETAIL"@.len());
        assert("MODULE_ACTION_LIST"@.len() != "MODULE_START"@.len());
        assert("MODULE_ACTION_LIST"@.len() != "MODULE_STOP"@.len());
        assert("MODULE_ACTION_LIST"@.len() != "MODULE_RELOAD"@.len());
        assert("MODULE_ACTION_LIST"@.len() != "MODULE_RELOAD_ALL"@.len());
        assert("MODULE_ACTION_LIST"@.len() != "MODULE_DISABLE"@.len());
        assert("MODULE_ACTION_LIST"@.len() != "MODULE_ENABLE"@.len());
        assert("MODULE_ACTION_LIST"@.len() != "MODULE_REMOVE"@.len());
        assert(crate::module_runtime::rpc_parse(toks, peer_uid as i32) == Err::<RpcShape, Seq<char>>(crate::module_runtime::rpc_missing_id()));
    }
    if upper_seq(toks[0]) == "MODULE_ENV_LIST"@ {
        assert("MODULE_ENV_LIST"@.len() != "MODULE_SYNC"@.len());
        assert("MODULE_ENV_LIST"@.len() != "MODULE_LIST"@.len());
        assert("MODULE_ENV_LIST"@.len() != "MODULE_STATUS"@.len());
        assert("MODULE_ENV_LIST"@.len() != "MODULE_DETAIL"@.len());
        assert("MODULE_ENV_LIST"@.len() != "MODULE_START"@.len());
        assert("MODULE_ENV_LIST"@.len() != "MODULE_STOP"@.len());
        assert("MODULE_ENV_LIST"@.len() != "MODULE_RELOAD"@.len());
        assert("MODULE_ENV_LIST"@.len() != "MODULE_RELOAD_ALL"@.len());
        assert("MODULE_ENV_LIST"@.len() != "MODULE_DISABLE"@.len());
        assert("MODULE_ENV_LIST"@.len() != "MODULE_ENABLE"@.len());
        assert("MODULE_ENV_LIST"@.len() != "MODULE_REMOVE"@.len());
        assert("MODULE_ENV_LIST"@.len() != "MODULE_ACTION_LIST"@.len());
        assert("MODULE_ENV_LIST"@.len() != "MODULE_ACTION_RUN"@.len());
        assert(crate::module_runtime::rpc_parse(toks, peer_uid as i32) == Err::<RpcShape, Seq<char>>(crate::module_runtime::rpc_missing_id()));
    }
    if upper_seq(toks[0]) == "MODULE_SCOPE_CLEAR"@ {
        assert("MODULE_SCOPE_CLEAR"@.len() != "MODULE_SYNC"@.len());
        assert("MODULE_SCOPE_CLEAR"@.len() != "MODULE_LIST"@.len());
        assert("MODULE_SCOPE_CLEAR"@.len() != "MODULE_STATUS"@.len());
        assert("MODULE_SCOPE_CLEAR"@.len() != "MODULE_DETAIL"@.len());
        assert("MODULE_SCOPE_CLEAR"@.len() != "MODULE_START"@.len());
        assert("MODULE_SCOPE_CLEAR"@.len() != "MODULE_STOP"@.len());
        assert("MODULE_SCOPE_CLEAR"@.len() != "MODULE_RELOAD"@.len());
        assert("MODULE_SCOPE_CLEAR"@.len() != "MODULE_RELOAD_ALL"@.len());
        assert("MODULE_SCOPE_CLEAR"@.len() != "MODULE_DISABLE"@.len());
        assert("MODULE_SCOPE_CLEAR"@.len() != "MODULE_ENABLE"@.len());
        assert("MODULE_SCOPE_CLEAR"@.len() != "MODULE_REMOVE"@.len());
        assert("MODULE_SCOPE_CLEAR"@[7] != "MODULE_ACTION_LIST"@[7]);
        assert("MODULE_SCOPE_CLEAR"@.len() != "MODULE_ACTION_RUN"@.len());
        assert("MODULE_SCOPE_CLEAR"@.len() != "MODULE_ENV_LIST"@.len());
        assert("MODULE_SCOPE_CLEAR"@.len() != "MODULE_ENV_SET"@.len());
        assert("MODULE_SCOPE_CLEAR"@.len() != "MODULE_ENV_UNSET"@.len());
        assert("MODULE_SCOPE_CLEAR"@.len() != "MODULE_SCOPE_LIST"@.len());
        assert("MODULE_SCOPE_CLEAR"@.len() != "MODULE_SCOPE_SET"@.len());
        assert(crate::module_runtime::rpc_parse(toks, peer_uid as i32) == Err::<RpcShape, Seq<char>>(crate::module_runtime::rpc_missing_id()));
    }
    if upper_seq(toks[0]) == "MODULE_START"@ {
        assert("MODULE_START"@.len() != "MODULE_SYNC"@.len());
        assert("MODULE_START"@.len() != "MODULE_LIST"@.len());
        assert("MODULE_START"@.len() != "MODULE_STATUS"@.len());
        assert("MODULE_START"@.len() != "MODULE_DETAIL"@.len());
        assert(crate::module_runtime::rpc_parse(toks, peer_uid as i32) == Err::<RpcShape, Seq<char>>(crate::module_runtime::rpc_missing_id()));
    }
    if upper_seq(toks[0]) == "MODULE_RELOAD"@ {
        assert("MODULE_RELOAD"@.len() != "MODULE_SYNC"@.len());
        assert("MODULE_RELOAD"@.len() != "MODULE_LIST"@.len());
        assert("MODULE_RELOAD"@[7] != "MODULE_STATUS"@[7]);
        assert("MODULE_RELOAD"@[7] != "MODULE_DETAIL"@[7]);
        assert("MODULE_RELOAD"@.len() != "MODULE_START"@.len());
        assert("MODULE_RELOAD"@.len() != "MODULE_STOP"@.len());
        assert(crate::module_runtime::rpc_parse(toks, peer_uid as i32) == Err::<RpcShape, Seq<char>>(crate::module_runtime::rpc_missing_id()));
    }
    assert(crate::module_runtime::rpc_parse(toks, peer_uid as i32) == Err::<RpcShape, Seq<char>>(
        crate::module_runtime::rpc_missing_id(),
    ));
    let s = choose|s: ModuleRuntime|
        #[trigger] crate::module_runtime::synced_from_disk(o, s, disk, now) && s.wf() && match crate::module_runtime::rpc_parse(
            toks,
            peer_uid as i32,
        ) {
            Err(m) => n == s && (r matches RpcOutcome::Done { reply: Err(e), save: true } && e.status
                == Status::InvalidArgument && e.body@ == m),
            Ok(q) => exists|end: int, rd: Result<Result<String, ModuleRuntimeRpcError>, RpcOutcome>|
                #[trigger] dispatch_outcome(s, n, q, now, events, 1, end, rd) && match rd {
                    Err(x) => r == x,
                    Ok(reply) => r == RpcOutcome::Done { reply, save: true },
                },
        };
}

/// A module whose disable flag the disk shows stays disabled after the
/// registry is brought in line with the disk, and so may not start: a start
/// is refused with `module_disabled` and records `E_MODULE_DISABLED`.
pub proof fn lemma_disabled_stays_refused(o: ModuleRuntime, s: ModuleRuntime, disk: Seq<DiskModule>, now: u64, i: int)
    requires
        0 <= i < disk.len(),
        id_ok(disk[i].module_id@),
        disk[i].disabled,
        crate::module_runtime::synced_from_disk(o, s, disk, now),
    ensures
        start_disabled(s, disk[i].module_id@, true),
        start_refusal(s, disk[i].module_id@, true) == Some("ksu_dsapi_error=module_disabled"@),
{
    let id = disk[i].module_id@;
    assert(crate::module_runtime::on_disk(disk, id));
    assert(s.reg()@.contains_key(id));
    assert(crate::module_runtime::disk_synced(s.reg()@[id], disk[i], o.reg()@, now));
}

/// A parsed module request `q` carried out against the host's events from
/// `pos` on: the runtime goes from `o` to `n`, reading ends at `end`, and
/// the answer is `r`, as each kind of request's own outcome says.
pub open spec fn dispatch_outcome(
    o: ModuleRuntime,
    n: ModuleRuntime,
    q: RpcShape,
    now: u64,
    events: Seq<HostEvent>,
    pos: int,
    end: int,
    r: Result<Result<String, ModuleRuntimeRpcError>, RpcOutcome>,
) -> bool {
    match q {
        RpcShape::Sync => n == o && end == pos && done_answer(q, o, Ok(Ok(())), r),
        RpcShape::List => list_outcome(o, n, events, pos, end, r),
        RpcShape::Status(id) => status_reply(o, n, id, events, pos, end, r),
        RpcShape::Detail(id) => detail_outcome(o, n, id, events, pos, end, r),
        RpcShape::Start(id, pkg, user) => scope_gated(
            o,
            n,
            id,
            pkg,
            user,
            now,
            pos,
            end,
            r,
            exists|s: ModuleRuntime, r1: Result<Result<(), ModuleRuntimeRpcError>, RpcOutcome>|
                same_state(o, s) && #[trigger] start_outcome(s, n, id, now, events, pos, end, r1) && done_answer(q, n, r1, r),
        ),
        RpcShape::Stop(id) => exists|r1: Result<Result<(), ModuleRuntimeRpcError>, RpcOutcome>|
            #[trigger] stop_outcome(o, n, id, events, pos, end, r1) && done_answer(q, n, r1, r),
        RpcShape::Reload(id, pkg, user) => scope_gated(
            o,
            n,
            id,
            pkg,
            user,
            now,
            pos,
            end,
            r,
            exists|s: ModuleRuntime, r1: Result<Result<(), ModuleRuntimeRpcError>, RpcOutcome>|
                same_state(o, s) && #[trigger] reload_outcome(s, n, id, now, events, pos, end, r1) && done_answer(q, n, r1, r),
        ),
        RpcShape::ReloadAll(pkg, user) => reload_all_outcome(o, n, pkg, user, now, events, pos, end, r),
        RpcShape::Disable(id) => exists|r1: Result<Result<(), ModuleRuntimeRpcError>, RpcOutcome>|
            #[trigger] disable_outcome(o, n, id, events, pos, end, r1) && done_answer(q, n, r1, r),
        RpcShape::Enable(id) => exists|r1: Result<Result<(), ModuleRuntimeRpcError>, RpcOutcome>|
            #[trigger] enable_outcome(o, n, id, events, pos, end, r1) && done_answer(q, n, r1, r),
        RpcShape::Remove(id) => exists|r1: Result<Result<(), ModuleRuntimeRpcError>, RpcOutcome>|
            #[trigger] remove_outcome(o, n, id, events, pos, end, r1) && done_answer(q, n, r1, r),
        RpcShape::ActionList(id) => n == o && end == after_look(events, pos) && existing_read(
            id,
            events,
            pos,
            r,
            |p: ModuleProbe|
                r matches Ok(Ok(s)) && exists|rows: Seq<Seq<char>>|
                    #[trigger] action_rows_are(p.actions@, rows) && s@ == crate::module_runtime::join_newline(rows),
        ),
        RpcShape::ActionRun(id, a, pkg, user) => action_run_outcome(o, n, id, a, pkg, user, now, events, pos, end, r),
        RpcShape::EnvList(id) => n == o && end == after_look(events, pos) && existing_read(
            id,
            events,
            pos,
            r,
            |p: ModuleProbe| r matches Ok(Ok(s)) && s@ == crate::module_runtime::join_newline(env_rows_of(p)),
        ),
        RpcShape::EnvSet(id, key, value) => env_reply(
            o,
            n,
            q,
            id,
            key,
            Some(value),
            "ksu_dsapi_error=module_env_set_failed"@,
            events,
            pos,
            end,
            r,
        ),
        RpcShape::EnvUnset(id, key) => env_reply(
            o,
            n,
            q,
            id,
            key,
            None,
            "ksu_dsapi_error=module_env_unset_failed"@,
            events,
            pos,
            end,
            r,
        ),
        RpcShape::ScopeList(m) => n == o && end == pos && (r matches Ok(Ok(s)) && s@ == match m {
            Some(id) => crate::module_runtime::join_newline(crate::module_runtime::scope_rows(id, o.scopes().rules_of(id))),
            None => crate::module_runtime::join_newline(crate::module_runtime::table_rows(o.scopes().entries(), false)),
        }),
        RpcShape::ScopeSet(id, pkg, user, allow) => scope_change(
            o,
            n,
            id,
            events,
            pos,
            end,
            r,
            |dir: bool|
                exists|r1: Result<(), ModuleRuntimeRpcError>|
                    #[trigger] scope_set_done(o, n, id, dir, pkg, user, allow, r1) && done_answer(
                        q,
                        n,
                        Ok::<Result<(), ModuleRuntimeRpcError>, RpcOutcome>(r1),
                        r,
                    ),
        ),
        RpcShape::ScopeClear(id) => scope_change(
            o,
            n,
            id,
            events,
            pos,
            end,
            r,
            |dir: bool|
                exists|r1: Result<(), ModuleRuntimeRpcError>|
                    #[trigger] scope_clear_done(o, n, id, dir, r1) && done_answer(
                        q,
                        n,
                        Ok::<Result<(), ModuleRuntimeRpcError>, RpcOutcome>(r1),
                        r,
                    ),
        ),
    }
}

fn script_present(scripts: &Vec<(String, String)>, id: &str) -> (r: bool)
    ensures
        r == has_script(scripts@, id@),
{
    let idc = chars_of(id);
    let mut i: usize = 0;
    while i < scripts.len()
        invariant
            i <= scripts@.len(),
            idc@ == id@,
            forall|j: int| 0 <= j < i ==> (#[trigger] scripts@[j]).0@ != id@,
        decreases scripts@.len() - i,
    {
        if crate::text::chars_same(&chars_of(scripts[i].0.as_str()), &idc) {
            return true;
        }
        i += 1;
    }
    false
}

/// The stem of the main capability script a probe shows, as
/// `main_cap_index` picks it with the description's `MAIN_CAP_ID`.
fn probe_main_cap(p: &ModuleProbe) -> (r: Option<String>)
    ensures
        main_cap_is(
            *p,
            match r {
                Some(s) => Some(s@),
                None => None,
            },
        ),
{
    let meta = text_or_empty(&p.meta_text);
    let configured = module_meta_with_alias(meta, "MAIN_CAP_ID", "DSAPI_MAIN_CAP_ID", "");
    match main_cap_index(configured.as_str(), &p.caps) {
        Some(i) => {
            assert(is_main_cap(configured_main_cap(*p), p.caps@, i as int));
            Some(p.caps[i].0.clone())
        },
        None => None,
    }
}

fn text_or_empty(t: &Option<String>) -> (r: &str)
    ensures
        match t {
            Some(x) => r@ == x@,
            None => r@ == Seq::<char>::empty(),
        },
{
    match t {
        Some(x) => x.as_str(),
        None => {
            let e = "";
            proof {
                reveal_strlit("");
            }
            e
        },
    }
}

fn invalid(msg: &str) -> (r: Result<(), ModuleRuntimeRpcError>)
    ensures
        r matches Err(e) && e.status == Status::InvalidArgument && e.body@ == msg@,
{
    Err(ModuleRuntimeRpcError::invalid(msg))
}

fn internal(msg: &str) -> (r: Result<(), ModuleRuntimeRpcError>)
    ensures
        r matches Err(e) && e.status == Status::InternalError && e.body@ == msg@,
{
    Err(ModuleRuntimeRpcError::internal(msg))
}

/// The error of an action script that is not there.
fn action_missing_error(module_id: &str, action_id: &str) -> (r: ModuleRuntimeRpcError)
    ensures
        r.status == Status::InvalidArgument,
        r.body@ == "ksu_dsapi_error=module_action_missing id="@ + module_id@ + " action="@ + action_id@,
{
    let mut v: Vec<char> = Vec::new();
    push_str(&mut v, "ksu_dsapi_error=module_action_missing id=");
    push_str(&mut v, module_id);
    push_str(&mut v, " action=");
    push_str(&mut v, action_id);
    ModuleRuntimeRpcError::invalid(string_from_chars(&v).as_str())
}

/// `prefix` then `body`.
fn prefixed(prefix: &str, body: &str) -> (r: String)
    ensures
        r@ == prefix@ + body@,
{
    let mut v: Vec<char> = Vec::new();
    push_str(&mut v, prefix);
    push_str(&mut v, body);
    string_from_chars(&v)
}

impl ModuleRuntime {
    /// Runs the script that stands for `op` (`start`, `stop` or `status`):
    /// the module's action script of that name when it has one, else the
    /// `cap_<op>` function of its main capability; a module with neither is
    /// the error `main_cap_missing`, a script that cannot be started an
    /// internal error.
    fn run_op_script<'a>(p: &ModuleProbe, module_id: &str, op: &str, log: &mut HostLog<'a>) -> (r: Result<Result<&'a ExecOutput, ModuleRuntimeRpcError>, RpcOutcome>)
        requires
            old(log).pos <= old(log).events@.len(),
        ensures
            log_moved(*old(log), *final(log)),
            final(log).pos == op_end(*p, op@, old(log).events@, old(log).pos as int),
            match op_finished(*p, op@, old(log).events@, old(log).pos as int) {
                Some(o) => r matches Ok(Ok(x)) && *x == o,
                None => op_unfinished(*p, module_id@, op@, old(log).events@, old(log).pos as int, r),
            },
    {
        if script_present(&p.actions, op) {
            match log.ran(HostAction::RunAction { module_id: module_id.to_owned(), action_id: op.to_owned() }) {
                Err(o) => Err(o),
                Ok(None) => Ok(Err(ModuleRuntimeRpcError::internal("ksu_dsapi_error=module_action_exec_failed"))),
                Ok(Some(out)) => Ok(Ok(out)),
            }
        } else {
            match probe_main_cap(p) {
                None => Ok(Err(ModuleRuntimeRpcError::invalid("ksu_dsapi_error=main_cap_missing"))),
                Some(stem) => {
                    let func = prefixed("cap_", op);
                    match log.ran(HostAction::RunCap { module_id: module_id.to_owned(), cap_stem: stem, func }) {
                        Err(o) => Err(o),
                        Ok(None) => Ok(Err(ModuleRuntimeRpcError::internal("ksu_dsapi_error=module_cap_exec_failed"))),
                        Ok(Some(out)) => Ok(Ok(out)),
                    }
                },
            }
        }
    }

    /// Checks a module's status: an unknown module is `module_not_found`;
    /// a module with its disable flag becomes disabled; else its status
    /// script (action `status`, or `cap_status` of its main capability)
    /// runs and its outcome is folded in as `refresh_status_at` says; with
    /// no script nothing changes.
    fn rpc_refresh(&mut self, module_id: &str, log: &mut HostLog, now: u64) -> (r: Result<Result<(), ModuleRuntimeRpcError>, RpcOutcome>)
        requires
            old(self).wf(),
            old(log).pos <= old(log).events@.len(),
        ensures
            final(self).wf(),
            log_moved(*old(log), *final(log)),
            refresh_outcome(*old(self), *final(self), module_id@, old(log).events@, old(log).pos as int, final(log).pos as int, r),
            !old(self).reg()@.contains_key(module_id@) ==> (r matches Ok(Err(e)) && e.body@ == "ksu_dsapi_error=module_not_found"@)
                && final(self).reg() == old(self).reg(),
    {
        if self.get(module_id).is_none() {
            return Ok(invalid("ksu_dsapi_error=module_not_found"));
        }
        let p = match log.probe(module_id) {
            Err(o) => return Err(o),
            Ok(p) => p,
        };
        if p.disabled {
            return Ok(self.refresh_status_at(module_id, true, None, now));
        }
        if script_present(&p.actions, "status") || probe_main_cap(p).is_some() {
            match ModuleRuntime::run_op_script(p, module_id, "status", log) {
                Err(o) => Err(o),
                Ok(Err(e)) => Ok(Err(e)),
                Ok(Ok(out)) => Ok(self.refresh_status_at(module_id, false, Some(out), now)),
            }
        } else {
            Ok(self.refresh_status_at(module_id, false, None, now))
        }
    }

    /// Starts a module: the checks of `start_gate_at`, then its start
    /// script, whose outcome is committed as `finish_exec_at` says (a
    /// failure is `module_start_failed`).
    fn rpc_start(&mut self, module_id: &str, log: &mut HostLog, now: u64) -> (r: Result<Result<(), ModuleRuntimeRpcError>, RpcOutcome>)
        requires
            old(self).wf(),
            old(log).pos <= old(log).events@.len(),
        ensures
            final(self).wf(),
            log_moved(*old(log), *final(log)),
            start_outcome(*old(self), *final(self), module_id@, now, old(log).events@, old(log).pos as int, final(log).pos as int, r),
    {
        let p = match log.probe(module_id) {
            Err(o) => return Err(o),
            Ok(p) => p,
        };
        match self.start_gate_at(module_id, p.dir_exists, now) {
            Err(e) => return Ok(Err(e)),
            Ok(()) => {},
        }
        match ModuleRuntime::run_op_script(p, module_id, "start", log) {
            Err(o) => Err(o),
            Ok(Err(e)) => Ok(Err(e)),
            Ok(Ok(out)) => Ok(self.finish_exec_at(module_id, out, ModuleState::Ready, "ksu_dsapi_error=module_start_failed", now)),
        }
    }

    /// Stops a module: it must exist, then its stop script runs and its
    /// outcome is committed as `finish_exec_at` says (a failure is
    /// `module_stop_failed`).
    fn rpc_stop(&mut self, module_id: &str, log: &mut HostLog, now: u64) -> (r: Result<Result<(), ModuleRuntimeRpcError>, RpcOutcome>)
        requires
            old(self).wf(),
            old(log).pos <= old(log).events@.len(),
        ensures
            final(self).wf(),
            log_moved(*old(log), *final(log)),
            stop_outcome(*old(self), *final(self), module_id@, old(log).events@, old(log).pos as int, final(log).pos as int, r),
    {
        let p = match log.probe(module_id) {
            Err(o) => return Err(o),
            Ok(p) => p,
        };
        match ModuleRuntime::ensure_module_exists(module_id, p.dir_exists) {
            Err(e) => return Ok(Err(e)),
            Ok(()) => {},
        }
        match ModuleRuntime::run_op_script(p, module_id, "stop", log) {
            Err(o) => Err(o),
            Ok(Err(e)) => Ok(Err(e)),
            Ok(Ok(out)) => Ok(self.finish_exec_at(module_id, out, ModuleState::Stopped, "ksu_dsapi_error=module_stop_failed", now)),
        }
    }

    /// Looks at a module that must exist; gives its files.
    fn rpc_existing<'a>(module_id: &str, log: &mut HostLog<'a>) -> (r: Result<Result<&'a ModuleProbe, ModuleRuntimeRpcError>, RpcOutcome>)
        requires
            old(log).pos <= old(log).events@.len(),
        ensures
            log_moved(*old(log), *final(log)),
            final(log).pos == after_look(old(log).events@, old(log).pos as int),
            existing_read(module_id@, old(log).events@, old(log).pos as int, r, |q: ModuleProbe| r matches Ok(Ok(x)) && *x == q),
    {
        let p = match log.probe(module_id) {
            Err(o) => return Err(o),
            Ok(p) => p,
        };
        match ModuleRuntime::ensure_module_exists(module_id, p.dir_exists) {
            Err(e) => Ok(Err(e)),
            Ok(()) => Ok(Ok(p)),
        }
    }

    /// Reloads a module: it must exist; it is stopped (whatever comes of
    /// it), then started.
    fn rpc_reload(&mut self, module_id: &str, log: &mut HostLog, now: u64) -> (r: Result<Result<(), ModuleRuntimeRpcError>, RpcOutcome>)
        requires
            old(self).wf(),
            old(log).pos <= old(log).events@.len(),
        ensures
            final(self).wf(),
            log_moved(*old(log), *final(log)),
            reload_outcome(*old(self), *final(self), module_id@, now, old(log).events@, old(log).pos as int, final(log).pos as int, r),
    {
        match ModuleRuntime::rpc_existing(module_id, log) {
            Err(o) => return Err(o),
            Ok(Err(e)) => return Ok(Err(e)),
            Ok(Ok(_)) => {},
        }
        let st = self.rpc_stop(module_id, log, now);
        let ghost mid = *self;
        let ghost k = log.pos as int;
        let ghost r1 = st;
        match st {
            Err(o) => return Err(o),
            Ok(_) => {},
        }
        let r = self.rpc_start(module_id, log, now);
        assert(stop_outcome(*old(self), mid, module_id@, old(log).events@, old(log).pos + 1, k, r1));
        r
    }

    /// The status text of a module after a status check, with the pid its
    /// state shows then; also gives that look at its files.
    fn rpc_status_text<'a>(&mut self, module_id: &str, log: &mut HostLog<'a>, now: u64) -> (r: Result<Result<(String, &'a ModuleProbe), ModuleRuntimeRpcError>, RpcOutcome>)
        requires
            old(self).wf(),
            old(log).pos <= old(log).events@.len(),
        ensures
            final(self).wf(),
            log_moved(*old(log), *final(log)),
            status_text_outcome(*old(self), *final(self), module_id@, old(log).events@, old(log).pos as int, final(log).pos as int, status_view(r)),
    {
        match self.rpc_refresh(module_id, log, now) {
            Err(o) => return Err(o),
            Ok(Err(e)) => return Ok(Err(e)),
            Ok(Ok(())) => {},
        }
        let rec = match self.get(module_id) {
            None => return Ok(Err(ModuleRuntimeRpcError::invalid("ksu_dsapi_error=module_not_found"))),
            Some(r) => r,
        };
        let p = match log.probe(module_id) {
            Err(o) => return Err(o),
            Ok(p) => p,
        };
        let pid = match &p.pid {
            Some(t) => module_last_pid(Some(t.as_str())),
            None => module_last_pid(None),
        };
        Ok(Ok((module_status_text(&rec, pid.as_str()), p)))
    }

    /// The action rows of a module's scripts, in id order.
    fn action_rows(p: &ModuleProbe, lines: &mut Vec<String>)
        ensures
            exists|rows: Seq<Seq<char>>|
                action_rows_are(p.actions@, rows) && lines_view(final(lines)@) == lines_view(old(lines)@) + rows,
    {
        let entries = action_entries(&p.actions);
        let ghost start = lines_view(lines@);
        let mut i: usize = 0;
        while i < entries.len()
            invariant
                i <= entries@.len(),
                lines_view(lines@) == start + action_rows_of(entries@.take(i as int)),
            decreases entries@.len() - i,
        {
            let e = &entries[i];
            let row = module_action_row(e.id.as_str(), e.name.as_str(), e.danger);
            let ghost before = lines@;
            lines.push(row);
            proof {
                assert(entries@.take(i + 1) =~= entries@.take(i as int).push(entries@[i as int]));
                assert(action_rows_of(entries@.take(i + 1)) =~= action_rows_of(entries@.take(i as int)).push(row@));
                assert(lines_view(lines@) =~= lines_view(before).push(row@));
            }
            i += 1;
        }
        assert(entries@.take(entries@.len() as int) =~= entries@);
        assert(action_rows_are(p.actions@, action_rows_of(entries@)));
    }

    /// The environment rows of a module's declared variables.
    fn env_rows(p: &ModuleProbe, lines: &mut Vec<String>)
        ensures
            lines_view(final(lines)@) == lines_view(old(lines)@) + env_rows_of(*p),
    {
        let values = parse_env_values(text_or_empty(&p.env_values));
        let items = module_env_items(text_or_empty(&p.env_spec), &values);
        let ghost start = lines_view(lines@);
        let ghost rows = items@.map_values(|i: crate::module_files::EnvSpecItem| crate::module_files::item_fields(i)).map_values(
            |f: (Seq<char>, Seq<char>, Seq<char>, Seq<char>, Seq<char>, Seq<char>)| env_row_fields(f),
        );
        let mut i: usize = 0;
        while i < items.len()
            invariant
                i <= items@.len(),
                rows.len() == items@.len(),
                forall|j: int| 0 <= j < items@.len() ==> #[trigger] rows[j] == crate::module_files::env_row_text(items@[j]),
                lines_view(lines@) == start + rows.take(i as int),
            decreases items@.len() - i,
        {
            let row = module_env_row(&items[i]);
            let ghost before = lines@;
            lines.push(row);
            proof {
                assert(rows.take(i + 1) =~= rows.take(i as int).push(row@));
                assert(lines_view(lines@) =~= lines_view(before).push(row@));
            }
            i += 1;
        }
        assert(rows.take(items@.len() as int) =~= rows);
        assert(rows =~= env_rows_of(*p));
    }

    /// The detail of a module: its id, name, kind, version, description
    /// and status lines, then its action rows and environment rows.
    fn rpc_detail(&mut self, module_id: &str, log: &mut HostLog, now: u64) -> (r: Result<Result<String, ModuleRuntimeRpcError>, RpcOutcome>)
        requires
            old(self).wf(),
            old(log).pos <= old(log).events@.len(),
        ensures
            final(self).wf(),
            log_moved(*old(log), *final(log)),
            detail_outcome(*old(self), *final(self), module_id@, old(log).events@, old(log).pos as int, final(log).pos as int, r),
    {
        let r1 = self.rpc_refresh(module_id, log, now);
        let ghost s1 = *self;
        let ghost k1 = log.pos as int;
        let ghost g1 = r1;
        assert(refresh_outcome(*old(self), s1, module_id@, old(log).events@, old(log).pos as int, k1, g1));
        match r1 {
            Err(o) => return Err(o),
            Ok(Err(e)) => return Ok(Err(e)),
            Ok(Ok(())) => {},
        }
        let rec = match self.get(module_id) {
            None => return Ok(Err(ModuleRuntimeRpcError::invalid("ksu_dsapi_error=module_not_found"))),
            Some(r) => r,
        };
        let p = match log.probe(module_id) {
            Err(o) => return Err(o),
            Ok(p) => p,
        };
        let desc = module_meta_with_alias(text_or_empty(&p.meta_text), "MODULE_DESC", "DSAPI_MODULE_DESC", "-");
        let r2 = self.rpc_status_text(module_id, log, now);
        let ghost rv = status_view(r2);
        assert(status_text_outcome(s1, *self, module_id@, old(log).events@, k1 + 1, log.pos as int, rv));
        let (status, q) = match r2 {
            Err(o) => return Err(o),
            Ok(Err(e)) => return Ok(Err(e)),
            Ok(Ok(v)) => v,
        };
        let mut lines: Vec<String> = Vec::new();
        lines.push(prefixed("id=", rec.id.as_str()));
        lines.push(prefixed("name=", crate::module_runtime::sanitize_pipe_field(rec.name.as_str()).as_str()));
        lines.push(prefixed("kind=", crate::module_runtime::sanitize_pipe_field(rec.kind.as_str()).as_str()));
        lines.push(prefixed("version=", crate::module_runtime::sanitize_pipe_field(rec.version.as_str()).as_str()));
        lines.push(prefixed("desc=", crate::module_runtime::sanitize_pipe_field(desc.as_str()).as_str()));
        lines.push(prefixed("status=", status.as_str()));
        let ghost head = lines_view(lines@);
        assert(head =~= detail_head(rec, *p, status@));
        ModuleRuntime::action_rows(q, &mut lines);
        let ghost rows = choose|rows: Seq<Seq<char>>|
            action_rows_are(q.actions@, rows) && lines_view(lines@) == head + rows;
        ModuleRuntime::env_rows(q, &mut lines);
        let d = join_lines(&lines);
        proof {
            assert(lines_view(lines@) == head + rows + env_rows_of(*q));
            assert(detail_text_is(rec, *p, status@, *q, d@));
        }
        Ok(Ok(d))
    }
}


/// The ids of the records, in order.
fn record_ids(rt: &ModuleRuntime) -> (r: Vec<String>)
    requires
        rt.wf(),
    ensures
        r@.map_values(|s: String| s@) == rt.reg().entries().map_values(|e: crate::module_registry::ModuleRecord| e.id@),
{
    let recs = rt.list();
    let mut ids: Vec<String> = Vec::new();
    let mut i: usize = 0;
    while i < recs.len()
        invariant
            i <= recs@.len(),
            recs@ == rt.reg().entries(),
            ids@.len() == i,
            forall|j: int| 0 <= j < i ==> #[trigger] ids@[j]@ == recs@[j].id@,
        decreases recs@.len() - i,
    {
        ids.push(recs[i].id.clone());
        i += 1;
    }
    assert(ids@.map_values(|s: String| s@) =~= recs@.map_values(|e: crate::module_registry::ModuleRecord| e.id@));
    ids
}

/// A one-line reply built by `rpc_done_line`.
fn done_reply(q: &ModuleRpcRequest, total: u64, event_seq: u64) -> (r: Result<String, ModuleRuntimeRpcError>)
    ensures
        match crate::module_rpc::done_text(q@, total as nat, event_seq as nat) {
            Some(t) => r matches Ok(s) && s@ == t,
            None => r matches Err(e) && e.status == Status::InternalError,
        },
{
    match rpc_done_line(q, total, event_seq) {
        Some(line) => Ok(line),
        None => Err(ModuleRuntimeRpcError::internal("ksu_dsapi_error=module_rpc_unknown_command")),
    }
}

/// No valid id occurs twice among the modules found on disk.
fn disk_ids_distinct(disk: &Vec<DiskModule>) -> (r: bool)
    ensures
        r == (forall|i: int, j: int|
            0 <= i < j < disk@.len() && id_ok(disk@[i].module_id@) ==> disk@[i].module_id@ != disk@[j].module_id@),
{
    let mut i: usize = 0;
    while i < disk.len()
        invariant
            i <= disk@.len(),
            forall|a: int, b: int|
                0 <= a < i && a < b < disk@.len() && id_ok(disk@[a].module_id@) ==> disk@[a].module_id@
                    != disk@[b].module_id@,
        decreases disk@.len() - i,
    {
        let a = chars_of(disk[i].module_id.as_str());
        if crate::module_registry::chars_id_ok(&a) {
            let mut j: usize = i + 1;
            while j < disk.len()
                invariant
                    i < disk@.len(),
                    i < j <= disk@.len(),
                    a@ == disk@[i as int].module_id@,
                    id_ok(a@),
                    forall|b: int| i < b < j ==> disk@[i as int].module_id@ != disk@[b].module_id@,
                decreases disk@.len() - j,
            {
                if crate::text::chars_same(&a, &chars_of(disk[j].module_id.as_str())) {
                    assert(id_ok(disk@[i as int].module_id@) && disk@[i as int].module_id@ == disk@[j as int].module_id@);
                    return false;
                }
                j += 1;
            }
        }
        i += 1;
    }
    true
}

impl ModuleRuntime {
    /// The listing of every module, one row per line, each after a status
    /// check; the first failing check is the reply.
    fn rpc_list(&mut self, log: &mut HostLog, now: u64) -> (r: Result<Result<String, ModuleRuntimeRpcError>, RpcOutcome>)
        requires
            old(self).wf(),
            old(log).pos <= old(log).events@.len(),
        ensures
            final(self).wf(),
            log_moved(*old(log), *final(log)),
            list_outcome(*old(self), *final(self), old(log).events@, old(log).pos as int, final(log).pos as int, r),
    {
        let ids = record_ids(self);
        let ghost o = *self;
        let ghost idv = ids_of(o);
        let ghost ev = log.events@;
        let ghost p0 = log.pos as int;
        let ghost mut ss: Seq<ModuleRuntime> = seq![o];
        let ghost mut ps: Seq<int> = seq![p0];
        let mut lines: Vec<String> = Vec::new();
        let mut i: usize = 0;
        assert(lines_view(lines@) =~= listed_rows(idv, ss));
        while i < ids.len()
            invariant
                self.wf(),
                log_moved(*old(log), *log),
                o == *old(self),
                ev == old(log).events@,
                p0 == old(log).pos,
                idv == ids_of(o),
                lines_view(ids@) == idv,
                i <= ids@.len(),
                ss.len() == i + 1,
                checks_passed(o, idv, ev, p0, ss, ps),
                *self == ss[i as int],
                log.pos == ps[i as int],
                lines_view(lines@) == listed_rows(idv, ss),
            decreases ids@.len() - i,
        {
            let ghost before = *self;
            let ghost pb = log.pos as int;
            let r1 = self.rpc_refresh(ids[i].as_str(), log, now);
            assert(idv[i as int] == ids@[i as int]@);
            let ghost g1 = r1;
            match r1 {
                Err(o) => {
                    assert(refresh_outcome(ss[i as int], *self, idv[i as int], ev, ps[i as int], log.pos as int, g1));
                    return Err(o);
                },
                Ok(Err(e)) => {
                    assert(refresh_outcome(ss[i as int], *self, idv[i as int], ev, ps[i as int], log.pos as int, g1));
                    return Ok(Err(e));
                },
                Ok(Ok(())) => {},
            }
            match self.get(ids[i].as_str()) {
                None => {
                    assert(refresh_outcome(ss[i as int], *self, idv[i as int], ev, ps[i as int], log.pos as int, g1));
                    return Ok(Err(ModuleRuntimeRpcError::invalid("ksu_dsapi_error=module_not_found")));
                },
                Some(rec) => {
                    let row = module_row_text(&rec);
                    let ghost lb = lines@;
                    lines.push(row);
                    proof {
                        let ss2 = ss.push(*self);
                        let ps2 = ps.push(log.pos as int);
                        assert(refresh_outcome(ss2[i as int], ss2[i + 1], idv[i as int], ev, ps2[i as int], ps2[i + 1], Ok(Ok(()))));
                        assert forall|j: int| 0 <= j < ss2.len() - 1 implies #[trigger] refresh_outcome(
                            ss2[j],
                            ss2[j + 1],
                            idv[j],
                            ev,
                            ps2[j],
                            ps2[j + 1],
                            Ok(Ok(())),
                        ) && ss2[j + 1].reg()@.contains_key(idv[j]) by {
                            if j < i {
                                assert(ss2[j] == ss[j] && ss2[j + 1] == ss[j + 1] && ps2[j] == ps[j] && ps2[j + 1] == ps[j + 1]);
                            }
                        }
                        assert(lines_view(lines@) =~= lines_view(lb).push(row@));
                        assert(listed_rows(idv, ss2) =~= listed_rows(idv, ss).push(row@));
                        ss = ss2;
                        ps = ps2;
                    }
                },
            }
            i += 1;
        }
        let t = join_lines(&lines);
        assert(checks_passed(o, idv, ev, p0, ss, ps));
        Ok(Ok(t))
    }

    /// Reloads every enabled module that `scope` may drive; the reply
    /// counts them and names those that failed, and is an error when some
    /// did.
    fn rpc_reload_all(&mut self, scope: &ScopeContext, log: &mut HostLog, now: u64) -> (r: Result<Result<String, ModuleRuntimeRpcError>, RpcOutcome>)
        requires
            old(self).wf(),
            old(log).pos <= old(log).events@.len(),
        ensures
            final(self).wf(),
            log_moved(*old(log), *final(log)),
            reload_all_outcome(*old(self), *final(self), scope.package_name@, scope.user_id, now, old(log).events@, old(log).pos as int, final(log).pos as int, r),
    {
        let ids = record_ids(self);
        let ghost o = *self;
        let ghost idv = ids_of(o);
        let ghost ev = log.events@;
        let ghost p0 = log.pos as int;
        let ghost mut ss: Seq<ModuleRuntime> = seq![o];
        let ghost mut ps: Seq<int> = seq![p0];
        let ghost mut sel: Seq<bool> = Seq::empty();
        let ghost mut fails: Seq<bool> = Seq::empty();
        let mut total: u32 = 0;
        let mut failed: u32 = 0;
        let mut failed_ids: Vec<String> = Vec::new();
        let mut i: usize = 0;
        assert(lines_view(failed_ids@) =~= ids_set(idv, fails));
        while i < ids.len()
            invariant
                self.wf(),
                log_moved(*old(log), *log),
                o == *old(self),
                ev == old(log).events@,
                p0 == old(log).pos,
                idv == ids_of(o),
                lines_view(ids@) == idv,
                i <= ids@.len(),
                sel.len() == i,
                reloads_done(o, idv, scope.package_name@, scope.user_id, now, ev, p0, ss, ps, sel, fails),
                *self == ss[i as int],
                log.pos == ps[i as int],
                total == crate::module_registry::min_u32(count_set(sel)),
                failed == crate::module_registry::min_u32(count_set(fails)),
                lines_view(failed_ids@) == ids_set(idv, fails),
            decreases ids@.len() - i,
        {
            let id = ids[i].as_str();
            assert(idv[i as int] == ids@[i as int]@);
            let rec = match self.get(id) {
                None => return Ok(Err(ModuleRuntimeRpcError::internal("ksu_dsapi_error=module_lookup_failed"))),
                Some(r) => r,
            };
            let ghost before = *self;
            let ghost pb = log.pos as int;
            let pick = rec.enabled && self.scope_eval(id, scope).allow;
            let mut this_failed = false;
            if pick {
                total = total.saturating_add(1);
                let r1 = self.rpc_reload(id, log, now);
                let ghost g1 = r1;
                match r1 {
                    Err(o) => {
                        assert(reload_outcome(ss[i as int], *self, idv[i as int], now, ev, ps[i as int], log.pos as int, g1));
                        return Err(o);
                    },
                    Ok(Err(_)) => {
                        failed = failed.saturating_add(1);
                        failed_ids.push(ids[i].clone());
                        this_failed = true;
                    },
                    Ok(Ok(())) => {},
                }
                assert(reload_outcome(before, *self, idv[i as int], now, ev, pb, log.pos as int, g1));
            }
            proof {
                let ss2 = ss.push(*self);
                let ps2 = ps.push(log.pos as int);
                let sel2 = sel.push(pick);
                let fails2 = fails.push(this_failed);
                assert(reload_step(ss2[i as int], ss2[i + 1], idv[i as int], scope.package_name@, scope.user_id, now, ev, ps2[i as int], ps2[i + 1], sel2[i as int], fails2[i as int]));
                assert forall|j: int| 0 <= j < sel2.len() implies #[trigger] reload_step(
                    ss2[j],
                    ss2[j + 1],
                    idv[j],
                    scope.package_name@,
                    scope.user_id,
                    now,
                    ev,
                    ps2[j],
                    ps2[j + 1],
                    sel2[j],
                    fails2[j],
                ) by {
                    if j < i {
                        assert(ss2[j] == ss[j] && ss2[j + 1] == ss[j + 1] && ps2[j] == ps[j] && ps2[j + 1] == ps[j + 1]);
                        assert(sel2[j] == sel[j] && fails2[j] == fails[j]);
                    }
                }
                assert(sel2.drop_last() =~= sel);
                assert(fails2.drop_last() =~= fails);
                assert(lines_view(failed_ids@) =~= ids_set(idv, fails2));
                ss = ss2;
                ps = ps2;
                sel = sel2;
                fails = fails2;
            }
            i += 1;
        }
        assert(reloads_done(o, idv, scope.package_name@, scope.user_id, now, ev, p0, ss, ps, sel, fails));
        Ok(reload_all_reply(total, failed, &failed_ids))
    }

    /// Disables a module: it must exist; it is stopped (whatever comes of
    /// it), its disable flag is written (`module_disable_write_failed`
    /// when that fails) and its record marked disabled.
    fn rpc_disable(&mut self, module_id: &str, log: &mut HostLog, now: u64) -> (r: Result<Result<(), ModuleRuntimeRpcError>, RpcOutcome>)
        requires
            old(self).wf(),
            old(log).pos <= old(log).events@.len(),
        ensures
            final(self).wf(),
            log_moved(*old(log), *final(log)),
            disable_outcome(*old(self), *final(self), module_id@, old(log).events@, old(log).pos as int, final(log).pos as int, r),
    {
        match ModuleRuntime::rpc_existing(module_id, log) {
            Err(o) => return Err(o),
            Ok(Err(e)) => return Ok(Err(e)),
            Ok(Ok(_)) => {},
        }
        let st = self.rpc_stop(module_id, log, now);
        let ghost mid = *self;
        let ghost k = log.pos as int;
        let ghost r1 = st;
        assert(stop_outcome(*old(self), mid, module_id@, old(log).events@, old(log).pos + 1, k, r1));
        match st {
            Err(o) => return Err(o),
            Ok(_) => {},
        }
        match log.wrote(HostAction::WriteDisabledFlag { module_id: module_id.to_owned() }) {
            Err(o) => return Err(o),
            Ok(false) => return Ok(internal("ksu_dsapi_error=module_disable_write_failed")),
            Ok(true) => {},
        }
        if self.get(module_id).is_none() {
            return Ok(invalid("ksu_dsapi_error=module_not_found"));
        }
        self.mark_disabled_at(module_id, now);
        Ok(Ok(()))
    }

    /// Enables a module: it must exist; its disable flag is removed and its
    /// record marked enabled.
    fn rpc_enable(&mut self, module_id: &str, log: &mut HostLog, now: u64) -> (r: Result<Result<(), ModuleRuntimeRpcError>, RpcOutcome>)
        requires
            old(self).wf(),
            old(log).pos <= old(log).events@.len(),
        ensures
            final(self).wf(),
            log_moved(*old(log), *final(log)),
            enable_outcome(*old(self), *final(self), module_id@, old(log).events@, old(log).pos as int, final(log).pos as int, r),
    {
        match ModuleRuntime::rpc_existing(module_id, log) {
            Err(o) => return Err(o),
            Ok(Err(e)) => return Ok(Err(e)),
            Ok(Ok(_)) => {},
        }
        match log.wrote(HostAction::RemoveDisabledFlag { module_id: module_id.to_owned() }) {
            Err(o) => return Err(o),
            Ok(_) => {},
        }
        if self.get(module_id).is_none() {
            return Ok(invalid("ksu_dsapi_error=module_not_found"));
        }
        self.mark_enabled_at(module_id, now);
        Ok(Ok(()))
    }

    /// Removes a module: it must exist; it is stopped (whatever comes of
    /// it), its files are removed and its record and scope rules dropped.
    fn rpc_remove(&mut self, module_id: &str, log: &mut HostLog, now: u64) -> (r: Result<Result<(), ModuleRuntimeRpcError>, RpcOutcome>)
        requires
            old(self).wf(),
            old(log).pos <= old(log).events@.len(),
        ensures
            final(self).wf(),
            log_moved(*old(log), *final(log)),
            remove_outcome(*old(self), *final(self), module_id@, old(log).events@, old(log).pos as int, final(log).pos as int, r),
    {
        match ModuleRuntime::rpc_existing(module_id, log) {
            Err(o) => return Err(o),
            Ok(Err(e)) => return Ok(Err(e)),
            Ok(Ok(_)) => {},
        }
        let st = self.rpc_stop(module_id, log, now);
        let ghost mid = *self;
        let ghost k = log.pos as int;
        let ghost r1 = st;
        assert(stop_outcome(*old(self), mid, module_id@, old(log).events@, old(log).pos + 1, k, r1));
        match st {
            Err(o) => return Err(o),
            Ok(_) => {},
        }
        match log.wrote(HostAction::RemoveModuleFiles { module_id: module_id.to_owned() }) {
            Err(o) => return Err(o),
            Ok(_) => {},
        }
        self.forget_module(module_id);
        Ok(Ok(()))
    }

    /// Runs an action of a module that `scope` may drive: the script must
    /// exist; its outcome is committed as `commit_exec_state_at` says; a
    /// non-zero exit is `module_action_failed`, else the reply carries
    /// what it printed.
    fn rpc_action_run(&mut self, module_id: &str, action_id: &str, scope: &ScopeContext, log: &mut HostLog, now: u64) -> (r: Result<Result<String, ModuleRuntimeRpcError>, RpcOutcome>)
        requires
            old(self).wf(),
            old(log).pos <= old(log).events@.len(),
        ensures
            final(self).wf(),
            log_moved(*old(log), *final(log)),
            action_run_outcome(*old(self), *final(self), module_id@, action_id@, scope.package_name@, scope.user_id, now, old(log).events@, old(log).pos as int, final(log).pos as int, r),
    {
        match self.ensure_scope_allowed_at(module_id, scope, now) {
            Err(e) => return Ok(Err(e)),
            Ok(()) => {},
        }
        let p = match ModuleRuntime::rpc_existing(module_id, log) {
            Err(o) => return Err(o),
            Ok(Err(e)) => return Ok(Err(e)),
            Ok(Ok(p)) => p,
        };
        if !script_present(&p.actions, action_id) {
            return Ok(Err(action_missing_error(module_id, action_id)));
        }
        let out = match log.ran(HostAction::RunAction { module_id: module_id.to_owned(), action_id: action_id.to_owned() }) {
            Err(o) => return Err(o),
            Ok(None) => return Ok(Err(ModuleRuntimeRpcError::internal("ksu_dsapi_error=module_action_exec_failed"))),
            Ok(Some(out)) => out,
        };
        self.commit_exec_state_at(module_id, out, ModuleState::Ready, now);
        if out.code != 0 {
            return Ok(Err(action_failed_error(module_id, action_id, out.code)));
        }
        Ok(Ok(action_run_reply(out.stdout.as_str(), module_id, action_id, scope)))
    }

    /// Sets (`Some`) or unsets (`None`) an environment value of a module:
    /// it must exist and the key be valid; the file is then written
    /// (`failure` when that fails).
    fn rpc_env_change(&mut self, module_id: &str, key: &str, value: Option<&str>, failure: &str, log: &mut HostLog) -> (r: Result<Result<(), ModuleRuntimeRpcError>, RpcOutcome>)
        requires
            old(self).wf(),
            old(log).pos <= old(log).events@.len(),
        ensures
            *final(self) == *old(self),
            log_moved(*old(log), *final(log)),
            env_change_outcome(
                module_id@,
                key@,
                match value {
                    Some(v) => Some(v@),
                    None => None,
                },
                failure@,
                old(log).events@,
                old(log).pos as int,
                final(log).pos as int,
                r,
            ),
    {
        let p = match ModuleRuntime::rpc_existing(module_id, log) {
            Err(o) => return Err(o),
            Ok(Err(e)) => return Ok(Err(e)),
            Ok(Ok(p)) => p,
        };
        if !env_key_valid(key) {
            return Ok(invalid("ksu_dsapi_error=module_env_key_invalid"));
        }
        let mut values = parse_env_values(text_or_empty(&p.env_values));
        let k = chars_of(key);
        match value {
            Some(v) => env_put(&mut values, &k, &chars_of(v)),
            None => env_remove(&mut values, &k),
        }
        let text = format_env_values(&values);
        match log.wrote(HostAction::WriteEnvValues { module_id: module_id.to_owned(), text }) {
            Err(o) => Err(o),
            Ok(false) => Ok(internal(failure)),
            Ok(true) => Ok(Ok(())),
        }
    }

    /// The answer of a request that ends with its one-line reply, given
    /// what its step answered.
    fn done_with(&self, q: &ModuleRpcRequest, r1: Result<Result<(), ModuleRuntimeRpcError>, RpcOutcome>) -> (r: Result<Result<String, ModuleRuntimeRpcError>, RpcOutcome>)
        ensures
            done_answer(q@, *self, r1, r),
    {
        match r1 {
            Err(o) => Err(o),
            Ok(Err(e)) => Ok(Err(e)),
            Ok(Ok(())) => Ok(done_reply(q, self.count() as u64, self.event_seq())),
        }
    }

    /// Carries out a parsed request against the host's events.
    fn rpc_dispatch(&mut self, q: &ModuleRpcRequest, log: &mut HostLog, now: u64) -> (r: Result<Result<String, ModuleRuntimeRpcError>, RpcOutcome>)
        requires
            old(self).wf(),
            old(log).pos <= old(log).events@.len(),
        ensures
            final(self).wf(),
            log_moved(*old(log), *final(log)),
            dispatch_outcome(*old(self), *final(self), q@, now, old(log).events@, old(log).pos as int, final(log).pos as int, r),
    {
        let ghost o = *self;
        let ghost ev = log.events@;
        let ghost p0 = log.pos as int;
        match q {
            ModuleRpcRequest::Sync => {
                let r = self.done_with(q, Ok(Ok(())));
                assert(dispatch_outcome(o, *self, q@, now, ev, p0, log.pos as int, r));
                r
            },
            ModuleRpcRequest::List => self.rpc_list(log, now),
            ModuleRpcRequest::Status { module_id } => {
                let r2 = self.rpc_status_text(module_id.as_str(), log, now);
                let ghost rv = status_view(r2);
                assert(status_text_outcome(o, *self, module_id@, ev, p0, log.pos as int, rv));
                match r2 {
                    Err(x) => Err(x),
                    Ok(Err(e)) => Ok(Err(e)),
                    Ok(Ok((text, _))) => {
                        let mut v: Vec<char> = Vec::new();
                        push_str(&mut v, "module_status id=");
                        push_str(&mut v, module_id.as_str());
                        push_str(&mut v, " ");
                        push_str(&mut v, text.as_str());
                        assert(v@ =~= "module_status id="@ + module_id@ + " "@ + text@);
                        assert(rv matches Ok(Ok((t, _))) && t == text@);
                        assert(q@ == RpcShape::Status(module_id@));
                        let r = Ok(Ok(string_from_chars(&v)));
                        assert(r matches Ok(Ok(s)) && s@ == "module_status id="@ + module_id@ + " "@ + text@);
                        assert(status_reply(o, *self, module_id@, ev, p0, log.pos as int, r));
                        assert(dispatch_outcome(o, *self, q@, now, ev, p0, log.pos as int, r));
                        r
                    },
                }
            },
            ModuleRpcRequest::Detail { module_id } => self.rpc_detail(module_id.as_str(), log, now),
            ModuleRpcRequest::Start { module_id, scope } => {
                match self.ensure_scope_allowed_at(module_id.as_str(), scope, now) {
                    Err(e) => Ok(Err(e)),
                    Ok(()) => {
                        let ghost s = *self;
                        let r1 = self.rpc_start(module_id.as_str(), log, now);
                        let ghost g1 = r1;
                        let r = self.done_with(q, r1);
                        assert(same_state(o, s) && start_outcome(s, *self, module_id@, now, ev, p0, log.pos as int, g1));
                        assert(dispatch_outcome(o, *self, q@, now, ev, p0, log.pos as int, r));
                        r
                    },
                }
            },
            ModuleRpcRequest::Stop { module_id } => {
                let r1 = self.rpc_stop(module_id.as_str(), log, now);
                let ghost g1 = r1;
                let r = self.done_with(q, r1);
                assert(stop_outcome(o, *self, module_id@, ev, p0, log.pos as int, g1));
                assert(dispatch_outcome(o, *self, q@, now, ev, p0, log.pos as int, r));
                r
            },
            ModuleRpcRequest::Reload { module_id, scope } => {
                match self.ensure_scope_allowed_at(module_id.as_str(), scope, now) {
                    Err(e) => Ok(Err(e)),
                    Ok(()) => {
                        let ghost s = *self;
                        let r1 = self.rpc_reload(module_id.as_str(), log, now);
                        let ghost g1 = r1;
                        let r = self.done_with(q, r1);
                        assert(same_state(o, s) && reload_outcome(s, *self, module_id@, now, ev, p0, log.pos as int, g1));
                        assert(dispatch_outcome(o, *self, q@, now, ev, p0, log.pos as int, r));
                        r
                    },
                }
            },
            ModuleRpcRequest::ReloadAll { scope } => self.rpc_reload_all(scope, log, now),
            ModuleRpcRequest::Disable { module_id } => {
                let r1 = self.rpc_disable(module_id.as_str(), log, now);
                let ghost g1 = r1;
                let r = self.done_with(q, r1);
                assert(disable_outcome(o, *self, module_id@, ev, p0, log.pos as int, g1));
                assert(dispatch_outcome(o, *self, q@, now, ev, p0, log.pos as int, r));
                r
            },
            ModuleRpcRequest::Enable { module_id } => {
                let r1 = self.rpc_enable(module_id.as_str(), log, now);
                let ghost g1 = r1;
                let r = self.done_with(q, r1);
                assert(enable_outcome(o, *self, module_id@, ev, p0, log.pos as int, g1));
                assert(dispatch_outcome(o, *self, q@, now, ev, p0, log.pos as int, r));
                r
            },
            ModuleRpcRequest::Remove { module_id } => {
                let r1 = self.rpc_remove(module_id.as_str(), log, now);
                let ghost g1 = r1;
                let r = self.done_with(q, r1);
                assert(remove_outcome(o, *self, module_id@, ev, p0, log.pos as int, g1));
                assert(dispatch_outcome(o, *self, q@, now, ev, p0, log.pos as int, r));
                r
            },
            ModuleRpcRequest::ActionList { module_id } => {
                match ModuleRuntime::rpc_existing(module_id.as_str(), log) {
                    Err(x) => Err(x),
                    Ok(Err(e)) => Ok(Err(e)),
                    Ok(Ok(p)) => {
                        let mut lines: Vec<String> = Vec::new();
                        let ghost before = lines_view(lines@);
                        assert(before =~= Seq::<Seq<char>>::empty());
                        ModuleRuntime::action_rows(p, &mut lines);
                        let ghost rows = choose|rows: Seq<Seq<char>>|
                            action_rows_are(p.actions@, rows) && lines_view(lines@) == before + rows;
                        assert(lines_view(lines@) =~= rows);
                        let r = Ok(Ok(join_lines(&lines)));
                        assert(dispatch_outcome(o, *self, q@, now, ev, p0, log.pos as int, r));
                        r
                    },
                }
            },
            ModuleRpcRequest::ActionRun { module_id, action_id, scope } => {
                self.rpc_action_run(module_id.as_str(), action_id.as_str(), scope, log, now)
            },
            ModuleRpcRequest::EnvList { module_id } => {
                match ModuleRuntime::rpc_existing(module_id.as_str(), log) {
                    Err(x) => Err(x),
                    Ok(Err(e)) => Ok(Err(e)),
                    Ok(Ok(p)) => {
                        let mut lines: Vec<String> = Vec::new();
                        assert(lines_view(lines@) =~= Seq::<Seq<char>>::empty());
                        ModuleRuntime::env_rows(p, &mut lines);
                        assert(lines_view(lines@) =~= env_rows_of(*p));
                        let r = Ok(Ok(join_lines(&lines)));
                        assert(dispatch_outcome(o, *self, q@, now, ev, p0, log.pos as int, r));
                        r
                    },
                }
            },
            ModuleRpcRequest::EnvSet { module_id, key, value } => {
                let r1 = self.rpc_env_change(
                    module_id.as_str(),
                    key.as_str(),
                    Some(value.as_str()),
                    "ksu_dsapi_error=module_env_set_failed",
                    log,
                );
                let ghost g1 = r1;
                let r = self.done_with(q, r1);
                assert(env_change_outcome(module_id@, key@, Some(value@), "ksu_dsapi_error=module_env_set_failed"@, ev, p0, log.pos as int, g1));
                assert(dispatch_outcome(o, *self, q@, now, ev, p0, log.pos as int, r));
                r
            },
            ModuleRpcRequest::EnvUnset { module_id, key } => {
                let r1 = self.rpc_env_change(module_id.as_str(), key.as_str(), None, "ksu_dsapi_error=module_env_unset_failed", log);
                let ghost g1 = r1;
                let r = self.done_with(q, r1);
                assert(env_change_outcome(module_id@, key@, None, "ksu_dsapi_error=module_env_unset_failed"@, ev, p0, log.pos as int, g1));
                assert(dispatch_outcome(o, *self, q@, now, ev, p0, log.pos as int, r));
                r
            },
            ModuleRpcRequest::ScopeList { module_id } => {
                let text = match module_id {
                    Some(id) => self.scope_list_lines(Some(id.as_str())),
                    None => self.scope_list_lines(None),
                };
                let r = Ok(Ok(text));
                assert(dispatch_outcome(o, *self, q@, now, ev, p0, log.pos as int, r));
                r
            },
            ModuleRpcRequest::ScopeSet { module_id, package_name, user_id, allow } => {
                let p = match log.probe(module_id.as_str()) {
                    Err(x) => return Err(x),
                    Ok(p) => p,
                };
                let r1 = self.scope_set(module_id.as_str(), p.dir_exists, package_name.as_str(), *user_id, *allow);
                let ghost g1 = r1;
                let r = self.done_with(q, Ok(r1));
                assert(scope_set_done(o, *self, module_id@, p.dir_exists, package_name@, *user_id, *allow, g1));
                assert(dispatch_outcome(o, *self, q@, now, ev, p0, log.pos as int, r));
                r
            },
            ModuleRpcRequest::ScopeClear { module_id } => {
                let p = match log.probe(module_id.as_str()) {
                    Err(x) => return Err(x),
                    Ok(p) => p,
                };
                let r1 = self.scope_clear(module_id.as_str(), p.dir_exists);
                let ghost g1 = r1;
                let r = self.done_with(q, Ok(r1));
                assert(scope_clear_done(o, *self, module_id@, p.dir_exists, g1));
                assert(dispatch_outcome(o, *self, q@, now, ev, p0, log.pos as int, r));
                r
            },
        }
    }

    /// Answers a module request (`request`, from a peer with uid
    /// `peer_uid`) at time `now`, given what the host has done for it so
    /// far (`events`, in the order asked). A request with no word is the
    /// error `module_rpc_empty` and asks nothing. Otherwise the host first
    /// lists the modules on disk (a failure is `module_sync_failed`) and
    /// the registry is brought in line with them; the request is then read
    /// (its errors are the reply) and carried out. Whenever the events run
    /// out, the outcome is the next thing the host must do: the host does
    /// it, adds what came of it to the events and asks again of the
    /// runtime as it stood before the request. An event of another kind
    /// than asked ends the request with `module_host_event_mismatch`.
    pub fn handle_rpc(&mut self, request: &str, peer_uid: u32, events: &Vec<HostEvent>, now: u64) -> (r: RpcOutcome)
        requires
            old(self).wf(),
        ensures
            final(self).wf(),
            ws_tokens(request@).len() == 0 ==> *final(self) == *old(self) && (r matches RpcOutcome::Done {
                reply: Err(e),
                save: false,
            } && e.status == Status::InvalidArgument && e.body@ == "ksu_dsapi_error=module_rpc_empty"@),
            ws_tokens(request@).len() > 0 && events@.len() == 0 ==> *final(self) == *old(self) && r
                == RpcOutcome::Need(HostAction::ScanDisk),
            ws_tokens(request@).len() > 0 && events@.len() > 0 ==> match events@[0] {
                HostEvent::Scanned(None) => *final(self) == *old(self) && (r matches RpcOutcome::Done {
                    reply: Err(e),
                    save: false,
                } && e.status == Status::InternalError && e.body@ == "ksu_dsapi_error=module_sync_failed"@),
                HostEvent::Scanned(Some(d)) => {
                    let distinct = forall|i: int, j: int|
                        0 <= i < j < d@.len() && id_ok(d@[i].module_id@) ==> d@[i].module_id@ != d@[j].module_id@;
                    &&& !distinct ==> *final(self) == *old(self) && (r matches RpcOutcome::Done { reply: Err(e), save: false }
                        && e.status == Status::InternalError && e.body@ == "ksu_dsapi_error=module_sync_failed"@)
                    &&& distinct ==> handled(*old(self), *final(self), d@, request@, peer_uid, events@, now, r)
                },
                _ => *final(self) == *old(self) && (r matches RpcOutcome::Done { reply: Err(e), save: false }
                    && e.status == Status::InternalError && e.body@ == "ksu_dsapi_error=module_host_event_mismatch"@),
            },
    {
        let toks = split_ws(&chars_of(request));
        if toks.len() == 0 {
            return RpcOutcome::Done {
                reply: Err(ModuleRuntimeRpcError::invalid("ksu_dsapi_error=module_rpc_empty")),
                save: false,
            };
        }
        if events.len() == 0 {
            return RpcOutcome::Need(HostAction::ScanDisk);
        }
        let disk = match &events[0] {
            HostEvent::Scanned(Some(d)) => d,
            HostEvent::Scanned(None) => {
                return RpcOutcome::Done {
                    reply: Err(ModuleRuntimeRpcError::internal("ksu_dsapi_error=module_sync_failed")),
                    save: false,
                };
            },
            _ => {
                return RpcOutcome::Done {
                    reply: Err(ModuleRuntimeRpcError::internal("ksu_dsapi_error=module_host_event_mismatch")),
                    save: false,
                };
            },
        };
        if !disk_ids_distinct(disk) {
            return RpcOutcome::Done {
                reply: Err(ModuleRuntimeRpcError::internal("ksu_dsapi_error=module_sync_failed")),
                save: false,
            };
        }
        self.sync_from_disk(disk, now);
        let ghost s = *self;
        assert(crate::module_runtime::synced_from_disk(*old(self), s, disk@, now));
        let q = match parse_rpc_request(request, peer_uid) {
            Err(e) => return RpcOutcome::Done { reply: Err(e), save: true },
            Ok(q) => q,
        };
        let mut log = HostLog { events, pos: 1 };
        let rd = self.rpc_dispatch(&q, &mut log, now);
        let ghost g = rd;
        assert(dispatch_outcome(s, *self, q@, now, events@, 1, log.pos as int, g));
        match rd {
            Err(o) => o,
            Ok(reply) => RpcOutcome::Done { reply, save: true },
        }
    }
}

} // verus!
