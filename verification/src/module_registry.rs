use vstd::prelude::*;
use crate::keyed::{Keyed, ids_sorted, has_id, index_of_id, record_map, lemma_record_at, lemma_insert_keeps_order, lemma_update_keeps_order, lemma_remove_keeps_order};
use crate::text::{is_ws, trim_start, trim_end, push_str, lemma_text_lt_irreflexive, lemma_text_lt_transitive, lemma_text_lt_total, chars_of, string_from_chars, trim_chars, char_is_ascii_alnum, is_ascii_alnum, trim, text_lt, chars_lt, chars_same};

verus! {

/// Life-cycle state of an installed module.
#[derive(Debug, Clone, Copy, PartialEq, Eq, Structural)]
pub enum ModuleState {
    Installed,
    Disabled,
    Running,
    Ready,
    Degraded,
    Stopped,
    Error,
    Removed,
}

/// The lower-case name of each state, as status lines and the registry file
/// write it.
pub open spec fn state_name(s: ModuleState) -> Seq<char> {
    match s {
        ModuleState::Installed => "installed"@,
        ModuleState::Disabled => "disabled"@,
        ModuleState::Running => "running"@,
        ModuleState::Ready => "ready"@,
        ModuleState::Degraded => "degraded"@,
        ModuleState::Stopped => "stopped"@,
        ModuleState::Error => "error"@,
        ModuleState::Removed => "removed"@,
    }
}

impl ModuleState {
    pub fn as_str(self) -> (r: &'static str)
        ensures
            r@ == state_name(self),
    {
        match self {
            ModuleState::Installed => "installed",
            ModuleState::Disabled => "disabled",
            ModuleState::Running => "running",
            ModuleState::Ready => "ready",
            ModuleState::Degraded => "degraded",
            ModuleState::Stopped => "stopped",
            ModuleState::Error => "error",
            ModuleState::Removed => "removed",
        }
    }
}

/// The last failure recorded for a module or for the registry.
#[derive(Debug, PartialEq, Eq, Default)]
pub struct ModuleErrorRecord {
    pub scope: String,
    pub code: String,
    pub message: String,
    pub detail: String,
    pub ts_ms: u64,
}

impl Clone for ModuleErrorRecord {
    fn clone(&self) -> (r: Self)
        ensures
            r == *self,
    {
        ModuleErrorRecord {
            scope: self.scope.clone(),
            code: self.code.clone(),
            message: self.message.clone(),
            detail: self.detail.clone(),
            ts_ms: self.ts_ms,
        }
    }
}

/// A reading of the system clock, carried from the clock to the milliseconds.
#[verifier::external_type_specification]
#[verifier::external_body]
pub struct ExSystemTime(std::time::SystemTime);

/// The error of a clock reading before the Unix epoch.
#[verifier::external_type_specification]
#[verifier::external_body]
pub struct ExSystemTimeError(std::time::SystemTimeError);

/// `std::time::SystemTime::now`: the clock's reading. Nothing is stated of
/// it: it rests on the clock.
#[verifier::external_body]
fn clock_now() -> (r: std::time::SystemTime) {
    std::time::SystemTime::now()
}

/// `SystemTime::duration_since` with the Unix epoch: the time elapsed since
/// the epoch, or an error when `t` is before it. Which of the two comes,
/// and what time, is not stated: it rests on the reading.
#[verifier::external_body]
fn since_unix_epoch(t: &std::time::SystemTime) -> (r: Result<std::time::Duration, std::time::SystemTimeError>) {
    t.duration_since(std::time::UNIX_EPOCH)
}

/// `Duration::as_millis`: the whole milliseconds of `d`. The duration is
/// opaque here, so nothing is stated of the number.
#[verifier::external_body]
fn whole_millis(d: &std::time::Duration) -> (r: u128) {
    d.as_millis()
}

/// Milliseconds since the Unix epoch (cut to 64 bits), 0 when the clock
/// reads before it.
pub(crate) fn now_ms() -> (r: u64) {
    let t = clock_now();
    match since_unix_epoch(&t) {
        Ok(d) => {
            let ms = whole_millis(&d);
            ms as u64
        },
        Err(_) => 0,
    }
}

impl ModuleErrorRecord {
    /// A record stamped with the time `ts_ms`.
    pub fn new_at(scope: &str, code: &str, message: &str, detail: &str, ts_ms: u64) -> (r: Self)
        ensures
            r.scope@ == scope@,
            r.code@ == code@,
            r.message@ == message@,
            r.detail@ == detail@,
            r.ts_ms == ts_ms,
    {
        ModuleErrorRecord {
            scope: scope.to_owned(),
            code: code.to_owned(),
            message: message.to_owned(),
            detail: detail.to_owned(),
            ts_ms,
        }
    }

    /// A record stamped with the current time.
    pub fn new(scope: &str, code: &str, message: &str, detail: &str) -> (r: Self)
        ensures
            r.scope@ == scope@,
            r.code@ == code@,
            r.message@ == message@,
            r.detail@ == detail@,
    {
        Self::new_at(scope, code, message, detail, now_ms())
    }
}


/// One installed module as the registry keeps it.
#[derive(Debug, PartialEq, Eq)]
pub struct ModuleRecord {
    pub id: String,
    pub name: String,
    pub kind: String,
    pub version: String,
    pub enabled: bool,
    pub state: ModuleState,
    pub reason: String,
    pub main_cap: String,
    pub action_count: u32,
    pub auto_start: bool,
    pub installed_at_ms: u64,
    pub updated_at_ms: u64,
    pub last_error: Option<ModuleErrorRecord>,
}

impl Clone for ModuleRecord {
    fn clone(&self) -> (r: Self)
        ensures
            r == *self,
    {
        ModuleRecord {
            id: self.id.clone(),
            name: self.name.clone(),
            kind: self.kind.clone(),
            version: self.version.clone(),
            enabled: self.enabled,
            state: self.state,
            reason: self.reason.clone(),
            main_cap: self.main_cap.clone(),
            action_count: self.action_count,
            auto_start: self.auto_start,
            installed_at_ms: self.installed_at_ms,
            updated_at_ms: self.updated_at_ms,
            last_error: match &self.last_error {
                Some(e) => Some(e.clone()),
                None => None,
            },
        }
    }
}

/// A fresh record for `id`: named after it, kind `module`, version `0`,
/// enabled, installed, reason `-`, stamped `now` for both times.
pub open spec fn fresh_record(r: ModuleRecord, id: Seq<char>, now: u64) -> bool {
    &&& r.id@ == id
    &&& r.name@ == id
    &&& r.kind@ == "module"@
    &&& r.version@ == "0"@
    &&& r.enabled
    &&& r.state == ModuleState::Installed
    &&& r.reason@ == "-"@
    &&& r.main_cap@ == Seq::<char>::empty()
    &&& r.action_count == 0
    &&& !r.auto_start
    &&& r.installed_at_ms == now
    &&& r.updated_at_ms == now
    &&& r.last_error is None
}

impl Keyed for ModuleRecord {
    open spec fn key(&self) -> Seq<char> {
        self.id@
    }
}

impl ModuleRecord {
    /// A fresh record stamped with `now`.
    pub fn new_at(id: &str, now: u64) -> (r: Self)
        ensures
            fresh_record(r, id@, now),
    {
        ModuleRecord {
            id: id.to_owned(),
            name: id.to_owned(),
            kind: "module".to_owned(),
            version: "0".to_owned(),
            enabled: true,
            state: ModuleState::Installed,
            reason: "-".to_owned(),
            main_cap: String::new(),
            action_count: 0,
            auto_start: false,
            installed_at_ms: now,
            updated_at_ms: now,
            last_error: None,
        }
    }

    /// A fresh record stamped with the current time.
    pub fn new(id: &str) -> (r: Self)
        ensures
            exists|now: u64| fresh_record(r, id@, now),
    {
        Self::new_at(id, now_ms())
    }
}

/// Why the registry refused a request.
#[derive(Debug, Clone, PartialEq, Eq)]
pub struct ModuleRegistryError {
    pub code: &'static str,
    pub message: &'static str,
    pub module_id: String,
}

impl ModuleRegistryError {
    fn with_module(code: &'static str, message: &'static str, module_id: &str) -> (r: Self)
        ensures
            r.code == code,
            r.message == message,
            r.module_id@ == module_id@,
    {
        ModuleRegistryError { code, message, module_id: module_id.to_owned() }
    }

    /// The error for an unexpected failure inside the engine.
    pub fn internal() -> (r: Self)
        ensures
            r.code@ == "E_INTERNAL"@,
            r.message@ == "internal_error"@,
            r.module_id@ == "-"@,
    {
        Self::with_module("E_INTERNAL", "internal_error", "-")
    }
}

/// Outcome of reloading every enabled module.
#[derive(Debug, Clone, PartialEq, Eq, Default)]
pub struct ModuleReloadAllResult {
    pub total: u32,
    pub failed: u32,
    pub failed_ids: Vec<String>,
}

/// A character that a module id may hold.
pub open spec fn id_char_ok(c: char) -> bool {
    is_ascii_alnum(c) || c == '.' || c == '_' || c == '-'
}

/// A module id: not empty, only ASCII letters, digits, `.`, `_` and `-`.
pub open spec fn id_ok(s: Seq<char>) -> bool {
    s.len() > 0 && forall|i: int| 0 <= i < s.len() ==> id_char_ok(#[trigger] s[i])
}

pub fn char_id_ok(c: char) -> (r: bool)
    ensures
        r == id_char_ok(c),
{
    char_is_ascii_alnum(c) || c == '.' || c == '_' || c == '-'
}

/// Whether every character of `v` is allowed in an id and there is one.
pub fn chars_id_ok(v: &Vec<char>) -> (r: bool)
    ensures
        r == id_ok(v@),
{
    if v.len() == 0 {
        return false;
    }
    let mut i: usize = 0;
    while i < v.len()
        invariant
            i <= v.len(),
            forall|j: int| 0 <= j < i ==> id_char_ok(#[trigger] v@[j]),
        decreases v.len() - i,
    {
        if !char_id_ok(v[i]) {
            return false;
        }
        i += 1;
    }
    true
}

/// The id under which a record is stored: `raw` trimmed, when that is a
/// valid id.
pub open spec fn sanitized_id(raw: Seq<char>) -> Option<Seq<char>> {
    if id_ok(trim(raw)) {
        Some(trim(raw))
    } else {
        None
    }
}

/// A valid id has nothing to trim, so it is its own sanitized id.
pub proof fn lemma_valid_id_sanitized(s: Seq<char>)
    requires
        id_ok(s),
    ensures
        trim(s) == s,
        sanitized_id(s) == Some(s),
{
    assert(!is_ws(s[0]));
    assert(trim_start(s) == s);
    assert(s.last() == s[s.len() - 1]);
    assert(!is_ws(s.last()));
    assert(trim_end(s) == s);
}

/// Trims `raw` and checks that what is left is a valid module id.
pub fn sanitize_module_id(raw: &str) -> (r: Result<String, ModuleRegistryError>)
    ensures
        match r {
            Ok(id) => sanitized_id(raw@) == Some(id@),
            Err(e) => sanitized_id(raw@) is None && e.code@ == "E_MODULE_ID_INVALID"@
                && e.message@ == "module_id_invalid"@ && e.module_id@ == raw@,
        },
{
    let chars = chars_of(raw);
    let t = trim_chars(&chars);
    if !chars_id_ok(&t) {
        return Err(ModuleRegistryError::with_module("E_MODULE_ID_INVALID", "module_id_invalid", raw));
    }
    Ok(string_from_chars(&t))
}


/// `seq + 1`, held at `u64::MAX`.
pub open spec fn bumped(seq: u64) -> u64 {
    if seq < u64::MAX {
        (seq + 1) as u64
    } else {
        seq
    }
}

/// The fields of `r` are those of `input`, but for the id, which is `id`, and
/// the times: `updated_at_ms` is `now`, and `installed_at_ms` is kept from the
/// record already stored under `id`, else taken from `input` when set, else
/// `now`.
pub open spec fn upserted(
    r: ModuleRecord,
    input: ModuleRecord,
    id: Seq<char>,
    m: Map<Seq<char>, ModuleRecord>,
    now: u64,
) -> bool {
    &&& r.id@ == id
    &&& r.name == input.name
    &&& r.kind == input.kind
    &&& r.version == input.version
    &&& r.enabled == input.enabled
    &&& r.state == input.state
    &&& r.reason == input.reason
    &&& r.main_cap == input.main_cap
    &&& r.action_count == input.action_count
    &&& r.auto_start == input.auto_start
    &&& r.last_error == input.last_error
    &&& r.updated_at_ms == now
    &&& r.installed_at_ms == if m.contains_key(id) {
        m[id].installed_at_ms
    } else if input.installed_at_ms == 0 {
        now
    } else {
        input.installed_at_ms
    }
}

/// The error record that a refused reload leaves: scope `module.lifecycle`,
/// the error's code and message, detail `id=<id>`.
pub open spec fn reload_error_record(e: ModuleErrorRecord, code: Seq<char>, message: Seq<char>, id: Seq<char>, now: u64) -> bool {
    &&& e.scope@ == "module.lifecycle"@
    &&& e.code@ == code
    &&& e.message@ == message
    &&& e.detail@ == "id="@ + id
    &&& e.ts_ms == now
}

/// A record that `reload` may bring up: enabled and not disabled.
pub open spec fn reloadable(r: ModuleRecord) -> bool {
    r.enabled && r.state != ModuleState::Disabled
}

/// `r` is `old` brought to `Ready` at `now`: reason `-`, no last error.
pub open spec fn reloaded(r: ModuleRecord, old: ModuleRecord, now: u64) -> bool {
    &&& r.id == old.id
    &&& r.name == old.name
    &&& r.kind == old.kind
    &&& r.version == old.version
    &&& r.enabled == old.enabled
    &&& r.main_cap == old.main_cap
    &&& r.action_count == old.action_count
    &&& r.auto_start == old.auto_start
    &&& r.installed_at_ms == old.installed_at_ms
    &&& r.state == ModuleState::Ready
    &&& r.reason@ == "-"@
    &&& r.updated_at_ms == now
    &&& r.last_error is None
}

/// How many records of `recs` are reloadable.
pub open spec fn count_reloadable(recs: Seq<ModuleRecord>) -> nat
    decreases recs.len(),
{
    if recs.len() == 0 {
        0
    } else {
        count_reloadable(recs.drop_last()) + if reloadable(recs.last()) {
            1nat
        } else {
            0nat
        }
    }
}

/// Every reloadable record of `o` is reloaded at `now` in `n`; every other
/// record is kept.
pub open spec fn all_reloaded(o: Map<Seq<char>, ModuleRecord>, n: Map<Seq<char>, ModuleRecord>, now: u64) -> bool {
    forall|k: Seq<char>| #[trigger] o.contains_key(k) ==> {
        &&& reloadable(o[k]) ==> reloaded(n[k], o[k], now)
        &&& !reloadable(o[k]) ==> n[k] == o[k]
    }
}

/// `seq` bumped `n` times.
pub open spec fn bumped_n(seq: u64, n: nat) -> u64
    decreases n,
{
    if n == 0 {
        seq
    } else {
        bumped(bumped_n(seq, (n - 1) as nat))
    }
}

/// `n`, held at `u32::MAX`.
pub open spec fn min_u32(n: nat) -> nat {
    if n <= u32::MAX {
        n
    } else {
        u32::MAX as nat
    }
}

/// The set of installed modules, their last error and a change counter.
#[derive(Debug, Clone)]
pub struct ModuleRegistry {
    records: Vec<ModuleRecord>,
    last_error: Option<ModuleErrorRecord>,
    event_seq: u64,
}

impl View for ModuleRegistry {
    type V = Map<Seq<char>, ModuleRecord>;

    closed spec fn view(&self) -> Map<Seq<char>, ModuleRecord> {
        record_map(self.records@)
    }
}

impl Default for ModuleRegistry {
    fn default() -> (r: Self)
        ensures
            r.wf(),
            r@ == Map::<Seq<char>, ModuleRecord>::empty(),
            r.entries() == Seq::<ModuleRecord>::empty(),
            r.spec_last_error() is None,
            r.spec_event_seq() == 0,
    {
        Self::new()
    }
}

/// What bringing every enabled, not disabled record to `Ready` at time
/// `now`, in id order, makes of the registry `o`: `n`, with the same ids in
/// the same order, each such record reloaded and the others unchanged;
/// `total` counts them (at most `u32::MAX`), nothing fails; each reload
/// counts one event and clears the last error.
pub open spec fn reload_all_done(o: ModuleRegistry, n: ModuleRegistry, now: u64, r: ModuleReloadAllResult) -> bool {
    &&& n.entries().len() == o.entries().len()
    &&& forall|j: int| 0 <= j < o.entries().len() ==> {
        let a = #[trigger] o.entries()[j];
        let b = n.entries()[j];
        &&& reloadable(a) ==> reloaded(b, a, now)
        &&& !reloadable(a) ==> b == a
    }
    &&& n@.dom() == o@.dom()
    &&& all_reloaded(o@, n@, now)
    &&& r.total as nat == min_u32(count_reloadable(o.entries()))
    &&& r.failed == 0
    &&& r.failed_ids@.len() == 0
    &&& n.spec_last_error() == if count_reloadable(o.entries()) > 0 {
        None
    } else {
        o.spec_last_error()
    }
    &&& n.spec_event_seq() == bumped_n(o.spec_event_seq(), count_reloadable(o.entries()))
}

/// The event counter never goes down: one event, or `n` of them, leave it
/// at least where it was.
pub proof fn lemma_event_seq_grows(seq: u64, n: nat)
    ensures
        seq <= bumped(seq),
        seq <= bumped_n(seq, n),
    decreases n,
{
    if n > 0 {
        lemma_event_seq_grows(seq, (n - 1) as nat);
    }
}

/// Counting `a` events and then `b` more is counting `a + b`.
pub proof fn lemma_bumped_n_add(seq: u64, a: nat, b: nat)
    ensures
        bumped_n(bumped_n(seq, a), b) == bumped_n(seq, a + b),
    decreases b,
{
    if b > 0 {
        lemma_bumped_n_add(seq, a, (b - 1) as nat);
        assert((a + b - 1) as nat == a + (b - 1) as nat);
    }
}

/// No event, one event and two events, in the terms the calls' contracts
/// use.
pub proof fn lemma_few_events(seq: u64)
    ensures
        bumped_n(seq, 0) == seq,
        bumped_n(seq, 1) == bumped(seq),
        bumped_n(seq, 2) == bumped(bumped(seq)),
{
    assert(bumped_n(seq, 1) == bumped(bumped_n(seq, 0)));
    assert(bumped_n(seq, 2) == bumped(bumped_n(seq, 1)));
}

/// The number of events that calls counting `ks` count together.
pub open spec fn events_total(ks: Seq<nat>) -> nat
    decreases ks.len(),
{
    if ks.len() == 0 {
        0
    } else {
        events_total(ks.drop_last()) + ks.last()
    }
}

/// Each call `i` takes the registry from `rs[i]` to `rs[i + 1]` and counts
/// `ks[i]` events.
pub open spec fn calls_count(rs: Seq<ModuleRegistry>, ks: Seq<nat>) -> bool {
    &&& rs.len() == ks.len() + 1
    &&& forall|i: int|
        0 <= i < ks.len() ==> rs[i + 1].spec_event_seq() == bumped_n(rs[i].spec_event_seq(), #[trigger] ks[i])
}

proof fn lemma_counter_prefix(rs: Seq<ModuleRegistry>, ks: Seq<nat>, j: int)
    requires
        calls_count(rs, ks),
        0 <= j <= ks.len(),
    ensures
        rs[j].spec_event_seq() == bumped_n(rs[0].spec_event_seq(), events_total(ks.take(j))),
    decreases j,
{
    if j > 0 {
        lemma_counter_prefix(rs, ks, j - 1);
        assert(ks.take(j).drop_last() =~= ks.take(j - 1));
        assert(ks.take(j).last() == ks[j - 1]);
        lemma_bumped_n_add(rs[0].spec_event_seq(), events_total(ks.take(j - 1)), ks[j - 1]);
    } else {
        assert(ks.take(0) =~= Seq::<nat>::empty());
    }
}

proof fn lemma_counter_monotone(rs: Seq<ModuleRegistry>, ks: Seq<nat>, i: int, j: int)
    requires
        calls_count(rs, ks),
        0 <= i <= j < rs.len(),
    ensures
        rs[i].spec_event_seq() <= rs[j].spec_event_seq(),
    decreases j - i,
{
    if i < j {
        lemma_counter_monotone(rs, ks, i, j - 1);
        assert(rs[j].spec_event_seq() == bumped_n(rs[j - 1].spec_event_seq(), ks[j - 1]));
        lemma_event_seq_grows(rs[j - 1].spec_event_seq(), ks[j - 1]);
    }
}

/// The event counter over any sequence of registry calls: when each call
/// takes the registry from `rs[i]` to `rs[i + 1]` and counts `ks[i]`
/// events (one for a stored record, a removed one, a set or cleared last
/// error and a reload of a known module; none for a read, a refused store,
/// a missed removal and a reload of an unknown module; one per reloadable
/// module for a reload of every module), the counter ends at its start
/// counted on by their sum (held at `u64::MAX`), and it never falls.
pub proof fn lemma_event_seq_over_calls(rs: Seq<ModuleRegistry>, ks: Seq<nat>)
    requires
        calls_count(rs, ks),
    ensures
        rs.last().spec_event_seq() == bumped_n(rs[0].spec_event_seq(), events_total(ks)),
        forall|i: int, j: int|
            0 <= i <= j < rs.len() ==> #[trigger] rs[i].spec_event_seq() <= #[trigger] rs[j].spec_event_seq(),
{
    lemma_counter_prefix(rs, ks, ks.len() as int);
    assert(ks.take(ks.len() as int) =~= ks);
    assert forall|i: int, j: int| 0 <= i <= j < rs.len() implies #[trigger] rs[i].spec_event_seq()
        <= #[trigger] rs[j].spec_event_seq() by {
        lemma_counter_monotone(rs, ks, i, j);
    }
}

/// What bringing the record of `module_id` to `Ready` at time `now` makes
/// of the registry `o`: `n`, answering `r`. An unknown id leaves
/// `E_MODULE_NOT_FOUND` as the last error; a disabled record is marked
/// `Disabled` with the error `E_MODULE_DISABLED`, on itself and as the last
/// error; otherwise the record is reloaded and the last error cleared. Each
/// change of a record counts one event.
pub open spec fn reload_by_id_done(
    o: ModuleRegistry,
    n: ModuleRegistry,
    module_id: Seq<char>,
    now: u64,
    r: Result<ModuleRecord, ModuleRegistryError>,
) -> bool {
    &&& !o@.contains_key(module_id) ==> {
        &&& r matches Err(e) && e.code@ == "E_MODULE_NOT_FOUND"@ && e.message@ == "module_not_found"@
            && e.module_id@ == module_id
        &&& n@ == o@
        &&& n.spec_last_error() matches Some(le) && reload_error_record(le, "E_MODULE_NOT_FOUND"@, "module_not_found"@, module_id, now)
        &&& n.spec_event_seq() == o.spec_event_seq()
    }
    &&& o@.contains_key(module_id) && !reloadable(o@[module_id]) ==> {
        let a = o@[module_id];
        let b = n@[module_id];
        &&& r matches Err(e) && e.code@ == "E_MODULE_DISABLED"@ && e.message@ == "module_disabled"@
            && e.module_id@ == module_id
        &&& n@ == o@.insert(module_id, b)
        &&& b.id == a.id && b.name == a.name && b.kind == a.kind && b.version == a.version
        &&& b.enabled == a.enabled && b.main_cap == a.main_cap && b.action_count == a.action_count
        &&& b.auto_start == a.auto_start && b.installed_at_ms == a.installed_at_ms
        &&& b.state == ModuleState::Disabled && b.reason@ == "disabled"@ && b.updated_at_ms == now
        &&& b.last_error matches Some(le) && reload_error_record(le, "E_MODULE_DISABLED"@, "module_disabled"@, module_id, now)
        &&& n.spec_last_error() == b.last_error
        &&& n.spec_event_seq() == bumped(o.spec_event_seq())
    }
    &&& o@.contains_key(module_id) && reloadable(o@[module_id]) ==> {
        &&& r matches Ok(out) && reloaded(out, o@[module_id], now)
        &&& n@ == o@.insert(module_id, r->Ok_0)
        &&& n.spec_last_error() is None
        &&& n.spec_event_seq() == bumped(o.spec_event_seq())
    }
}

impl ModuleRegistry {
    /// The records in id order.
    pub closed spec fn entries(&self) -> Seq<ModuleRecord> {
        self.records@
    }

    pub closed spec fn spec_last_error(&self) -> Option<ModuleErrorRecord> {
        self.last_error
    }

    pub closed spec fn spec_event_seq(&self) -> u64 {
        self.event_seq
    }

    /// The records are sorted strictly by id.
    pub closed spec fn wf(&self) -> bool {
        &&& ids_sorted(self.records@)
        &&& forall|i: int| 0 <= i < self.records@.len() ==> id_ok(#[trigger] self.records@[i].id@)
    }

    /// A well-formed registry lists its records sorted strictly by id, and
    /// maps each id to the record listed with it.
    pub proof fn lemma_entries(&self)
        requires
            self.wf(),
        ensures
            ids_sorted(self.entries()),
            self@ == record_map(self.entries()),
            forall|i: int| 0 <= i < self.entries().len() ==> #[trigger] self@[self.entries()[i].id@] == self.entries()[i]
                && self@.contains_key(self.entries()[i].id@),
            forall|k: Seq<char>| self@.contains_key(k) <==> has_id(self.entries(), k),
            forall|k: Seq<char>| #[trigger] self@.contains_key(k) ==> id_ok(k) && self@[k].id@ == k,
    {
        assert forall|k: Seq<char>| #[trigger] self@.contains_key(k) implies id_ok(k) && self@[k].id@ == k by {
            let i = index_of_id(self.records@, k);
            lemma_record_at(self.records@, i);
        }
        assert forall|i: int| 0 <= i < self.entries().len() implies #[trigger] self@[self.entries()[i].id@] == self.entries()[i]
            && self@.contains_key(self.entries()[i].id@) by {
            lemma_record_at(self.records@, i);
        }
    }

    /// An empty registry.
    pub fn new() -> (r: Self)
        ensures
            r.wf(),
            r@ == Map::<Seq<char>, ModuleRecord>::empty(),
            r.entries() == Seq::<ModuleRecord>::empty(),
            r.spec_last_error() is None,
            r.spec_event_seq() == 0,
    {
        let r = ModuleRegistry { records: Vec::new(), last_error: None, event_seq: 0 };
        assert(r@ =~= Map::<Seq<char>, ModuleRecord>::empty());
        r
    }

    /// Number of records.
    pub fn count(&self) -> (r: usize)
        ensures
            r == self.entries().len(),
    {
        self.records.len()
    }

    /// How many changes the registry has seen (held at `u64::MAX`).
    pub fn event_seq(&self) -> (r: u64)
        ensures
            r == self.spec_event_seq(),
    {
        self.event_seq
    }

    /// Every record, in id order.
    pub fn list(&self) -> (r: Vec<ModuleRecord>)
        ensures
            r@ == self.entries(),
    {
        let mut out: Vec<ModuleRecord> = Vec::new();
        let mut i: usize = 0;
        while i < self.records.len()
            invariant
                i <= self.records.len(),
                out@ == self.records@.take(i as int),
            decreases self.records.len() - i,
        {
            out.push(self.records[i].clone());
            i += 1;
            assert(self.records@.take(i as int) == self.records@.take(i - 1).push(self.records@[i - 1]));
        }
        assert(self.records@.take(self.records.len() as int) == self.records@);
        out
    }

    /// Where `id` is or would go: every record before `p` sorts before `id`;
    /// when `found`, the record at `p` has id `id`; else every record from `p`
    /// on sorts after it.
    fn locate(&self, id: &Vec<char>) -> (r: (usize, bool))
        requires
            self.wf(),
        ensures
            r.0 <= self.records.len(),
            forall|i: int| 0 <= i < r.0 ==> text_lt(#[trigger] self.records@[i].id@, id@),
            r.1 ==> r.0 < self.records.len() && self.records@[r.0 as int].id@ == id@,
            !r.1 ==> forall|i: int| r.0 <= i < self.records.len() ==> text_lt(id@, #[trigger] self.records@[i].id@),
            r.1 == self@.contains_key(id@),
    {
        let mut p: usize = 0;
        while p < self.records.len()
            invariant
                p <= self.records.len(),
                self.wf(),
                forall|i: int| 0 <= i < p ==> text_lt(#[trigger] self.records@[i].id@, id@),
            decreases self.records.len() - p,
        {
            let cur = chars_of(self.records[p].id.as_str());
            if !chars_lt(&cur, id) {
                let same = chars_same(&cur, id);
                proof {
                    if !same {
                        lemma_text_lt_total(cur@, id@);
                        assert forall|i: int| p <= i < self.records.len() implies text_lt(id@, #[trigger] self.records@[i].id@) by {
                            if i > p {
                                assert(text_lt(self.records@[p as int].key(), self.records@[i].key()));
                                lemma_text_lt_transitive(id@, cur@, self.records@[i].id@);
                            }
                        }
                        if self@.contains_key(id@) {
                            let j = index_of_id(self.records@, id@);
                            if j < p {
                                lemma_text_lt_irreflexive(id@);
                            } else {
                                lemma_text_lt_irreflexive(id@);
                            }
                        }
                    } else {
                        assert(has_id(self.records@, id@));
                    }
                }
                return (p, same);
            }
            p += 1;
        }
        proof {
            if self@.contains_key(id@) {
                let j = index_of_id(self.records@, id@);
                lemma_text_lt_irreflexive(id@);
            }
        }
        (p, false)
    }

    /// The record stored under `module_id`, if any.
    pub fn get(&self, module_id: &str) -> (r: Option<ModuleRecord>)
        requires
            self.wf(),
        ensures
            r == (if self@.contains_key(module_id@) {
                Some(self@[module_id@])
            } else {
                None
            }),
    {
        let id = chars_of(module_id);
        let (p, found) = self.locate(&id);
        if found {
            proof {
                lemma_record_at(self.records@, p as int);
            }
            Some(self.records[p].clone())
        } else {
            None
        }
    }

    fn bump_event_seq(&mut self)
        ensures
            final(self).event_seq == bumped(old(self).event_seq),
            final(self).records == old(self).records,
            final(self).last_error == old(self).last_error,
    {
        self.event_seq = self.event_seq.saturating_add(1);
    }

    /// Stores `record` under its sanitized id at time `now`, keeping the
    /// install time of a record it replaces.
    pub fn upsert_at(&mut self, record: ModuleRecord, now: u64) -> (r: Result<ModuleRecord, ModuleRegistryError>)
        requires
            old(self).wf(),
        ensures
            final(self).wf(),
            match sanitized_id(record.id@) {
                None => {
                    &&& r matches Err(e) && e.code@ == "E_MODULE_ID_INVALID"@ && e.message@ == "module_id_invalid"@
                        && e.module_id@ == record.id@
                    &&& final(self)@ == old(self)@
                    &&& final(self).entries() == old(self).entries()
                    &&& final(self).spec_event_seq() == old(self).spec_event_seq()
                },
                Some(id) => {
                    &&& r matches Ok(out) && upserted(out, record, id, old(self)@, now)
                    &&& final(self)@ == old(self)@.insert(id, r->Ok_0)
                    &&& final(self).spec_event_seq() == bumped(old(self).spec_event_seq())
                },
            },
            final(self).spec_last_error() == old(self).spec_last_error(),
    {
        let mut record = record;
        let ghost input = record;
        let id = match sanitize_module_id(record.id.as_str()) {
            Ok(v) => v,
            Err(e) => return Err(e),
        };
        record.id = id;
        let idc = chars_of(record.id.as_str());
        let (p, found) = self.locate(&idc);
        if found {
            proof {
                lemma_record_at(self.records@, p as int);
            }
            record.installed_at_ms = self.records[p].installed_at_ms;
        } else if record.installed_at_ms == 0 {
            record.installed_at_ms = now;
        }
        record.updated_at_ms = now;
        let out = record.clone();
        if found {
            proof {
                lemma_update_keeps_order(self.records@, p as int, record);
            }
            self.records.set(p, record);
        } else {
            proof {
                lemma_insert_keeps_order(self.records@, p as int, record);
            }
            self.records.insert(p, record);
        }
        self.bump_event_seq();
        Ok(out)
    }

    /// Stores `record` under its sanitized id, stamped with the current time.
    pub fn upsert(&mut self, record: ModuleRecord) -> (r: Result<ModuleRecord, ModuleRegistryError>)
        requires
            old(self).wf(),
        ensures
            final(self).wf(),
            match sanitized_id(record.id@) {
                None => {
                    &&& r matches Err(e) && e.code@ == "E_MODULE_ID_INVALID"@ && e.message@ == "module_id_invalid"@
                        && e.module_id@ == record.id@
                    &&& final(self)@ == old(self)@
                    &&& final(self).entries() == old(self).entries()
                    &&& final(self).spec_event_seq() == old(self).spec_event_seq()
                },
                Some(id) => {
                    &&& r matches Ok(out) && exists|now: u64| upserted(out, record, id, old(self)@, now)
                    &&& final(self)@ == old(self)@.insert(id, r->Ok_0)
                    &&& final(self).spec_event_seq() == bumped(old(self).spec_event_seq())
                },
            },
            final(self).spec_last_error() == old(self).spec_last_error(),
    {
        let now = now_ms();
        self.upsert_at(record, now)
    }

    /// Drops the record of `module_id`; tells whether there was one.
    pub fn remove(&mut self, module_id: &str) -> (r: bool)
        requires
            old(self).wf(),
        ensures
            final(self).wf(),
            r == old(self)@.contains_key(module_id@),
            final(self)@ == old(self)@.remove(module_id@),
            final(self).spec_event_seq() == if r {
                bumped(old(self).spec_event_seq())
            } else {
                old(self).spec_event_seq()
            },
            final(self).spec_last_error() == old(self).spec_last_error(),
    {
        let id = chars_of(module_id);
        let (p, found) = self.locate(&id);
        if found {
            proof {
                lemma_remove_keeps_order(self.records@, p as int);
            }
            self.records.remove(p);
            self.bump_event_seq();
        } else {
            assert(old(self)@.remove(module_id@) =~= old(self)@);
        }
        found
    }

    /// Records `record` as the registry's last error.
    pub fn set_last_error(&mut self, record: ModuleErrorRecord)
        requires
            old(self).wf(),
        ensures
            final(self).wf(),
            final(self)@ == old(self)@,
            final(self).entries() == old(self).entries(),
            final(self).spec_last_error() == Some(record),
            final(self).spec_event_seq() == bumped(old(self).spec_event_seq()),
    {
        self.last_error = Some(record);
        self.bump_event_seq();
    }

    /// Forgets the registry's last error.
    pub fn clear_last_error(&mut self)
        requires
            old(self).wf(),
        ensures
            final(self).wf(),
            final(self)@ == old(self)@,
            final(self).entries() == old(self).entries(),
            final(self).spec_last_error() is None,
            final(self).spec_event_seq() == bumped(old(self).spec_event_seq()),
    {
        self.last_error = None;
        self.bump_event_seq();
    }

    /// The registry's last error.
    pub fn last_error(&self) -> (r: Option<ModuleErrorRecord>)
        ensures
            r == self.spec_last_error(),
    {
        match &self.last_error {
            Some(e) => Some(e.clone()),
            None => None,
        }
    }

    /// Brings the record of `module_id` to `Ready` at time `now`. An unknown
    /// id leaves `E_MODULE_NOT_FOUND` as the last error; a disabled record is
    /// marked `Disabled` with that error, `E_MODULE_DISABLED`, on itself and as
    /// the last error.
    pub fn reload_by_id_at(&mut self, module_id: &str, now: u64) -> (r: Result<ModuleRecord, ModuleRegistryError>)
        requires
            old(self).wf(),
        ensures
            final(self).wf(),
            reload_by_id_done(*old(self), *final(self), module_id@, now, r),
    {
        let id = chars_of(module_id);
        let (p, found) = self.locate(&id);
        let mut detail: Vec<char> = Vec::new();
        push_str(&mut detail, "id=");
        push_str(&mut detail, module_id);
        let detail = string_from_chars(&detail);
        if !found {
            let err = ModuleRegistryError::with_module("E_MODULE_NOT_FOUND", "module_not_found", module_id);
            self.last_error = Some(ModuleErrorRecord::new_at("module.lifecycle", err.code, err.message, detail.as_str(), now));
            return Err(err);
        }
        proof {
            lemma_record_at(self.records@, p as int);
        }
        let mut rec = self.records[p].clone();
        let ghost o = rec;
        if !rec.enabled || rec.state == ModuleState::Disabled {
            let err = ModuleRegistryError::with_module("E_MODULE_DISABLED", "module_disabled", module_id);
            let le = ModuleErrorRecord::new_at("module.lifecycle", err.code, err.message, detail.as_str(), now);
            rec.state = ModuleState::Disabled;
            rec.reason = "disabled".to_owned();
            rec.updated_at_ms = now;
            rec.last_error = Some(le.clone());
            self.last_error = Some(le);
            proof {
                lemma_update_keeps_order(self.records@, p as int, rec);
            }
            self.records.set(p, rec);
            self.bump_event_seq();
            return Err(err);
        }
        rec.state = ModuleState::Ready;
        rec.reason = "-".to_owned();
        rec.updated_at_ms = now;
        rec.last_error = None;
        self.last_error = None;
        let out = rec.clone();
        proof {
            lemma_update_keeps_order(self.records@, p as int, rec);
        }
        self.records.set(p, rec);
        self.bump_event_seq();
        Ok(out)
    }

    /// `reload_by_id_at` stamped with the current time.
    pub fn reload_by_id(&mut self, module_id: &str) -> (r: Result<ModuleRecord, ModuleRegistryError>)
        requires
            old(self).wf(),
        ensures
            final(self).wf(),
            exists|now: u64| #[trigger] reload_by_id_done(*old(self), *final(self), module_id@, now, r),
    {
        let now = now_ms();
        self.reload_by_id_at(module_id, now)
    }

    /// Brings every enabled, not disabled record to `Ready` at time `now`,
    /// in id order; counts them in `total`.
    pub fn reload_all_at(&mut self, now: u64) -> (r: ModuleReloadAllResult)
        requires
            old(self).wf(),
        ensures
            final(self).wf(),
            reload_all_done(*old(self), *final(self), now, r),
    {
        let ghost olds = self.records@;
        let ghost old_err = self.last_error;
        let ghost old_seq = self.event_seq;
        let mut out = ModuleReloadAllResult { total: 0, failed: 0, failed_ids: Vec::new() };
        let mut i: usize = 0;
        while i < self.records.len()
            invariant
                i <= self.records.len(),
                self.records@.len() == olds.len(),
                ids_sorted(olds),
                forall|j: int| 0 <= j < olds.len() ==> #[trigger] self.records@[j].id@ == olds[j].id@,
                forall|j: int| 0 <= j < i ==> {
                    let o = #[trigger] olds[j];
                    let n = self.records@[j];
                    &&& reloadable(o) ==> reloaded(n, o, now)
                    &&& !reloadable(o) ==> n == o
                },
                forall|j: int| i <= j < olds.len() ==> #[trigger] self.records@[j] == olds[j],
                out.total as nat == min_u32(count_reloadable(olds.take(i as int))),
                out.failed == 0,
                out.failed_ids@.len() == 0,
                self.last_error == if count_reloadable(olds.take(i as int)) > 0 {
                    None
                } else {
                    old_err
                },
                self.event_seq == bumped_n(old_seq, count_reloadable(olds.take(i as int))),
            decreases self.records.len() - i,
        {
            proof {
                assert(olds.take(i + 1).drop_last() == olds.take(i as int));
                assert(olds.take(i + 1).last() == olds[i as int]);
            }
            let eligible = self.records[i].enabled && self.records[i].state != ModuleState::Disabled;
            if eligible {
                let mut rec = self.records[i].clone();
                rec.state = ModuleState::Ready;
                rec.reason = "-".to_owned();
                rec.updated_at_ms = now;
                rec.last_error = None;
                self.records.set(i, rec);
                self.last_error = None;
                self.event_seq = self.event_seq.saturating_add(1);
                out.total = out.total.saturating_add(1);
            }
            i += 1;
        }
        proof {
            assert(olds.take(olds.len() as int) == olds);
            assert(ids_sorted(self.records@)) by {
                assert forall|a: int, b: int| 0 <= a < b < self.records@.len() implies text_lt(
                    #[trigger] self.records@[a].key(),
                    #[trigger] self.records@[b].key(),
                ) by {
                    assert(self.records@[a].id@ == olds[a].id@);
                    assert(self.records@[b].id@ == olds[b].id@);
                    assert(text_lt(olds[a].key(), olds[b].key()));
                }
            }
            assert forall|k: Seq<char>| has_id(olds, k) <==> has_id(self.records@, k) by {
                if has_id(olds, k) {
                    let j = index_of_id(olds, k);
                    assert(self.records@[j].id@ == k);
                }
                if has_id(self.records@, k) {
                    let j = index_of_id(self.records@, k);
                    assert(olds[j].id@ == k);
                }
            }
            assert(self@.dom() =~= record_map(olds).dom());
            assert forall|k: Seq<char>| #[trigger] record_map(olds).contains_key(k) implies {
                &&& reloadable(record_map(olds)[k]) ==> reloaded(self@[k], record_map(olds)[k], now)
                &&& !reloadable(record_map(olds)[k]) ==> self@[k] == record_map(olds)[k]
            } by {
                let j = index_of_id(olds, k);
                lemma_record_at(olds, j);
                lemma_record_at(self.records@, j);
            }
        }
        out
    }

    /// `reload_all_at` stamped with the current time.
    pub fn reload_all(&mut self) -> (r: ModuleReloadAllResult)
        requires
            old(self).wf(),
        ensures
            final(self).wf(),
            exists|now: u64| #[trigger] reload_all_done(*old(self), *final(self), now, r),
    {
        let now = now_ms();
        self.reload_all_at(now)
    }
}

} // verus!
