use vstd::prelude::*;
use crate::api::Status;
use crate::keyed::{Keyed, ids_sorted, has_id, index_of_id, record_map, lemma_record_at, lemma_insert_keeps_order, lemma_update_keeps_order, lemma_remove_keeps_order};
use crate::module_registry::{ModuleRegistry, ModuleRecord, ModuleErrorRecord, ModuleRegistryError, ModuleReloadAllResult, sanitized_id, upserted, reloadable, lemma_valid_id_sanitized, ModuleState, state_name, id_ok, id_char_ok, char_id_ok, chars_id_ok, all_reloaded, min_u32, count_reloadable};
use crate::text::{
    chars_of, string_from_chars, trim_chars, trim, lower_chars, lower_seq, chars_eq, chars_eq_ignore_case,
    eq_ignore_case, trim_char, trim_char_chars, is_ascii_upper, is_ascii_digit, char_is_ascii_digit,
    split_ws, ws_tokens, strip_prefix_chars, has_prefix, parse_i32_chars, spec_parse_i32, push_str,
    push_all, push_signed_decimal, signed_decimal_text, upper_seq, text_lt,
    lemma_text_lt_total, lemma_text_lt_transitive, lemma_text_lt_irreflexive, chars_same,
    split_char, split_on, push_decimal, decimal_text, lines_of, text_lines,
    parse_u32_chars, parse_u64_chars, spec_parse_u32, spec_parse_u64,
};

verus! {

/// The state named by `raw`, trimmed and in any ASCII case.
pub open spec fn spec_parse_module_state(raw: Seq<char>) -> Option<ModuleState> {
    let n = lower_seq(trim(raw));
    if n == "installed"@ {
        Some(ModuleState::Installed)
    } else if n == "disabled"@ {
        Some(ModuleState::Disabled)
    } else if n == "running"@ {
        Some(ModuleState::Running)
    } else if n == "ready"@ {
        Some(ModuleState::Ready)
    } else if n == "degraded"@ {
        Some(ModuleState::Degraded)
    } else if n == "stopped"@ {
        Some(ModuleState::Stopped)
    } else if n == "error"@ {
        Some(ModuleState::Error)
    } else if n == "removed"@ {
        Some(ModuleState::Removed)
    } else {
        None
    }
}

pub fn parse_module_state_chars(raw: &Vec<char>) -> (r: Option<ModuleState>)
    ensures
        r == spec_parse_module_state(raw@),
{
    let t = trim_chars(raw);
    let n = lower_chars(&t);
    if chars_eq(&n, "installed") {
        Some(ModuleState::Installed)
    } else if chars_eq(&n, "disabled") {
        Some(ModuleState::Disabled)
    } else if chars_eq(&n, "running") {
        Some(ModuleState::Running)
    } else if chars_eq(&n, "ready") {
        Some(ModuleState::Ready)
    } else if chars_eq(&n, "degraded") {
        Some(ModuleState::Degraded)
    } else if chars_eq(&n, "stopped") {
        Some(ModuleState::Stopped)
    } else if chars_eq(&n, "error") {
        Some(ModuleState::Error)
    } else if chars_eq(&n, "removed") {
        Some(ModuleState::Removed)
    } else {
        None
    }
}

/// Reads a state name, trimmed and in any ASCII case.
pub fn parse_module_state(raw: &str) -> (r: Option<ModuleState>)
    ensures
        r == spec_parse_module_state(raw@),
{
    let v = chars_of(raw);
    parse_module_state_chars(&v)
}

/// `allow`, `true` (any case) or `1` allow; `deny`, `false` (any case) or
/// `0` deny.
pub open spec fn spec_parse_scope_allow(raw: Seq<char>) -> Option<bool> {
    if eq_ignore_case(raw, "allow"@) || raw == "1"@ || eq_ignore_case(raw, "true"@) {
        Some(true)
    } else if eq_ignore_case(raw, "deny"@) || raw == "0"@ || eq_ignore_case(raw, "false"@) {
        Some(false)
    } else {
        None
    }
}

pub fn parse_scope_allow_chars(raw: &Vec<char>) -> (r: Option<bool>)
    ensures
        r == spec_parse_scope_allow(raw@),
{
    if chars_eq_ignore_case(raw, "allow") || chars_eq(raw, "1") || chars_eq_ignore_case(raw, "true") {
        Some(true)
    } else if chars_eq_ignore_case(raw, "deny") || chars_eq(raw, "0") || chars_eq_ignore_case(raw, "false") {
        Some(false)
    } else {
        None
    }
}

/// Reads a scope policy word.
pub fn parse_scope_allow(raw: &str) -> (r: Option<bool>)
    ensures
        r == spec_parse_scope_allow(raw@),
{
    let v = chars_of(raw);
    parse_scope_allow_chars(&v)
}

/// A valid module id: not empty, only ASCII letters, digits, `.`, `_`, `-`.
pub fn module_id_valid(raw: &str) -> (r: bool)
    ensures
        r == id_ok(raw@),
{
    let v = chars_of(raw);
    chars_id_ok(&v)
}

/// A valid scope package: `*`, or a valid module id.
pub open spec fn package_ok(raw: Seq<char>) -> bool {
    raw == "*"@ || id_ok(raw)
}

pub fn scope_package_valid(raw: &str) -> (r: bool)
    ensures
        r == package_ok(raw@),
{
    let v = chars_of(raw);
    chars_eq(&v, "*") || chars_id_ok(&v)
}

/// An environment key: an ASCII upper-case letter, then upper-case letters,
/// digits and `_`.
pub open spec fn env_key_ok(raw: Seq<char>) -> bool {
    &&& raw.len() > 0
    &&& is_ascii_upper(raw[0])
    &&& forall|i: int| 1 <= i < raw.len() ==> is_ascii_upper(#[trigger] raw[i]) || is_ascii_digit(raw[i])
        || raw[i] == '_'
}

pub fn env_key_chars_valid(v: &Vec<char>) -> (r: bool)
    ensures
        r == env_key_ok(v@),
{
    if v.len() == 0 {
        return false;
    }
    if !('A' <= v[0] && v[0] <= 'Z') {
        return false;
    }
    let mut i: usize = 1;
    while i < v.len()
        invariant
            1 <= i <= v.len(),
            forall|j: int| 1 <= j < i ==> is_ascii_upper(#[trigger] v@[j]) || is_ascii_digit(v@[j]) || v@[j] == '_',
        decreases v.len() - i,
    {
        let c = v[i];
        if !(('A' <= c && c <= 'Z') || char_is_ascii_digit(c) || c == '_') {
            return false;
        }
        i += 1;
    }
    true
}

/// Whether `raw` may name a module environment variable.
pub fn env_key_valid(raw: &str) -> (r: bool)
    ensures
        r == env_key_ok(raw@),
{
    let v = chars_of(raw);
    env_key_chars_valid(&v)
}

/// `raw` trimmed, then stripped of `"` and then of `'` at both ends.
pub open spec fn shell_value(raw: Seq<char>) -> Seq<char> {
    trim_char(trim_char(trim(raw), '"'), '\'')
}

pub fn shell_value_chars(raw: &Vec<char>) -> (r: Vec<char>)
    ensures
        r@ == shell_value(raw@),
{
    let t = trim_chars(raw);
    let a = trim_char_chars(&t, '"');
    trim_char_chars(&a, '\'')
}

/// The value of a `KEY=value` line of a shell file, without quotes.
pub fn trim_shell_value(raw: &str) -> (r: String)
    ensures
        r@ == shell_value(raw@),
{
    let v = chars_of(raw);
    let s = shell_value_chars(&v);
    string_from_chars(&s)
}

/// A shell value read as a flag: `1`, `true`, `TRUE`, `yes`, `YES`, `on`,
/// `ON` or `allow`.
pub open spec fn spec_bool_like(raw: Seq<char>) -> bool {
    let v = shell_value(raw);
    v == "1"@ || v == "true"@ || v == "TRUE"@ || v == "yes"@ || v == "YES"@ || v == "on"@ || v == "ON"@
        || v == "allow"@
}

pub fn parse_bool_like(raw: &str) -> (r: bool)
    ensures
        r == spec_bool_like(raw@),
{
    let v = chars_of(raw);
    let s = shell_value_chars(&v);
    chars_eq(&s, "1") || chars_eq(&s, "true") || chars_eq(&s, "TRUE") || chars_eq(&s, "yes") || chars_eq(
        &s,
        "YES",
    ) || chars_eq(&s, "on") || chars_eq(&s, "ON") || chars_eq(&s, "allow")
}

/// `raw` with every character outside ASCII letters, digits, `.`, `_` and
/// `-` turned into `_`.
pub open spec fn token_sanitized(raw: Seq<char>) -> Seq<char> {
    raw.map_values(|c: char| if id_char_ok(c) { c } else { '_' })
}

pub fn sanitize_token_chars(raw: &Vec<char>) -> (r: Vec<char>)
    ensures
        r@ == token_sanitized(raw@),
{
    let mut r: Vec<char> = Vec::new();
    let mut i: usize = 0;
    while i < raw.len()
        invariant
            i <= raw.len(),
            r@ == token_sanitized(raw@.take(i as int)),
        decreases raw.len() - i,
    {
        let c = raw[i];
        r.push(if char_id_ok(c) { c } else { '_' });
        i += 1;
        assert(token_sanitized(raw@.take(i as int)) =~= token_sanitized(raw@.take(i - 1)).push(
            if id_char_ok(c) { c } else { '_' },
        ));
    }
    assert(raw@.take(raw.len() as int) == raw@);
    r
}

/// Makes `raw` safe to stand as one token of a reply line.
pub fn sanitize_token(raw: &str) -> (r: String)
    ensures
        r@ == token_sanitized(raw@),
{
    let v = chars_of(raw);
    let s = sanitize_token_chars(&v);
    string_from_chars(&s)
}

/// One character of a pipe-separated field: line breaks and tabs become a
/// space, `|` becomes `¦`.
pub open spec fn pipe_char(c: char) -> char {
    if c == '\r' || c == '\n' || c == '\t' {
        ' '
    } else if c == '|' {
        '¦'
    } else {
        c
    }
}

/// `raw` made safe to stand between `|` separators, then trimmed.
pub open spec fn pipe_sanitized(raw: Seq<char>) -> Seq<char> {
    trim(raw.map_values(|c: char| pipe_char(c)))
}

pub fn sanitize_pipe_chars(raw: &Vec<char>) -> (r: Vec<char>)
    ensures
        r@ == pipe_sanitized(raw@),
{
    let mut m: Vec<char> = Vec::new();
    let mut i: usize = 0;
    while i < raw.len()
        invariant
            i <= raw.len(),
            m@ == raw@.take(i as int).map_values(|c: char| pipe_char(c)),
        decreases raw.len() - i,
    {
        let c = raw[i];
        let d = if c == '\r' || c == '\n' || c == '\t' {
            ' '
        } else if c == '|' {
            '¦'
        } else {
            c
        };
        m.push(d);
        i += 1;
        assert(raw@.take(i as int).map_values(|c: char| pipe_char(c)) =~= raw@.take(i - 1).map_values(
            |c: char| pipe_char(c),
        ).push(pipe_char(c)));
    }
    assert(raw@.take(raw.len() as int) == raw@);
    trim_chars(&m)
}

/// Makes `raw` safe to stand as one field of a `|`-separated row.
pub fn sanitize_pipe_field(raw: &str) -> (r: String)
    ensures
        r@ == pipe_sanitized(raw@),
{
    let v = chars_of(raw);
    let s = sanitize_pipe_chars(&v);
    string_from_chars(&s)
}


// ---------------------------------------------------------------------------
// Field escaping of the tab-separated registry and scope files.

/// The escaped form of one character: `\` doubles, a tab becomes `\t`, a
/// line feed becomes `\n`.
pub open spec fn escape_char(c: char) -> Seq<char> {
    if c == '\\' {
        seq!['\\', '\\']
    } else if c == '\t' {
        seq!['\\', 't']
    } else if c == '\n' {
        seq!['\\', 'n']
    } else {
        seq![c]
    }
}

/// `raw` with every character escaped.
pub open spec fn escape_seq(raw: Seq<char>) -> Seq<char>
    decreases raw.len(),
{
    if raw.len() == 0 {
        Seq::empty()
    } else {
        escape_char(raw[0]) + escape_seq(raw.drop_first())
    }
}

/// Reads escapes back: `\t`, `\n` and `\\` give a tab, a line feed and `\`;
/// a `\` before anything else, or at the end, stands for itself.
pub open spec fn unescape_seq(raw: Seq<char>) -> Seq<char>
    decreases raw.len(),
{
    if raw.len() == 0 {
        Seq::empty()
    } else if raw[0] == '\\' {
        if raw.len() == 1 {
            seq!['\\']
        } else if raw[1] == 't' {
            seq!['\t'] + unescape_seq(raw.skip(2))
        } else if raw[1] == 'n' {
            seq!['\n'] + unescape_seq(raw.skip(2))
        } else if raw[1] == '\\' {
            seq!['\\'] + unescape_seq(raw.skip(2))
        } else {
            seq!['\\', raw[1]] + unescape_seq(raw.skip(2))
        }
    } else {
        seq![raw[0]] + unescape_seq(raw.drop_first())
    }
}

/// Unescaping undoes escaping: a field written to the registry file reads
/// back as it was.
pub proof fn lemma_unescape_escape(raw: Seq<char>)
    ensures
        unescape_seq(escape_seq(raw)) == raw,
    decreases raw.len(),
{
    if raw.len() > 0 {
        let c = raw[0];
        let rest = escape_seq(raw.drop_first());
        lemma_unescape_escape(raw.drop_first());
        let e = escape_char(c) + rest;
        assert(escape_seq(raw) == e);
        if c == '\\' || c == '\t' || c == '\n' {
            assert(e.skip(2) == rest);
        } else {
            assert(e.drop_first() == rest);
        }
        assert(raw == seq![c] + raw.drop_first());
    }
}

pub fn escape_chars(raw: &Vec<char>) -> (r: Vec<char>)
    ensures
        r@ == escape_seq(raw@),
{
    let mut out: Vec<char> = Vec::new();
    let mut i: usize = 0;
    assert(raw@.skip(0) == raw@);
    assert(out@ + escape_seq(raw@) =~= escape_seq(raw@));
    while i < raw.len()
        invariant
            i <= raw.len(),
            escape_seq(raw@) == out@ + escape_seq(raw@.skip(i as int)),
        decreases raw.len() - i,
    {
        let c = raw[i];
        proof {
            assert(raw@.skip(i as int).drop_first() == raw@.skip(i + 1));
            assert(raw@.skip(i as int)[0] == c);
        }
        let ghost before = out@;
        if c == '\\' {
            out.push('\\');
            out.push('\\');
        } else if c == '\t' {
            out.push('\\');
            out.push('t');
        } else if c == '\n' {
            out.push('\\');
            out.push('n');
        } else {
            out.push(c);
        }
        assert(out@ == before + escape_char(c));
        i += 1;
    }
    assert(raw@.skip(raw.len() as int) == Seq::<char>::empty());
    assert(escape_seq(Seq::<char>::empty()) == Seq::<char>::empty());
    out
}

/// Escapes `\`, tab and line feed so that `raw` fits in one field.
pub fn escape_field(raw: &str) -> (r: String)
    ensures
        r@ == escape_seq(raw@),
{
    let v = chars_of(raw);
    let e = escape_chars(&v);
    string_from_chars(&e)
}

pub fn unescape_chars(raw: &Vec<char>) -> (r: Vec<char>)
    ensures
        r@ == unescape_seq(raw@),
{
    let mut out: Vec<char> = Vec::new();
    let mut i: usize = 0;
    assert(raw@.skip(0) == raw@);
    assert(out@ + unescape_seq(raw@) =~= unescape_seq(raw@));
    while i < raw.len()
        invariant
            i <= raw.len(),
            unescape_seq(raw@) == out@ + unescape_seq(raw@.skip(i as int)),
        decreases raw.len() - i,
    {
        let ghost before = out@;
        let ghost tail = raw@.skip(i as int);
        let c = raw[i];
        assert(tail[0] == c);
        if c == '\\' {
            if i + 1 >= raw.len() {
                out.push('\\');
                i += 1;
                assert(tail.len() == 1);
                assert(raw@.skip(i as int) == Seq::<char>::empty());
                assert(unescape_seq(Seq::<char>::empty()) == Seq::<char>::empty());
            } else {
                let d = raw[i + 1];
                assert(tail[1] == d);
                assert(tail.skip(2) == raw@.skip(i + 2));
                if d == 't' {
                    out.push('\t');
                } else if d == 'n' {
                    out.push('\n');
                } else if d == '\\' {
                    out.push('\\');
                } else {
                    out.push('\\');
                    out.push(d);
                }
                i += 2;
            }
        } else {
            out.push(c);
            assert(tail.drop_first() == raw@.skip(i + 1));
            i += 1;
        }
    }
    assert(raw@.skip(raw.len() as int) == Seq::<char>::empty());
    assert(unescape_seq(Seq::<char>::empty()) == Seq::<char>::empty());
    out
}

/// Reads a field written by `escape_field`.
pub fn unescape_field(raw: &str) -> (r: String)
    ensures
        r@ == unescape_seq(raw@),
{
    let v = chars_of(raw);
    let u = unescape_chars(&v);
    string_from_chars(&u)
}

// ---------------------------------------------------------------------------
// `state=` and `reason=` tokens of a status script's output.

/// What a status script reported.
#[derive(Debug)]
pub struct ModuleStatusKv {
    pub state: Option<ModuleState>,
    pub reason: Option<String>,
}

/// The state named by the last `state=` token (`None` when it names none).
pub open spec fn kv_state(toks: Seq<Seq<char>>) -> Option<ModuleState>
    decreases toks.len(),
{
    if toks.len() == 0 {
        None
    } else if has_prefix(toks.last(), "state="@) {
        spec_parse_module_state(toks.last().skip(6))
    } else {
        kv_state(toks.drop_last())
    }
}

/// The text after the last `reason=` token.
pub open spec fn kv_reason(toks: Seq<Seq<char>>) -> Option<Seq<char>>
    decreases toks.len(),
{
    if toks.len() == 0 {
        None
    } else if has_prefix(toks.last(), "state="@) {
        kv_reason(toks.drop_last())
    } else if has_prefix(toks.last(), "reason="@) {
        Some(toks.last().skip(7))
    } else {
        kv_reason(toks.drop_last())
    }
}

/// Reads `state=` and `reason=` tokens from every line of `raw`; a later
/// token wins.
pub fn parse_status_kv(raw: &str) -> (r: ModuleStatusKv)
    ensures
        r.state == kv_state(ws_tokens(raw@)),
        match kv_reason(ws_tokens(raw@)) {
            Some(v) => r.reason matches Some(s) && s@ == v,
            None => r.reason is None,
        },
{
    let v = chars_of(raw);
    let toks = split_ws(&v);
    let ghost ts = ws_tokens(raw@);
    let mut state: Option<ModuleState> = None;
    let mut reason: Option<Vec<char>> = None;
    let mut i: usize = 0;
    while i < toks.len()
        invariant
            i <= toks.len(),
            toks@.len() == ts.len(),
            forall|k: int| 0 <= k < toks@.len() ==> #[trigger] toks@[k]@ == ts[k],
            state == kv_state(ts.take(i as int)),
            match kv_reason(ts.take(i as int)) {
                Some(v) => reason matches Some(s) && s@ == v,
                None => reason is None,
            },
        decreases toks.len() - i,
    {
        proof {
            assert(ts.take(i + 1).drop_last() == ts.take(i as int));
            assert(ts.take(i + 1).last() == ts[i as int]);
        }
        match strip_prefix_chars(&toks[i], "state=") {
            Some(rest) => {
                proof {
                    reveal_strlit("state=");
                }
                state = parse_module_state_chars(&rest);
            },
            None => {
                match strip_prefix_chars(&toks[i], "reason=") {
                    Some(rest) => {
                        proof {
                            reveal_strlit("reason=");
                        }
                        reason = Some(rest);
                    },
                    None => {},
                }
            },
        }
        i += 1;
    }
    assert(ts.take(ts.len() as int) == ts);
    let reason_text = match reason {
        Some(v) => Some(string_from_chars(&v)),
        None => None,
    };
    ModuleStatusKv { state, reason: reason_text }
}


// ---------------------------------------------------------------------------
// Scope rules: which package and user may drive a module.

/// One scope rule of a module: package (`*` for any) and user (`-1` for any).
#[derive(Debug, PartialEq, Eq)]
pub struct ModuleScopeRule {
    pub package_name: String,
    pub user_id: i32,
    pub allow: bool,
}

impl Clone for ModuleScopeRule {
    fn clone(&self) -> (r: Self)
        ensures
            r == *self,
    {
        ModuleScopeRule { package_name: self.package_name.clone(), user_id: self.user_id, allow: self.allow }
    }
}

/// Who asks: a package name (`*` when not given) and a user id.
#[derive(Debug)]
pub struct ScopeContext {
    pub package_name: String,
    pub user_id: i32,
}

/// The verdict for a context and the rule that gave it, if any.
#[derive(Debug)]
pub struct ScopeDecision {
    pub allow: bool,
    pub matched: Option<ModuleScopeRule>,
}

/// A rule applies when its package is `*` or the caller's, and its user is
/// `-1` or the caller's.
pub open spec fn rule_applies(rule: ModuleScopeRule, pkg: Seq<char>, user: i32) -> bool {
    (rule.package_name@ == "*"@ || rule.package_name@ == pkg) && (rule.user_id == -1 || rule.user_id == user)
}

/// How specific a rule is: 2 for a named package, 1 for a named user.
pub open spec fn rule_score(rule: ModuleScopeRule) -> int {
    (if rule.package_name@ == "*"@ { 0int } else { 2int }) + (if rule.user_id == -1 { 0int } else { 1int })
}

/// The rule that decides: the most specific applying rule, the later one
/// among equals.
pub open spec fn picked_rule(rules: Seq<ModuleScopeRule>, pkg: Seq<char>, user: i32) -> Option<ModuleScopeRule>
    decreases rules.len(),
{
    if rules.len() == 0 {
        None
    } else {
        let p = picked_rule(rules.drop_last(), pkg, user);
        let r = rules.last();
        if rule_applies(r, pkg, user) && (p is None || rule_score(r) >= rule_score(p->Some_0)) {
            Some(r)
        } else {
            p
        }
    }
}

/// The picked rule applies and no applying rule is more specific.
pub proof fn lemma_picked_rule_most_specific(rules: Seq<ModuleScopeRule>, pkg: Seq<char>, user: i32)
    ensures
        picked_rule(rules, pkg, user) matches Some(r) ==> rule_applies(r, pkg, user) && rules.contains(r)
            && forall|i: int| 0 <= i < rules.len() && rule_applies(#[trigger] rules[i], pkg, user) ==> rule_score(rules[i]) <= rule_score(r),
        picked_rule(rules, pkg, user) is None ==> forall|i: int| 0 <= i < rules.len() ==> !rule_applies(#[trigger] rules[i], pkg, user),
    decreases rules.len(),
{
    if rules.len() > 0 {
        let q = rules.drop_last();
        lemma_picked_rule_most_specific(q, pkg, user);
        assert forall|i: int| 0 <= i < rules.len() - 1 implies #[trigger] rules[i] == q[i] by {}
        if let Some(r) = picked_rule(rules, pkg, user) {
            if r == rules.last() {
                assert(rules[rules.len() - 1] == r);
            } else {
                let j = choose|j: int| 0 <= j < q.len() && q[j] == r;
                assert(rules[j] == r);
            }
        }
        assert forall|i: int| 0 <= i < rules.len() - 1 implies #[trigger] q[i] == rules[i] by {}
    }
}

/// The last rule among `rules` that applies to `pkg` and `user` and that
/// names a package exactly when `named_pkg` and a user exactly when
/// `named_user`.
pub open spec fn last_applying_of_kind(
    rules: Seq<ModuleScopeRule>,
    pkg: Seq<char>,
    user: i32,
    named_pkg: bool,
    named_user: bool,
) -> Option<ModuleScopeRule>
    decreases rules.len(),
{
    if rules.len() == 0 {
        None
    } else {
        let r = rules.last();
        if rule_applies(r, pkg, user) && (r.package_name@ != "*"@) == named_pkg && (r.user_id != -1) == named_user {
            Some(r)
        } else {
            last_applying_of_kind(rules.drop_last(), pkg, user, named_pkg, named_user)
        }
    }
}

/// The rule that decides by kind: among the applying rules, the last one
/// naming both the package and the user; failing that, the last naming
/// the package only; failing that, the last naming the user only; failing
/// that, the last naming neither.
pub open spec fn deciding_rule_by_kind(rules: Seq<ModuleScopeRule>, pkg: Seq<char>, user: i32) -> Option<ModuleScopeRule> {
    match last_applying_of_kind(rules, pkg, user, true, true) {
        Some(r) => Some(r),
        None => match last_applying_of_kind(rules, pkg, user, true, false) {
            Some(r) => Some(r),
            None => match last_applying_of_kind(rules, pkg, user, false, true) {
                Some(r) => Some(r),
                None => last_applying_of_kind(rules, pkg, user, false, false),
            },
        },
    }
}

proof fn lemma_last_applying_of_kind(rules: Seq<ModuleScopeRule>, pkg: Seq<char>, user: i32, named_pkg: bool, named_user: bool)
    ensures
        last_applying_of_kind(rules, pkg, user, named_pkg, named_user) matches Some(r) ==> rule_applies(r, pkg, user)
            && (r.package_name@ != "*"@) == named_pkg && (r.user_id != -1) == named_user,
    decreases rules.len(),
{
    if rules.len() > 0 {
        lemma_last_applying_of_kind(rules.drop_last(), pkg, user, named_pkg, named_user);
    }
}

/// Which rule decides, by kind: a rule naming both the caller's package
/// and user outranks one naming only the package, which outranks one
/// naming only the user, which outranks one naming neither; among rules
/// of one kind the later decides. So when a rule naming the caller's
/// package (any user) and a rule naming the caller's user (any package)
/// both apply, and none names both, the verdict is that of the last rule
/// naming the package. With no applying rule the verdict is allow.
pub proof fn lemma_scope_rule_ranking(rules: Seq<ModuleScopeRule>, pkg: Seq<char>, user: i32)
    ensures
        picked_rule(rules, pkg, user) == deciding_rule_by_kind(rules, pkg, user),
        scope_verdict(rules, pkg, user) == match deciding_rule_by_kind(rules, pkg, user) {
            Some(r) => r.allow,
            None => true,
        },
    decreases rules.len(),
{
    if rules.len() > 0 {
        let q = rules.drop_last();
        lemma_scope_rule_ranking(q, pkg, user);
        lemma_last_applying_of_kind(q, pkg, user, true, true);
        lemma_last_applying_of_kind(q, pkg, user, true, false);
        lemma_last_applying_of_kind(q, pkg, user, false, true);
        lemma_last_applying_of_kind(q, pkg, user, false, false);
    }
}

/// The verdict of the rules of a module for a context: the picked rule's,
/// or allow when none applies.
pub open spec fn scope_verdict(rules: Seq<ModuleScopeRule>, pkg: Seq<char>, user: i32) -> bool {
    match picked_rule(rules, pkg, user) {
        Some(r) => r.allow,
        None => true,
    }
}

/// The rules of one module.
#[derive(Debug, Clone)]
pub struct ScopeEntry {
    pub module_id: String,
    pub rules: Vec<ModuleScopeRule>,
}

impl Keyed for ScopeEntry {
    open spec fn key(&self) -> Seq<char> {
        self.module_id@
    }
}

pub fn rule_applies_exec(rule: &ModuleScopeRule, pkg: &Vec<char>, user: i32) -> (r: bool)
    ensures
        r == rule_applies(*rule, pkg@, user),
{
    let rp = chars_of(rule.package_name.as_str());
    (chars_eq(&rp, "*") || chars_same_vec(&rp, pkg)) && (rule.user_id == -1 || rule.user_id == user)
}

fn chars_same_vec(a: &Vec<char>, b: &Vec<char>) -> (r: bool)
    ensures
        r == (a@ == b@),
{
    crate::text::chars_same(a, b)
}

pub fn rule_score_exec(rule: &ModuleScopeRule) -> (r: i32)
    ensures
        r == rule_score(*rule),
{
    let rp = chars_of(rule.package_name.as_str());
    let pkg_score: i32 = if chars_eq(&rp, "*") { 0 } else { 2 };
    let user_score: i32 = if rule.user_id == -1 { 0 } else { 1 };
    pkg_score + user_score
}

/// Picks the rule that decides among `rules` for `scope`.
pub fn eval_rules(rules: &Vec<ModuleScopeRule>, scope: &ScopeContext) -> (d: ScopeDecision)
    ensures
        d.matched == picked_rule(rules@, scope.package_name@, scope.user_id),
        d.allow == scope_verdict(rules@, scope.package_name@, scope.user_id),
{
    let pkg = chars_of(scope.package_name.as_str());
    let mut picked_score: i32 = -1;
    let mut picked: Option<ModuleScopeRule> = None;
    let mut i: usize = 0;
    while i < rules.len()
        invariant
            i <= rules.len(),
            pkg@ == scope.package_name@,
            picked == picked_rule(rules@.take(i as int), pkg@, scope.user_id),
            picked_score == match picked {
                Some(r) => rule_score(r),
                None => -1,
            },
        decreases rules.len() - i,
    {
        proof {
            assert(rules@.take(i + 1).drop_last() == rules@.take(i as int));
            assert(rules@.take(i + 1).last() == rules@[i as int]);
        }
        let rule = &rules[i];
        if rule_applies_exec(rule, &pkg, scope.user_id) {
            let score = rule_score_exec(rule);
            if score >= picked_score {
                picked_score = score;
                picked = Some(rule.clone());
            }
        }
        i += 1;
    }
    assert(rules@.take(rules.len() as int) == rules@);
    match picked {
        Some(rule) => ScopeDecision { allow: rule.allow, matched: Some(rule) },
        None => ScopeDecision { allow: true, matched: None },
    }
}

/// Who asks, read from `toks[start]` (package, `*` when absent) and
/// `toks[start + 1]` (user, `fallback_user` when absent or not a number).
pub open spec fn scope_package(toks: Seq<Seq<char>>, start: int) -> Seq<char> {
    if 0 <= start < toks.len() && toks[start].len() > 0 {
        toks[start]
    } else {
        "*"@
    }
}

pub open spec fn scope_user(toks: Seq<Seq<char>>, start: int, fallback_user: i32) -> i32 {
    if 0 <= start + 1 < toks.len() {
        match spec_parse_i32(toks[start + 1]) {
            Some(u) => u,
            None => fallback_user,
        }
    } else {
        fallback_user
    }
}

pub fn parse_scope_context(tokens: &Vec<Vec<char>>, start: usize, fallback_user: i32) -> (r: ScopeContext)
    requires
        start < usize::MAX,
    ensures
        r.package_name@ == scope_package(tokens@.map_values(|t: Vec<char>| t@), start as int),
        r.user_id == scope_user(tokens@.map_values(|t: Vec<char>| t@), start as int, fallback_user),
{
    let ghost toks = tokens@.map_values(|t: Vec<char>| t@);
    let package_name = if start < tokens.len() && tokens[start].len() > 0 {
        string_from_chars(&tokens[start])
    } else {
        "*".to_owned()
    };
    let user_id = if start + 1 < tokens.len() {
        match parse_i32_chars(&tokens[start + 1]) {
            Some(u) => u,
            None => fallback_user,
        }
    } else {
        fallback_user
    };
    ScopeContext { package_name, user_id }
}

/// `module_scope_row=<id>|<package>|<user>|allow` (or `deny`), the package
/// made safe as a token.
pub open spec fn scope_row(module_id: Seq<char>, rule: ModuleScopeRule) -> Seq<char> {
    "module_scope_row="@ + module_id + "|"@ + token_sanitized(rule.package_name@) + "|"@ + signed_decimal_text(
        rule.user_id as int,
    ) + "|"@ + if rule.allow {
        "allow"@
    } else {
        "deny"@
    }
}

/// The rows listing `rules` of `module_id`, one per rule, in order.
pub open spec fn scope_rows(module_id: Seq<char>, rules: Seq<ModuleScopeRule>) -> Seq<Seq<char>> {
    Seq::new(rules.len(), |i: int| scope_row(module_id, rules[i]))
}

pub fn scope_rule_chars(module_id: &str, rule: &ModuleScopeRule) -> (r: Vec<char>)
    ensures
        r@ == scope_row(module_id@, *rule),
{
    let mut out: Vec<char> = Vec::new();
    push_str(&mut out, "module_scope_row=");
    push_str(&mut out, module_id);
    push_str(&mut out, "|");
    let pkg = chars_of(rule.package_name.as_str());
    let pkg = sanitize_token_chars(&pkg);
    push_all(&mut out, &pkg);
    push_str(&mut out, "|");
    push_signed_decimal(&mut out, rule.user_id as i64);
    push_str(&mut out, "|");
    if rule.allow {
        push_str(&mut out, "allow");
    } else {
        push_str(&mut out, "deny");
    }
    out
}

/// The listing row of one scope rule.
pub fn scope_rule_line(module_id: &str, rule: &ModuleScopeRule) -> (r: String)
    ensures
        r@ == scope_row(module_id@, *rule),
{
    let v = scope_rule_chars(module_id, rule);
    string_from_chars(&v)
}

/// `"` + `raw` with every `"` escaped as `\"` + `"`.
pub open spec fn shell_quoted_body(raw: Seq<char>) -> Seq<char>
    decreases raw.len(),
{
    if raw.len() == 0 {
        Seq::empty()
    } else {
        (if raw[0] == '"' { seq!['\\', '"'] } else { seq![raw[0]] }) + shell_quoted_body(raw.drop_first())
    }
}

/// Quotes `raw` for `sh`: wrapped in `"`, inner `"` escaped.
pub fn shell_quote(raw: &str) -> (r: String)
    ensures
        r@ == seq!['"'] + shell_quoted_body(raw@) + seq!['"'],
{
    let v = chars_of(raw);
    let mut out: Vec<char> = Vec::new();
    out.push('"');
    let mut i: usize = 0;
    assert(v@.skip(0) == v@);
    while i < v.len()
        invariant
            i <= v.len(),
            v@ == raw@,
            seq!['"'] + shell_quoted_body(raw@) == out@ + shell_quoted_body(v@.skip(i as int)),
        decreases v.len() - i,
    {
        proof {
            assert(v@.skip(i as int).drop_first() == v@.skip(i + 1));
            assert(v@.skip(i as int)[0] == v@[i as int]);
        }
        if v[i] == '"' {
            out.push('\\');
            out.push('"');
        } else {
            out.push(v[i]);
        }
        i += 1;
    }
    assert(v@.skip(v.len() as int) == Seq::<char>::empty());
    out.push('"');
    string_from_chars(&out)
}


// ---------------------------------------------------------------------------
// Requests of the module RPC channel.

/// Why a module RPC failed, with the reply body.
#[derive(Debug)]
pub struct ModuleRuntimeRpcError {
    pub status: Status,
    pub body: String,
}

impl ModuleRuntimeRpcError {
    /// A refused request.
    pub fn invalid(msg: &str) -> (r: Self)
        ensures
            r.status == Status::InvalidArgument,
            r.body@ == msg@,
    {
        ModuleRuntimeRpcError { status: Status::InvalidArgument, body: msg.to_owned() }
    }

    /// A request that failed inside the runtime.
    pub fn internal(msg: &str) -> (r: Self)
        ensures
            r.status == Status::InternalError,
            r.body@ == msg@,
    {
        ModuleRuntimeRpcError { status: Status::InternalError, body: msg.to_owned() }
    }

    fn invalid_chars(msg: &Vec<char>) -> (r: Self)
        ensures
            r.status == Status::InvalidArgument,
            r.body@ == msg@,
    {
        ModuleRuntimeRpcError { status: Status::InvalidArgument, body: string_from_chars(msg) }
    }
}

/// A module RPC request, as its words give it.
#[derive(Debug)]
pub enum ModuleRpcRequest {
    Sync,
    List,
    Status { module_id: String },
    Detail { module_id: String },
    Start { module_id: String, scope: ScopeContext },
    Stop { module_id: String },
    Reload { module_id: String, scope: ScopeContext },
    ReloadAll { scope: ScopeContext },
    Disable { module_id: String },
    Enable { module_id: String },
    Remove { module_id: String },
    ActionList { module_id: String },
    ActionRun { module_id: String, action_id: String, scope: ScopeContext },
    EnvList { module_id: String },
    EnvSet { module_id: String, key: String, value: String },
    EnvUnset { module_id: String, key: String },
    ScopeList { module_id: Option<String> },
    ScopeSet { module_id: String, package_name: String, user_id: i32, allow: bool },
    ScopeClear { module_id: String },
}

/// The same request over sequences of characters.
pub enum RpcShape {
    Sync,
    List,
    Status(Seq<char>),
    Detail(Seq<char>),
    Start(Seq<char>, Seq<char>, i32),
    Stop(Seq<char>),
    Reload(Seq<char>, Seq<char>, i32),
    ReloadAll(Seq<char>, i32),
    Disable(Seq<char>),
    Enable(Seq<char>),
    Remove(Seq<char>),
    ActionList(Seq<char>),
    ActionRun(Seq<char>, Seq<char>, Seq<char>, i32),
    EnvList(Seq<char>),
    EnvSet(Seq<char>, Seq<char>, Seq<char>),
    EnvUnset(Seq<char>, Seq<char>),
    ScopeList(Option<Seq<char>>),
    ScopeSet(Seq<char>, Seq<char>, i32, bool),
    ScopeClear(Seq<char>),
}

impl View for ModuleRpcRequest {
    type V = RpcShape;

    open spec fn view(&self) -> RpcShape {
        match self {
            ModuleRpcRequest::Sync => RpcShape::Sync,
            ModuleRpcRequest::List => RpcShape::List,
            ModuleRpcRequest::Status { module_id } => RpcShape::Status(module_id@),
            ModuleRpcRequest::Detail { module_id } => RpcShape::Detail(module_id@),
            ModuleRpcRequest::Start { module_id, scope } => RpcShape::Start(module_id@, scope.package_name@, scope.user_id),
            ModuleRpcRequest::Stop { module_id } => RpcShape::Stop(module_id@),
            ModuleRpcRequest::Reload { module_id, scope } => RpcShape::Reload(module_id@, scope.package_name@, scope.user_id),
            ModuleRpcRequest::ReloadAll { scope } => RpcShape::ReloadAll(scope.package_name@, scope.user_id),
            ModuleRpcRequest::Disable { module_id } => RpcShape::Disable(module_id@),
            ModuleRpcRequest::Enable { module_id } => RpcShape::Enable(module_id@),
            ModuleRpcRequest::Remove { module_id } => RpcShape::Remove(module_id@),
            ModuleRpcRequest::ActionList { module_id } => RpcShape::ActionList(module_id@),
            ModuleRpcRequest::ActionRun { module_id, action_id, scope } => RpcShape::ActionRun(
                module_id@,
                action_id@,
                scope.package_name@,
                scope.user_id,
            ),
            ModuleRpcRequest::EnvList { module_id } => RpcShape::EnvList(module_id@),
            ModuleRpcRequest::EnvSet { module_id, key, value } => RpcShape::EnvSet(module_id@, key@, value@),
            ModuleRpcRequest::EnvUnset { module_id, key } => RpcShape::EnvUnset(module_id@, key@),
            ModuleRpcRequest::ScopeList { module_id } => RpcShape::ScopeList(
                match module_id {
                    Some(m) => Some(m@),
                    None => None,
                },
            ),
            ModuleRpcRequest::ScopeSet { module_id, package_name, user_id, allow } => RpcShape::ScopeSet(
                module_id@,
                package_name@,
                *user_id,
                *allow,
            ),
            ModuleRpcRequest::ScopeClear { module_id } => RpcShape::ScopeClear(module_id@),
        }
    }
}

/// Words joined by single spaces.
pub open spec fn join_space(ws: Seq<Seq<char>>) -> Seq<char>
    decreases ws.len(),
{
    if ws.len() == 0 {
        Seq::empty()
    } else if ws.len() == 1 {
        ws[0]
    } else {
        join_space(ws.drop_last()) + " "@ + ws.last()
    }
}

pub open spec fn rpc_missing_id() -> Seq<char> {
    "ksu_dsapi_error=module_id_missing"@
}

/// What a module RPC request means, or the body of its refusal. `toks` are
/// the words of the request; `uid` is the caller's user id, the fallback for
/// a missing user word.
pub open spec fn rpc_parse(toks: Seq<Seq<char>>, uid: i32) -> Result<RpcShape, Seq<char>> {
    if toks.len() == 0 {
        Err("ksu_dsapi_error=module_rpc_empty"@)
    } else {
        let cmd = upper_seq(toks[0]);
        let args = toks.drop_first();
        let n = args.len();
        if cmd == "MODULE_SYNC"@ {
            Ok(RpcShape::Sync)
        } else if cmd == "MODULE_LIST"@ {
            Ok(RpcShape::List)
        } else if cmd == "MODULE_STATUS"@ {
            if n != 1 { Err(rpc_missing_id()) } else { Ok(RpcShape::Status(args[0])) }
        } else if cmd == "MODULE_DETAIL"@ {
            if n != 1 { Err(rpc_missing_id()) } else { Ok(RpcShape::Detail(args[0])) }
        } else if cmd == "MODULE_START"@ {
            if n == 0 { Err(rpc_missing_id()) } else {
                Ok(RpcShape::Start(args[0], scope_package(args, 1), scope_user(args, 1, uid)))
            }
        } else if cmd == "MODULE_STOP"@ {
            if n != 1 { Err(rpc_missing_id()) } else { Ok(RpcShape::Stop(args[0])) }
        } else if cmd == "MODULE_RELOAD"@ {
            if n == 0 { Err(rpc_missing_id()) } else {
                Ok(RpcShape::Reload(args[0], scope_package(args, 1), scope_user(args, 1, uid)))
            }
        } else if cmd == "MODULE_RELOAD_ALL"@ {
            Ok(RpcShape::ReloadAll(scope_package(args, 0), scope_user(args, 0, uid)))
        } else if cmd == "MODULE_DISABLE"@ {
            if n != 1 { Err(rpc_missing_id()) } else { Ok(RpcShape::Disable(args[0])) }
        } else if cmd == "MODULE_ENABLE"@ {
            if n != 1 { Err(rpc_missing_id()) } else { Ok(RpcShape::Enable(args[0])) }
        } else if cmd == "MODULE_REMOVE"@ {
            if n != 1 { Err(rpc_missing_id()) } else { Ok(RpcShape::Remove(args[0])) }
        } else if cmd == "MODULE_ACTION_LIST"@ {
            if n != 1 { Err(rpc_missing_id()) } else { Ok(RpcShape::ActionList(args[0])) }
        } else if cmd == "MODULE_ACTION_RUN"@ {
            if n < 2 { Err("ksu_dsapi_error=module_action_missing"@) } else {
                Ok(RpcShape::ActionRun(args[0], args[1], scope_package(args, 2), scope_user(args, 2, uid)))
            }
        } else if cmd == "MODULE_ENV_LIST"@ {
            if n != 1 { Err(rpc_missing_id()) } else { Ok(RpcShape::EnvList(args[0])) }
        } else if cmd == "MODULE_ENV_SET"@ {
            if n < 3 { Err("ksu_dsapi_error=module_env_set_args_invalid"@) } else {
                Ok(RpcShape::EnvSet(args[0], args[1], join_space(args.skip(2))))
            }
        } else if cmd == "MODULE_ENV_UNSET"@ {
            if n != 2 { Err("ksu_dsapi_error=module_env_unset_args_invalid"@) } else {
                Ok(RpcShape::EnvUnset(args[0], args[1]))
            }
        } else if cmd == "MODULE_SCOPE_LIST"@ {
            Ok(RpcShape::ScopeList(if n == 0 { None } else { Some(args[0]) }))
        } else if cmd == "MODULE_SCOPE_SET"@ {
            if n != 4 {
                Err("ksu_dsapi_error=module_scope_set_args_invalid"@)
            } else if spec_parse_i32(args[2]) is None {
                Err("ksu_dsapi_error=scope_user_invalid"@)
            } else if spec_parse_scope_allow(args[3]) is None {
                Err("ksu_dsapi_error=scope_action_invalid"@)
            } else {
                Ok(RpcShape::ScopeSet(args[0], args[1], spec_parse_i32(args[2])->Some_0, spec_parse_scope_allow(args[3])->Some_0))
            }
        } else if cmd == "MODULE_SCOPE_CLEAR"@ {
            if n != 1 { Err(rpc_missing_id()) } else { Ok(RpcShape::ScopeClear(args[0])) }
        } else {
            Err("ksu_dsapi_error=module_rpc_unknown_command command="@ + toks[0])
        }
    }
}

/// Who a request speaks for: in a module start or reload (words: command,
/// id, package, user), a reload of every module (command, package, user)
/// and an action run (command, id, action, package, user), the user is
/// the user word when there is one and it is a number, and the caller's
/// peer uid `uid` otherwise, in particular when the request has no user
/// word; the package is the package word, `*` when absent.
pub proof fn lemma_scope_user_defaults_to_peer(toks: Seq<Seq<char>>, uid: i32)
    ensures
        rpc_parse(toks, uid) matches Ok(RpcShape::Start(_, pkg, user)) ==> {
            &&& toks.len() <= 3 ==> user == uid
            &&& toks.len() > 3 ==> user == match spec_parse_i32(toks[3]) {
                Some(v) => v,
                None => uid,
            }
            &&& toks.len() <= 2 ==> pkg == "*"@
        },
        rpc_parse(toks, uid) matches Ok(RpcShape::Reload(_, pkg, user)) ==> {
            &&& toks.len() <= 3 ==> user == uid
            &&& toks.len() > 3 ==> user == match spec_parse_i32(toks[3]) {
                Some(v) => v,
                None => uid,
            }
            &&& toks.len() <= 2 ==> pkg == "*"@
        },
        rpc_parse(toks, uid) matches Ok(RpcShape::ReloadAll(pkg, user)) ==> {
            &&& toks.len() <= 2 ==> user == uid
            &&& toks.len() > 2 ==> user == match spec_parse_i32(toks[2]) {
                Some(v) => v,
                None => uid,
            }
            &&& toks.len() <= 1 ==> pkg == "*"@
        },
        rpc_parse(toks, uid) matches Ok(RpcShape::ActionRun(_, _, pkg, user)) ==> {
            &&& toks.len() <= 4 ==> user == uid
            &&& toks.len() > 4 ==> user == match spec_parse_i32(toks[4]) {
                Some(v) => v,
                None => uid,
            }
            &&& toks.len() <= 3 ==> pkg == "*"@
        },
{
    if toks.len() > 0 {
        let args = toks.drop_first();
        assert forall|i: int| 0 <= i < args.len() implies #[trigger] args[i] == toks[i + 1] by {}
    }
}

/// The scope of a request with no user word is the caller's: reading the
/// scope from words `start` on, with no word at `start + 1`, gives the
/// fallback user, which the module requests make the peer uid.
pub proof fn lemma_scope_context_fallback(toks: Seq<Seq<char>>, start: int, fallback_user: i32)
    ensures
        start + 1 >= toks.len() ==> scope_user(toks, start, fallback_user) == fallback_user,
        0 <= start + 1 < toks.len() && spec_parse_i32(toks[start + 1]) is None ==> scope_user(
            toks,
            start,
            fallback_user,
        ) == fallback_user,
        0 <= start + 1 < toks.len() && spec_parse_i32(toks[start + 1]) is Some ==> scope_user(
            toks,
            start,
            fallback_user,
        ) == spec_parse_i32(toks[start + 1])->Some_0,
{
}

fn join_words(ws: &Vec<Vec<char>>, from: usize) -> (r: Vec<char>)
    requires
        from <= ws.len(),
    ensures
        r@ == join_space(ws@.map_values(|t: Vec<char>| t@).skip(from as int)),
{
    let ghost all = ws@.map_values(|t: Vec<char>| t@);
    let mut out: Vec<char> = Vec::new();
    let mut i: usize = from;
    while i < ws.len()
        invariant
            from <= i <= ws.len(),
            all == ws@.map_values(|t: Vec<char>| t@),
            out@ == join_space(all.subrange(from as int, i as int)),
        decreases ws.len() - i,
    {
        let ghost prev = all.subrange(from as int, i as int);
        assert(all.subrange(from as int, i + 1).drop_last() == prev);
        assert(all.subrange(from as int, i + 1).last() == ws@[i as int]@);
        if i > from {
            push_str(&mut out, " ");
        }
        push_all(&mut out, &ws[i]);
        i += 1;
        proof {
            if i - 1 == from {
                assert(all.subrange(from as int, i as int).len() == 1);
                assert(prev == Seq::<Seq<char>>::empty());
                assert(join_space(prev) == Seq::<char>::empty());
                assert(out@ =~= ws@[from as int]@);
            }
        }
    }
    assert(all.subrange(from as int, ws.len() as int) == all.skip(from as int));
    out
}

/// Reads a module RPC request: its command (any ASCII case) and the words
/// that the command takes.
pub fn parse_rpc_request(request: &str, peer_uid: u32) -> (r: Result<ModuleRpcRequest, ModuleRuntimeRpcError>)
    ensures
        match r {
            Ok(q) => rpc_parse(ws_tokens(request@), peer_uid as i32) == Ok::<RpcShape, Seq<char>>(q@),
            Err(e) => e.status == Status::InvalidArgument && rpc_parse(ws_tokens(request@), peer_uid as i32)
                == Err::<RpcShape, Seq<char>>(e.body@),
        },
{
    let v = chars_of(request);
    let toks = split_ws(&v);
    let ghost ts = ws_tokens(request@);
    assert(toks@.map_values(|t: Vec<char>| t@) =~= ts);
    if toks.len() == 0 {
        return Err(ModuleRuntimeRpcError::invalid("ksu_dsapi_error=module_rpc_empty"));
    }
    let uid: i32 = peer_uid as i32;
    let mut args: Vec<Vec<char>> = Vec::new();
    let mut k: usize = 1;
    while k < toks.len()
        invariant
            1 <= k <= toks.len(),
            args@.len() == k - 1,
            forall|j: int| 0 <= j < args@.len() ==> #[trigger] args@[j]@ == toks@[j + 1]@,
        decreases toks.len() - k,
    {
        args.push(toks[k].clone());
        k += 1;
    }
    let ghost a = ts.drop_first();
    assert(args@.map_values(|t: Vec<char>| t@) =~= a);
    let n = args.len();
    let cmd = crate::text::upper_chars(&toks[0]);
    if chars_eq(&cmd, "MODULE_SYNC") {
        return Ok(ModuleRpcRequest::Sync);
    }
    if chars_eq(&cmd, "MODULE_LIST") {
        return Ok(ModuleRpcRequest::List);
    }
    if chars_eq(&cmd, "MODULE_STATUS") {
        if n != 1 {
            return Err(ModuleRuntimeRpcError::invalid("ksu_dsapi_error=module_id_missing"));
        }
        return Ok(ModuleRpcRequest::Status { module_id: string_from_chars(&args[0]) });
    }
    if chars_eq(&cmd, "MODULE_DETAIL") {
        if n != 1 {
            return Err(ModuleRuntimeRpcError::invalid("ksu_dsapi_error=module_id_missing"));
        }
        return Ok(ModuleRpcRequest::Detail { module_id: string_from_chars(&args[0]) });
    }
    if chars_eq(&cmd, "MODULE_START") {
        if n == 0 {
            return Err(ModuleRuntimeRpcError::invalid("ksu_dsapi_error=module_id_missing"));
        }
        let scope = parse_scope_context(&args, 1, uid);
        return Ok(ModuleRpcRequest::Start { module_id: string_from_chars(&args[0]), scope });
    }
    if chars_eq(&cmd, "MODULE_STOP") {
        if n != 1 {
            return Err(ModuleRuntimeRpcError::invalid("ksu_dsapi_error=module_id_missing"));
        }
        return Ok(ModuleRpcRequest::Stop { module_id: string_from_chars(&args[0]) });
    }
    if chars_eq(&cmd, "MODULE_RELOAD") {
        if n == 0 {
            return Err(ModuleRuntimeRpcError::invalid("ksu_dsapi_error=module_id_missing"));
        }
        let scope = parse_scope_context(&args, 1, uid);
        return Ok(ModuleRpcRequest::Reload { module_id: string_from_chars(&args[0]), scope });
    }
    if chars_eq(&cmd, "MODULE_RELOAD_ALL") {
        let scope = parse_scope_context(&args, 0, uid);
        return Ok(ModuleRpcRequest::ReloadAll { scope });
    }
    if chars_eq(&cmd, "MODULE_DISABLE") {
        if n != 1 {
            return Err(ModuleRuntimeRpcError::invalid("ksu_dsapi_error=module_id_missing"));
        }
        return Ok(ModuleRpcRequest::Disable { module_id: string_from_chars(&args[0]) });
    }
    if chars_eq(&cmd, "MODULE_ENABLE") {
        if n != 1 {
            return Err(ModuleRuntimeRpcError::invalid("ksu_dsapi_error=module_id_missing"));
        }
        return Ok(ModuleRpcRequest::Enable { module_id: string_from_chars(&args[0]) });
    }
    if chars_eq(&cmd, "MODULE_REMOVE") {
        if n != 1 {
            return Err(ModuleRuntimeRpcError::invalid("ksu_dsapi_error=module_id_missing"));
        }
        return Ok(ModuleRpcRequest::Remove { module_id: string_from_chars(&args[0]) });
    }
    if chars_eq(&cmd, "MODULE_ACTION_LIST") {
        if n != 1 {
            return Err(ModuleRuntimeRpcError::invalid("ksu_dsapi_error=module_id_missing"));
        }
        return Ok(ModuleRpcRequest::ActionList { module_id: string_from_chars(&args[0]) });
    }
    if chars_eq(&cmd, "MODULE_ACTION_RUN") {
        if n < 2 {
            return Err(ModuleRuntimeRpcError::invalid("ksu_dsapi_error=module_action_missing"));
        }
        let scope = parse_scope_context(&args, 2, uid);
        return Ok(
            ModuleRpcRequest::ActionRun {
                module_id: string_from_chars(&args[0]),
                action_id: string_from_chars(&args[1]),
                scope,
            },
        );
    }
    if chars_eq(&cmd, "MODULE_ENV_LIST") {
        if n != 1 {
            return Err(ModuleRuntimeRpcError::invalid("ksu_dsapi_error=module_id_missing"));
        }
        return Ok(ModuleRpcRequest::EnvList { module_id: string_from_chars(&args[0]) });
    }
    if chars_eq(&cmd, "MODULE_ENV_SET") {
        if n < 3 {
            return Err(ModuleRuntimeRpcError::invalid("ksu_dsapi_error=module_env_set_args_invalid"));
        }
        let value = join_words(&args, 2);
        return Ok(
            ModuleRpcRequest::EnvSet {
                module_id: string_from_chars(&args[0]),
                key: string_from_chars(&args[1]),
                value: string_from_chars(&value),
            },
        );
    }
    if chars_eq(&cmd, "MODULE_ENV_UNSET") {
        if n != 2 {
            return Err(ModuleRuntimeRpcError::invalid("ksu_dsapi_error=module_env_unset_args_invalid"));
        }
        return Ok(
            ModuleRpcRequest::EnvUnset {
                module_id: string_from_chars(&args[0]),
                key: string_from_chars(&args[1]),
            },
        );
    }
    if chars_eq(&cmd, "MODULE_SCOPE_LIST") {
        let module_id = if n == 0 {
            None
        } else {
            Some(string_from_chars(&args[0]))
        };
        return Ok(ModuleRpcRequest::ScopeList { module_id });
    }
    if chars_eq(&cmd, "MODULE_SCOPE_SET") {
        if n != 4 {
            return Err(ModuleRuntimeRpcError::invalid("ksu_dsapi_error=module_scope_set_args_invalid"));
        }
        let user_id = match parse_i32_chars(&args[2]) {
            Some(u) => u,
            None => {
                return Err(ModuleRuntimeRpcError::invalid("ksu_dsapi_error=scope_user_invalid"));
            },
        };
        let allow = match parse_scope_allow_chars(&args[3]) {
            Some(a) => a,
            None => {
                return Err(ModuleRuntimeRpcError::invalid("ksu_dsapi_error=scope_action_invalid"));
            },
        };
        return Ok(
            ModuleRpcRequest::ScopeSet {
                module_id: string_from_chars(&args[0]),
                package_name: string_from_chars(&args[1]),
                user_id,
                allow,
            },
        );
    }
    if chars_eq(&cmd, "MODULE_SCOPE_CLEAR") {
        if n != 1 {
            return Err(ModuleRuntimeRpcError::invalid("ksu_dsapi_error=module_id_missing"));
        }
        return Ok(ModuleRpcRequest::ScopeClear { module_id: string_from_chars(&args[0]) });
    }
    let mut body: Vec<char> = Vec::new();
    push_str(&mut body, "ksu_dsapi_error=module_rpc_unknown_command command=");
    push_all(&mut body, &toks[0]);
    Err(ModuleRuntimeRpcError::invalid_chars(&body))
}


// ---------------------------------------------------------------------------
// The scope table: the rules of each module, kept sorted by module id.

/// Index of the first rule for package `pkg` and user `user`.
pub open spec fn first_rule_index(rules: Seq<ModuleScopeRule>, pkg: Seq<char>, user: i32) -> Option<int> {
    if exists|i: int| 0 <= i < rules.len() && #[trigger] rules[i].package_name@ == pkg && rules[i].user_id == user {
        Some(choose|i: int| 0 <= i < rules.len() && #[trigger] rules[i].package_name@ == pkg && rules[i].user_id == user
            && forall|j: int| 0 <= j < i ==> !(#[trigger] rules[j].package_name@ == pkg && rules[j].user_id == user))
    } else {
        None
    }
}

/// `new` is `old` with the policy `allow` for package `pkg` and user `user`:
/// the first rule for them changes its policy, or a rule is added at the end.
pub open spec fn rules_after_set(
    old: Seq<ModuleScopeRule>,
    new: Seq<ModuleScopeRule>,
    pkg: Seq<char>,
    user: i32,
    allow: bool,
) -> bool {
    match first_rule_index(old, pkg, user) {
        Some(i) => {
            &&& new.len() == old.len()
            &&& forall|j: int| 0 <= j < old.len() && j != i ==> #[trigger] new[j] == old[j]
            &&& new[i].package_name == old[i].package_name
            &&& new[i].user_id == user
            &&& new[i].allow == allow
        },
        None => {
            &&& new.len() == old.len() + 1
            &&& forall|j: int| 0 <= j < old.len() ==> #[trigger] new[j] == old[j]
            &&& new.last().package_name@ == pkg
            &&& new.last().user_id == user
            &&& new.last().allow == allow
        },
    }
}

/// The rule `rule` is for package `pkg` and user `user`.
pub open spec fn rule_for(rule: ModuleScopeRule, pkg: Seq<char>, user: i32) -> bool {
    rule.package_name@ == pkg && rule.user_id == user
}

/// At most one of `rules` is for package `pkg` and user `user`.
pub open spec fn at_most_one_rule(rules: Seq<ModuleScopeRule>, pkg: Seq<char>, user: i32) -> bool {
    forall|a: int, b: int|
        0 <= a < rules.len() && 0 <= b < rules.len() && rule_for(#[trigger] rules[a], pkg, user) && rule_for(
            #[trigger] rules[b],
            pkg,
            user,
        ) ==> a == b
}

/// Setting the policy of a package and user leaves exactly one rule for
/// them (when there was at most one), with that policy, so the module's
/// scope listing has exactly one row for them; a pair set again keeps its
/// place and adds no rule; the rules of other pairs are as before.
pub proof fn lemma_scope_set_one_rule(
    old: Seq<ModuleScopeRule>,
    new: Seq<ModuleScopeRule>,
    pkg: Seq<char>,
    user: i32,
    allow: bool,
)
    requires
        rules_after_set(old, new, pkg, user, allow),
        at_most_one_rule(old, pkg, user),
    ensures
        at_most_one_rule(new, pkg, user),
        exists|i: int| 0 <= i < new.len() && rule_for(#[trigger] new[i], pkg, user) && new[i].allow == allow,
        (exists|i: int| 0 <= i < old.len() && rule_for(#[trigger] old[i], pkg, user)) ==> new.len() == old.len(),
        forall|j: int| 0 <= j < old.len() && !rule_for(#[trigger] old[j], pkg, user) ==> new[j] == old[j],
{
    match first_rule_index(old, pkg, user) {
        Some(i) => {
            assert(rule_for(old[i], pkg, user));
            assert(rule_for(new[i], pkg, user));
            assert forall|a: int, b: int|
                0 <= a < new.len() && 0 <= b < new.len() && rule_for(#[trigger] new[a], pkg, user) && rule_for(
                    #[trigger] new[b],
                    pkg,
                    user,
                ) implies a == b by {
                if a != i {
                    assert(new[a] == old[a]);
                }
                if b != i {
                    assert(new[b] == old[b]);
                }
            }
        },
        None => {
            let k = old.len() as int;
            assert(new[k] == new.last());
            assert(rule_for(new[k], pkg, user));
            assert forall|a: int, b: int|
                0 <= a < new.len() && 0 <= b < new.len() && rule_for(#[trigger] new[a], pkg, user) && rule_for(
                    #[trigger] new[b],
                    pkg,
                    user,
                ) implies a == b by {
                if a < k {
                    assert(new[a] == old[a]);
                    assert(rule_for(old[a], pkg, user));
                }
                if b < k {
                    assert(new[b] == old[b]);
                    assert(rule_for(old[b], pkg, user));
                }
            }
        },
    }
}

/// Setting the policy `allow` of package `pkg` and user `user` on a module
/// (as `scope_set` does when it succeeds), then listing the module's scope
/// rules (as `scope_list_lines` does), shows exactly one row for that
/// package and user, and that row carries `allow`; a pair set again keeps
/// its row's place and adds no row; the rows of other pairs are as before.
/// It holds when the module had at most one rule for the pair before.
pub proof fn lemma_scope_set_then_list(
    old_rules: Seq<ModuleScopeRule>,
    new_rules: Seq<ModuleScopeRule>,
    module_id: Seq<char>,
    pkg: Seq<char>,
    user: i32,
    allow: bool,
)
    requires
        rules_after_set(old_rules, new_rules, pkg, user, allow),
        at_most_one_rule(old_rules, pkg, user),
    ensures
        ({
            let rows = scope_rows(module_id, new_rules);
            &&& rows.len() == new_rules.len()
            &&& exists|i: int|
                0 <= i < rows.len() && rule_for(#[trigger] new_rules[i], pkg, user) && new_rules[i].allow == allow
                    && rows[i] == scope_row(module_id, new_rules[i])
            &&& forall|a: int, b: int|
                0 <= a < rows.len() && 0 <= b < rows.len() && rule_for(#[trigger] new_rules[a], pkg, user)
                    && rule_for(#[trigger] new_rules[b], pkg, user) ==> a == b
        }),
        (exists|i: int| 0 <= i < old_rules.len() && rule_for(#[trigger] old_rules[i], pkg, user)) ==> scope_rows(
            module_id,
            new_rules,
        ).len() == scope_rows(module_id, old_rules).len(),
        forall|j: int|
            0 <= j < old_rules.len() && !rule_for(#[trigger] old_rules[j], pkg, user) ==> scope_rows(module_id, new_rules)[j]
                == scope_rows(module_id, old_rules)[j],
{
    lemma_scope_set_one_rule(old_rules, new_rules, pkg, user, allow);
    let i = choose|i: int| 0 <= i < new_rules.len() && rule_for(#[trigger] new_rules[i], pkg, user) && new_rules[i].allow == allow;
    assert(scope_rows(module_id, new_rules)[i] == scope_row(module_id, new_rules[i]));
    assert forall|j: int|
        0 <= j < old_rules.len() && !rule_for(#[trigger] old_rules[j], pkg, user) implies scope_rows(module_id, new_rules)[j]
            == scope_rows(module_id, old_rules)[j] by {
        assert(new_rules[j] == old_rules[j]);
    }
    assert(at_most_one_rule(new_rules, pkg, user));
}

/// The rules of every module that has some.
#[derive(Debug, Clone)]
pub struct ScopeTable {
    entries: Vec<ScopeEntry>,
}

impl View for ScopeTable {
    type V = Map<Seq<char>, ScopeEntry>;

    closed spec fn view(&self) -> Map<Seq<char>, ScopeEntry> {
        record_map(self.entries@)
    }
}

impl ScopeTable {
    pub closed spec fn wf(&self) -> bool {
        ids_sorted(self.entries@)
    }

    /// The entries in module id order.
    pub closed spec fn entries(&self) -> Seq<ScopeEntry> {
        self.entries@
    }

    /// The rules of `module_id` (none when it has no entry).
    pub open spec fn rules_of(&self, module_id: Seq<char>) -> Seq<ModuleScopeRule> {
        if self@.contains_key(module_id) {
            self@[module_id].rules@
        } else {
            Seq::empty()
        }
    }

    /// A well-formed table lists its entries sorted by module id, and the
    /// rules of a module are those of its entry.
    pub proof fn lemma_rules_of(&self, module_id: Seq<char>)
        requires
            self.wf(),
        ensures
            ids_sorted(self.entries()),
            rules_parts(self.rules_of(module_id)) == crate::state_files::entries_rules(self.entries(), module_id),
    {
    }

    pub fn new() -> (r: Self)
        ensures
            r.wf(),
            r@ == Map::<Seq<char>, ScopeEntry>::empty(),
    {
        let r = ScopeTable { entries: Vec::new() };
        assert(r@ =~= Map::<Seq<char>, ScopeEntry>::empty());
        r
    }

    fn locate(&self, id: &Vec<char>) -> (r: (usize, bool))
        requires
            self.wf(),
        ensures
            r.0 <= self.entries.len(),
            forall|i: int| 0 <= i < r.0 ==> text_lt(#[trigger] self.entries@[i].key(), id@),
            r.1 ==> r.0 < self.entries.len() && self.entries@[r.0 as int].key() == id@,
            !r.1 ==> forall|i: int| r.0 <= i < self.entries.len() ==> text_lt(id@, #[trigger] self.entries@[i].key()),
            r.1 == self@.contains_key(id@),
    {
        let mut p: usize = 0;
        while p < self.entries.len()
            invariant
                p <= self.entries.len(),
                self.wf(),
                forall|i: int| 0 <= i < p ==> text_lt(#[trigger] self.entries@[i].key(), id@),
            decreases self.entries.len() - p,
        {
            let cur = chars_of(self.entries[p].module_id.as_str());
            if !text_chars_lt(&cur, id) {
                let same = chars_same_vec(&cur, id);
                proof {
                    if !same {
                        lemma_text_lt_total(cur@, id@);
                        assert forall|i: int| p <= i < self.entries.len() implies text_lt(id@, #[trigger] self.entries@[i].key()) by {
                            if i > p {
                                assert(text_lt(self.entries@[p as int].key(), self.entries@[i].key()));
                                lemma_text_lt_transitive(id@, cur@, self.entries@[i].key());
                            }
                        }
                        if self@.contains_key(id@) {
                            let j = index_of_id(self.entries@, id@);
                            lemma_text_lt_irreflexive(id@);
                        }
                    } else {
                        assert(has_id(self.entries@, id@));
                    }
                }
                return (p, same);
            }
            p += 1;
        }
        proof {
            if self@.contains_key(id@) {
                let j = index_of_id(self.entries@, id@);
                lemma_text_lt_irreflexive(id@);
            }
        }
        (p, false)
    }

    /// A copy of the rules of `module_id`.
    pub fn rules_for(&self, module_id: &str) -> (r: Vec<ModuleScopeRule>)
        requires
            self.wf(),
        ensures
            r@ == self.rules_of(module_id@),
    {
        let id = chars_of(module_id);
        let (p, found) = self.locate(&id);
        if found {
            proof {
                lemma_record_at(self.entries@, p as int);
            }
            clone_rules(&self.entries[p].rules)
        } else {
            Vec::new()
        }
    }

    /// Sets the policy of package `pkg` and user `user` for `module_id`.
    pub fn set_rule(&mut self, module_id: &str, pkg: &str, user: i32, allow: bool)
        requires
            old(self).wf(),
        ensures
            final(self).wf(),
            rules_after_set(old(self).rules_of(module_id@), final(self).rules_of(module_id@), pkg@, user, allow),
            forall|k: Seq<char>| k != module_id@ ==> final(self).rules_of(k) == old(self).rules_of(k),
            forall|k: Seq<char>| k != module_id@ ==> (#[trigger] final(self)@.contains_key(k) == old(self)@.contains_key(k)),
            final(self)@.contains_key(module_id@),
    {
        let id = chars_of(module_id);
        let pkgv = chars_of(pkg);
        let (p, found) = self.locate(&id);
        let mut rules = if found {
            proof {
                lemma_record_at(self.entries@, p as int);
            }
            clone_rules(&self.entries[p].rules)
        } else {
            Vec::new()
        };
        let ghost old_rules = rules@;
        let mut i: usize = 0;
        let mut hit = false;
        while i < rules.len()
            invariant_except_break
                !hit,
            invariant
                i <= rules.len(),
                rules@ == old_rules,
                pkgv@ == pkg@,
                forall|j: int| 0 <= j < i ==> !(#[trigger] old_rules[j].package_name@ == pkg@ && old_rules[j].user_id == user),
            ensures
                hit ==> i < rules.len() && old_rules[i as int].package_name@ == pkg@ && old_rules[i as int].user_id == user,
                !hit ==> i == rules.len(),
            decreases rules.len() - i,
        {
            let rp = chars_of(rules[i].package_name.as_str());
            if chars_same_vec(&rp, &pkgv) && rules[i].user_id == user {
                hit = true;
                break;
            }
            i += 1;
        }
        if hit {
            let mut r = rules[i].clone();
            r.allow = allow;
            rules.set(i, r);
            proof {
                let fi = first_rule_index(old_rules, pkg@, user);
                assert(old_rules[i as int].package_name@ == pkg@ && old_rules[i as int].user_id == user);
                let c = fi->Some_0;
                if c != i {
                    if c < i {
                        assert(!(old_rules[c].package_name@ == pkg@ && old_rules[c].user_id == user));
                    } else {
                        assert(!(old_rules[i as int].package_name@ == pkg@ && old_rules[i as int].user_id == user));
                    }
                }
            }
        } else {
            rules.push(ModuleScopeRule { package_name: pkg.to_owned(), user_id: user, allow });
        }
        let entry = ScopeEntry { module_id: string_from_chars(&id), rules };
        let ghost olds = self.entries@;
        if found {
            proof {
                lemma_update_keeps_order(self.entries@, p as int, entry);
            }
            self.entries.set(p, entry);
        } else {
            proof {
                lemma_insert_keeps_order(self.entries@, p as int, entry);
            }
            self.entries.insert(p, entry);
        }
    }

    /// Appends a rule to those of `module_id`.
    pub fn push_rule(&mut self, module_id: &str, rule: ModuleScopeRule)
        requires
            old(self).wf(),
        ensures
            final(self).wf(),
            final(self).rules_of(module_id@) == old(self).rules_of(module_id@).push(rule),
            forall|k: Seq<char>| k != module_id@ ==> final(self).rules_of(k) == old(self).rules_of(k),
            forall|k: Seq<char>| k != module_id@ ==> (#[trigger] final(self)@.contains_key(k) == old(self)@.contains_key(k)),
            final(self)@.contains_key(module_id@),
    {
        let id = chars_of(module_id);
        let (p, found) = self.locate(&id);
        let mut rules = if found {
            proof {
                lemma_record_at(self.entries@, p as int);
            }
            clone_rules(&self.entries[p].rules)
        } else {
            Vec::new()
        };
        rules.push(rule);
        let entry = ScopeEntry { module_id: string_from_chars(&id), rules };
        let ghost olds = self.entries@;
        if found {
            proof {
                lemma_update_keeps_order(self.entries@, p as int, entry);
            }
            self.entries.set(p, entry);
        } else {
            proof {
                lemma_insert_keeps_order(self.entries@, p as int, entry);
            }
            self.entries.insert(p, entry);
        }
    }

    /// Drops every rule of `module_id`.
    pub fn clear(&mut self, module_id: &str)
        requires
            old(self).wf(),
        ensures
            final(self).wf(),
            final(self)@ == old(self)@.remove(module_id@),
    {
        let id = chars_of(module_id);
        let (p, found) = self.locate(&id);
        if found {
            proof {
                lemma_remove_keeps_order(self.entries@, p as int);
            }
            self.entries.remove(p);
        } else {
            assert(old(self)@.remove(module_id@) =~= old(self)@);
        }
    }

    /// The listing rows of the rules of `module_id`, or of every module in id
    /// order when `None`.
    pub fn list_lines(&self, module_id: Option<&str>) -> (r: Vec<String>)
        requires
            self.wf(),
        ensures
            module_id matches Some(id) ==> r@.len() == self.rules_of(id@).len() && forall|i: int| 0 <= i < r@.len() ==> #[trigger] r@[i]@
                == scope_row(id@, self.rules_of(id@)[i]),
            module_id is None ==> r@.map_values(|l: String| l@) == table_rows(self.entries(), false),
    {
        let mut out: Vec<String> = Vec::new();
        match module_id {
            Some(id) => {
                let rules = self.rules_for(id);
                let mut i: usize = 0;
                while i < rules.len()
                    invariant
                        i <= rules.len(),
                        rules@ == self.rules_of(id@),
                        out@.len() == i,
                        forall|j: int| 0 <= j < i ==> #[trigger] out@[j]@ == scope_row(id@, rules@[j]),
                    decreases rules.len() - i,
                {
                    out.push(scope_rule_line(id, &rules[i]));
                    i += 1;
                }
            },
            None => {
                out = self.table_lines(false);
            },
        }
        out
    }

    /// One line per rule of every module, in module id order: listing rows,
    /// or file lines when `file`.
    fn table_lines(&self, file: bool) -> (r: Vec<String>)
        ensures
            r@.map_values(|l: String| l@) == table_rows(self.entries(), file),
    {
        let mut out: Vec<String> = Vec::new();
        let mut e: usize = 0;
        while e < self.entries.len()
            invariant
                e <= self.entries@.len(),
                out@.map_values(|l: String| l@) == table_rows(self.entries@.take(e as int), file),
            decreases self.entries@.len() - e,
        {
            let entry = &self.entries[e];
            let ghost base = out@.map_values(|l: String| l@);
            let mut i: usize = 0;
            while i < entry.rules.len()
                invariant
                    i <= entry.rules@.len(),
                    *entry == self.entries@[e as int],
                    out@.map_values(|l: String| l@) == base + entry_rows(*entry, file).take(i as int),
                decreases entry.rules@.len() - i,
            {
                let line = if file {
                    scope_file_line(entry.module_id.as_str(), &entry.rules[i])
                } else {
                    scope_rule_line(entry.module_id.as_str(), &entry.rules[i])
                };
                assert(line@ == entry_rows(*entry, file)[i as int]);
                let ghost before = out@;
                out.push(line);
                assert(out@.map_values(|l: String| l@) =~= before.map_values(|l: String| l@).push(line@));
                assert(entry_rows(*entry, file).take(i + 1) =~= entry_rows(*entry, file).take(i as int).push(line@));
                i += 1;
            }
            assert(entry_rows(*entry, file).take(i as int) =~= entry_rows(*entry, file));
            assert(self.entries@.take(e + 1).drop_last() =~= self.entries@.take(e as int));
            e += 1;
        }
        assert(self.entries@.take(self.entries@.len() as int) =~= self.entries@);
        out
    }

    /// The lines of the scope file: one `scope` line per rule, in module id
    /// order.
    pub fn file_lines(&self) -> (r: Vec<String>)
        ensures
            r@.map_values(|l: String| l@) == table_rows(self.entries(), true),
    {
        self.table_lines(true)
    }
}

/// The line of the scope file for one rule: `scope`, the escaped module
/// id, the escaped package, the user and `1` or `0` for the policy,
/// separated by tabs.
pub open spec fn scope_file_row(module_id: Seq<char>, rule: ModuleScopeRule) -> Seq<char> {
    "scope\t"@ + escape_seq(module_id) + "\t"@ + escape_seq(rule.package_name@) + "\t"@
        + signed_decimal_text(rule.user_id as int) + if rule.allow {
        "\t1"@
    } else {
        "\t0"@
    }
}

/// The scope file line of one rule, as `scope_file_row` says.
pub fn scope_file_line(module_id: &str, rule: &ModuleScopeRule) -> (r: String)
    ensures
        r@ == scope_file_row(module_id@, *rule),
{
    let mut line: Vec<char> = Vec::new();
    push_str(&mut line, "scope\t");
    let idv = chars_of(module_id);
    push_all(&mut line, &escape_chars(&idv));
    push_str(&mut line, "\t");
    let pv = chars_of(rule.package_name.as_str());
    push_all(&mut line, &escape_chars(&pv));
    push_str(&mut line, "\t");
    push_signed_decimal(&mut line, rule.user_id as i64);
    push_str(&mut line, if rule.allow { "\t1" } else { "\t0" });
    string_from_chars(&line)
}

/// The lines of one module's rules: listing rows, or file lines when
/// `file`.
pub open spec fn entry_rows(e: ScopeEntry, file: bool) -> Seq<Seq<char>> {
    Seq::new(
        e.rules@.len(),
        |i: int|
            if file {
                scope_file_row(e.module_id@, e.rules@[i])
            } else {
                scope_row(e.module_id@, e.rules@[i])
            },
    )
}

/// The lines of every module's rules, in order.
pub open spec fn table_rows(entries: Seq<ScopeEntry>, file: bool) -> Seq<Seq<char>>
    decreases entries.len(),
{
    if entries.len() == 0 {
        Seq::empty()
    } else {
        table_rows(entries.drop_last(), file) + entry_rows(entries.last(), file)
    }
}

fn clone_rules(rules: &Vec<ModuleScopeRule>) -> (r: Vec<ModuleScopeRule>)
    ensures
        r@ == rules@,
{
    let mut out: Vec<ModuleScopeRule> = Vec::new();
    let mut i: usize = 0;
    while i < rules.len()
        invariant
            i <= rules.len(),
            out@ == rules@.take(i as int),
        decreases rules.len() - i,
    {
        out.push(rules[i].clone());
        i += 1;
        assert(rules@.take(i as int) == rules@.take(i - 1).push(rules@[i - 1]));
    }
    assert(rules@.take(rules.len() as int) == rules@);
    out
}

fn text_chars_lt(a: &Vec<char>, b: &Vec<char>) -> (r: bool)
    ensures
        r == text_lt(a@, b@),
{
    crate::text::chars_lt(a, b)
}


// ---------------------------------------------------------------------------
// The module runtime: the registry and the scope table, with the decisions of
// the module life cycle. Reading module directories, running scripts and
// writing the files are left to the host, which hands over what it found.

/// Where the runtime keeps its modules and files.
#[derive(Debug, Clone)]
pub struct ModuleRuntimeConfig {
    pub module_root_dir: String,
    pub module_state_root_dir: String,
    pub module_disabled_dir: String,
    pub registry_file: String,
    pub scope_file: String,
    pub action_timeout_sec: u64,
}

impl ModuleRuntimeConfig {
    /// The layout under `base`: `modules`, `state/modules`,
    /// `state/modules_disabled`, `state/module_registry.db`,
    /// `state/module_scope.db`; a 60 s action timeout.
    pub fn under(base: &str) -> (r: Self)
        ensures
            r.module_root_dir@ == base@ + "/modules"@,
            r.module_state_root_dir@ == base@ + "/state/modules"@,
            r.module_disabled_dir@ == base@ + "/state/modules_disabled"@,
            r.registry_file@ == base@ + "/state/module_registry.db"@,
            r.scope_file@ == base@ + "/state/module_scope.db"@,
            r.action_timeout_sec == 60,
    {
        ModuleRuntimeConfig {
            module_root_dir: joined(base, "/modules"),
            module_state_root_dir: joined(base, "/state/modules"),
            module_disabled_dir: joined(base, "/state/modules_disabled"),
            registry_file: joined(base, "/state/module_registry.db"),
            scope_file: joined(base, "/state/module_scope.db"),
            action_timeout_sec: 60,
        }
    }
}

fn joined(a: &str, b: &str) -> (r: String)
    ensures
        r@ == a@ + b@,
{
    let mut v: Vec<char> = Vec::new();
    push_str(&mut v, a);
    push_str(&mut v, b);
    string_from_chars(&v)
}

/// What a script run gave back.
#[derive(Debug, Clone)]
pub struct ExecOutput {
    pub code: i32,
    pub stdout: String,
    pub stderr: String,
    pub timed_out: bool,
}

/// One module directory as found on disk.
#[derive(Debug, Clone)]
pub struct DiskModule {
    pub module_id: String,
    pub name: String,
    pub kind: String,
    pub version: String,
    pub main_cap: String,
    pub auto_start: bool,
    pub action_count: u32,
    pub disabled: bool,
}

/// The module registry and scope rules, and the decisions of the module
/// life cycle.
#[derive(Debug, Clone)]
pub struct ModuleRuntime {
    pub cfg: ModuleRuntimeConfig,
    registry: ModuleRegistry,
    scope_rules: ScopeTable,
}


/// What folding a script's outcome `out` into the record of `module_id`
/// makes of the runtime `o`: `n` keeps the scope rules and the modules; on
/// exit 0 the record takes the reported state (else `ok_state`) and reason
/// (else `-`) and the last error is cleared; otherwise the record is in
/// `Error` with reason `action_failed` and carries, as the registry does,
/// a timeout or failure error.
pub open spec fn exec_committed(o: ModuleRuntime, n: ModuleRuntime, module_id: Seq<char>, out: ExecOutput, ok_state: ModuleState) -> bool {
    &&& n.scopes() == o.scopes()
    &&& o.reg()@.contains_key(module_id) ==> {
        let r = n.reg()@[module_id];
        &&& n.reg()@.dom() == o.reg()@.dom()
        &&& out.code == 0 ==> {
            &&& r.state == match kv_state(ws_tokens(out.stdout@)) {
                Some(s) => s,
                None => ok_state,
            }
            &&& r.reason@ == match kv_reason(ws_tokens(out.stdout@)) {
                Some(v) => v,
                None => "-"@,
            }
            &&& n.reg().spec_last_error() is None
        }
        &&& out.code != 0 ==> {
            &&& r.state == ModuleState::Error
            &&& r.reason@ == "action_failed"@
            &&& r.last_error matches Some(e) && e.code@ == if out.timed_out {
                "E_ACTION_TIMEOUT"@
            } else {
                "E_ACTION_FAILED"@
            }
            &&& n.reg().spec_last_error() == r.last_error
        }
    }
}

impl ModuleRuntime {
    pub closed spec fn wf(&self) -> bool {
        self.registry.wf() && self.scope_rules.wf()
    }

    /// The registry the runtime keeps.
    pub closed spec fn reg(&self) -> ModuleRegistry {
        self.registry
    }

    /// The paths and limits the runtime was made with.
    pub closed spec fn config(&self) -> ModuleRuntimeConfig {
        self.cfg
    }

    /// The scope rules the runtime keeps.
    pub closed spec fn scopes(&self) -> ScopeTable {
        self.scope_rules
    }

    /// A runtime with no module and no rule yet.
    pub fn new(cfg: ModuleRuntimeConfig) -> (r: Self)
        ensures
            r.wf(),
            r.reg()@ == Map::<Seq<char>, ModuleRecord>::empty(),
            r.reg().entries() == Seq::<ModuleRecord>::empty(),
            r.reg().spec_event_seq() == 0,
            r.scopes()@ == Map::<Seq<char>, ScopeEntry>::empty(),
            r.reg().spec_last_error() is None,
            r.config() == cfg,
    {
        ModuleRuntime { cfg, registry: ModuleRegistry::new(), scope_rules: ScopeTable::new() }
    }

    pub fn upsert(&mut self, record: ModuleRecord) -> (r: Result<ModuleRecord, ModuleRegistryError>)
        requires
            old(self).wf(),
        ensures
            final(self).wf(),
            final(self).scopes() == old(self).scopes(),
            match sanitized_id(record.id@) {
                None => {
                    &&& r matches Err(e) && e.code@ == "E_MODULE_ID_INVALID"@ && e.message@ == "module_id_invalid"@
                        && e.module_id@ == record.id@
                    &&& final(self).reg()@ == old(self).reg()@
                    &&& final(self).reg().entries() == old(self).reg().entries()
                    &&& final(self).reg().spec_event_seq() == old(self).reg().spec_event_seq()
                },
                Some(id) => {
                    &&& r matches Ok(out) && exists|now: u64| upserted(out, record, id, old(self).reg()@, now)
                    &&& final(self).reg()@ == old(self).reg()@.insert(id, r->Ok_0)
                    &&& final(self).reg().spec_event_seq() == crate::module_registry::bumped(old(self).reg().spec_event_seq())
                },
            },
            final(self).reg().spec_last_error() == old(self).reg().spec_last_error(),
    {
        self.registry.upsert(record)
    }

    pub fn remove(&mut self, module_id: &str) -> (r: bool)
        requires
            old(self).wf(),
        ensures
            final(self).wf(),
            r == old(self).reg()@.contains_key(module_id@),
            final(self).reg()@ == old(self).reg()@.remove(module_id@),
            final(self).reg().spec_last_error() == old(self).reg().spec_last_error(),
            final(self).scopes() == old(self).scopes(),
    {
        self.registry.remove(module_id)
    }

    /// Every record is stored under its own id, which is valid.
    pub proof fn lemma_reg_ids(&self)
        requires
            self.wf(),
        ensures
            self.reg().wf(),
            forall|k: Seq<char>| #[trigger] self.reg()@.contains_key(k) ==> id_ok(k) && self.reg()@[k].id@ == k,
    {
        self.registry.lemma_entries();
    }

    /// Stores `record` under its sanitized id at time `now`, keeping the
    /// install time of a record it replaces.
    pub fn upsert_at(&mut self, record: ModuleRecord, now: u64) -> (r: Result<ModuleRecord, ModuleRegistryError>)
        requires
            old(self).wf(),
        ensures
            final(self).wf(),
            final(self).scopes() == old(self).scopes(),
            final(self).reg().spec_last_error() == old(self).reg().spec_last_error(),
            match sanitized_id(record.id@) {
                None => {
                    &&& r matches Err(e) && e.code@ == "E_MODULE_ID_INVALID"@ && e.module_id@ == record.id@
                    &&& final(self).reg()@ == old(self).reg()@
                },
                Some(id) => {
                    &&& r matches Ok(out) && upserted(out, record, id, old(self).reg()@, now)
                    &&& final(self).reg()@ == old(self).reg()@.insert(id, r->Ok_0)
                },
            },
    {
        self.registry.upsert_at(record, now)
    }

    /// Drops the scope rules of `module_id`.
    pub fn clear_scope_rules(&mut self, module_id: &str)
        requires
            old(self).wf(),
        ensures
            final(self).wf(),
            final(self).reg() == old(self).reg(),
            final(self).scopes()@ == old(self).scopes()@.remove(module_id@),
    {
        self.scope_rules.clear(module_id);
    }

    pub fn get(&self, module_id: &str) -> (r: Option<ModuleRecord>)
        requires
            self.wf(),
        ensures
            r == (if self.reg()@.contains_key(module_id@) {
                Some(self.reg()@[module_id@])
            } else {
                None
            }),
    {
        self.registry.get(module_id)
    }

    pub fn list(&self) -> (r: Vec<ModuleRecord>)
        ensures
            r@ == self.reg().entries(),
    {
        self.registry.list()
    }

    pub fn reload_by_id(&mut self, module_id: &str) -> (r: Result<ModuleRecord, ModuleRegistryError>)
        requires
            old(self).wf(),
        ensures
            final(self).wf(),
            final(self).scopes() == old(self).scopes(),
            exists|now: u64| #[trigger] crate::module_registry::reload_by_id_done(old(self).reg(), final(self).reg(), module_id@, now, r),
    {
        let r = self.registry.reload_by_id(module_id);
        proof {
            let now = choose|now: u64| crate::module_registry::reload_by_id_done(old(self).registry, self.registry, module_id@, now, r);
            assert(crate::module_registry::reload_by_id_done(old(self).reg(), self.reg(), module_id@, now, r));
        }
        r
    }

    pub fn reload_all(&mut self) -> (r: ModuleReloadAllResult)
        requires
            old(self).wf(),
        ensures
            final(self).wf(),
            final(self).scopes() == old(self).scopes(),
            exists|now: u64| #[trigger] crate::module_registry::reload_all_done(old(self).reg(), final(self).reg(), now, r),
    {
        let r = self.registry.reload_all();
        proof {
            let now = choose|now: u64| crate::module_registry::reload_all_done(old(self).registry, self.registry, now, r);
            assert(crate::module_registry::reload_all_done(old(self).reg(), self.reg(), now, r));
        }
        r
    }

    pub fn set_last_error(&mut self, record: ModuleErrorRecord)
        requires
            old(self).wf(),
        ensures
            final(self).wf(),
            final(self).reg().spec_last_error() == Some(record),
            final(self).reg()@ == old(self).reg()@,
    {
        self.registry.set_last_error(record)
    }

    pub fn clear_last_error(&mut self)
        requires
            old(self).wf(),
        ensures
            final(self).wf(),
            final(self).reg().spec_last_error() is None,
            final(self).reg()@ == old(self).reg()@,
    {
        self.registry.clear_last_error()
    }

    pub fn last_error(&self) -> (r: Option<ModuleErrorRecord>)
        ensures
            r == self.reg().spec_last_error(),
    {
        self.registry.last_error()
    }

    pub fn event_seq(&self) -> (r: u64)
        ensures
            r == self.reg().spec_event_seq(),
    {
        self.registry.event_seq()
    }

    pub fn count(&self) -> (r: usize)
        ensures
            r == self.reg().entries().len(),
    {
        self.registry.count()
    }

    /// A module the request may name: a valid id whose directory exists.
    pub fn ensure_module_exists(module_id: &str, dir_exists: bool) -> (r: Result<(), ModuleRuntimeRpcError>)
        ensures
            !id_ok(module_id@) ==> (r matches Err(e) && e.status == Status::InvalidArgument && e.body@
                == "ksu_dsapi_error=module_id_invalid"@),
            id_ok(module_id@) && !dir_exists ==> (r matches Err(e) && e.status == Status::InvalidArgument
                && e.body@ == "ksu_dsapi_error=module_not_found"@),
            id_ok(module_id@) && dir_exists ==> r is Ok,
    {
        if !module_id_valid(module_id) {
            return Err(ModuleRuntimeRpcError::invalid("ksu_dsapi_error=module_id_invalid"));
        }
        if !dir_exists {
            return Err(ModuleRuntimeRpcError::invalid("ksu_dsapi_error=module_not_found"));
        }
        Ok(())
    }

    /// Sets the scope policy of a package and user for an existing module.
    pub fn scope_set(&mut self, module_id: &str, dir_exists: bool, package_name: &str, user_id: i32, allow: bool) -> (r: Result<(), ModuleRuntimeRpcError>)
        requires
            old(self).wf(),
        ensures
            final(self).wf(),
            final(self).reg() == old(self).reg(),
            r is Ok <==> id_ok(module_id@) && dir_exists && package_ok(package_name@),
            !id_ok(module_id@) ==> (r matches Err(e) && e.status == Status::InvalidArgument && e.body@
                == "ksu_dsapi_error=module_id_invalid"@),
            id_ok(module_id@) && !dir_exists ==> (r matches Err(e) && e.status == Status::InvalidArgument && e.body@
                == "ksu_dsapi_error=module_not_found"@),
            id_ok(module_id@) && dir_exists && !package_ok(package_name@) ==> (r matches Err(e) && e.status
                == Status::InvalidArgument && e.body@ == "ksu_dsapi_error=scope_package_invalid"@),
            r is Ok ==> forall|k: Seq<char>| k != module_id@ ==> #[trigger] final(self).scopes().rules_of(k)
                == old(self).scopes().rules_of(k),
            r is Ok ==> rules_after_set(
                old(self).scopes().rules_of(module_id@),
                final(self).scopes().rules_of(module_id@),
                package_name@,
                user_id,
                allow,
            ),
            r is Err ==> final(self).scopes()@ == old(self).scopes()@,
    {
        match Self::ensure_module_exists(module_id, dir_exists) {
            Ok(()) => {},
            Err(e) => return Err(e),
        }
        if !scope_package_valid(package_name) {
            return Err(ModuleRuntimeRpcError::invalid("ksu_dsapi_error=scope_package_invalid"));
        }
        self.scope_rules.set_rule(module_id, package_name, user_id, allow);
        Ok(())
    }

    /// Drops the scope rules of an existing module.
    pub fn scope_clear(&mut self, module_id: &str, dir_exists: bool) -> (r: Result<(), ModuleRuntimeRpcError>)
        requires
            old(self).wf(),
        ensures
            final(self).wf(),
            final(self).reg() == old(self).reg(),
            r is Ok <==> id_ok(module_id@) && dir_exists,
            !id_ok(module_id@) ==> (r matches Err(e) && e.status == Status::InvalidArgument && e.body@
                == "ksu_dsapi_error=module_id_invalid"@),
            id_ok(module_id@) && !dir_exists ==> (r matches Err(e) && e.status == Status::InvalidArgument && e.body@
                == "ksu_dsapi_error=module_not_found"@),
            r is Ok ==> final(self).scopes()@ == old(self).scopes()@.remove(module_id@),
            r is Err ==> final(self).scopes()@ == old(self).scopes()@,
    {
        match Self::ensure_module_exists(module_id, dir_exists) {
            Ok(()) => {},
            Err(e) => return Err(e),
        }
        self.scope_rules.clear(module_id);
        Ok(())
    }

    /// The verdict of the scope rules of `module_id` for `scope`: allow when
    /// the module has no rule or no rule applies, else the policy of the most
    /// specific applying rule (the later among equals).
    pub fn scope_eval(&self, module_id: &str, scope: &ScopeContext) -> (d: ScopeDecision)
        requires
            self.wf(),
        ensures
            d.matched == picked_rule(self.scopes().rules_of(module_id@), scope.package_name@, scope.user_id),
            d.allow == scope_verdict(self.scopes().rules_of(module_id@), scope.package_name@, scope.user_id),
    {
        let rules = self.scope_rules.rules_for(module_id);
        eval_rules(&rules, scope)
    }

    /// The listing of the scope rules of `module_id` (of every module when
    /// `None`), one row per line.
    pub fn scope_list_lines(&self, module_id: Option<&str>) -> (r: String)
        requires
            self.wf(),
        ensures
            module_id matches Some(id) ==> r@ == join_newline(scope_rows(id@, self.scopes().rules_of(id@))),
            module_id is None ==> r@ == join_newline(table_rows(self.scopes().entries(), false)),
    {
        let lines = self.scope_rules.list_lines(module_id);
        proof {
            if let Some(id) = module_id {
                assert(lines@.map_values(|l: String| l@) =~= scope_rows(id@, self.scopes().rules_of(id@)));
            }
        }
        join_lines(&lines)
    }

    /// The text of the scope file: its lines, each ended by a newline.
    pub fn scope_file_text(&self) -> (r: String)
        ensures
            r@ == join_newline(table_rows(self.scopes().entries(), true)) + seq!['\n'],
    {
        let lines = self.scope_rules.file_lines();
        let joined = join_lines(&lines);
        let mut v = chars_of(joined.as_str());
        v.push('\n');
        string_from_chars(&v)
    }

    /// Records a failure on the module's record and as the registry's last
    /// error, stamped `now`; nothing happens for an unknown module.
    pub fn record_error_at(&mut self, module_id: &str, code: &str, message: &str, detail: &str, now: u64)
        requires
            old(self).wf(),
        ensures
            final(self).wf(),
            final(self).scopes() == old(self).scopes(),
            error_recorded(*old(self), *final(self), module_id@, code@, message@, detail@, now),
    {
        let mut rec = match self.registry.get(module_id) {
            Some(v) => v,
            None => return,
        };
        proof {
            self.registry.lemma_entries();
            lemma_valid_id_sanitized(rec.id@);
        }
        let err = ModuleErrorRecord::new_at("module.lifecycle", code, message, detail, now);
        rec.last_error = Some(err.clone());
        self.registry.set_last_error(err);
        let stored = self.registry.upsert_at(rec, now);
        proof {
            let a = stored->Ok_0;
            assert(final(self).reg()@ == old(self).reg()@.insert(module_id@, a));
            assert(final(self).reg()@.dom() =~= old(self).reg()@.dom());
        }
    }

    /// Sets the state and reason of a module's record at time `now`; nothing
    /// happens for an unknown module.
    pub fn commit_module_state_at(&mut self, module_id: &str, state: ModuleState, reason: &str, now: u64)
        requires
            old(self).wf(),
        ensures
            final(self).wf(),
            final(self).scopes() == old(self).scopes(),
            final(self).reg().spec_last_error() == old(self).reg().spec_last_error(),
            !old(self).reg()@.contains_key(module_id@) ==> final(self).reg() == old(self).reg(),
            old(self).reg()@.contains_key(module_id@) ==> {
                let n = final(self).reg()@[module_id@];
                let o = old(self).reg()@[module_id@];
                &&& final(self).reg()@.dom() == old(self).reg()@.dom()
                &&& n.state == state && n.reason@ == reason@
                &&& n.enabled == o.enabled && n.last_error == o.last_error
            },
    {
        let mut rec = match self.registry.get(module_id) {
            Some(v) => v,
            None => return,
        };
        proof {
            self.registry.lemma_entries();
            lemma_valid_id_sanitized(rec.id@);
        }
        rec.state = state;
        rec.reason = reason.to_owned();
        let _ = self.registry.upsert_at(rec, now);
        proof {
            assert(final(self).reg()@.dom() =~= old(self).reg()@.dom());
        }
    }

    /// Folds a script's outcome into the module's record at time `now`. On
    /// exit 0 the state is the reported one (else `ok_state`) with the
    /// reported reason (else `-`), and the last error is cleared; otherwise
    /// a timeout or failure is recorded and the module is in `Error` with
    /// reason `action_failed`.
    pub fn commit_exec_state_at(&mut self, module_id: &str, out: &ExecOutput, ok_state: ModuleState, now: u64)
        requires
            old(self).wf(),
        ensures
            final(self).wf(),
            exec_committed(*old(self), *final(self), module_id@, *out, ok_state),
    {
        if out.code == 0 {
            let status = parse_status_kv(out.stdout.as_str());
            let reason = match status.reason {
                Some(r) => r,
                None => "-".to_owned(),
            };
            let state = match status.state {
                Some(s) => s,
                None => ok_state,
            };
            self.commit_module_state_at(module_id, state, reason.as_str(), now);
            self.registry.clear_last_error();
            return;
        }
        if out.timed_out {
            self.record_error_at(module_id, "E_ACTION_TIMEOUT", "module_action_timeout", "timeout", now);
        } else {
            let mut d: Vec<char> = Vec::new();
            push_str(&mut d, "exit=");
            push_signed_decimal(&mut d, out.code as i64);
            push_str(&mut d, " stderr=");
            let se = chars_of(out.stderr.as_str());
            push_all(&mut d, &sanitize_token_chars(&se));
            let detail = string_from_chars(&d);
            self.record_error_at(module_id, "E_ACTION_FAILED", "module_action_failed", detail.as_str(), now);
        }
        self.commit_module_state_at(module_id, ModuleState::Error, "action_failed", now);
    }

    /// Lets `scope` drive `module_id`, or records `E_SCOPE_DENIED` on the
    /// module at `now` and refuses with the deciding rule in the reply.
    pub fn ensure_scope_allowed_at(&mut self, module_id: &str, scope: &ScopeContext, now: u64) -> (r: Result<(), ModuleRuntimeRpcError>)
        requires
            old(self).wf(),
        ensures
            final(self).wf(),
            final(self).scopes() == old(self).scopes(),
            r is Ok <==> scope_verdict(old(self).scopes().rules_of(module_id@), scope.package_name@, scope.user_id),
            r is Ok ==> final(self).reg() == old(self).reg(),
            r matches Err(e) ==> ({
                let detail = scope_denied_detail(
                    old(self).scopes().rules_of(module_id@),
                    module_id@,
                    scope.package_name@,
                    scope.user_id,
                );
                &&& e.status == Status::InvalidArgument
                &&& e.body@ == "ksu_dsapi_error=scope_denied "@ + token_sanitized(detail)
                &&& error_recorded(*old(self), *final(self), module_id@, "E_SCOPE_DENIED"@, "scope_denied"@, detail, now)
            }),
    {
        let decision = self.scope_eval(module_id, scope);
        if decision.allow {
            return Ok(());
        }
        let mut d: Vec<char> = Vec::new();
        push_str(&mut d, "id=");
        push_str(&mut d, module_id);
        push_str(&mut d, " package=");
        push_str(&mut d, scope.package_name.as_str());
        push_str(&mut d, " user=");
        push_signed_decimal(&mut d, scope.user_id as i64);
        match &decision.matched {
            Some(rule) => {
                push_str(&mut d, " rule_package=");
                push_str(&mut d, rule.package_name.as_str());
                push_str(&mut d, " rule_user=");
                push_signed_decimal(&mut d, rule.user_id as i64);
            },
            None => {
                push_str(&mut d, " rule=none");
            },
        }
        let ghost rules = self.scopes().rules_of(module_id@);
        assert(d@ =~= scope_denied_detail(rules, module_id@, scope.package_name@, scope.user_id));
        let detail = string_from_chars(&d);
        self.record_error_at(module_id, "E_SCOPE_DENIED", "scope_denied", detail.as_str(), now);
        let mut body: Vec<char> = Vec::new();
        push_str(&mut body, "ksu_dsapi_error=scope_denied ");
        push_all(&mut body, &sanitize_token_chars(&d));
        Err(ModuleRuntimeRpcError::invalid_chars(&body))
    }
}

/// `a` is the record `b` with a new last error, updated at `now`: every
/// other field is kept.
pub open spec fn error_stamped(a: ModuleRecord, b: ModuleRecord, now: u64) -> bool {
    &&& a.id@ == b.id@
    &&& a.name == b.name
    &&& a.kind == b.kind
    &&& a.version == b.version
    &&& a.enabled == b.enabled
    &&& a.state == b.state
    &&& a.reason == b.reason
    &&& a.main_cap == b.main_cap
    &&& a.action_count == b.action_count
    &&& a.auto_start == b.auto_start
    &&& a.installed_at_ms == b.installed_at_ms
    &&& a.updated_at_ms == now
}

/// What recording a failure `code`/`message`/`detail` on `module_id` at
/// time `now` makes of the runtime `o`: `n` keeps the scope rules; an
/// unknown module leaves the registry as it was; otherwise every other
/// record stays as it was, the module's record carries the error with all
/// its other fields kept (but its update time, `now`), the registry's last
/// error is that error, and the event counter moves twice (once for the
/// last error, once for the stored record).
pub open spec fn error_recorded(
    o: ModuleRuntime,
    n: ModuleRuntime,
    module_id: Seq<char>,
    code: Seq<char>,
    message: Seq<char>,
    detail: Seq<char>,
    now: u64,
) -> bool {
    &&& n.scopes() == o.scopes()
    &&& !o.reg()@.contains_key(module_id) ==> n.reg() == o.reg()
    &&& o.reg()@.contains_key(module_id) ==> {
        let a = n.reg()@[module_id];
        let b = o.reg()@[module_id];
        &&& n.reg()@ == o.reg()@.insert(module_id, a)
        &&& n.reg()@.dom() == o.reg()@.dom()
        &&& error_stamped(a, b, now)
        &&& a.last_error matches Some(e) && e.scope@ == "module.lifecycle"@ && e.code@ == code && e.message@
            == message && e.detail@ == detail && e.ts_ms == now
        &&& n.reg().spec_last_error() == a.last_error
        &&& n.reg().spec_event_seq() == crate::module_registry::bumped(crate::module_registry::bumped(o.reg().spec_event_seq()))
    }
}

/// What a refusal by the scope rules tells of the request: the module, the
/// package and user asking, and the deciding rule (`rule=none` when no rule
/// applies).
pub open spec fn scope_denied_detail(rules: Seq<ModuleScopeRule>, module_id: Seq<char>, pkg: Seq<char>, user: i32) -> Seq<char> {
    "id="@ + module_id + " package="@ + pkg + " user="@ + signed_decimal_text(user as int) + match picked_rule(
        rules,
        pkg,
        user,
    ) {
        Some(rule) => " rule_package="@ + rule.package_name@ + " rule_user="@ + signed_decimal_text(rule.user_id as int),
        None => " rule=none"@,
    }
}

/// Lines joined by `\n`.
pub fn join_lines(lines: &Vec<String>) -> (r: String)
    ensures
        r@ == join_newline(lines@.map_values(|s: String| s@)),
{
    let ghost ls = lines@.map_values(|s: String| s@);
    let mut out: Vec<char> = Vec::new();
    let mut i: usize = 0;
    while i < lines.len()
        invariant
            i <= lines.len(),
            ls == lines@.map_values(|s: String| s@),
            out@ == join_newline(ls.take(i as int)),
        decreases lines.len() - i,
    {
        assert(ls.take(i + 1).drop_last() == ls.take(i as int));
        assert(ls.take(i + 1).last() == lines@[i as int]@);
        if i > 0 {
            out.push('\n');
        }
        push_str(&mut out, lines[i].as_str());
        i += 1;
        proof {
            if i == 1 {
                assert(ls.take(0) == Seq::<Seq<char>>::empty());
                assert(out@ =~= lines@[0]@);
            }
        }
    }
    assert(ls.take(lines.len() as int) == ls);
    string_from_chars(&out)
}

/// Lines joined by `\n`.
pub open spec fn join_newline(ws: Seq<Seq<char>>) -> Seq<char>
    decreases ws.len(),
{
    if ws.len() == 0 {
        Seq::empty()
    } else if ws.len() == 1 {
        ws[0]
    } else {
        join_newline(ws.drop_last()) + seq!['\n'] + ws.last()
    }
}

/// The state a module has after a disk scan: disabled when its disable
/// flag is set; back to installed when the flag is gone from a disabled
/// module; otherwise as it was.
pub open spec fn sync_state(d: DiskModule, prev: ModuleState) -> ModuleState {
    if d.disabled {
        ModuleState::Disabled
    } else if prev == ModuleState::Disabled {
        ModuleState::Installed
    } else {
        prev
    }
}

/// `r` is the record a disk scan at time `now` makes of module `d`, given
/// the records before the scan: the metadata from disk, enabled unless the
/// disable flag is set, the state as `sync_state` says (a new module starts
/// installed), the reason following the state, and the last error and the
/// install time kept from before (a new module is installed `now`).
pub open spec fn disk_synced(r: ModuleRecord, d: DiskModule, m: Map<Seq<char>, ModuleRecord>, now: u64) -> bool {
    let id = d.module_id@;
    let had = m.contains_key(id);
    let prev_state = if had {
        m[id].state
    } else {
        ModuleState::Installed
    };
    &&& r.id@ == id
    &&& r.name@ == d.name@
    &&& r.kind@ == d.kind@
    &&& r.version@ == d.version@
    &&& r.main_cap@ == d.main_cap@
    &&& r.auto_start == d.auto_start
    &&& r.action_count == d.action_count
    &&& r.enabled == !d.disabled
    &&& r.state == sync_state(d, prev_state)
    &&& r.reason@ == if d.disabled {
        "disabled"@
    } else if prev_state == ModuleState::Disabled {
        "-"@
    } else if had {
        m[id].reason@
    } else {
        "-"@
    }
    &&& r.last_error == if had {
        m[id].last_error
    } else {
        None
    }
    &&& r.installed_at_ms == if had {
        m[id].installed_at_ms
    } else {
        now
    }
    &&& r.updated_at_ms == now
}

/// Some module found on disk has the valid id `k`.
pub open spec fn on_disk(disk: Seq<DiskModule>, k: Seq<char>) -> bool {
    exists|i: int| 0 <= i < disk.len() && id_ok(disk[i].module_id@) && #[trigger] disk[i].module_id@ == k
}

/// What bringing the registry of `o` in line with the modules found on
/// disk at time `now` makes of it: `n` knows exactly the modules on disk,
/// each as `disk_synced` says; the scope rules of modules gone from disk
/// are dropped (those of a module never known stay) and the others kept;
/// the last error stays; each module on disk and each record dropped
/// counts one event.
pub open spec fn synced_from_disk(o: ModuleRuntime, n: ModuleRuntime, disk: Seq<DiskModule>, now: u64) -> bool {
    &&& n.reg().spec_last_error() == o.reg().spec_last_error()
    &&& n.reg().spec_event_seq() == crate::module_registry::bumped_n(
        o.reg().spec_event_seq(),
        count_valid(disk) + count_gone(o.reg().entries(), disk),
    )
    &&& forall|k: Seq<char>| n.reg()@.contains_key(k) <==> on_disk(disk, k)
    &&& forall|i: int|
        0 <= i < disk.len() && id_ok(disk[i].module_id@) ==> disk_synced(
            n.reg()@[#[trigger] disk[i].module_id@],
            disk[i],
            o.reg()@,
            now,
        )
    &&& forall|k: Seq<char>|
        !on_disk(disk, k) ==> (n.scopes()@.contains_key(k) <==> o.scopes()@.contains_key(k)
            && !o.reg()@.contains_key(k))
    &&& forall|k: Seq<char>|
        on_disk(disk, k) ==> #[trigger] n.scopes()@.contains_key(k) == o.scopes()@.contains_key(k)
            && (n.scopes()@.contains_key(k) ==> n.scopes()@[k] == o.scopes()@[k])
}

/// How many of the modules found on disk have a valid id.
pub open spec fn count_valid(disk: Seq<DiskModule>) -> nat
    decreases disk.len(),
{
    if disk.len() == 0 {
        0
    } else {
        count_valid(disk.drop_last()) + if id_ok(disk.last().module_id@) {
            1nat
        } else {
            0nat
        }
    }
}

/// How many of the records `recs` are not found on disk.
pub open spec fn count_gone(recs: Seq<ModuleRecord>, disk: Seq<DiskModule>) -> nat
    decreases recs.len(),
{
    if recs.len() == 0 {
        0
    } else {
        count_gone(recs.drop_last(), disk) + if on_disk(disk, recs.last().id@) {
            0nat
        } else {
            1nat
        }
    }
}

/// A module found among the first `i` found is among the first `i + 1`.
proof fn lemma_on_disk_grows(disk: Seq<DiskModule>, i: int, k: Seq<char>)
    requires
        0 <= i < disk.len(),
        on_disk(disk.take(i), k),
    ensures
        on_disk(disk.take(i + 1), k),
{
    let j = choose|j: int| 0 <= j < disk.take(i).len() && id_ok(disk.take(i)[j].module_id@) && #[trigger] disk.take(i)[j].module_id@ == k;
    assert(disk.take(i + 1)[j] == disk.take(i)[j]);
}

impl ModuleRuntime {
    /// Folds one module found on disk into the registry at time `now`.
    fn apply_disk_module(&mut self, d: &DiskModule, now: u64)
        requires
            old(self).wf(),
            id_ok(d.module_id@),
        ensures
            final(self).wf(),
            final(self).scopes() == old(self).scopes(),
            final(self).reg()@.contains_key(d.module_id@),
            disk_synced(final(self).reg()@[d.module_id@], *d, old(self).reg()@, now),
            final(self).reg()@ == old(self).reg()@.insert(d.module_id@, final(self).reg()@[d.module_id@]),
            final(self).reg().spec_event_seq() == crate::module_registry::bumped(old(self).reg().spec_event_seq()),
            final(self).reg().spec_last_error() == old(self).reg().spec_last_error(),
    {
        let mut rec = match self.registry.get(d.module_id.as_str()) {
            Some(v) => v,
            None => ModuleRecord::new_at(d.module_id.as_str(), now),
        };
        proof {
            self.registry.lemma_entries();
            lemma_valid_id_sanitized(d.module_id@);
        }
        rec.name = d.name.clone();
        rec.kind = d.kind.clone();
        rec.version = d.version.clone();
        rec.main_cap = d.main_cap.clone();
        rec.auto_start = d.auto_start;
        rec.action_count = d.action_count;
        rec.enabled = !d.disabled;
        if !rec.enabled {
            rec.state = ModuleState::Disabled;
            rec.reason = "disabled".to_owned();
        } else if rec.state == ModuleState::Disabled {
            rec.state = ModuleState::Installed;
            rec.reason = "-".to_owned();
        }
        let _ = self.registry.upsert_at(rec, now);
    }

    /// Brings the registry in line with the modules found on disk at time
    /// `now`: each module with a valid id is recorded as `disk_synced` says,
    /// and the records and scope rules of modules no longer on disk are
    /// dropped. Directory names are unique, so no valid id occurs twice.
    #[verifier::spinoff_prover]
    #[verifier::rlimit(80)]
    pub fn sync_from_disk(&mut self, disk: &Vec<DiskModule>, now: u64)
        requires
            old(self).wf(),
            forall|i: int, j: int|
                0 <= i < j < disk@.len() && id_ok(disk@[i].module_id@) ==> disk@[i].module_id@
                    != disk@[j].module_id@,
        ensures
            final(self).wf(),
            synced_from_disk(*old(self), *final(self), disk@, now),
    {
        let ghost m0 = self.reg()@;
        let ghost s0 = self.scopes()@;
        let ghost e0 = self.reg().spec_event_seq();
        let ghost le0 = self.reg().spec_last_error();
        let existing = self.registry.list();
        proof {
            self.registry.lemma_entries();
        }
        let mut i: usize = 0;
        while i < disk.len()
            invariant
                self.wf(),
                i <= disk@.len(),
                existing@ == old(self).reg().entries(),
                self.reg().spec_event_seq() == crate::module_registry::bumped_n(e0, count_valid(disk@.take(i as int))),
                self.reg().spec_last_error() == le0,
                self.scopes() == old(self).scopes(),
                m0 == old(self).reg()@,
                s0 == old(self).scopes()@,
                forall|a: int, b: int|
                    0 <= a < b < disk@.len() && id_ok(disk@[a].module_id@) ==> disk@[a].module_id@
                        != disk@[b].module_id@,
                forall|j: int|
                    0 <= j < i && id_ok(disk@[j].module_id@) ==> self.reg()@.contains_key(#[trigger] disk@[j].module_id@)
                        && disk_synced(self.reg()@[disk@[j].module_id@], disk@[j], m0, now),
                forall|k: Seq<char>|
                    !on_disk(disk@.take(i as int), k) ==> (#[trigger] self.reg()@.contains_key(k) == m0.contains_key(k)
                        && (m0.contains_key(k) ==> self.reg()@[k] == m0[k])),
            decreases disk@.len() - i,
        {
            if module_id_valid(disk[i].module_id.as_str()) {
                let ghost before = self.reg()@;
                let ghost id = disk@[i as int].module_id@;
                proof {
                    assert(!on_disk(disk@.take(i as int), id)) by {
                        if on_disk(disk@.take(i as int), id) {
                            let j = choose|j: int| 0 <= j < disk@.take(i as int).len() && id_ok(disk@.take(i as int)[j].module_id@)
                                && #[trigger] disk@.take(i as int)[j].module_id@ == id;
                            assert(disk@[j].module_id@ != disk@[i as int].module_id@);
                        }
                    }
                }
                self.apply_disk_module(&disk[i], now);
                proof {
                    assert forall|j: int|
                        0 <= j < i + 1 && id_ok(disk@[j].module_id@) implies self.reg()@.contains_key(#[trigger] disk@[j].module_id@)
                            && disk_synced(self.reg()@[disk@[j].module_id@], disk@[j], m0, now) by {
                        if j < i {
                            assert(disk@[j].module_id@ != id);
                        }
                    }
                    assert forall|k: Seq<char>|
                        !on_disk(disk@.take(i + 1), k) implies (#[trigger] self.reg()@.contains_key(k) == m0.contains_key(k)
                            && (m0.contains_key(k) ==> self.reg()@[k] == m0[k])) by {
                        assert(disk@.take(i + 1)[i as int] == disk@[i as int]);
                        if k == id {
                            assert(on_disk(disk@.take(i + 1), k));
                        }
                        if on_disk(disk@.take(i as int), k) {
                            lemma_on_disk_grows(disk@, i as int, k);
                        }
                        assert(!on_disk(disk@.take(i as int), k));
                        assert(before.contains_key(k) == m0.contains_key(k));
                    }
                }
            } else {
                proof {
                    assert forall|k: Seq<char>|
                        !on_disk(disk@.take(i + 1), k) implies (#[trigger] self.reg()@.contains_key(k) == m0.contains_key(k)
                            && (m0.contains_key(k) ==> self.reg()@[k] == m0[k])) by {
                        if on_disk(disk@.take(i as int), k) {
                            lemma_on_disk_grows(disk@, i as int, k);
                        }
                    }
                }
            }
            proof {
                assert(disk@.take(i + 1).drop_last() =~= disk@.take(i as int));
                assert(disk@.take(i + 1).last() == disk@[i as int]);
            }
            i += 1;
        }
        assert(disk@.take(disk@.len() as int) =~= disk@);
        let ghost m1 = self.reg()@;
        let ghost e1 = self.reg().spec_event_seq();
        let mut k: usize = 0;
        while k < existing.len()
            invariant
                self.wf(),
                k <= existing@.len(),
                m0 == old(self).reg()@,
                s0 == old(self).scopes()@,
                forall|j: int|
                    0 <= j < disk@.len() && id_ok(disk@[j].module_id@) ==> m1.contains_key(#[trigger] disk@[j].module_id@)
                        && disk_synced(m1[disk@[j].module_id@], disk@[j], m0, now),
                forall|x: Seq<char>| #[trigger] m0.contains_key(x) <==> has_id(existing@, x),
                existing@ == old(self).reg().entries(),
                crate::keyed::ids_sorted(existing@),
                e1 == crate::module_registry::bumped_n(e0, count_valid(disk@)),
                self.reg().spec_event_seq() == crate::module_registry::bumped_n(e1, count_gone(existing@.take(k as int), disk@)),
                self.reg().spec_last_error() == le0,
                forall|x: Seq<char>| !on_disk(disk@, x) ==> (m1.contains_key(x) == m0.contains_key(x)),
                forall|x: Seq<char>|
                    #[trigger] self.reg()@.contains_key(x) <==> (m1.contains_key(x) && (on_disk(disk@, x) || !has_id(existing@.take(k as int), x))),
                forall|x: Seq<char>| self.reg()@.contains_key(x) ==> #[trigger] self.reg()@[x] == m1[x],
                forall|x: Seq<char>|
                    #[trigger] self.scopes()@.contains_key(x) <==> (s0.contains_key(x) && (on_disk(disk@, x) || !has_id(existing@.take(k as int), x))),
                forall|x: Seq<char>| self.scopes()@.contains_key(x) ==> #[trigger] self.scopes()@[x] == s0[x],
            decreases existing@.len() - k,
        {
            let idc = chars_of(existing[k].id.as_str());
            let mut found = false;
            let mut j: usize = 0;
            while j < disk.len()
                invariant
                    j <= disk@.len(),
                    idc@ == existing@[k as int].id@,
                    found == exists|q: int| 0 <= q < j && id_ok(disk@[q].module_id@) && #[trigger] disk@[q].module_id@ == idc@,
                decreases disk@.len() - j,
            {
                if module_id_valid(disk[j].module_id.as_str()) {
                    let dc = chars_of(disk[j].module_id.as_str());
                    if chars_same(&dc, &idc) {
                        found = true;
                    }
                }
                j += 1;
            }
            assert(found == on_disk(disk@, existing@[k as int].id@));
            proof {
                assert(existing@.take(k + 1).drop_last() =~= existing@.take(k as int));
                assert(existing@.take(k + 1).last() == existing@[k as int]);
            }
            let ghost reg_before = self.reg()@;
            let ghost sc_before = self.scopes()@;
            let ghost id = existing@[k as int].id@;
            proof {
                if !found {
                    assert(m0.contains_key(id)) by {
                        assert(existing@[k as int].key() == id);
                    }
                    assert(!has_id(existing@.take(k as int), id)) by {
                        if has_id(existing@.take(k as int), id) {
                            let j = choose|j: int| 0 <= j < existing@.take(k as int).len() && (#[trigger] existing@.take(k as int)[j]).key() == id;
                            assert(existing@[j] == existing@.take(k as int)[j]);
                            assert(text_lt(existing@[j].key(), existing@[k as int].key()));
                            crate::text::lemma_text_lt_irreflexive(id);
                        }
                    }
                    assert(reg_before.contains_key(id));
                }
            }
            if !found {
                let _ = self.registry.remove(existing[k].id.as_str());
                self.scope_rules.clear(existing[k].id.as_str());
            }
            proof {
                assert forall|x: Seq<char>|
                    has_id(existing@.take(k + 1), x) == (has_id(existing@.take(k as int), x) || x == id) by {
                    crate::keyed::lemma_has_id_push(existing@.take(k as int), existing@[k as int], x);
                }
                assert forall|x: Seq<char>|
                    #[trigger] self.reg()@.contains_key(x) <==> (m1.contains_key(x) && (on_disk(disk@, x) || !has_id(existing@.take(k + 1), x))) by {
                    assert(reg_before.contains_key(x) <==> (m1.contains_key(x) && (on_disk(disk@, x) || !has_id(existing@.take(k as int), x))));
                }
                assert forall|x: Seq<char>| self.reg()@.contains_key(x) implies #[trigger] self.reg()@[x] == m1[x] by {
                    assert(reg_before.contains_key(x));
                    assert(reg_before[x] == m1[x]);
                }
                assert forall|x: Seq<char>|
                    #[trigger] self.scopes()@.contains_key(x) <==> (s0.contains_key(x) && (on_disk(disk@, x) || !has_id(existing@.take(k + 1), x))) by {
                    assert(sc_before.contains_key(x) <==> (s0.contains_key(x) && (on_disk(disk@, x) || !has_id(existing@.take(k as int), x))));
                }
                assert forall|x: Seq<char>| self.scopes()@.contains_key(x) implies #[trigger] self.scopes()@[x] == s0[x] by {
                    assert(sc_before.contains_key(x));
                    assert(sc_before[x] == s0[x]);
                }
            }
            k += 1;
        }
        proof {
            assert(existing@.take(existing@.len() as int) =~= existing@);
            crate::module_registry::lemma_bumped_n_add(e0, count_valid(disk@), count_gone(existing@, disk@));
        }
    }
}

/// The value the first line of `lines` that starts (once trimmed) with `p`
/// gives after `p`, unquoted as `shell_value` says.
pub open spec fn meta_lookup(lines: Seq<Seq<char>>, p: Seq<char>) -> Option<Seq<char>>
    decreases lines.len(),
{
    if lines.len() == 0 {
        None
    } else if has_prefix(trim(lines[0]), p) {
        Some(shell_value(trim(lines[0]).skip(p.len() as int)))
    } else {
        meta_lookup(lines.drop_first(), p)
    }
}

/// The value of `p`-prefixed lines, found from line `i` on.
fn meta_lookup_from(lines: &Vec<Vec<char>>, p: &str, i: usize) -> (r: Option<String>)
    requires
        i <= lines@.len(),
    ensures
        ({
            let ls = lines@.map_values(|l: Vec<char>| l@).subrange(i as int, lines@.len() as int);
            match meta_lookup(ls, p@) {
                Some(v) => r matches Some(x) && x@ == v,
                None => r is None,
            }
        }),
    decreases lines@.len() - i,
{
    let ghost ls = lines@.map_values(|l: Vec<char>| l@).subrange(i as int, lines@.len() as int);
    if i == lines.len() {
        return None;
    }
    assert(ls[0] == lines@[i as int]@);
    assert(ls.drop_first() =~= lines@.map_values(|l: Vec<char>| l@).subrange(i + 1, lines@.len() as int));
    let t = trim_chars(&lines[i]);
    match strip_prefix_chars(&t, p) {
        Some(rest) => {
            let v = shell_value_chars(&rest);
            Some(string_from_chars(&v))
        },
        None => meta_lookup_from(lines, p, i + 1),
    }
}

/// The value of `key` in a module description: the first line of the form
/// `key=value`, the value unquoted.
pub fn module_meta_get(text: &str, key: &str) -> (r: Option<String>)
    ensures
        match meta_lookup(split_on(text@, '\n'), key@ + "="@) {
            Some(v) => r matches Some(x) && x@ == v,
            None => r is None,
        },
{
    let lines = split_char(&chars_of(text), '\n');
    let mut p: Vec<char> = chars_of(key);
    p.push('=');
    let ps = string_from_chars(&p);
    proof {
        reveal_strlit("=");
        assert(ps@ =~= key@ + "="@);
        assert(lines@.map_values(|l: Vec<char>| l@).subrange(0, lines@.len() as int) =~= split_on(text@, '\n'));
    }
    meta_lookup_from(&lines, ps.as_str(), 0)
}

/// The value of `key` in a module description, else of `alias`, else
/// `default_val`.
pub fn module_meta_with_alias(text: &str, key: &str, alias: &str, default_val: &str) -> (r: String)
    ensures
        r@ == match meta_lookup(split_on(text@, '\n'), key@ + "="@) {
            Some(v) => v,
            None => match meta_lookup(split_on(text@, '\n'), alias@ + "="@) {
                Some(v) => v,
                None => default_val@,
            },
        },
{
    if let Some(v) = module_meta_get(text, key) {
        return v;
    }
    if let Some(v) = module_meta_get(text, alias) {
        return v;
    }
    default_val.to_owned()
}

/// The capability id a script declares with a non-empty `CAP_ID=` line,
/// else its file stem.
pub fn cap_id_of_file(text: &str, file_stem: &str) -> (r: String)
    ensures
        r@ == match cap_lookup(split_on(text@, '\n')) {
            Some(v) => v,
            None => file_stem@,
        },
{
    let lines = split_char(&chars_of(text), '\n');
    let mut i: usize = 0;
    proof {
        reveal_strlit("CAP_ID=");
        assert(lines@.map_values(|l: Vec<char>| l@).subrange(0, lines@.len() as int) =~= split_on(text@, '\n'));
    }
    while i < lines.len()
        invariant
            i <= lines@.len(),
            "CAP_ID="@.len() == 7,
            cap_lookup(split_on(text@, '\n')) == cap_lookup(lines@.map_values(|l: Vec<char>| l@).subrange(i as int, lines@.len() as int)),
        decreases lines@.len() - i,
    {
        let ghost ls = lines@.map_values(|l: Vec<char>| l@).subrange(i as int, lines@.len() as int);
        assert(ls[0] == lines@[i as int]@);
        assert(ls.drop_first() =~= lines@.map_values(|l: Vec<char>| l@).subrange(i + 1, lines@.len() as int));
        let t = trim_chars(&lines[i]);
        if let Some(rest) = strip_prefix_chars(&t, "CAP_ID=") {
            let v = shell_value_chars(&rest);
            if v.len() > 0 {
                return string_from_chars(&v);
            }
        }
        i += 1;
    }
    assert(lines@.map_values(|l: Vec<char>| l@).subrange(i as int, lines@.len() as int) =~= Seq::<Seq<char>>::empty());
    file_stem.to_owned()
}

/// The first non-empty value of a `CAP_ID=` line.
pub open spec fn cap_lookup(lines: Seq<Seq<char>>) -> Option<Seq<char>>
    decreases lines.len(),
{
    if lines.len() == 0 {
        None
    } else if has_prefix(trim(lines[0]), "CAP_ID="@) && shell_value(trim(lines[0]).skip(7)).len() > 0 {
        Some(shell_value(trim(lines[0]).skip(7)))
    } else {
        cap_lookup(lines.drop_first())
    }
}

/// `1` for true, `0` for false.
pub open spec fn flag_text(b: bool) -> Seq<char> {
    if b {
        "1"@
    } else {
        "0"@
    }
}

/// The five fields of an error in the registry file: escaped scope, code,
/// message and detail, then the time, separated by tabs.
pub open spec fn error_fields(e: ModuleErrorRecord) -> Seq<char> {
    escape_seq(e.scope@) + "\t"@ + escape_seq(e.code@) + "\t"@ + escape_seq(e.message@) + "\t"@
        + escape_seq(e.detail@) + "\t"@ + decimal_text(e.ts_ms as nat)
}

/// The line of the registry file for one record: `module` and its fields,
/// text fields escaped, separated by tabs; a record without error ends
/// with `- - - - 0`.
pub open spec fn registry_row(r: ModuleRecord) -> Seq<char> {
    "module\t"@ + escape_seq(r.id@) + "\t"@ + escape_seq(r.name@) + "\t"@ + escape_seq(r.kind@) + "\t"@
        + escape_seq(r.version@) + "\t"@ + flag_text(r.enabled) + "\t"@ + state_name(r.state) + "\t"@
        + escape_seq(r.reason@) + "\t"@ + escape_seq(r.main_cap@) + "\t"@ + decimal_text(
        r.action_count as nat,
    ) + "\t"@ + flag_text(r.auto_start) + "\t"@ + decimal_text(r.installed_at_ms as nat) + "\t"@
        + decimal_text(r.updated_at_ms as nat) + "\t"@ + match r.last_error {
        Some(e) => error_fields(e),
        None => "-\t-\t-\t-\t0"@,
    }
}

fn push_flag(out: &mut Vec<char>, b: bool)
    ensures
        final(out)@ == old(out)@ + flag_text(b),
{
    if b {
        push_str(out, "1");
    } else {
        push_str(out, "0");
    }
}

fn push_escaped(out: &mut Vec<char>, s: &String)
    ensures
        final(out)@ == old(out)@ + escape_seq(s@),
{
    let v = chars_of(s.as_str());
    push_all(out, &escape_chars(&v));
}

fn push_error_fields(out: &mut Vec<char>, e: &ModuleErrorRecord)
    ensures
        final(out)@ == old(out)@ + error_fields(*e),
{
    let ghost o = out@;
    push_escaped(out, &e.scope);
    push_str(out, "\t");
    push_escaped(out, &e.code);
    push_str(out, "\t");
    push_escaped(out, &e.message);
    push_str(out, "\t");
    push_escaped(out, &e.detail);
    push_str(out, "\t");
    push_decimal(out, e.ts_ms);
    assert(out@ =~= o + error_fields(*e));
}

/// The registry file line of one record, as `registry_row` says.
pub fn registry_line(rec: &ModuleRecord) -> (r: String)
    ensures
        r@ == registry_row(*rec),
{
    let mut l: Vec<char> = Vec::new();
    push_str(&mut l, "module\t");
    push_escaped(&mut l, &rec.id);
    push_str(&mut l, "\t");
    push_escaped(&mut l, &rec.name);
    push_str(&mut l, "\t");
    push_escaped(&mut l, &rec.kind);
    push_str(&mut l, "\t");
    push_escaped(&mut l, &rec.version);
    push_str(&mut l, "\t");
    push_flag(&mut l, rec.enabled);
    push_str(&mut l, "\t");
    push_str(&mut l, rec.state.as_str());
    push_str(&mut l, "\t");
    push_escaped(&mut l, &rec.reason);
    push_str(&mut l, "\t");
    push_escaped(&mut l, &rec.main_cap);
    push_str(&mut l, "\t");
    push_decimal(&mut l, rec.action_count as u64);
    push_str(&mut l, "\t");
    push_flag(&mut l, rec.auto_start);
    push_str(&mut l, "\t");
    push_decimal(&mut l, rec.installed_at_ms);
    push_str(&mut l, "\t");
    push_decimal(&mut l, rec.updated_at_ms);
    push_str(&mut l, "\t");
    match &rec.last_error {
        Some(e) => push_error_fields(&mut l, e),
        None => push_str(&mut l, "-\t-\t-\t-\t0"),
    }
    assert(l@ =~= registry_row(*rec));
    string_from_chars(&l)
}

/// The registry file line of the last error: `last_error` and its fields.
pub open spec fn last_error_row(e: ModuleErrorRecord) -> Seq<char> {
    "last_error\t"@ + error_fields(e)
}

/// The lines of the registry file: one per record in id order, then the
/// last error's when there is one.
pub open spec fn registry_rows(recs: Seq<ModuleRecord>, last: Option<ModuleErrorRecord>) -> Seq<Seq<char>> {
    let rows = Seq::new(recs.len(), |i: int| registry_row(recs[i]));
    match last {
        Some(e) => rows.push(last_error_row(e)),
        None => rows,
    }
}

impl ModuleRuntime {
    /// The text of the registry file: its lines, each ended by a newline.
    pub fn registry_file_text(&self) -> (r: String)
        ensures
            r@ == join_newline(registry_rows(self.reg().entries(), self.reg().spec_last_error()))
                + seq!['\n'],
    {
        let recs = self.registry.list();
        let mut lines: Vec<String> = Vec::new();
        let mut i: usize = 0;
        while i < recs.len()
            invariant
                i <= recs@.len(),
                lines@.len() == i,
                forall|j: int| 0 <= j < i ==> #[trigger] lines@[j]@ == registry_row(recs@[j]),
            decreases recs@.len() - i,
        {
            lines.push(registry_line(&recs[i]));
            i += 1;
        }
        match self.registry.last_error() {
            Some(e) => {
                let mut l: Vec<char> = Vec::new();
                push_str(&mut l, "last_error\t");
                push_error_fields(&mut l, &e);
                lines.push(string_from_chars(&l));
            },
            None => {},
        }
        assert(lines@.map_values(|l: String| l@) =~= registry_rows(
            self.reg().entries(),
            self.reg().spec_last_error(),
        ));
        let joined = join_lines(&lines);
        let mut v = chars_of(joined.as_str());
        v.push('\n');
        string_from_chars(&v)
    }
}

/// The tab-separated fields of a file line.
pub open spec fn fields_of(line: Seq<char>) -> Seq<Seq<char>> {
    split_on(line, '\t')
}

/// A scope file line names a rule: five fields, the first `scope`, the
/// second a valid module id once unescaped.
pub open spec fn scope_line_ok(line: Seq<char>) -> bool {
    let f = fields_of(line);
    f.len() == 5 && f[0] == "scope"@ && id_ok(unescape_seq(f[1]))
}

/// The module id of a scope file line.
pub open spec fn scope_line_id(line: Seq<char>) -> Seq<char> {
    unescape_seq(fields_of(line)[1])
}

/// The rule of a scope file line, as package, user and policy: the user is
/// `-1` when its field is not a number, the policy is allow only for `1`.
pub open spec fn scope_line_rule(line: Seq<char>) -> (Seq<char>, i32, bool) {
    let f = fields_of(line);
    (
        unescape_seq(f[2]),
        match spec_parse_i32(f[3]) {
            Some(v) => v,
            None => -1i32,
        },
        f[4] == "1"@,
    )
}

/// A rule as package, user and policy.
pub open spec fn rule_parts(r: ModuleScopeRule) -> (Seq<char>, i32, bool) {
    (r.package_name@, r.user_id, r.allow)
}

/// Rules as package, user and policy.
pub open spec fn rules_parts(rules: Seq<ModuleScopeRule>) -> Seq<(Seq<char>, i32, bool)> {
    rules.map_values(|r: ModuleScopeRule| rule_parts(r))
}

/// The rules the scope file lines give module `k`, in file order.
pub open spec fn loaded_rules(lines: Seq<Seq<char>>, k: Seq<char>) -> Seq<(Seq<char>, i32, bool)>
    decreases lines.len(),
{
    if lines.len() == 0 {
        Seq::empty()
    } else {
        let prev = loaded_rules(lines.drop_last(), k);
        if scope_line_ok(lines.last()) && scope_line_id(lines.last()) == k {
            prev.push(scope_line_rule(lines.last()))
        } else {
            prev
        }
    }
}

impl ModuleRuntime {
    /// Replaces the scope rules by those of a scope file's text: each line
    /// that `scope_line_ok` accepts adds its rule to its module, in file
    /// order; other lines are skipped.
    pub fn load_scope_text(&mut self, text: &str)
        requires
            old(self).wf(),
        ensures
            final(self).wf(),
            final(self).reg() == old(self).reg(),
            forall|k: Seq<char>|
                #[trigger] rules_parts(final(self).scopes().rules_of(k))
                    == loaded_rules(text_lines(text@), k),
            forall|k: Seq<char>|
                #[trigger] final(self).scopes()@.contains_key(k) == (loaded_rules(text_lines(text@), k).len() > 0),
    {
        let lines = lines_of(text);
        let ghost ls = text_lines(text@);
        let mut table = ScopeTable::new();
        let mut i: usize = 0;
        while i < lines.len()
            invariant
                table.wf(),
                i <= lines@.len(),
                lines@.len() == ls.len(),
                ls == text_lines(text@),
                forall|q: int| 0 <= q < lines@.len() ==> #[trigger] lines@[q]@ == ls[q],
                forall|k: Seq<char>|
                    #[trigger] rules_parts(table.rules_of(k)) == loaded_rules(ls.take(i as int), k),
                forall|k: Seq<char>| #[trigger] table@.contains_key(k) == (loaded_rules(ls.take(i as int), k).len() > 0),
                forall|k: Seq<char>| #[trigger] table@.contains_key(k) || table.rules_of(k).len() == 0,
            decreases lines@.len() - i,
        {
            let ghost before = table;
            let ghost line = ls[i as int];
            assert(ls.take(i + 1).drop_last() =~= ls.take(i as int));
            assert(ls.take(i + 1).last() == line);
            let f = split_char(&lines[i], '\t');
            let mut applied = false;
            if f.len() == 5 && chars_eq(&f[0], "scope") {
                let id = unescape_chars(&f[1]);
                if chars_id_ok(&id) {
                    let pkg = unescape_chars(&f[2]);
                    let user = match parse_i32_chars(&f[3]) {
                        Some(v) => v,
                        None => -1i32,
                    };
                    let allow = chars_eq(&f[4], "1");
                    let ids = string_from_chars(&id);
                    let rule = ModuleScopeRule { package_name: string_from_chars(&pkg), user_id: user, allow };
                    table.push_rule(ids.as_str(), rule);
                    applied = true;
                    proof {
                        assert(scope_line_ok(line));
                        assert(scope_line_id(line) == ids@);
                        assert(rule_parts(rule) == scope_line_rule(line));
                        assert forall|k: Seq<char>|
                            #[trigger] rules_parts(table.rules_of(k))
                                == loaded_rules(ls.take(i + 1), k) by {
                            if k == ids@ {
                                assert(rules_parts(table.rules_of(k)) =~= rules_parts(before.rules_of(k)).push(rule_parts(rule)));
                            } else {
                                assert(rules_parts(before.rules_of(k)) == loaded_rules(ls.take(i as int), k));
                            }
                        }
                        assert forall|k: Seq<char>| #[trigger] table@.contains_key(k) == (loaded_rules(ls.take(i + 1), k).len() > 0) by {
                            if k != ids@ {
                                assert(before@.contains_key(k) == (loaded_rules(ls.take(i as int), k).len() > 0));
                            }
                        }
                        assert forall|k: Seq<char>| #[trigger] table@.contains_key(k) || table.rules_of(k).len() == 0 by {
                            if k != ids@ {
                                assert(before@.contains_key(k) || before.rules_of(k).len() == 0);
                            }
                        }
                    }
                }
            }
            if !applied {
                proof {
                    assert(!scope_line_ok(line));
                    assert forall|k: Seq<char>|
                        #[trigger] rules_parts(table.rules_of(k))
                            == loaded_rules(ls.take(i + 1), k) by {
                        assert(rules_parts(before.rules_of(k)) == loaded_rules(ls.take(i as int), k));
                    }
                    assert forall|k: Seq<char>| #[trigger] table@.contains_key(k) == (loaded_rules(ls.take(i + 1), k).len() > 0) by {
                        assert(before@.contains_key(k) == (loaded_rules(ls.take(i as int), k).len() > 0));
                    }
                }
            }
            i += 1;
        }
        assert(ls.take(lines@.len() as int) =~= ls);
        self.scope_rules = table;
    }
}

/// A registry file line that describes a module: at least eighteen fields,
/// the first `module`.
pub open spec fn module_row_ok(line: Seq<char>) -> bool {
    let f = fields_of(line);
    f.len() >= 18 && f[0] == "module"@
}

/// A registry file line that gives the last error: at least six fields,
/// the first `last_error`.
pub open spec fn last_error_row_ok(line: Seq<char>) -> bool {
    let f = fields_of(line);
    f.len() >= 6 && f[0] == "last_error"@
}

/// A `u32` field, zero when it is not a number.
pub open spec fn u32_or_zero(s: Seq<char>) -> u32 {
    match spec_parse_u32(s) {
        Some(v) => v,
        None => 0,
    }
}

/// A `u64` field, zero when it is not a number.
pub open spec fn u64_or_zero(s: Seq<char>) -> u64 {
    match spec_parse_u64(s) {
        Some(v) => v,
        None => 0,
    }
}

/// `e` is the error that the fields from `b` on give: scope, code, message,
/// detail unescaped, then the time.
pub open spec fn error_matches(e: ModuleErrorRecord, f: Seq<Seq<char>>, b: int) -> bool {
    &&& e.scope@ == unescape_seq(f[b])
    &&& e.code@ == unescape_seq(f[b + 1])
    &&& e.message@ == unescape_seq(f[b + 2])
    &&& e.detail@ == unescape_seq(f[b + 3])
    &&& e.ts_ms == u64_or_zero(f[b + 4])
}

/// `r` holds what the fields of a module line give, but for its id and
/// its times.
pub open spec fn row_matches(r: ModuleRecord, f: Seq<Seq<char>>) -> bool {
    &&& r.name@ == unescape_seq(f[2])
    &&& r.kind@ == unescape_seq(f[3])
    &&& r.version@ == unescape_seq(f[4])
    &&& r.enabled == (f[5] == "1"@)
    &&& r.state == match spec_parse_module_state(f[6]) {
        Some(st) => st,
        None => ModuleState::Installed,
    }
    &&& r.reason@ == unescape_seq(f[7])
    &&& r.main_cap@ == unescape_seq(f[8])
    &&& r.action_count == u32_or_zero(f[9])
    &&& r.auto_start == (f[10] == "1"@)
    &&& if f[13] == "-"@ {
        r.last_error is None
    } else {
        r.last_error matches Some(e) && error_matches(e, f, 13)
    }
}

/// The module id a registry file line stores a record under, if it does.
pub open spec fn row_id(line: Seq<char>) -> Option<Seq<char>> {
    if module_row_ok(line) {
        sanitized_id(unescape_seq(fields_of(line)[1]))
    } else {
        None
    }
}

/// The index of the last line that stores a record under `k`.
pub open spec fn last_row_with(lines: Seq<Seq<char>>, k: Seq<char>) -> Option<int>
    decreases lines.len(),
{
    if lines.len() == 0 {
        None
    } else if row_id(lines.last()) == Some(k) {
        Some(lines.len() - 1)
    } else {
        last_row_with(lines.drop_last(), k)
    }
}

/// The index of the last line that gives the last error.
pub open spec fn last_error_line(lines: Seq<Seq<char>>) -> Option<int>
    decreases lines.len(),
{
    if lines.len() == 0 {
        None
    } else if !module_row_ok(lines.last()) && last_error_row_ok(lines.last()) {
        Some(lines.len() - 1)
    } else {
        last_error_line(lines.drop_last())
    }
}

fn error_from_fields(f: &Vec<Vec<char>>, b: usize) -> (r: ModuleErrorRecord)
    requires
        b + 5 <= f@.len(),
    ensures
        error_matches(r, f@.map_values(|x: Vec<char>| x@), b as int),
{
    let _n = f.len();
    let ts = match parse_u64_chars(&f[b + 4]) {
        Some(v) => v,
        None => 0,
    };
    ModuleErrorRecord {
        scope: string_from_chars(&unescape_chars(&f[b])),
        code: string_from_chars(&unescape_chars(&f[b + 1])),
        message: string_from_chars(&unescape_chars(&f[b + 2])),
        detail: string_from_chars(&unescape_chars(&f[b + 3])),
        ts_ms: ts,
    }
}

impl ModuleRuntime {
    /// Applies one registry file line at time `now`: a module line stores
    /// its record (as `row_matches` says, stamped `now`, keeping the install
    /// time of a record it replaces, else taking the line's unless it is
    /// zero), a last-error line sets the last error, anything else is
    /// skipped.
    pub fn apply_registry_line(&mut self, line: &Vec<char>, now: u64)
        requires
            old(self).wf(),
        ensures
            final(self).wf(),
            final(self).scopes() == old(self).scopes(),
            match row_id(line@) {
                Some(id) => {
                    let f = fields_of(line@);
                    let n = final(self).reg()@[id];
                    &&& final(self).reg()@ == old(self).reg()@.insert(id, n)
                    &&& n.id@ == id
                    &&& row_matches(n, f)
                    &&& n.updated_at_ms == now
                    &&& n.installed_at_ms == if old(self).reg()@.contains_key(id) {
                        old(self).reg()@[id].installed_at_ms
                    } else if u64_or_zero(f[11]) == 0 {
                        now
                    } else {
                        u64_or_zero(f[11])
                    }
                    &&& final(self).reg().spec_last_error() == old(self).reg().spec_last_error()
                },
                None => {
                    &&& final(self).reg()@ == old(self).reg()@
                    &&& !module_row_ok(line@) && last_error_row_ok(line@) ==> (final(self).reg().spec_last_error() matches Some(e)
                        && error_matches(e, fields_of(line@), 1))
                    &&& !(!module_row_ok(line@) && last_error_row_ok(line@)) ==> final(self).reg().spec_last_error()
                        == old(self).reg().spec_last_error()
                },
            },
    {
        let f = split_char(line, '\t');
        let ghost fv = f@.map_values(|x: Vec<char>| x@);
        assert(fv =~= fields_of(line@));
        if f.len() >= 18 && chars_eq(&f[0], "module") {
            let idv = unescape_chars(&f[1]);
            let mut rec = ModuleRecord::new_at(string_from_chars(&idv).as_str(), now);
            rec.name = string_from_chars(&unescape_chars(&f[2]));
            rec.kind = string_from_chars(&unescape_chars(&f[3]));
            rec.version = string_from_chars(&unescape_chars(&f[4]));
            rec.enabled = chars_eq(&f[5], "1");
            rec.state = match parse_module_state_chars(&f[6]) {
                Some(st) => st,
                None => ModuleState::Installed,
            };
            rec.reason = string_from_chars(&unescape_chars(&f[7]));
            rec.main_cap = string_from_chars(&unescape_chars(&f[8]));
            rec.action_count = match parse_u32_chars(&f[9]) {
                Some(v) => v,
                None => 0,
            };
            rec.auto_start = chars_eq(&f[10], "1");
            rec.installed_at_ms = match parse_u64_chars(&f[11]) {
                Some(v) => v,
                None => 0,
            };
            rec.updated_at_ms = match parse_u64_chars(&f[12]) {
                Some(v) => v,
                None => 0,
            };
            if !chars_eq(&f[13], "-") {
                rec.last_error = Some(error_from_fields(&f, 13));
            }
            let _ = self.registry.upsert_at(rec, now);
        } else if f.len() >= 6 && chars_eq(&f[0], "last_error") {
            self.registry.set_last_error(error_from_fields(&f, 1));
        }
    }

    /// Loads a registry file's text at time `now`, line by line as
    /// `apply_registry_line` says: every id stored by some module line holds
    /// what its last such line gives (stamped `now`), other records are
    /// untouched, and the last error is that of the last last-error line,
    /// if any.
    pub fn load_registry_text(&mut self, text: &str, now: u64)
        requires
            old(self).wf(),
        ensures
            final(self).wf(),
            final(self).scopes() == old(self).scopes(),
            forall|k: Seq<char>|
                match #[trigger] last_row_with(text_lines(text@), k) {
                    Some(j) => final(self).reg()@.contains_key(k) && final(self).reg()@[k].id@ == k
                        && row_matches(final(self).reg()@[k], fields_of(text_lines(text@)[j]))
                        && final(self).reg()@[k].updated_at_ms == now,
                    None => final(self).reg()@.contains_key(k) == old(self).reg()@.contains_key(k) && (
                    old(self).reg()@.contains_key(k) ==> final(self).reg()@[k] == old(self).reg()@[k]),
                },
            match last_error_line(text_lines(text@)) {
                Some(j) => final(self).reg().spec_last_error() matches Some(e) && error_matches(
                    e,
                    fields_of(text_lines(text@)[j]),
                    1,
                ),
                None => final(self).reg().spec_last_error() == old(self).reg().spec_last_error(),
            },
    {
        let lines = lines_of(text);
        let ghost ls = text_lines(text@);
        let mut i: usize = 0;
        while i < lines.len()
            invariant
                self.wf(),
                self.scopes() == old(self).scopes(),
                i <= lines@.len(),
                lines@.len() == ls.len(),
                ls == text_lines(text@),
                forall|q: int| 0 <= q < lines@.len() ==> #[trigger] lines@[q]@ == ls[q],
                forall|k: Seq<char>|
                    match #[trigger] last_row_with(ls.take(i as int), k) {
                        Some(j) => 0 <= j < i && self.reg()@.contains_key(k) && self.reg()@[k].id@ == k
                            && row_matches(self.reg()@[k], fields_of(ls[j])) && self.reg()@[k].updated_at_ms == now,
                        None => self.reg()@.contains_key(k) == old(self).reg()@.contains_key(k) && (
                        old(self).reg()@.contains_key(k) ==> self.reg()@[k] == old(self).reg()@[k]),
                    },
                match last_error_line(ls.take(i as int)) {
                    Some(j) => 0 <= j < i && (self.reg().spec_last_error() matches Some(e) && error_matches(e, fields_of(ls[j]), 1)),
                    None => self.reg().spec_last_error() == old(self).reg().spec_last_error(),
                },
            decreases lines@.len() - i,
        {
            let ghost before = self.reg();
            let ghost line = ls[i as int];
            assert(ls.take(i + 1).drop_last() =~= ls.take(i as int));
            assert(ls.take(i + 1).last() == line);
            self.apply_registry_line(&lines[i], now);
            proof {
                assert forall|k: Seq<char>|
                    match #[trigger] last_row_with(ls.take(i + 1), k) {
                        Some(j) => 0 <= j < i + 1 && self.reg()@.contains_key(k) && self.reg()@[k].id@ == k
                            && row_matches(self.reg()@[k], fields_of(ls[j])) && self.reg()@[k].updated_at_ms == now,
                        None => self.reg()@.contains_key(k) == old(self).reg()@.contains_key(k) && (
                        old(self).reg()@.contains_key(k) ==> self.reg()@[k] == old(self).reg()@[k]),
                    } by {
                    let prev = last_row_with(ls.take(i as int), k);
                    assert(match prev {
                        Some(j) => 0 <= j < i && before@.contains_key(k) && before@[k].id@ == k
                            && row_matches(before@[k], fields_of(ls[j])) && before@[k].updated_at_ms == now,
                        None => before@.contains_key(k) == old(self).reg()@.contains_key(k) && (
                        old(self).reg()@.contains_key(k) ==> before@[k] == old(self).reg()@[k]),
                    });
                }
            }
            i += 1;
        }
        assert(ls.take(lines@.len() as int) =~= ls);
    }
}

} // verus!
