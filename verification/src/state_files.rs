use vstd::prelude::*;
use crate::text::{
    split_on, lemma_split_append_plain, lemma_split_on_nonempty, decimal_text, lemma_decimal_roundtrip,
    unsigned_decimal, is_ascii_digit, is_ascii_lower, is_ws, trim_start, trim_end, lower_seq, text_lines,
    signed_decimal_text, spec_parse_i32, text_lt,
};
use crate::module_runtime::{
    escape_char, escape_seq, unescape_seq, lemma_unescape_escape, flag_text, spec_parse_module_state,
    registry_row, error_fields, last_error_row, join_newline, registry_rows, fields_of, module_row_ok,
    last_error_row_ok, u64_or_zero, error_matches, row_matches, row_id, last_row_with, last_error_line,
    ModuleScopeRule, ScopeEntry, scope_file_row, scope_line_ok, scope_line_id, scope_line_rule, rule_parts,
    rules_parts, loaded_rules, entry_rows, table_rows,
};
use crate::module_registry::{ModuleState, ModuleRecord, ModuleErrorRecord, state_name, id_ok};
use crate::keyed::{Keyed, ids_sorted, record_map, lemma_record_at};

verus! {

/// Pieces joined by `c`.
pub open spec fn join_sep(ws: Seq<Seq<char>>, c: char) -> Seq<char>
    decreases ws.len(),
{
    if ws.len() == 0 {
        Seq::empty()
    } else if ws.len() == 1 {
        ws[0]
    } else {
        join_sep(ws.drop_last(), c).push(c) + ws.last()
    }
}

/// Splitting pieces joined by `c`, none holding `c`, gives the pieces back.
pub proof fn lemma_split_join(ws: Seq<Seq<char>>, c: char)
    requires
        ws.len() > 0,
        forall|i: int| 0 <= i < ws.len() ==> !(#[trigger] ws[i]).contains(c),
    ensures
        split_on(join_sep(ws, c), c) == ws,
    decreases ws.len(),
{
    if ws.len() == 1 {
        lemma_split_append_plain(Seq::<char>::empty(), ws[0], c);
        assert(Seq::<char>::empty() + ws[0] =~= ws[0]);
        assert(split_on(Seq::<char>::empty(), c) =~= seq![Seq::<char>::empty()]);
        assert(seq![Seq::<char>::empty()].update(0, Seq::<char>::empty() + ws[0]) =~= ws);
    } else {
        let w0 = ws.drop_last();
        assert forall|i: int| 0 <= i < w0.len() implies !(#[trigger] w0[i]).contains(c) by {
            assert(w0[i] == ws[i]);
        }
        lemma_split_join(w0, c);
        let x = join_sep(w0, c).push(c);
        assert(x.drop_last() =~= join_sep(w0, c));
        assert(split_on(x, c) == split_on(join_sep(w0, c), c).push(Seq::<char>::empty()));
        assert(!ws.last().contains(c)) by {
            assert(ws[ws.len() - 1] == ws.last());
        }
        lemma_split_append_plain(x, ws.last(), c);
        assert(Seq::<char>::empty() + ws.last() =~= ws.last());
        assert(w0.push(Seq::<char>::empty()).update(w0.len() as int, Seq::<char>::empty() + ws.last()) =~= ws);
    }
}

/// Splitting text on `c` around one `c` splits each side.
pub proof fn lemma_split_cat(x: Seq<char>, y: Seq<char>, c: char)
    ensures
        split_on(x + seq![c] + y, c) == split_on(x, c) + split_on(y, c),
    decreases y.len(),
{
    let s = x + seq![c] + y;
    lemma_split_on_nonempty(x, c);
    if y.len() == 0 {
        assert(s =~= x.push(c));
        assert(s.drop_last() =~= x);
        assert(split_on(y, c) =~= seq![Seq::<char>::empty()]);
        assert(split_on(x, c).push(Seq::<char>::empty()) =~= split_on(x, c) + split_on(y, c));
    } else {
        let y0 = y.drop_last();
        lemma_split_cat(x, y0, c);
        assert(s.drop_last() =~= x + seq![c] + y0);
        assert(s.last() == y.last());
        lemma_split_on_nonempty(y0, c);
        let a = split_on(x, c);
        let b0 = split_on(y0, c);
        let t = a + b0;
        if y.last() == c {
            assert(split_on(y, c) == b0.push(Seq::<char>::empty()));
            assert(t.push(Seq::<char>::empty()) =~= a + b0.push(Seq::<char>::empty()));
        } else {
            assert(split_on(y, c) == b0.update(b0.len() - 1, b0.last().push(y.last())));
            assert(t.last() == b0.last());
            assert(t.update(t.len() - 1, t.last().push(y.last())) =~= a + b0.update(b0.len() - 1, b0.last().push(y.last())));
        }
    }
}

/// Text without `c` is a single piece.
pub proof fn lemma_split_single(f: Seq<char>, c: char)
    requires
        !f.contains(c),
    ensures
        split_on(f, c) == seq![f],
{
    lemma_split_append_plain(Seq::<char>::empty(), f, c);
    assert(Seq::<char>::empty() + f =~= f);
    assert(split_on(Seq::<char>::empty(), c) =~= seq![Seq::<char>::empty()]);
    assert(seq![Seq::<char>::empty()].update(0, Seq::<char>::empty() + f) =~= seq![f]);
}

/// Text built from parts without `c` and single `d`s other than `c` holds no `c`.
pub proof fn lemma_cat_free(x: Seq<char>, y: Seq<char>, c: char)
    requires
        !x.contains(c),
        !y.contains(c),
    ensures
        !(x + y).contains(c),
{
    if (x + y).contains(c) {
        let i = choose|i: int| 0 <= i < (x + y).len() && (x + y)[i] == c;
        if i < x.len() {
            assert(x[i] == c);
        } else {
            assert(y[i - x.len()] == c);
        }
    }
}

/// Text whose characters are all of one kind (`ok`) holds none of another.
pub open spec fn plain_field(f: Seq<char>) -> bool {
    &&& !f.contains('\t')
    &&& !f.contains('\n')
}

proof fn lemma_escape_plain(s: Seq<char>)
    ensures
        plain_field(escape_seq(s)),
    decreases s.len(),
{
    if s.len() > 0 {
        lemma_escape_plain(s.drop_first());
        let e = escape_char(s[0]);
        assert(plain_field(e)) by {
            if e.contains('\t') || e.contains('\n') {
                let i = choose|i: int| 0 <= i < e.len() && (e[i] == '\t' || e[i] == '\n');
            }
        }
        lemma_cat_free(e, escape_seq(s.drop_first()), '\t');
        lemma_cat_free(e, escape_seq(s.drop_first()), '\n');
    }
}

proof fn lemma_escape_dash(s: Seq<char>)
    requires
        escape_seq(s) == "-"@,
    ensures
        s == "-"@,
{
    reveal_strlit("-");
    lemma_unescape_escape(s);
    assert("-"@.drop_first() =~= Seq::<char>::empty());
    assert(unescape_seq(Seq::<char>::empty()) == Seq::<char>::empty());
    assert(unescape_seq("-"@) == seq!['-'] + unescape_seq("-"@.drop_first()));
    assert(seq!['-'] + Seq::<char>::empty() =~= seq!['-']);
    assert("-"@ =~= seq!['-']);
}

proof fn lemma_decimal_plain(n: nat)
    ensures
        plain_field(decimal_text(n)),
        decimal_text(n).len() > 0,
        decimal_text(n).last() != '\r',
        unsigned_decimal(decimal_text(n)) == Some(n),
{
    lemma_decimal_roundtrip(n);
    let t = decimal_text(n);
    assert(plain_field(t)) by {
        if t.contains('\t') || t.contains('\n') {
            let i = choose|i: int| 0 <= i < t.len() && (t[i] == '\t' || t[i] == '\n');
            assert(is_ascii_digit(t[i]));
        }
    }
    assert(is_ascii_digit(t[t.len() - 1]));
}

proof fn lemma_flag_plain(b: bool)
    ensures
        plain_field(flag_text(b)),
        (flag_text(b) == "1"@) == b,
{
    reveal_strlit("1");
    reveal_strlit("0");
    assert(flag_text(b).len() == 1);
    assert("0"@ != "1"@) by {
        assert("0"@[0] != "1"@[0]);
    }
}

proof fn lemma_state_plain(st: ModuleState)
    ensures
        plain_field(state_name(st)),
        spec_parse_module_state(state_name(st)) == Some(st),
{
    reveal_strlit("installed");
    reveal_strlit("disabled");
    reveal_strlit("running");
    reveal_strlit("ready");
    reveal_strlit("degraded");
    reveal_strlit("stopped");
    reveal_strlit("error");
    reveal_strlit("removed");
    let n = state_name(st);
    assert forall|i: int| 0 <= i < n.len() implies is_ascii_lower(#[trigger] n[i]) by {}
    assert(plain_field(n)) by {
        if n.contains('\t') || n.contains('\n') {
            let i = choose|i: int| 0 <= i < n.len() && (n[i] == '\t' || n[i] == '\n');
            assert(is_ascii_lower(n[i]));
        }
    }
    assert(!is_ws(n[0]));
    assert(!is_ws(n.last())) by {
        assert(n.last() == n[n.len() - 1]);
    }
    assert(trim_start(n) == n);
    assert(trim_end(n) == n);
    assert(crate::text::trim(n) == n);
    assert(lower_seq(n) =~= n);
    assert(lower_seq(crate::text::trim(n)) == n);
    match st {
        ModuleState::Installed => {},
        ModuleState::Disabled => {
            assert(n[0] != "installed"@[0]);
        },
        ModuleState::Running => {
            assert(n[0] != "installed"@[0] && n[0] != "disabled"@[0]);
        },
        ModuleState::Ready => {
            assert(n.len() == 5);
        },
        ModuleState::Degraded => {
            assert(n[0] != "installed"@[0] && n[0] != "running"@[0] && n[0] != "ready"@[0]);
            assert(n[1] != "disabled"@[1]);
        },
        ModuleState::Stopped => {
            assert(n[0] != "installed"@[0] && n[0] != "disabled"@[0] && n[0] != "running"@[0]
                && n[0] != "ready"@[0] && n[0] != "degraded"@[0]);
        },
        ModuleState::Error => {
            assert(n[0] != "installed"@[0] && n[0] != "disabled"@[0] && n[0] != "running"@[0]
                && n[0] != "ready"@[0] && n[0] != "degraded"@[0] && n[0] != "stopped"@[0]);
        },
        ModuleState::Removed => {
            assert(n[0] != "installed"@[0] && n[0] != "disabled"@[0] && n[0] != "degraded"@[0]
                && n[0] != "stopped"@[0] && n[0] != "error"@[0]);
            assert(n[1] != "running"@[1] && n.len() != "ready"@.len());
        },
    }
}

/// The five fields that close a registry row: the error's escaped scope,
/// code, message and detail and its time, or `- - - - 0` for none.
pub open spec fn error_field_list(e: Option<ModuleErrorRecord>) -> Seq<Seq<char>> {
    match e {
        Some(e) => seq![escape_seq(e.scope@), escape_seq(e.code@), escape_seq(e.message@), escape_seq(e.detail@), decimal_text(e.ts_ms as nat)],
        None => seq!["-"@, "-"@, "-"@, "-"@, "0"@],
    }
}

/// The eighteen fields of the registry row of `r`.
pub open spec fn row_fields(r: ModuleRecord) -> Seq<Seq<char>> {
    seq![
        "module"@,
        escape_seq(r.id@),
        escape_seq(r.name@),
        escape_seq(r.kind@),
        escape_seq(r.version@),
        flag_text(r.enabled),
        state_name(r.state),
        escape_seq(r.reason@),
        escape_seq(r.main_cap@),
        decimal_text(r.action_count as nat),
        flag_text(r.auto_start),
        decimal_text(r.installed_at_ms as nat),
        decimal_text(r.updated_at_ms as nat),
    ] + error_field_list(r.last_error)
}

/// Splitting `x`, a tab and `y` on tabs gives the pieces of `x` and then `y`,
/// and no newline comes in when neither side has one.
proof fn lemma_tab_step(x: Seq<char>, y: Seq<char>)
    requires
        plain_field(y),
        !x.contains('\n'),
    ensures
        split_on(x + seq!['\t'] + y, '\t') == split_on(x, '\t') + seq![y],
        !(x + seq!['\t'] + y).contains('\n'),
{
    lemma_split_cat(x, y, '\t');
    lemma_split_single(y, '\t');
    assert(!seq!['\t'].contains('\n')) by {
        if seq!['\t'].contains('\n') {
            let i = choose|i: int| 0 <= i < 1 && seq!['\t'][i] == '\n';
        }
    }
    lemma_cat_free(x, seq!['\t'], '\n');
    lemma_cat_free(x + seq!['\t'], y, '\n');
}

proof fn lemma_literal_plain(f: Seq<char>)
    requires
        forall|i: int| 0 <= i < f.len() ==> (#[trigger] f[i] == '-' || f[i] == '0' || is_ascii_lower(f[i])),
    ensures
        plain_field(f),
{
    if f.contains('\t') || f.contains('\n') {
        let i = choose|i: int| 0 <= i < f.len() && (f[i] == '\t' || f[i] == '\n');
        assert(f[i] == '-' || f[i] == '0' || is_ascii_lower(f[i]));
    }
}

/// The first thirteen fields of the row of `r`, joined by tabs.
pub open spec fn head_text(r: ModuleRecord) -> Seq<char> {
    let t = seq!['\t'];
    "module"@ + t + escape_seq(r.id@) + t + escape_seq(r.name@) + t + escape_seq(r.kind@) + t + escape_seq(r.version@)
        + t + flag_text(r.enabled) + t + state_name(r.state) + t + escape_seq(r.reason@) + t + escape_seq(
        r.main_cap@,
    ) + t + decimal_text(r.action_count as nat) + t + flag_text(r.auto_start) + t + decimal_text(
        r.installed_at_ms as nat,
    ) + t + decimal_text(r.updated_at_ms as nat)
}

/// The last five fields of a row, joined by tabs.
pub open spec fn tail_text(e: Option<ModuleErrorRecord>) -> Seq<char> {
    let f = error_field_list(e);
    let t = seq!['\t'];
    f[0] + t + f[1] + t + f[2] + t + f[3] + t + f[4]
}

#[verifier::rlimit(100)]
proof fn lemma_head_fields(r: ModuleRecord)
    ensures
        split_on(head_text(r), '\t') == row_fields(r).take(13),
        !head_text(r).contains('\n'),
{
    reveal_strlit("module");
    let t = seq!['\t'];
    lemma_literal_plain("module"@);
    lemma_escape_plain(r.id@);
    lemma_escape_plain(r.name@);
    lemma_escape_plain(r.kind@);
    lemma_escape_plain(r.version@);
    lemma_escape_plain(r.reason@);
    lemma_escape_plain(r.main_cap@);
    lemma_flag_plain(r.enabled);
    lemma_flag_plain(r.auto_start);
    lemma_state_plain(r.state);
    lemma_decimal_plain(r.action_count as nat);
    lemma_decimal_plain(r.installed_at_ms as nat);
    lemma_decimal_plain(r.updated_at_ms as nat);
    let a1 = "module"@;
    lemma_split_single(a1, '\t');
    let a2 = a1 + t + escape_seq(r.id@);
    lemma_tab_step(a1, escape_seq(r.id@));
    let a3 = a2 + t + escape_seq(r.name@);
    lemma_tab_step(a2, escape_seq(r.name@));
    let a4 = a3 + t + escape_seq(r.kind@);
    lemma_tab_step(a3, escape_seq(r.kind@));
    let a5 = a4 + t + escape_seq(r.version@);
    lemma_tab_step(a4, escape_seq(r.version@));
    let a6 = a5 + t + flag_text(r.enabled);
    lemma_tab_step(a5, flag_text(r.enabled));
    let a7 = a6 + t + state_name(r.state);
    lemma_tab_step(a6, state_name(r.state));
    let a8 = a7 + t + escape_seq(r.reason@);
    lemma_tab_step(a7, escape_seq(r.reason@));
    let a9 = a8 + t + escape_seq(r.main_cap@);
    lemma_tab_step(a8, escape_seq(r.main_cap@));
    let a10 = a9 + t + decimal_text(r.action_count as nat);
    lemma_tab_step(a9, decimal_text(r.action_count as nat));
    let a11 = a10 + t + flag_text(r.auto_start);
    lemma_tab_step(a10, flag_text(r.auto_start));
    let a12 = a11 + t + decimal_text(r.installed_at_ms as nat);
    lemma_tab_step(a11, decimal_text(r.installed_at_ms as nat));
    lemma_tab_step(a12, decimal_text(r.updated_at_ms as nat));
    assert(split_on(head_text(r), '\t') =~= row_fields(r).take(13));
}

proof fn lemma_tail_fields(e: Option<ModuleErrorRecord>)
    ensures
        split_on(tail_text(e), '\t') == error_field_list(e),
        !tail_text(e).contains('\n'),
        tail_text(e).len() > 0,
        tail_text(e).last() != '\r',
{
    reveal_strlit("-");
    reveal_strlit("0");
    let t = seq!['\t'];
    let f = error_field_list(e);
    lemma_literal_plain("-"@);
    lemma_literal_plain("0"@);
    match e {
        Some(e) => {
            lemma_escape_plain(e.scope@);
            lemma_escape_plain(e.code@);
            lemma_escape_plain(e.message@);
            lemma_escape_plain(e.detail@);
            lemma_decimal_plain(e.ts_ms as nat);
        },
        None => {},
    }
    assert(plain_field(f[0]) && plain_field(f[1]) && plain_field(f[2]) && plain_field(f[3]) && plain_field(f[4]));
    assert(f[4].len() > 0 && f[4].last() != '\r');
    lemma_split_single(f[0], '\t');
    let b2 = f[0] + t + f[1];
    lemma_tab_step(f[0], f[1]);
    let b3 = b2 + t + f[2];
    lemma_tab_step(b2, f[2]);
    let b4 = b3 + t + f[3];
    lemma_tab_step(b3, f[3]);
    lemma_tab_step(b4, f[4]);
    assert(split_on(tail_text(e), '\t') =~= f);
    assert(tail_text(e).last() == f[4].last()) by {
        assert(tail_text(e) == (b4 + t) + f[4]);
    }
}

/// The row of a record splits into its eighteen fields, holds no newline
/// and does not end in a carriage return.
pub proof fn lemma_row_fields(r: ModuleRecord)
    ensures
        split_on(registry_row(r), '\t') == row_fields(r),
        !registry_row(r).contains('\n'),
        registry_row(r).len() > 0,
        registry_row(r).last() != '\r',
{
    reveal_strlit("\t");
    reveal_strlit("module\t");
    reveal_strlit("module");
    reveal_strlit("-\t-\t-\t-\t0");
    reveal_strlit("-");
    reveal_strlit("0");
    let t = seq!['\t'];
    assert("\t"@ =~= t);
    assert("module\t"@ =~= "module"@ + t);
    lemma_head_fields(r);
    lemma_tail_fields(r.last_error);
    match r.last_error {
        Some(e) => {
            assert(error_fields(e) == tail_text(r.last_error));
        },
        None => {
            assert("-\t-\t-\t-\t0"@ =~= tail_text(r.last_error));
        },
    }
    assert(registry_row(r) == head_text(r) + t + tail_text(r.last_error));
    lemma_split_cat(head_text(r), tail_text(r.last_error), '\t');
    assert(row_fields(r) =~= row_fields(r).take(13) + error_field_list(r.last_error));
    assert(!t.contains('\n')) by {
        if t.contains('\n') {
            let i = choose|i: int| 0 <= i < 1 && t[i] == '\n';
        }
    }
    lemma_cat_free(head_text(r), t, '\n');
    lemma_cat_free(head_text(r) + t, tail_text(r.last_error), '\n');
}

/// The last-error row splits into `last_error` and the error's five
/// fields, holds no newline and does not end in a carriage return.
pub proof fn lemma_last_error_row_fields(e: ModuleErrorRecord)
    ensures
        split_on(last_error_row(e), '\t') == seq!["last_error"@] + error_field_list(Some(e)),
        !last_error_row(e).contains('\n'),
        last_error_row(e).len() > 0,
        last_error_row(e).last() != '\r',
{
    reveal_strlit("last_error\t");
    reveal_strlit("last_error");
    reveal_strlit("\t");
    let t = seq!['\t'];
    assert("\t"@ =~= t);
    assert("last_error\t"@ =~= "last_error"@ + t);
    lemma_tail_fields(Some(e));
    assert(error_fields(e) == tail_text(Some(e)));
    assert(last_error_row(e) == "last_error"@ + t + tail_text(Some(e)));
    lemma_split_cat("last_error"@, tail_text(Some(e)), '\t');
    assert forall|i: int| 0 <= i < "last_error"@.len() implies (#[trigger] "last_error"@[i] == '-' || "last_error"@[i] == '0' || is_ascii_lower("last_error"@[i]) || "last_error"@[i] == '_') by {}
    assert(plain_field("last_error"@)) by {
        let f = "last_error"@;
        if f.contains('\t') || f.contains('\n') {
            let i = choose|i: int| 0 <= i < f.len() && (f[i] == '\t' || f[i] == '\n');
            assert(f[i] == '_' || is_ascii_lower(f[i]));
        }
    }
    lemma_split_single("last_error"@, '\t');
    assert(!t.contains('\n')) by {
        if t.contains('\n') {
            let i = choose|i: int| 0 <= i < 1 && t[i] == '\n';
        }
    }
    lemma_cat_free("last_error"@, t, '\n');
    lemma_cat_free("last_error"@ + t, tail_text(Some(e)), '\n');
    assert(last_error_row(e).last() == tail_text(Some(e)).last());
}

/// The lines of rows joined by newlines and ended by one: the rows, then
/// empty lines.
pub proof fn lemma_rows_text_lines(rows: Seq<Seq<char>>)
    requires
        forall|i: int| 0 <= i < rows.len() ==> !(#[trigger] rows[i]).contains('\n') && rows[i].len() > 0
            && rows[i].last() != '\r',
    ensures
        text_lines(join_newline(rows) + seq!['\n']).len() > rows.len(),
        forall|j: int| 0 <= j < rows.len() ==> #[trigger] text_lines(join_newline(rows) + seq!['\n'])[j] == rows[j],
        forall|j: int| rows.len() <= j < text_lines(join_newline(rows) + seq!['\n']).len()
            ==> #[trigger] text_lines(join_newline(rows) + seq!['\n'])[j] == Seq::<char>::empty(),
{
    let x = join_newline(rows) + seq!['\n'];
    lemma_join_newline_sep(rows);
    assert(x =~= join_newline(rows).push('\n'));
    assert(x.drop_last() =~= join_newline(rows));
    let pieces = split_on(x, '\n');
    assert(pieces == split_on(join_newline(rows), '\n').push(Seq::<char>::empty()));
    if rows.len() == 0 {
        assert(split_on(join_newline(rows), '\n') =~= seq![Seq::<char>::empty()]);
    } else {
        lemma_split_join(rows, '\n');
    }
    assert forall|j: int| 0 <= j < rows.len() implies #[trigger] text_lines(x)[j] == rows[j] by {
        assert(pieces[j] == rows[j]);
    }
    assert forall|j: int| rows.len() <= j < text_lines(x).len() implies #[trigger] text_lines(x)[j] == Seq::<char>::empty() by {
        assert(pieces[j] == Seq::<char>::empty());
    }
}

proof fn lemma_join_newline_sep(ws: Seq<Seq<char>>)
    ensures
        join_newline(ws) == join_sep(ws, '\n'),
    decreases ws.len(),
{
    if ws.len() > 1 {
        lemma_join_newline_sep(ws.drop_last());
        assert(join_newline(ws.drop_last()) + seq!['\n'] =~= join_sep(ws.drop_last(), '\n').push('\n'));
    }
}

/// Two errors with the same scope, code, message, detail and time.
pub open spec fn same_error(a: ModuleErrorRecord, b: ModuleErrorRecord) -> bool {
    &&& a.scope@ == b.scope@
    &&& a.code@ == b.code@
    &&& a.message@ == b.message@
    &&& a.detail@ == b.detail@
    &&& a.ts_ms == b.ts_ms
}

/// `x` holds what the registry file keeps of `r` besides its id and times:
/// name, kind, version, whether enabled, state, reason, main capability,
/// action count, auto start and last error.
pub open spec fn restored(x: ModuleRecord, r: ModuleRecord) -> bool {
    &&& x.name@ == r.name@
    &&& x.kind@ == r.kind@
    &&& x.version@ == r.version@
    &&& x.enabled == r.enabled
    &&& x.state == r.state
    &&& x.reason@ == r.reason@
    &&& x.main_cap@ == r.main_cap@
    &&& x.action_count == r.action_count
    &&& x.auto_start == r.auto_start
    &&& match (x.last_error, r.last_error) {
        (None, None) => true,
        (Some(a), Some(b)) => same_error(a, b),
        _ => false,
    }
}

/// A record the registry file keeps: a valid id, and no last error whose
/// scope is a lone `-` (the file's mark for no error).
pub open spec fn storable_record(r: ModuleRecord) -> bool {
    &&& id_ok(r.id@)
    &&& (r.last_error matches Some(e) ==> e.scope@ != "-"@)
}

proof fn lemma_error_fields_read(e: ModuleErrorRecord, f: Seq<Seq<char>>, b: int, x: ModuleErrorRecord)
    requires
        0 <= b,
        b + 5 <= f.len(),
        f.subrange(b, b + 5) == error_field_list(Some(e)),
        error_matches(x, f, b),
    ensures
        same_error(x, e),
{
    assert(f[b] == f.subrange(b, b + 5)[0]);
    assert(f[b + 1] == f.subrange(b, b + 5)[1]);
    assert(f[b + 2] == f.subrange(b, b + 5)[2]);
    assert(f[b + 3] == f.subrange(b, b + 5)[3]);
    assert(f[b + 4] == f.subrange(b, b + 5)[4]);
    lemma_unescape_escape(e.scope@);
    lemma_unescape_escape(e.code@);
    lemma_unescape_escape(e.message@);
    lemma_unescape_escape(e.detail@);
    lemma_decimal_plain(e.ts_ms as nat);
}

proof fn lemma_module_row_read(r: ModuleRecord)
    requires
        storable_record(r),
    ensures
        row_id(registry_row(r)) == Some(r.id@),
        !last_error_row_ok(registry_row(r)),
        u64_or_zero(fields_of(registry_row(r))[11]) == r.installed_at_ms,
        forall|x: ModuleRecord| #[trigger] row_matches(x, fields_of(registry_row(r))) ==> restored(x, r),
{
    reveal_strlit("module");
    reveal_strlit("last_error");
    reveal_strlit("-");
    lemma_row_fields(r);
    let f = fields_of(registry_row(r));
    assert(f == row_fields(r));
    assert(f.len() == 18);
    assert(f[0] == "module"@);
    assert("module"@ != "last_error"@) by {
        assert("module"@.len() != "last_error"@.len());
    }
    assert(module_row_ok(registry_row(r)));
    lemma_unescape_escape(r.id@);
    crate::module_registry::lemma_valid_id_sanitized(r.id@);
    lemma_decimal_plain(r.installed_at_ms as nat);
    lemma_decimal_plain(r.action_count as nat);
    lemma_flag_plain(r.enabled);
    lemma_flag_plain(r.auto_start);
    lemma_state_plain(r.state);
    lemma_unescape_escape(r.name@);
    lemma_unescape_escape(r.kind@);
    lemma_unescape_escape(r.version@);
    lemma_unescape_escape(r.reason@);
    lemma_unescape_escape(r.main_cap@);
    assert forall|x: ModuleRecord| #[trigger] row_matches(x, fields_of(registry_row(r))) implies restored(x, r) by {
        match r.last_error {
            Some(e) => {
                if f[13] == "-"@ {
                    lemma_escape_dash(e.scope@);
                }
                let xe = x.last_error->Some_0;
                assert(f.subrange(13, 18) =~= error_field_list(Some(e)));
                lemma_error_fields_read(e, f, 13, xe);
            },
            None => {
                assert(f[13] == "-"@);
            },
        }
    }
}

proof fn lemma_last_error_row_read(e: ModuleErrorRecord)
    ensures
        row_id(last_error_row(e)) is None,
        !module_row_ok(last_error_row(e)),
        last_error_row_ok(last_error_row(e)),
        forall|x: ModuleErrorRecord| #[trigger] error_matches(x, fields_of(last_error_row(e)), 1) ==> same_error(x, e),
{
    reveal_strlit("module");
    reveal_strlit("last_error");
    lemma_last_error_row_fields(e);
    let f = fields_of(last_error_row(e));
    assert(f == seq!["last_error"@] + error_field_list(Some(e)));
    assert(f.len() == 6);
    assert(f[0] == "last_error"@);
    assert("module"@ != "last_error"@) by {
        assert("module"@.len() != "last_error"@.len());
    }
    assert forall|x: ModuleErrorRecord| #[trigger] error_matches(x, fields_of(last_error_row(e)), 1) implies same_error(x, e) by {
        assert(f.subrange(1, 6) =~= error_field_list(Some(e)));
        lemma_error_fields_read(e, f, 1, x);
    }
}

proof fn lemma_empty_line_read()
    ensures
        row_id(Seq::<char>::empty()) is None,
        !last_error_row_ok(Seq::<char>::empty()),
        !module_row_ok(Seq::<char>::empty()),
{
    assert(split_on(Seq::<char>::empty(), '\t') =~= seq![Seq::<char>::empty()]);
}

proof fn lemma_last_row_in(lines: Seq<Seq<char>>, recs: Seq<ModuleRecord>, k: Seq<char>)
    requires
        lines.len() >= recs.len(),
        forall|j: int| 0 <= j < recs.len() ==> row_id(#[trigger] lines[j]) == Some(recs[j].id@),
        forall|j: int| recs.len() <= j < lines.len() ==> row_id(#[trigger] lines[j]) is None,
    ensures
        match last_row_with(lines, k) {
            Some(j) => 0 <= j < recs.len() && recs[j].id@ == k,
            None => !crate::keyed::has_id(recs, k),
        },
    decreases lines.len(),
{
    if lines.len() == 0 {
        assert(!crate::keyed::has_id(recs, k));
    } else {
        let n = lines.len() - 1;
        assert(lines.last() == lines[n]);
        let l0 = lines.drop_last();
        if n >= recs.len() {
            assert forall|j: int| 0 <= j < recs.len() implies row_id(#[trigger] l0[j]) == Some(recs[j].id@) by {
                assert(l0[j] == lines[j]);
            }
            assert forall|j: int| recs.len() <= j < l0.len() implies row_id(#[trigger] l0[j]) is None by {
                assert(l0[j] == lines[j]);
            }
            lemma_last_row_in(l0, recs, k);
        } else {
            let r0 = recs.drop_last();
            assert(recs.len() == lines.len());
            if recs[n].id@ != k {
                assert forall|j: int| 0 <= j < r0.len() implies row_id(#[trigger] l0[j]) == Some(r0[j].id@) by {
                    assert(l0[j] == lines[j]);
                }
                lemma_last_row_in(l0, r0, k);
                if last_row_with(l0, k) is None {
                    assert(!crate::keyed::has_id(recs, k)) by {
                        if crate::keyed::has_id(recs, k) {
                            let i = choose|i: int| 0 <= i < recs.len() && (#[trigger] recs[i]).key() == k;
                            if i < n {
                                assert(r0[i] == recs[i]);
                            }
                        }
                    }
                }
            }
        }
    }
}

proof fn lemma_last_error_in(lines: Seq<Seq<char>>, at: Option<int>)
    requires
        forall|j: int| 0 <= j < lines.len() ==> ((!module_row_ok(#[trigger] lines[j]) && last_error_row_ok(lines[j]))
            <==> at == Some(j)),
        at matches Some(m) ==> 0 <= m < lines.len(),
    ensures
        last_error_line(lines) == at,
    decreases lines.len(),
{
    if lines.len() > 0 {
        let n = lines.len() - 1;
        assert(lines.last() == lines[n]);
        if at != Some(n) {
            let l0 = lines.drop_last();
            assert forall|j: int| 0 <= j < l0.len() implies ((!module_row_ok(#[trigger] l0[j]) && last_error_row_ok(l0[j]))
                <==> at == Some(j)) by {
                assert(l0[j] == lines[j]);
            }
            lemma_last_error_in(l0, at);
        }
    }
}

/// What the registry file keeps reads back: in the lines of the file text
/// of records (each with a valid id and no error scope `-`) and a last
/// error, the last line that stores a record under `k` is the row of a
/// record with that id, whose fields restore it (and give its install
/// time), and there is none when no record has that id; the last-error
/// line is there exactly when there is a last error, and restores it.
pub proof fn lemma_registry_file_roundtrip(recs: Seq<ModuleRecord>, last: Option<ModuleErrorRecord>, k: Seq<char>)
    requires
        forall|i: int| 0 <= i < recs.len() ==> storable_record(#[trigger] recs[i]),
    ensures
        ({
            let lines = text_lines(join_newline(registry_rows(recs, last)) + seq!['\n']);
            &&& match last_row_with(lines, k) {
                Some(j) => 0 <= j < recs.len() && recs[j].id@ == k && u64_or_zero(fields_of(lines[j])[11])
                    == recs[j].installed_at_ms && forall|x: ModuleRecord| #[trigger] row_matches(x, fields_of(lines[j]))
                    ==> restored(x, recs[j]),
                None => !crate::keyed::has_id(recs, k),
            }
            &&& match last_error_line(lines) {
                Some(j) => last matches Some(le) && forall|e: ModuleErrorRecord| #[trigger] error_matches(e, fields_of(lines[j]), 1)
                    ==> same_error(e, le),
                None => last is None,
            }
        }),
{
    let rows = registry_rows(recs, last);
    let n = recs.len();
    assert forall|i: int| 0 <= i < n implies #[trigger] rows[i] == registry_row(recs[i]) by {}
    assert forall|i: int| 0 <= i < rows.len() implies !(#[trigger] rows[i]).contains('\n') && rows[i].len() > 0
        && rows[i].last() != '\r' by {
        if i < n {
            lemma_row_fields(recs[i]);
        } else {
            let e = last->Some_0;
            assert(rows[i] == last_error_row(e));
            lemma_last_error_row_fields(e);
        }
    }
    lemma_rows_text_lines(rows);
    let lines = text_lines(join_newline(rows) + seq!['\n']);
    lemma_empty_line_read();
    assert forall|j: int| 0 <= j < n implies row_id(#[trigger] lines[j]) == Some(recs[j].id@) by {
        lemma_module_row_read(recs[j]);
    }
    assert forall|j: int| n <= j < lines.len() implies row_id(#[trigger] lines[j]) is None by {
        if j < rows.len() {
            let e = last->Some_0;
            assert(lines[j] == last_error_row(e));
            lemma_last_error_row_read(e);
        }
    }
    lemma_last_row_in(lines, recs, k);
    match last_row_with(lines, k) {
        Some(j) => {
            lemma_module_row_read(recs[j]);
        },
        None => {},
    }
    let at = if last is Some { Some(n as int) } else { None };
    assert forall|j: int| 0 <= j < lines.len() implies ((!module_row_ok(#[trigger] lines[j]) && last_error_row_ok(lines[j]))
        <==> at == Some(j)) by {
        if j < n {
            lemma_module_row_read(recs[j]);
        } else if j < rows.len() {
            let e = last->Some_0;
            lemma_last_error_row_read(e);
        }
    }
    lemma_last_error_in(lines, at);
    match last {
        Some(e) => {
            lemma_last_error_row_read(e);
        },
        None => {},
    }
}

proof fn lemma_signed_decimal_read(u: i32)
    ensures
        plain_field(signed_decimal_text(u as int)),
        spec_parse_i32(signed_decimal_text(u as int)) == Some(u),
{
    let s = signed_decimal_text(u as int);
    if u < 0 {
        let m = (0 - u) as nat;
        lemma_decimal_plain(m);
        lemma_decimal_roundtrip(m);
        assert(s.drop_first() =~= decimal_text(m));
        assert(s[0] == '-');
        assert(!seq!['-'].contains('\t') && !seq!['-'].contains('\n')) by {
            if seq!['-'].contains('\t') || seq!['-'].contains('\n') {
                let i = choose|i: int| 0 <= i < 1 && (seq!['-'][i] == '\t' || seq!['-'][i] == '\n');
            }
        }
        lemma_cat_free(seq!['-'], decimal_text(m), '\t');
        lemma_cat_free(seq!['-'], decimal_text(m), '\n');
    } else {
        lemma_decimal_plain(u as nat);
        lemma_decimal_roundtrip(u as nat);
        assert(is_ascii_digit(s[0]));
    }
}

/// The fields of the scope file row of a rule of module `id`.
pub open spec fn scope_fields(id: Seq<char>, rule: ModuleScopeRule) -> Seq<Seq<char>> {
    seq!["scope"@, escape_seq(id), escape_seq(rule.package_name@), signed_decimal_text(rule.user_id as int), if rule.allow {
        "1"@
    } else {
        "0"@
    }]
}

proof fn lemma_scope_row_read(id: Seq<char>, rule: ModuleScopeRule)
    requires
        id_ok(id),
    ensures
        split_on(scope_file_row(id, rule), '\t') == scope_fields(id, rule),
        !scope_file_row(id, rule).contains('\n'),
        scope_file_row(id, rule).len() > 0,
        scope_file_row(id, rule).last() != '\r',
        scope_line_ok(scope_file_row(id, rule)),
        scope_line_id(scope_file_row(id, rule)) == id,
        scope_line_rule(scope_file_row(id, rule)) == rule_parts(rule),
{
    reveal_strlit("scope\t");
    reveal_strlit("scope");
    reveal_strlit("\t");
    reveal_strlit("\t1");
    reveal_strlit("\t0");
    reveal_strlit("1");
    reveal_strlit("0");
    let t = seq!['\t'];
    assert("\t"@ =~= t);
    assert("scope\t"@ =~= "scope"@ + t);
    assert("\t1"@ =~= t + "1"@);
    assert("\t0"@ =~= t + "0"@);
    let flag = if rule.allow { "1"@ } else { "0"@ };
    lemma_flag_plain(rule.allow);
    assert(flag == flag_text(rule.allow));
    assert forall|i: int| 0 <= i < "scope"@.len() implies (#[trigger] "scope"@[i] == '-' || "scope"@[i] == '0' || is_ascii_lower("scope"@[i])) by {}
    lemma_literal_plain("scope"@);
    lemma_escape_plain(id);
    lemma_escape_plain(rule.package_name@);
    lemma_signed_decimal_read(rule.user_id);
    let a1 = "scope"@;
    lemma_split_single(a1, '\t');
    let a2 = a1 + t + escape_seq(id);
    lemma_tab_step(a1, escape_seq(id));
    let a3 = a2 + t + escape_seq(rule.package_name@);
    lemma_tab_step(a2, escape_seq(rule.package_name@));
    let a4 = a3 + t + signed_decimal_text(rule.user_id as int);
    lemma_tab_step(a3, signed_decimal_text(rule.user_id as int));
    let a5 = a4 + t + flag;
    lemma_tab_step(a4, flag);
    assert(scope_file_row(id, rule) =~= a5);
    assert(split_on(a5, '\t') =~= scope_fields(id, rule));
    assert(a5.last() == flag.last());
    lemma_unescape_escape(id);
    lemma_unescape_escape(rule.package_name@);
    lemma_flag_plain(rule.allow);
}

proof fn lemma_loaded_cat(a: Seq<Seq<char>>, b: Seq<Seq<char>>, k: Seq<char>)
    ensures
        loaded_rules(a + b, k) == loaded_rules(a, k) + loaded_rules(b, k),
    decreases b.len(),
{
    if b.len() == 0 {
        assert(a + b =~= a);
        assert(loaded_rules(b, k) =~= Seq::<(Seq<char>, i32, bool)>::empty());
        assert(loaded_rules(a, k) + loaded_rules(b, k) =~= loaded_rules(a, k));
    } else {
        lemma_loaded_cat(a, b.drop_last(), k);
        assert((a + b).drop_last() =~= a + b.drop_last());
        assert((a + b).last() == b.last());
        let la = loaded_rules(a, k);
        let lb0 = loaded_rules(b.drop_last(), k);
        if scope_line_ok(b.last()) && scope_line_id(b.last()) == k {
            assert((la + lb0).push(scope_line_rule(b.last())) =~= la + lb0.push(scope_line_rule(b.last())));
        }
    }
}

/// The rules a module has in a list of entries (none when it has no entry).
pub open spec fn entries_rules(entries: Seq<ScopeEntry>, k: Seq<char>) -> Seq<(Seq<char>, i32, bool)> {
    if record_map(entries).contains_key(k) {
        rules_parts(record_map(entries)[k].rules@)
    } else {
        Seq::empty()
    }
}

proof fn lemma_loaded_entry(e: ScopeEntry, k: Seq<char>, m: int)
    requires
        id_ok(e.module_id@),
        0 <= m <= e.rules@.len(),
    ensures
        loaded_rules(entry_rows(e, true).take(m), k) == if e.module_id@ == k {
            rules_parts(e.rules@.take(m))
        } else {
            Seq::<(Seq<char>, i32, bool)>::empty()
        },
    decreases m,
{
    let rows = entry_rows(e, true);
    if m == 0 {
        assert(rows.take(0) =~= Seq::<Seq<char>>::empty());
        assert(rules_parts(e.rules@.take(0)) =~= Seq::<(Seq<char>, i32, bool)>::empty());
    } else {
        lemma_loaded_entry(e, k, m - 1);
        assert(rows.take(m).drop_last() =~= rows.take(m - 1));
        assert(rows.take(m).last() == scope_file_row(e.module_id@, e.rules@[m - 1]));
        lemma_scope_row_read(e.module_id@, e.rules@[m - 1]);
        assert(rules_parts(e.rules@.take(m)) =~= rules_parts(e.rules@.take(m - 1)).push(rule_parts(e.rules@[m - 1])));
    }
}

proof fn lemma_loaded_table(entries: Seq<ScopeEntry>, k: Seq<char>)
    requires
        ids_sorted(entries),
        forall|i: int| 0 <= i < entries.len() ==> id_ok(#[trigger] entries[i].module_id@),
    ensures
        loaded_rules(table_rows(entries, true), k) == entries_rules(entries, k),
        forall|j: int| 0 <= j < table_rows(entries, true).len() ==> !(#[trigger] table_rows(entries, true)[j]).contains('\n')
            && table_rows(entries, true)[j].len() > 0 && table_rows(entries, true)[j].last() != '\r',
    decreases entries.len(),
{
    if entries.len() == 0 {
        assert(entries_rules(entries, k) =~= Seq::<(Seq<char>, i32, bool)>::empty()) by {
            assert(!crate::keyed::has_id(entries, k));
        }
    } else {
        let e0 = entries.drop_last();
        let e = entries.last();
        let n = entries.len() - 1;
        assert(entries[n] == e);
        assert forall|i: int| 0 <= i < e0.len() implies id_ok(#[trigger] e0[i].module_id@) by {
            assert(e0[i] == entries[i]);
        }
        assert(ids_sorted(e0)) by {
            assert forall|i: int, j: int| 0 <= i < j < e0.len() implies text_lt(#[trigger] e0[i].key(), #[trigger] e0[j].key()) by {
                assert(e0[i] == entries[i] && e0[j] == entries[j]);
            }
        }
        lemma_loaded_table(e0, k);
        let a = table_rows(e0, true);
        let b = entry_rows(e, true);
        assert(table_rows(entries, true) == a + b);
        lemma_loaded_cat(a, b, k);
        lemma_loaded_entry(e, k, e.rules@.len() as int);
        assert(b.take(e.rules@.len() as int) =~= b);
        assert(e.rules@.take(e.rules@.len() as int) =~= e.rules@);
        assert forall|j: int| 0 <= j < (a + b).len() implies !(#[trigger] (a + b)[j]).contains('\n') && (a + b)[j].len() > 0
            && (a + b)[j].last() != '\r' by {
            if j >= a.len() {
                lemma_scope_row_read(e.module_id@, e.rules@[j - a.len()]);
            }
        }
        crate::keyed::lemma_has_id_push(e0, e, k);
        assert(entries == e0.push(e));
        if k == e.module_id@ {
            lemma_record_at(entries, n);
            assert(!crate::keyed::has_id(e0, k)) by {
                if crate::keyed::has_id(e0, k) {
                    let i = choose|i: int| 0 <= i < e0.len() && (#[trigger] e0[i]).key() == k;
                    assert(e0[i] == entries[i]);
                    assert(text_lt(entries[i].key(), entries[n].key()));
                    crate::text::lemma_text_lt_irreflexive(k);
                }
            }
            assert(loaded_rules(a, k) =~= Seq::<(Seq<char>, i32, bool)>::empty());
            assert(loaded_rules(a, k) + loaded_rules(b, k) =~= loaded_rules(b, k));
        } else {
            assert(loaded_rules(a, k) + loaded_rules(b, k) =~= loaded_rules(a, k));
            if crate::keyed::has_id(e0, k) {
                let j = crate::keyed::index_of_id(e0, k);
                lemma_record_at(e0, j);
                assert(e0[j] == entries[j]);
                lemma_record_at(entries, j);
            }
        }
    }
}

proof fn lemma_loaded_prefix(lines: Seq<Seq<char>>, n: int, k: Seq<char>)
    requires
        0 <= n <= lines.len(),
        forall|j: int| n <= j < lines.len() ==> !scope_line_ok(#[trigger] lines[j]),
    ensures
        loaded_rules(lines, k) == loaded_rules(lines.take(n), k),
    decreases lines.len(),
{
    if lines.len() == n {
        assert(lines.take(n) =~= lines);
    } else {
        let l0 = lines.drop_last();
        assert(lines.last() == lines[lines.len() - 1]);
        assert forall|j: int| n <= j < l0.len() implies !scope_line_ok(#[trigger] l0[j]) by {
            assert(l0[j] == lines[j]);
        }
        lemma_loaded_prefix(l0, n, k);
        assert(l0.take(n) =~= lines.take(n));
    }
}

/// What the scope file keeps reads back: for entries sorted by module id,
/// each id valid, the rules the lines of their scope file text give a
/// module are that module's rules, in order (none for a module without an
/// entry).
pub proof fn lemma_scope_file_roundtrip(entries: Seq<ScopeEntry>, k: Seq<char>)
    requires
        ids_sorted(entries),
        forall|i: int| 0 <= i < entries.len() ==> id_ok(#[trigger] entries[i].module_id@),
    ensures
        loaded_rules(text_lines(join_newline(table_rows(entries, true)) + seq!['\n']), k) == entries_rules(entries, k),
{
    let rows = table_rows(entries, true);
    lemma_loaded_table(entries, k);
    lemma_rows_text_lines(rows);
    let lines = text_lines(join_newline(rows) + seq!['\n']);
    assert(split_on(Seq::<char>::empty(), '\t') =~= seq![Seq::<char>::empty()]);
    assert forall|j: int| rows.len() <= j < lines.len() implies !scope_line_ok(#[trigger] lines[j]) by {
        assert(lines[j] == Seq::<char>::empty());
    }
    lemma_loaded_prefix(lines, rows.len() as int, k);
    assert(lines.take(rows.len() as int) =~= rows);
}

} // verus!
