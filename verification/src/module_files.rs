use vstd::prelude::*;
use crate::keyed::{
    Keyed, ids_sorted, has_id, index_of_id, record_map, lemma_record_at, lemma_insert_keeps_order,
    lemma_update_keeps_order, lemma_remove_keeps_order,
};
use crate::module_runtime::{env_key_ok, env_key_chars_valid, pipe_sanitized, sanitize_pipe_field, shell_value, shell_value_chars, spec_bool_like};
use crate::module_registry::{id_ok, chars_id_ok};
use crate::text::{
    chars_of, string_from_chars, trim, trim_chars, text_lt, lines_of, text_lines, line_body, is_ws, push_str, is_ascii_upper, is_ascii_digit,
    lemma_text_lt_total, lemma_text_lt_transitive, lemma_text_lt_irreflexive, chars_lt, chars_same,
    split_on, split_char, has_prefix, strip_prefix_chars,
};

verus! {

// ---------------------------------------------------------------------------
// A module's environment values: the `env.values` file, one `KEY=value`
// per line, kept by key.

/// One setting of a module's environment.
#[derive(Debug, Clone, PartialEq, Eq)]
pub struct EnvValue {
    pub key: String,
    pub value: String,
}

impl Keyed for EnvValue {
    open spec fn key(&self) -> Seq<char> {
        self.key@
    }
}

/// The settings of a key-sorted list, as a map from key to value.
pub open spec fn env_view(values: Seq<EnvValue>) -> Map<Seq<char>, Seq<char>> {
    Map::new(|k: Seq<char>| record_map(values).contains_key(k), |k: Seq<char>| record_map(values)[k].value@)
}

/// The index of the first `c` in `s`, if any.
pub open spec fn first_index(s: Seq<char>, c: char) -> Option<nat>
    decreases s.len(),
{
    if s.len() == 0 {
        None
    } else if s[0] == c {
        Some(0)
    } else {
        match first_index(s.drop_first(), c) {
            Some(i) => Some(i + 1),
            None => None,
        }
    }
}

proof fn lemma_first_index(s: Seq<char>, c: char, i: int)
    requires
        0 <= i <= s.len(),
        forall|j: int| 0 <= j < i ==> s[j] != c,
    ensures
        i < s.len() && s[i] == c ==> first_index(s, c) == Some(i as nat),
        i == s.len() ==> first_index(s, c) is None,
    decreases i,
{
    if i > 0 {
        lemma_first_index(s.drop_first(), c, i - 1);
    }
}

/// The setting a line gives: the line split at its first `=`, both sides
/// trimmed; none when there is no `=` or the key is not valid.
pub open spec fn env_line_setting(line: Seq<char>) -> Option<(Seq<char>, Seq<char>)> {
    match first_index(line, '=') {
        Some(p) => {
            let k = trim(line.take(p as int));
            if env_key_ok(k) {
                Some((k, trim(line.skip(p as int + 1))))
            } else {
                None
            }
        },
        None => None,
    }
}

/// The settings of the lines, a later line of a key replacing an earlier.
pub open spec fn env_settings(lines: Seq<Seq<char>>) -> Map<Seq<char>, Seq<char>>
    decreases lines.len(),
{
    if lines.len() == 0 {
        Map::empty()
    } else {
        let m = env_settings(lines.drop_last());
        match env_line_setting(lines.last()) {
            Some((k, v)) => m.insert(k, v),
            None => m,
        }
    }
}

/// The setting of one line, as `env_line_setting` says.
fn line_setting(line: &Vec<char>) -> (r: Option<(Vec<char>, Vec<char>)>)
    ensures
        match env_line_setting(line@) {
            Some((k, v)) => r matches Some((a, b)) && a@ == k && b@ == v,
            None => r is None,
        },
{
    let mut i: usize = 0;
    while i < line.len() && line[i] != '='
        invariant
            i <= line@.len(),
            forall|j: int| 0 <= j < i ==> line@[j] != '=',
        decreases line@.len() - i,
    {
        i += 1;
    }
    proof {
        lemma_first_index(line@, '=', i as int);
    }
    if i == line.len() {
        return None;
    }
    let mut head: Vec<char> = Vec::new();
    let mut j: usize = 0;
    while j < i
        invariant
            j <= i < line@.len(),
            head@ == line@.take(j as int),
        decreases i - j,
    {
        head.push(line[j]);
        j += 1;
        assert(head@ =~= line@.take(j as int));
    }
    let mut tail: Vec<char> = Vec::new();
    let mut m: usize = i + 1;
    while m < line.len()
        invariant
            i < m <= line@.len(),
            tail@ == line@.subrange(i + 1, m as int),
        decreases line@.len() - m,
    {
        tail.push(line[m]);
        m += 1;
        assert(tail@ =~= line@.subrange(i + 1, m as int));
    }
    assert(tail@ =~= line@.skip(i + 1));
    let k = trim_chars(&head);
    if !env_key_chars_valid(&k) {
        return None;
    }
    Some((k, trim_chars(&tail)))
}

/// Something stored under a text key that it can show.
pub trait KeyText: Keyed {
    fn key_text(&self) -> (r: &str)
        ensures
            r@ == self.key(),
    ;
}

impl KeyText for EnvValue {
    fn key_text(&self) -> (r: &str) {
        self.key.as_str()
    }
}

/// Where `key` stands among key-sorted items: the items before the
/// returned index have smaller keys; with `true` the item at it has the
/// key, else every item from it on has a greater one.
fn locate_key<T: KeyText>(values: &Vec<T>, key: &Vec<char>) -> (r: (usize, bool))
    requires
        ids_sorted(values@),
    ensures
        r.0 <= values@.len(),
        forall|i: int| 0 <= i < r.0 ==> text_lt(#[trigger] values@[i].key(), key@),
        r.1 ==> r.0 < values@.len() && values@[r.0 as int].key() == key@,
        !r.1 ==> forall|i: int| r.0 <= i < values@.len() ==> text_lt(key@, #[trigger] values@[i].key()),
        r.1 == record_map(values@).contains_key(key@),
{
    let mut p: usize = 0;
    while p < values.len()
        invariant
            p <= values@.len(),
            ids_sorted(values@),
            forall|i: int| 0 <= i < p ==> text_lt(#[trigger] values@[i].key(), key@),
        decreases values@.len() - p,
    {
        let cur = chars_of(values[p].key_text());
        if !chars_lt(&cur, key) {
            let same = chars_same(&cur, key);
            proof {
                if !same {
                    lemma_text_lt_total(cur@, key@);
                    assert forall|i: int| p <= i < values@.len() implies text_lt(key@, #[trigger] values@[i].key()) by {
                        if i > p {
                            assert(text_lt(values@[p as int].key(), values@[i].key()));
                            lemma_text_lt_transitive(key@, cur@, values@[i].key());
                        }
                    }
                    if record_map(values@).contains_key(key@) {
                        let j = index_of_id(values@, key@);
                        lemma_text_lt_irreflexive(key@);
                    }
                } else {
                    assert(has_id(values@, key@));
                }
            }
            return (p, same);
        }
        p += 1;
    }
    proof {
        if record_map(values@).contains_key(key@) {
            let j = index_of_id(values@, key@);
            lemma_text_lt_irreflexive(key@);
        }
    }
    (p, false)
}

/// Sets `key` to `value` among key-sorted settings.
pub fn env_put(values: &mut Vec<EnvValue>, key: &Vec<char>, value: &Vec<char>)
    requires
        ids_sorted(old(values)@),
    ensures
        ids_sorted(final(values)@),
        env_view(final(values)@) == env_view(old(values)@).insert(key@, value@),
{
    let (p, found) = locate_key(values, key);
    let e = EnvValue { key: string_from_chars(key), value: string_from_chars(value) };
    if found {
        proof {
            lemma_update_keeps_order(values@, p as int, e);
        }
        values.set(p, e);
    } else {
        proof {
            lemma_insert_keeps_order(values@, p as int, e);
        }
        values.insert(p, e);
    }
    assert(env_view(values@) =~= env_view(old(values)@).insert(key@, value@));
}

/// Drops `key` from key-sorted settings.
pub fn env_remove(values: &mut Vec<EnvValue>, key: &Vec<char>)
    requires
        ids_sorted(old(values)@),
    ensures
        ids_sorted(final(values)@),
        env_view(final(values)@) == env_view(old(values)@).remove(key@),
{
    let (p, found) = locate_key(values, key);
    if found {
        proof {
            lemma_remove_keeps_order(values@, p as int);
        }
        values.remove(p);
        assert(env_view(values@) =~= env_view(old(values)@).remove(key@));
    } else {
        assert(env_view(values@) =~= env_view(old(values)@).remove(key@));
    }
}

/// The value of `key` among key-sorted settings.
pub fn env_get(values: &Vec<EnvValue>, key: &Vec<char>) -> (r: Option<String>)
    requires
        ids_sorted(values@),
    ensures
        match r {
            Some(v) => env_view(values@).contains_key(key@) && v@ == env_view(values@)[key@],
            None => !env_view(values@).contains_key(key@),
        },
{
    let (p, found) = locate_key(values, key);
    if found {
        proof {
            lemma_record_at(values@, p as int);
        }
        Some(values[p].value.clone())
    } else {
        None
    }
}

/// Reads an `env.values` text: the settings of its lines, in key order, a
/// later line of a key replacing an earlier one.
pub fn parse_env_values(text: &str) -> (r: Vec<EnvValue>)
    ensures
        ids_sorted(r@),
        env_view(r@) == env_settings(text_lines(text@)),
{
    let lines = lines_of(text);
    let ghost ls = text_lines(text@);
    let mut out: Vec<EnvValue> = Vec::new();
    let mut i: usize = 0;
    proof {
        assert(env_view(out@) =~= env_settings(ls.take(0)));
    }
    while i < lines.len()
        invariant
            i <= lines@.len(),
            lines@.len() == ls.len(),
            ls == text_lines(text@),
            forall|k: int| 0 <= k < lines@.len() ==> #[trigger] lines@[k]@ == ls[k],
            ids_sorted(out@),
            env_view(out@) == env_settings(ls.take(i as int)),
        decreases lines@.len() - i,
    {
        assert(ls.take(i + 1).drop_last() =~= ls.take(i as int));
        assert(ls.take(i + 1).last() == lines@[i as int]@);
        match line_setting(&lines[i]) {
            Some((k, v)) => {
                env_put(&mut out, &k, &v);
            },
            None => {},
        }
        i += 1;
    }
    assert(ls.take(lines@.len() as int) =~= ls);
    out
}

/// The text of settings: `key=value` and a newline for each, in order.
pub open spec fn env_values_text(values: Seq<EnvValue>) -> Seq<char>
    decreases values.len(),
{
    if values.len() == 0 {
        Seq::empty()
    } else {
        env_values_text(values.drop_last()) + values.last().key@ + "="@ + values.last().value@ + "\n"@
    }
}

/// Writes settings as an `env.values` text, as `env_values_text` says.
pub fn format_env_values(values: &Vec<EnvValue>) -> (r: String)
    ensures
        r@ == env_values_text(values@),
{
    let mut out: Vec<char> = Vec::new();
    let mut i: usize = 0;
    while i < values.len()
        invariant
            i <= values@.len(),
            out@ == env_values_text(values@.take(i as int)),
        decreases values@.len() - i,
    {
        assert(values@.take(i + 1).drop_last() =~= values@.take(i as int));
        push_str(&mut out, values[i].key.as_str());
        push_str(&mut out, "=");
        push_str(&mut out, values[i].value.as_str());
        push_str(&mut out, "\n");
        i += 1;
        assert(out@ =~= env_values_text(values@.take(i as int)));
    }
    assert(values@.take(values@.len() as int) =~= values@);
    string_from_chars(&out)
}

/// The line a setting is written as: `KEY=value`.
pub open spec fn env_line(e: EnvValue) -> Seq<char> {
    e.key@ + "="@ + e.value@
}

/// A setting that its line reads back: a valid key, and a value with no
/// newline and no white space at either end.
pub open spec fn env_value_storable(e: EnvValue) -> bool {
    &&& env_key_ok(e.key@)
    &&& trim(e.value@) == e.value@
    &&& !e.value@.contains('\n')
}

proof fn lemma_env_text_pieces(vs: Seq<EnvValue>)
    requires
        forall|i: int| 0 <= i < vs.len() ==> env_value_storable(#[trigger] vs[i]),
    ensures
        split_on(env_values_text(vs), '\n') == vs.map_values(|e: EnvValue| env_line(e)).push(Seq::<char>::empty()),
    decreases vs.len(),
{
    reveal_strlit("\n");
    reveal_strlit("=");
    if vs.len() == 0 {
        assert(vs.map_values(|e: EnvValue| env_line(e)).push(Seq::<char>::empty()) =~= seq![Seq::<char>::empty()]);
    } else {
        let v0 = vs.drop_last();
        let e = vs.last();
        assert(env_value_storable(e)) by {
            assert(vs[vs.len() - 1] == e);
        }
        assert forall|i: int| 0 <= i < v0.len() implies env_value_storable(#[trigger] v0[i]) by {
            assert(v0[i] == vs[i]);
        }
        lemma_env_text_pieces(v0);
        let line = env_line(e);
        assert(!line.contains('\n')) by {
            if line.contains('\n') {
                let i = choose|i: int| 0 <= i < line.len() && line[i] == '\n';
                if i < e.key@.len() {
                    assert(e.key@[i] == '\n');
                } else if i > e.key@.len() {
                    assert(e.value@[i - e.key@.len() - 1] == '\n');
                }
            }
        }
        let x = env_values_text(v0);
        crate::text::lemma_split_append_plain(x, line, '\n');
        let y = x + line;
        assert(env_values_text(vs) =~= y.push('\n'));
        assert(y.push('\n').drop_last() =~= y);
        let ls0 = v0.map_values(|e: EnvValue| env_line(e));
        assert(split_on(x, '\n').last() + line =~= line);
        assert(split_on(y, '\n') =~= ls0.push(line));
        assert(vs.map_values(|e: EnvValue| env_line(e)) =~= ls0.push(line));
    }
}

proof fn lemma_first_index_after(k: Seq<char>, rest: Seq<char>, c: char)
    requires
        !k.contains(c),
        rest.len() > 0,
        rest[0] == c,
    ensures
        first_index(k + rest, c) == Some(k.len()),
    decreases k.len(),
{
    if k.len() == 0 {
        assert(k + rest =~= rest);
    } else {
        assert(k[0] != c);
        assert((k + rest).drop_first() =~= k.drop_first() + rest);
        assert(!k.drop_first().contains(c)) by {
            if k.drop_first().contains(c) {
                let i = choose|i: int| 0 <= i < k.drop_first().len() && k.drop_first()[i] == c;
                assert(k[i + 1] == c);
            }
        }
        lemma_first_index_after(k.drop_first(), rest, c);
    }
}

proof fn lemma_env_line_setting(e: EnvValue)
    requires
        env_value_storable(e),
    ensures
        env_line_setting(env_line(e)) == Some((e.key@, e.value@)),
        line_body_kept(env_line(e)),
{
    reveal_strlit("=");
    let k = e.key@;
    let v = e.value@;
    let line = env_line(e);
    assert(!k.contains('=')) by {
        if k.contains('=') {
            let i = choose|i: int| 0 <= i < k.len() && k[i] == '=';
            assert(i == 0 || is_ascii_upper(k[i]) || is_ascii_digit(k[i]) || k[i] == '_');
        }
    }
    assert(line =~= k + ("="@ + v));
    lemma_first_index_after(k, "="@ + v, '=');
    assert(line.take(k.len() as int) =~= k);
    assert(line.skip(k.len() as int + 1) =~= v);
    assert(!is_ws(k[0]));
    assert(!is_ws(k.last())) by {
        assert(k.last() == k[k.len() - 1]);
    }
    assert(crate::text::trim_start(k) == k);
    assert(crate::text::trim_end(k) == k);
    if v.len() > 0 {
        assert(line.last() == v.last());
        assert(!is_ws(v.last())) by {
            if is_ws(v.last()) {
                assert(crate::text::trim_end(crate::text::trim_start(v)) != v) by {
                    lemma_trim_keeps_last(v);
                }
            }
        }
    } else {
        assert(line.last() == '=');
    }
}

/// A line whose last character is not a carriage return.
pub open spec fn line_body_kept(line: Seq<char>) -> bool {
    line.len() > 0 && line.last() != '\r'
}

proof fn lemma_trim_keeps_last(v: Seq<char>)
    requires
        v.len() > 0,
        is_ws(v.last()),
    ensures
        crate::text::trim_end(crate::text::trim_start(v)) != v,
    decreases v.len(),
{
    let ts = crate::text::trim_start(v);
    lemma_trim_start_shorter(v);
    if ts.len() == v.len() {
        assert(ts == v);
        assert(crate::text::trim_end(v) == crate::text::trim_end(v.drop_last()));
        lemma_trim_end_shorter(v.drop_last());
    } else {
        lemma_trim_start_shorter(v);
        lemma_trim_end_shorter(ts);
    }
}

proof fn lemma_trim_start_shorter(s: Seq<char>)
    ensures
        crate::text::trim_start(s).len() <= s.len(),
        crate::text::trim_start(s).len() == s.len() ==> crate::text::trim_start(s) == s,
    decreases s.len(),
{
    if s.len() > 0 && is_ws(s[0]) {
        lemma_trim_start_shorter(s.drop_first());
    }
}

proof fn lemma_trim_end_shorter(s: Seq<char>)
    ensures
        crate::text::trim_end(s).len() <= s.len(),
    decreases s.len(),
{
    if s.len() > 0 && is_ws(s.last()) {
        lemma_trim_end_shorter(s.drop_last());
    }
}

proof fn lemma_env_settings_of_lines(vs: Seq<EnvValue>)
    requires
        ids_sorted(vs),
        forall|i: int| 0 <= i < vs.len() ==> env_value_storable(#[trigger] vs[i]),
    ensures
        env_settings(vs.map_values(|e: EnvValue| env_line(e)).map_values(|p: Seq<char>| line_body(p))) == env_view(vs),
    decreases vs.len(),
{
    let ls = vs.map_values(|e: EnvValue| env_line(e)).map_values(|p: Seq<char>| line_body(p));
    if vs.len() == 0 {
        assert(env_view(vs) =~= Map::<Seq<char>, Seq<char>>::empty()) by {
            assert forall|k: Seq<char>| !record_map(vs).contains_key(k) by {}
        }
    } else {
        let v0 = vs.drop_last();
        let e = vs.last();
        assert(vs[vs.len() - 1] == e);
        assert forall|i: int| 0 <= i < v0.len() implies env_value_storable(#[trigger] v0[i]) by {
            assert(v0[i] == vs[i]);
        }
        assert(ids_sorted(v0)) by {
            assert forall|i: int, j: int| 0 <= i < j < v0.len() implies text_lt(#[trigger] v0[i].key(), #[trigger] v0[j].key()) by {
                assert(v0[i] == vs[i] && v0[j] == vs[j]);
            }
        }
        lemma_env_settings_of_lines(v0);
        lemma_env_line_setting(e);
        let ls0 = v0.map_values(|e: EnvValue| env_line(e)).map_values(|p: Seq<char>| line_body(p));
        assert(ls.drop_last() =~= ls0);
        assert(ls.last() == env_line(e));
        assert(env_settings(ls) == env_view(v0).insert(e.key@, e.value@));
        assert forall|k: Seq<char>| #[trigger] env_view(vs).contains_key(k) == env_view(v0).insert(e.key@, e.value@).contains_key(k) by {
            crate::keyed::lemma_has_id_push(v0, e, k);
            assert(vs == v0.push(e));
        }
        assert forall|k: Seq<char>| env_view(vs).contains_key(k) implies #[trigger] env_view(vs)[k] == env_view(v0).insert(e.key@, e.value@)[k] by {
            assert(vs == v0.push(e));
            let i = index_of_id(vs, k);
            crate::keyed::lemma_has_id_push(v0, e, k);
            lemma_record_at(vs, i);
            if k == e.key@ {
                lemma_record_at(vs, vs.len() - 1);
            } else {
                let j = index_of_id(v0, k);
                lemma_record_at(v0, j);
                assert(vs[j] == v0[j]);
                lemma_record_at(vs, j);
            }
        }
        assert(env_view(vs) =~= env_view(v0).insert(e.key@, e.value@));
    }
}

/// The settings written as an `env.values` text read back as the same
/// settings, provided each key is valid and each value has no newline and
/// no white space at either end.
pub proof fn lemma_env_values_roundtrip(vs: Seq<EnvValue>)
    requires
        ids_sorted(vs),
        forall|i: int| 0 <= i < vs.len() ==> env_value_storable(#[trigger] vs[i]),
    ensures
        env_settings(text_lines(env_values_text(vs))) == env_view(vs),
{
    lemma_env_text_pieces(vs);
    let ls = vs.map_values(|e: EnvValue| env_line(e));
    assert forall|i: int| 0 <= i < ls.len() implies line_body(#[trigger] ls[i]) == ls[i] by {
        lemma_env_line_setting(vs[i]);
    }
    let lines = text_lines(env_values_text(vs));
    assert(lines =~= ls.map_values(|p: Seq<char>| line_body(p)).push(Seq::<char>::empty()));
    assert(lines.drop_last() =~= ls.map_values(|p: Seq<char>| line_body(p)));
    assert(env_line_setting(Seq::<char>::empty()) is None);
    lemma_env_settings_of_lines(vs);
}


// ---------------------------------------------------------------------------
// The environment a module declares: `env.spec`, one `KEY|default|type|
// label|description` per line.

/// One declared environment variable with its current value.
#[derive(Debug, Clone, PartialEq, Eq)]
pub struct EnvSpecItem {
    pub key: String,
    pub value: String,
    pub default_value: String,
    pub value_type: String,
    pub label: String,
    pub desc: String,
}

/// The fields of an item: key, value, default, type, label, description.
pub open spec fn item_fields(i: EnvSpecItem) -> (Seq<char>, Seq<char>, Seq<char>, Seq<char>, Seq<char>, Seq<char>) {
    (i.key@, i.value@, i.default_value@, i.value_type@, i.label@, i.desc@)
}

/// The item a line declares, with the value taken from `values` (else the
/// default): blank lines, `#` comments and invalid keys declare none; a
/// missing default is empty, a missing type `text`, a missing label the
/// key, a missing description `-`; every field is trimmed.
pub open spec fn env_spec_line(
    line: Seq<char>,
    values: Map<Seq<char>, Seq<char>>,
) -> Option<(Seq<char>, Seq<char>, Seq<char>, Seq<char>, Seq<char>, Seq<char>)> {
    let t = trim(line);
    if t.len() == 0 || t[0] == '#' {
        None
    } else {
        let parts = split_on(t, '|');
        let key = trim(parts[0]);
        if !env_key_ok(key) {
            None
        } else {
            let default_value = if parts.len() > 1 { trim(parts[1]) } else { Seq::<char>::empty() };
            let value_type = if parts.len() > 2 { trim(parts[2]) } else { "text"@ };
            let label = if parts.len() > 3 { trim(parts[3]) } else { trim(key) };
            let desc = if parts.len() > 4 { trim(parts[4]) } else { "-"@ };
            let value = if values.contains_key(key) { values[key] } else { default_value };
            Some((key, value, default_value, value_type, label, desc))
        }
    }
}

/// The items the lines declare, in order.
pub open spec fn env_spec_items(
    lines: Seq<Seq<char>>,
    values: Map<Seq<char>, Seq<char>>,
) -> Seq<(Seq<char>, Seq<char>, Seq<char>, Seq<char>, Seq<char>, Seq<char>)>
    decreases lines.len(),
{
    if lines.len() == 0 {
        Seq::empty()
    } else {
        let rest = env_spec_items(lines.drop_last(), values);
        match env_spec_line(lines.last(), values) {
            Some(f) => rest.push(f),
            None => rest,
        }
    }
}

fn trimmed_piece_or(parts: &Vec<Vec<char>>, k: usize, fallback: &Vec<char>) -> (r: String)
    ensures
        r@ == (if k < parts@.len() {
            trim(parts@[k as int]@)
        } else {
            trim(fallback@)
        }),
{
    if k < parts.len() {
        string_from_chars(&trim_chars(&parts[k]))
    } else {
        string_from_chars(&trim_chars(fallback))
    }
}

/// The item one line declares, as `env_spec_line` says.
fn spec_line_item(line: &Vec<char>, values: &Vec<EnvValue>) -> (r: Option<EnvSpecItem>)
    requires
        ids_sorted(values@),
    ensures
        match env_spec_line(line@, env_view(values@)) {
            Some(f) => r matches Some(i) && item_fields(i) == f,
            None => r is None,
        },
{
    let t = trim_chars(line);
    if t.len() == 0 || t[0] == '#' {
        return None;
    }
    let parts = split_char(&t, '|');
    proof {
        crate::text::lemma_split_on_nonempty(t@, '|');
    }
    let key = trim_chars(&parts[0]);
    if !env_key_chars_valid(&key) {
        return None;
    }
    let empty: Vec<char> = Vec::new();
    let default_value = trimmed_piece_or(&parts, 1, &empty);
    proof {
        assert(trim(empty@) == empty@) by {
            assert(empty@.len() == 0);
        }
    }
    let value_type = trimmed_piece_or(&parts, 2, &chars_of("text"));
    proof {
        reveal_strlit("text");
        assert(trim("text"@) == "text"@) by {
            assert(!crate::text::is_ws("text"@[0]));
            assert(!crate::text::is_ws("text"@.last()));
        }
    }
    let label = trimmed_piece_or(&parts, 3, &key);
    let desc = trimmed_piece_or(&parts, 4, &chars_of("-"));
    proof {
        reveal_strlit("-");
        assert(trim("-"@) == "-"@) by {
            assert(!crate::text::is_ws("-"@[0]));
            assert(!crate::text::is_ws("-"@.last()));
        }
    }
    let value = match env_get(values, &key) {
        Some(v) => v,
        None => default_value.clone(),
    };
    Some(EnvSpecItem { key: string_from_chars(&key), value, default_value, value_type, label, desc })
}

/// Reads an `env.spec` text against the current values, as
/// `env_spec_items` says.
pub fn module_env_items(spec_text: &str, values: &Vec<EnvValue>) -> (r: Vec<EnvSpecItem>)
    requires
        ids_sorted(values@),
    ensures
        r@.map_values(|i: EnvSpecItem| item_fields(i)) == env_spec_items(text_lines(spec_text@), env_view(values@)),
{
    let lines = lines_of(spec_text);
    let ghost ls = text_lines(spec_text@);
    let mut out: Vec<EnvSpecItem> = Vec::new();
    let mut i: usize = 0;
    proof {
        assert(out@.map_values(|i: EnvSpecItem| item_fields(i)) =~= env_spec_items(ls.take(0), env_view(values@)));
    }
    while i < lines.len()
        invariant
            i <= lines@.len(),
            lines@.len() == ls.len(),
            ls == text_lines(spec_text@),
            ids_sorted(values@),
            forall|k: int| 0 <= k < lines@.len() ==> #[trigger] lines@[k]@ == ls[k],
            out@.map_values(|i: EnvSpecItem| item_fields(i)) == env_spec_items(ls.take(i as int), env_view(values@)),
        decreases lines@.len() - i,
    {
        assert(ls.take(i + 1).drop_last() =~= ls.take(i as int));
        assert(ls.take(i + 1).last() == lines@[i as int]@);
        match spec_line_item(&lines[i], values) {
            Some(item) => {
                out.push(item);
            },
            None => {},
        }
        i += 1;
        assert(out@.map_values(|i: EnvSpecItem| item_fields(i)) =~= env_spec_items(ls.take(i as int), env_view(values@)));
    }
    assert(ls.take(lines@.len() as int) =~= ls);
    out
}

/// The listing row of an item: `module_env_row=` and its six fields made
/// safe for the `|` separator.
pub open spec fn env_row_text(i: EnvSpecItem) -> Seq<char> {
    "module_env_row="@ + pipe_sanitized(i.key@) + "|"@ + pipe_sanitized(i.value@) + "|"@
        + pipe_sanitized(i.default_value@) + "|"@ + pipe_sanitized(i.value_type@) + "|"@
        + pipe_sanitized(i.label@) + "|"@ + pipe_sanitized(i.desc@)
}

/// The listing row of an item, as `env_row_text` says.
pub fn module_env_row(item: &EnvSpecItem) -> (r: String)
    ensures
        r@ == env_row_text(*item),
{
    let mut v: Vec<char> = Vec::new();
    push_str(&mut v, "module_env_row=");
    push_str(&mut v, sanitize_pipe_field(item.key.as_str()).as_str());
    push_str(&mut v, "|");
    push_str(&mut v, sanitize_pipe_field(item.value.as_str()).as_str());
    push_str(&mut v, "|");
    push_str(&mut v, sanitize_pipe_field(item.default_value.as_str()).as_str());
    push_str(&mut v, "|");
    push_str(&mut v, sanitize_pipe_field(item.value_type.as_str()).as_str());
    push_str(&mut v, "|");
    push_str(&mut v, sanitize_pipe_field(item.label.as_str()).as_str());
    push_str(&mut v, "|");
    push_str(&mut v, sanitize_pipe_field(item.desc.as_str()).as_str());
    assert(v@ =~= env_row_text(*item));
    string_from_chars(&v)
}


// ---------------------------------------------------------------------------
// The actions a module offers: the scripts of its `actions/` directory.

/// An action a module offers: its id (the script's name without `.sh`),
/// its display name and whether running it is dangerous.
#[derive(Debug, Clone, PartialEq, Eq)]
pub struct ActionEntry {
    pub id: String,
    pub name: String,
    pub danger: bool,
}

impl Keyed for ActionEntry {
    open spec fn key(&self) -> Seq<char> {
        self.id@
    }
}

impl KeyText for ActionEntry {
    fn key_text(&self) -> (r: &str) {
        self.id.as_str()
    }
}

/// The fields of an action entry: id, name, danger.
pub open spec fn action_fields(e: ActionEntry) -> (Seq<char>, Seq<char>, bool) {
    (e.id@, e.name@, e.danger)
}

/// What the last of the lines that start (once trimmed) with `p` holds
/// after `p`.
pub open spec fn last_prefixed(lines: Seq<Seq<char>>, p: Seq<char>) -> Option<Seq<char>>
    decreases lines.len(),
{
    if lines.len() == 0 {
        None
    } else if has_prefix(trim(lines.last()), p) {
        Some(trim(lines.last()).skip(p.len() as int))
    } else {
        last_prefixed(lines.drop_last(), p)
    }
}

/// The action a script declares: none for an invalid id; its name is the
/// unquoted value of the last `ACTION_NAME=` line (else the id), and it is
/// dangerous when the last `ACTION_DANGER=` line says a yes.
pub open spec fn action_of(stem: Seq<char>, text: Seq<char>) -> Option<(Seq<char>, Seq<char>, bool)> {
    if !id_ok(stem) {
        None
    } else {
        let lines = text_lines(text);
        let name = match last_prefixed(lines, "ACTION_NAME="@) {
            Some(v) => shell_value(v),
            None => stem,
        };
        let danger = match last_prefixed(lines, "ACTION_DANGER="@) {
            Some(v) => spec_bool_like(v),
            None => false,
        };
        Some((stem, name, danger))
    }
}

/// The actions of the scripts (stem and text), by id.
pub open spec fn actions_of(scripts: Seq<(String, String)>) -> Map<Seq<char>, (Seq<char>, Seq<char>, bool)>
    decreases scripts.len(),
{
    if scripts.len() == 0 {
        Map::empty()
    } else {
        let m = actions_of(scripts.drop_last());
        match action_of(scripts.last().0@, scripts.last().1@) {
            Some(f) => m.insert(f.0, f),
            None => m,
        }
    }
}

/// The fields of key-sorted action entries, by id.
pub open spec fn action_view(entries: Seq<ActionEntry>) -> Map<Seq<char>, (Seq<char>, Seq<char>, bool)> {
    Map::new(
        |k: Seq<char>| record_map(entries).contains_key(k),
        |k: Seq<char>| action_fields(record_map(entries)[k]),
    )
}

/// The action one script declares, as `action_of` says.
pub fn action_entry(stem: &str, text: &str) -> (r: Option<ActionEntry>)
    ensures
        match action_of(stem@, text@) {
            Some(f) => r matches Some(e) && action_fields(e) == f,
            None => r is None,
        },
{
    let sv = chars_of(stem);
    if !chars_id_ok(&sv) {
        return None;
    }
    let lines = lines_of(text);
    let ghost ls = text_lines(text@);
    let mut name: Option<Vec<char>> = None;
    let mut danger: Option<Vec<char>> = None;
    let mut i: usize = 0;
    proof {
        reveal_strlit("ACTION_NAME=");
        reveal_strlit("ACTION_DANGER=");
        assert(ls.take(0) =~= Seq::<Seq<char>>::empty());
    }
    while i < lines.len()
        invariant
            i <= lines@.len(),
            lines@.len() == ls.len(),
            ls == text_lines(text@),
            forall|k: int| 0 <= k < lines@.len() ==> #[trigger] lines@[k]@ == ls[k],
            match last_prefixed(ls.take(i as int), "ACTION_NAME="@) {
                Some(v) => name matches Some(n) && n@ == v,
                None => name is None,
            },
            match last_prefixed(ls.take(i as int), "ACTION_DANGER="@) {
                Some(v) => danger matches Some(n) && n@ == v,
                None => danger is None,
            },
        decreases lines@.len() - i,
    {
        assert(ls.take(i + 1).drop_last() =~= ls.take(i as int));
        assert(ls.take(i + 1).last() == lines@[i as int]@);
        let t = trim_chars(&lines[i]);
        match strip_prefix_chars(&t, "ACTION_NAME=") {
            Some(rest) => {
                name = Some(rest);
            },
            None => {},
        }
        match strip_prefix_chars(&t, "ACTION_DANGER=") {
            Some(rest) => {
                danger = Some(rest);
            },
            None => {},
        }
        i += 1;
    }
    assert(ls.take(lines@.len() as int) =~= ls);
    let name_text = match name {
        Some(v) => string_from_chars(&shell_value_chars(&v)),
        None => stem.to_owned(),
    };
    let is_danger = match danger {
        Some(v) => crate::module_runtime::parse_bool_like(string_from_chars(&v).as_str()),
        None => false,
    };
    Some(ActionEntry { id: stem.to_owned(), name: name_text, danger: is_danger })
}

/// The actions of a module's scripts (stem and text of each), in id order.
pub fn action_entries(scripts: &Vec<(String, String)>) -> (r: Vec<ActionEntry>)
    ensures
        ids_sorted(r@),
        action_view(r@) == actions_of(scripts@),
{
    let mut out: Vec<ActionEntry> = Vec::new();
    let mut i: usize = 0;
    proof {
        assert(action_view(out@) =~= actions_of(scripts@.take(0)));
    }
    while i < scripts.len()
        invariant
            i <= scripts@.len(),
            ids_sorted(out@),
            action_view(out@) == actions_of(scripts@.take(i as int)),
        decreases scripts@.len() - i,
    {
        assert(scripts@.take(i + 1).drop_last() =~= scripts@.take(i as int));
        assert(scripts@.take(i + 1).last() == scripts@[i as int]);
        match action_entry(scripts[i].0.as_str(), scripts[i].1.as_str()) {
            Some(e) => {
                let key = chars_of(e.id.as_str());
                let (p, found) = locate_key(&out, &key);
                let ghost before = out@;
                if found {
                    proof {
                        lemma_update_keeps_order(out@, p as int, e);
                    }
                    out.set(p, e);
                } else {
                    proof {
                        lemma_insert_keeps_order(out@, p as int, e);
                    }
                    out.insert(p, e);
                }
                assert(action_view(out@) =~= action_view(before).insert(key@, action_fields(e)));
            },
            None => {},
        }
        i += 1;
    }
    assert(scripts@.take(scripts@.len() as int) =~= scripts@);
    out
}

// ---------------------------------------------------------------------------
// The main capability of a module: a script of its `capabilities/`
// directory.

/// The capability id of a script: its non-empty `CAP_ID=` value, else its
/// stem.
pub open spec fn cap_id_view(stem: Seq<char>, text: Seq<char>) -> Seq<char> {
    match crate::module_runtime::cap_lookup(split_on(text, '\n')) {
        Some(v) => v,
        None => stem,
    }
}

/// A script may serve as the main capability `configured`: any does when
/// none is configured.
pub open spec fn cap_candidate(configured: Seq<char>, stem: Seq<char>, text: Seq<char>) -> bool {
    configured.len() == 0 || cap_id_view(stem, text) == configured
}

/// The file name of a script.
pub open spec fn script_name(stem: Seq<char>) -> Seq<char> {
    stem + ".sh"@
}

/// The main capability script among the capability scripts (stem and text
/// of each): of those that may serve (see `cap_candidate`), the one whose
/// file name comes first; none when none may.
pub fn main_cap_index(configured: &str, caps: &Vec<(String, String)>) -> (r: Option<usize>)
    ensures
        match r {
            Some(i) => i < caps@.len() && cap_candidate(configured@, caps@[i as int].0@, caps@[i as int].1@)
                && forall|j: int|
                0 <= j < caps@.len() && cap_candidate(configured@, caps@[j].0@, caps@[j].1@) ==> !text_lt(
                    script_name(#[trigger] caps@[j].0@),
                    script_name(caps@[i as int].0@),
                ),
            None => forall|j: int| 0 <= j < caps@.len() ==> !cap_candidate(configured@, #[trigger] caps@[j].0@, caps@[j].1@),
        },
{
    let conf = chars_of(configured);
    let mut best: Option<usize> = None;
    let mut best_name: Vec<char> = Vec::new();
    let mut i: usize = 0;
    while i < caps.len()
        invariant
            i <= caps@.len(),
            conf@ == configured@,
            match best {
                Some(b) => b < i && cap_candidate(configured@, caps@[b as int].0@, caps@[b as int].1@)
                    && best_name@ == script_name(caps@[b as int].0@) && forall|j: int|
                    0 <= j < i && cap_candidate(configured@, caps@[j].0@, caps@[j].1@) ==> !text_lt(
                        script_name(#[trigger] caps@[j].0@),
                        best_name@,
                    ),
                None => forall|j: int| 0 <= j < i ==> !cap_candidate(configured@, #[trigger] caps@[j].0@, caps@[j].1@),
            },
        decreases caps@.len() - i,
    {
        let candidate = if conf.len() == 0 {
            true
        } else {
            let id = crate::module_runtime::cap_id_of_file(caps[i].1.as_str(), caps[i].0.as_str());
            chars_same(&chars_of(id.as_str()), &conf)
        };
        if candidate {
            let mut name = chars_of(caps[i].0.as_str());
            push_str(&mut name, ".sh");
            proof {
                reveal_strlit(".sh");
            }
            assert(name@ =~= script_name(caps@[i as int].0@));
            let better = match best {
                None => true,
                Some(_) => chars_lt(&name, &best_name),
            };
            if better {
                proof {
                    lemma_text_lt_irreflexive(name@);
                    if let Some(b) = best {
                        assert forall|j: int|
                            0 <= j < i && cap_candidate(configured@, caps@[j].0@, caps@[j].1@) implies !text_lt(
                            script_name(#[trigger] caps@[j].0@),
                            name@,
                        ) by {
                            if text_lt(script_name(caps@[j].0@), name@) {
                                lemma_text_lt_transitive(script_name(caps@[j].0@), name@, best_name@);
                            }
                        }
                    }
                }
                best = Some(i);
                best_name = name;
            }
        }
        i += 1;
    }
    best
}


// ---------------------------------------------------------------------------
// A module directory as the registry sees it.

/// The value a module description gives `key`, else `alias`, else
/// `default_val`, as `module_meta_with_alias` reads it.
pub open spec fn meta_or(text: Seq<char>, key: Seq<char>, alias: Seq<char>, default_val: Seq<char>) -> Seq<char> {
    match crate::module_runtime::meta_lookup(split_on(text, '\n'), key + "="@) {
        Some(v) => v,
        None => match crate::module_runtime::meta_lookup(split_on(text, '\n'), alias + "="@) {
            Some(v) => v,
            None => default_val,
        },
    }
}

/// A module directory found on disk, from its id, its description (none
/// when it cannot be read, which reads as empty), the number of its action
/// scripts and whether its disable flag exists: name, kind, version, main
/// capability and auto start come from the description, with defaults the
/// id, `module`, `0`, nothing and `0`.
pub fn disk_module(module_id: &str, meta_text: Option<&str>, action_count: usize, disabled: bool) -> (r: crate::module_runtime::DiskModule)
    ensures
        ({
            let t = match meta_text {
                Some(x) => x@,
                None => Seq::<char>::empty(),
            };
            &&& r.module_id@ == module_id@
            &&& r.name@ == meta_or(t, "MODULE_NAME"@, "DSAPI_MODULE_NAME"@, module_id@)
            &&& r.kind@ == meta_or(t, "MODULE_KIND"@, "DSAPI_MODULE_KIND"@, "module"@)
            &&& r.version@ == meta_or(t, "MODULE_VERSION"@, "DSAPI_MODULE_VERSION"@, "0"@)
            &&& r.main_cap@ == meta_or(t, "MAIN_CAP_ID"@, "DSAPI_MAIN_CAP_ID"@, ""@)
            &&& r.auto_start == spec_bool_like(meta_or(t, "MODULE_AUTO_START"@, "DSAPI_MODULE_AUTO_START"@, "0"@))
            &&& r.action_count == action_count as u32
            &&& r.disabled == disabled
        }),
{
    let e = "";
    proof {
        reveal_strlit("");
    }
    let t: &str = match meta_text {
        Some(x) => x,
        None => e,
    };
    let auto = crate::module_runtime::module_meta_with_alias(t, "MODULE_AUTO_START", "DSAPI_MODULE_AUTO_START", "0");
    crate::module_runtime::DiskModule {
        module_id: module_id.to_owned(),
        name: crate::module_runtime::module_meta_with_alias(t, "MODULE_NAME", "DSAPI_MODULE_NAME", module_id),
        kind: crate::module_runtime::module_meta_with_alias(t, "MODULE_KIND", "DSAPI_MODULE_KIND", "module"),
        version: crate::module_runtime::module_meta_with_alias(t, "MODULE_VERSION", "DSAPI_MODULE_VERSION", "0"),
        main_cap: crate::module_runtime::module_meta_with_alias(t, "MAIN_CAP_ID", "DSAPI_MAIN_CAP_ID", ""),
        auto_start: crate::module_runtime::parse_bool_like(auto.as_str()),
        action_count: action_count as u32,
        disabled,
    }
}


// ---------------------------------------------------------------------------
// The environment a module script runs with.

/// `b` under directory `a`, as a path join with a relative `b` gives it.
pub open spec fn path_join(a: Seq<char>, b: Seq<char>) -> Seq<char> {
    if a.len() == 0 {
        b
    } else if a.last() == '/' {
        a + b
    } else {
        a + "/"@ + b
    }
}

fn join_path(a: &str, b: &str) -> (r: String)
    ensures
        r@ == path_join(a@, b@),
{
    let mut v = chars_of(a);
    let n = v.len();
    if n > 0 && v[n - 1] != '/' {
        v.push('/');
    }
    push_str(&mut v, b);
    proof {
        reveal_strlit("/");
    }
    string_from_chars(&v)
}

/// The variables of a module script's environment, in the order they are
/// set (a later one of the same name wins): the layout under `base` (the
/// parent of the modules directory, `/data/adb/dsapi` when it has none),
/// the module root (`modroot`, the default module path when none is
/// given), the runtime's directories, the module, the action and its
/// timeout, the `app_process` binary when one was found, then the
/// module's own values.
pub open spec fn script_env(
    cfg: crate::module_runtime::ModuleRuntimeConfig,
    base: Option<Seq<char>>,
    modroot: Option<Seq<char>>,
    module_id: Seq<char>,
    action_id: Seq<char>,
    app_process_bin: Option<Seq<char>>,
    values: Seq<EnvValue>,
) -> Seq<(Seq<char>, Seq<char>)> {
    let b = match base {
        Some(x) => x,
        None => "/data/adb/dsapi"@,
    };
    let run = path_join(b, "run"@);
    let runtime = path_join(b, "runtime"@);
    let current = path_join(runtime, "current"@);
    let head = seq![
        ("DSAPI_MODROOT"@, match modroot { Some(m) => m, None => "/data/adb/modules/directscreenapi"@ }),
        ("DSAPI_BASE_DIR"@, b),
        ("DSAPI_RUN_DIR"@, run),
        ("DSAPI_LOG_DIR"@, path_join(b, "log"@)),
        ("DSAPI_STATE_DIR"@, path_join(b, "state"@)),
        ("DSAPI_RUNTIME_DIR"@, runtime),
        ("DSAPI_RELEASES_DIR"@, path_join(runtime, "releases"@)),
        ("DSAPI_ACTIVE_RELEASE"@, current),
        ("DSAPI_ACTIVE_DSAPID"@, path_join(path_join(current, "bin"@), "dsapid"@)),
        ("DSAPI_ACTIVE_DSAPICTL"@, path_join(path_join(current, "bin"@), "dsapictl"@)),
        ("DSAPI_DAEMON_SOCKET"@, path_join(run, "dsapi.sock"@)),
        ("DSAPI_DAEMON_PID_FILE"@, path_join(run, "dsapid.pid"@)),
        ("DSAPI_AGENT_RUN_DIR"@, path_join(run, "agents"@)),
        ("DSAPI_ACTIVE_ADAPTER_DEX"@, path_join(path_join(current, "android"@), "directscreen-adapter-dex.jar"@)),
        ("DSAPI_MODULES_DIR"@, cfg.module_root_dir@),
        ("DSAPI_MODULE_DISABLED_DIR"@, cfg.module_disabled_dir@),
        ("DSAPI_MODULE_STATE_ROOT"@, cfg.module_state_root_dir@),
        ("DSAPI_MODULE_ID"@, module_id),
        ("DSAPI_MODULE_DIR"@, path_join(cfg.module_root_dir@, module_id)),
        ("DSAPI_MODULE_STATE_DIR"@, path_join(cfg.module_state_root_dir@, module_id)),
        ("DSAPI_MODULE_ACTION_ID"@, action_id),
        ("DSAPI_MODULE_ACTION_TIMEOUT_SEC"@, crate::text::decimal_text(cfg.action_timeout_sec as nat)),
    ];
    let with_bin = match app_process_bin {
        Some(p) => head.push(("DSAPI_APP_PROCESS_BIN"@, p)),
        None => head,
    };
    with_bin + values.map_values(|e: EnvValue| (e.key@, e.value@))
}

fn put_var(out: &mut Vec<(String, String)>, key: &str, value: String)
    ensures
        final(out)@.map_values(|p: (String, String)| (p.0@, p.1@)) == old(out)@.map_values(
            |p: (String, String)| (p.0@, p.1@),
        ).push((key@, value@)),
{
    out.push((key.to_owned(), value));
    assert(out@.map_values(|p: (String, String)| (p.0@, p.1@)) =~= old(out)@.map_values(
        |p: (String, String)| (p.0@, p.1@),
    ).push((key@, value@)));
}

/// The environment of a module script, as `script_env` says.
pub fn module_script_env(
    cfg: &crate::module_runtime::ModuleRuntimeConfig,
    base: Option<&str>,
    modroot: Option<&str>,
    module_id: &str,
    action_id: &str,
    app_process_bin: Option<&str>,
    values: &Vec<EnvValue>,
) -> (r: Vec<(String, String)>)
    ensures
        r@.map_values(|p: (String, String)| (p.0@, p.1@)) == script_env(
            *cfg,
            match base {
                Some(x) => Some(x@),
                None => None,
            },
            match modroot {
                Some(x) => Some(x@),
                None => None,
            },
            module_id@,
            action_id@,
            match app_process_bin {
                Some(x) => Some(x@),
                None => None,
            },
            values@,
        ),
{
    let b: String = match base {
        Some(x) => x.to_owned(),
        None => "/data/adb/dsapi".to_owned(),
    };
    let run = join_path(b.as_str(), "run");
    let runtime = join_path(b.as_str(), "runtime");
    let current = join_path(runtime.as_str(), "current");
    let bin = join_path(current.as_str(), "bin");
    let mut out: Vec<(String, String)> = Vec::new();
    put_var(&mut out, "DSAPI_MODROOT", match modroot {
        Some(m) => m.to_owned(),
        None => "/data/adb/modules/directscreenapi".to_owned(),
    });
    put_var(&mut out, "DSAPI_BASE_DIR", b.clone());
    put_var(&mut out, "DSAPI_RUN_DIR", run.clone());
    put_var(&mut out, "DSAPI_LOG_DIR", join_path(b.as_str(), "log"));
    put_var(&mut out, "DSAPI_STATE_DIR", join_path(b.as_str(), "state"));
    put_var(&mut out, "DSAPI_RUNTIME_DIR", runtime.clone());
    put_var(&mut out, "DSAPI_RELEASES_DIR", join_path(runtime.as_str(), "releases"));
    put_var(&mut out, "DSAPI_ACTIVE_RELEASE", current.clone());
    put_var(&mut out, "DSAPI_ACTIVE_DSAPID", join_path(bin.as_str(), "dsapid"));
    put_var(&mut out, "DSAPI_ACTIVE_DSAPICTL", join_path(bin.as_str(), "dsapictl"));
    put_var(&mut out, "DSAPI_DAEMON_SOCKET", join_path(run.as_str(), "dsapi.sock"));
    put_var(&mut out, "DSAPI_DAEMON_PID_FILE", join_path(run.as_str(), "dsapid.pid"));
    put_var(&mut out, "DSAPI_AGENT_RUN_DIR", join_path(run.as_str(), "agents"));
    put_var(
        &mut out,
        "DSAPI_ACTIVE_ADAPTER_DEX",
        join_path(join_path(current.as_str(), "android").as_str(), "directscreen-adapter-dex.jar"),
    );
    put_var(&mut out, "DSAPI_MODULES_DIR", cfg.module_root_dir.clone());
    put_var(&mut out, "DSAPI_MODULE_DISABLED_DIR", cfg.module_disabled_dir.clone());
    put_var(&mut out, "DSAPI_MODULE_STATE_ROOT", cfg.module_state_root_dir.clone());
    put_var(&mut out, "DSAPI_MODULE_ID", module_id.to_owned());
    put_var(&mut out, "DSAPI_MODULE_DIR", join_path(cfg.module_root_dir.as_str(), module_id));
    put_var(&mut out, "DSAPI_MODULE_STATE_DIR", join_path(cfg.module_state_root_dir.as_str(), module_id));
    put_var(&mut out, "DSAPI_MODULE_ACTION_ID", action_id.to_owned());
    let mut t: Vec<char> = Vec::new();
    crate::text::push_decimal(&mut t, cfg.action_timeout_sec);
    put_var(&mut out, "DSAPI_MODULE_ACTION_TIMEOUT_SEC", string_from_chars(&t));
    match app_process_bin {
        Some(p) => put_var(&mut out, "DSAPI_APP_PROCESS_BIN", p.to_owned()),
        None => {},
    }
    let ghost head = out@.map_values(|p: (String, String)| (p.0@, p.1@));
    let mut i: usize = 0;
    while i < values.len()
        invariant
            i <= values@.len(),
            out@.map_values(|p: (String, String)| (p.0@, p.1@)) == head + values@.take(i as int).map_values(
                |e: EnvValue| (e.key@, e.value@),
            ),
        decreases values@.len() - i,
    {
        put_var(&mut out, values[i].key.as_str(), values[i].value.clone());
        i += 1;
        assert(values@.take(i as int).map_values(|e: EnvValue| (e.key@, e.value@)) =~= values@.take(i - 1).map_values(
            |e: EnvValue| (e.key@, e.value@),
        ).push((values@[i - 1].key@, values@[i - 1].value@)));
    }
    assert(values@.take(values@.len() as int) =~= values@);
    proof {
        reveal_strlit("/data/adb/dsapi");
    }
    out
}


/// The `sh -c` script that calls function `func` of a capability script:
/// it sources the script, calls the function when the script defines it,
/// and exits with 127 when it does not.
pub fn cap_call_script(cap_file: &str, func: &str) -> (r: String)
    ensures
        r@ == ". "@ + (seq!['"'] + crate::module_runtime::shell_quoted_body(cap_file@) + seq!['"'])
            + "; if command -v "@ + func@ + " >/dev/null 2>&1; then "@ + func@ + " ; else exit 127; fi"@,
{
    let q = crate::module_runtime::shell_quote(cap_file);
    let mut v: Vec<char> = Vec::new();
    push_str(&mut v, ". ");
    push_str(&mut v, q.as_str());
    push_str(&mut v, "; if command -v ");
    push_str(&mut v, func);
    push_str(&mut v, " >/dev/null 2>&1; then ");
    push_str(&mut v, func);
    push_str(&mut v, " ; else exit 127; fi");
    string_from_chars(&v)
}

} // verus!
