use vstd::prelude::*;

verus! {

/// The characters of `s`, in order.
pub fn chars_of(s: &str) -> (v: Vec<char>)
    ensures
        v@ == s@,
{
    let mut v: Vec<char> = Vec::new();
    for c in it: s.chars()
        invariant
            v@ == it.seq().take(it.index() as int),
            it.seq() == s@,
    {
        v.push(c);
    }
    v
}

/// Appends one character to a string (`String::push`).
#[verifier::external_body]
fn push_char(s: &mut String, c: char)
    ensures
        final(s)@ == old(s)@.push(c),
{
    s.push(c);
}

/// A string holding exactly the characters of `v`.
pub fn string_from_chars(v: &Vec<char>) -> (s: String)
    ensures
        s@ == v@,
{
    let mut s = String::new();
    let mut i: usize = 0;
    while i < v.len()
        invariant
            i <= v.len(),
            s@ == v@.take(i as int),
        decreases v.len() - i,
    {
        push_char(&mut s, v[i]);
        i += 1;
        assert(v@.take(i as int) == v@.take((i - 1) as int).push(v@[i - 1]));
    }
    assert(v@.take(v.len() as int) == v@);
    s
}

/// Whether `a` holds exactly the characters of `b`.
pub fn chars_eq(a: &Vec<char>, b: &str) -> (r: bool)
    ensures
        r == (a@ == b@),
{
    let bv = chars_of(b);
    if a.len() != bv.len() {
        return false;
    }
    let mut i: usize = 0;
    while i < a.len()
        invariant
            a.len() == bv.len(),
            bv@ == b@,
            i <= a.len(),
            forall|j: int| 0 <= j < i ==> a@[j] == bv@[j],
        decreases a.len() - i,
    {
        if a[i] != bv[i] {
            return false;
        }
        i += 1;
    }
    assert(a@ =~= bv@);
    true
}

// ---------------------------------------------------------------------------
// ASCII classes

pub open spec fn is_ascii_digit(c: char) -> bool {
    '0' <= c <= '9'
}

pub open spec fn is_ascii_upper(c: char) -> bool {
    'A' <= c <= 'Z'
}

pub open spec fn is_ascii_lower(c: char) -> bool {
    'a' <= c <= 'z'
}

pub open spec fn is_ascii_alnum(c: char) -> bool {
    is_ascii_digit(c) || is_ascii_upper(c) || is_ascii_lower(c)
}

/// ASCII upper case of one character; every other character is kept.
pub open spec fn ascii_upper(c: char) -> char {
    if is_ascii_lower(c) {
        ((c as u32) - 32) as char
    } else {
        c
    }
}

/// ASCII lower case of one character; every other character is kept.
pub open spec fn ascii_lower(c: char) -> char {
    if is_ascii_upper(c) {
        ((c as u32) + 32) as char
    } else {
        c
    }
}

pub fn char_is_ascii_digit(c: char) -> (r: bool)
    ensures
        r == is_ascii_digit(c),
{
    '0' <= c && c <= '9'
}

pub fn char_is_ascii_alnum(c: char) -> (r: bool)
    ensures
        r == is_ascii_alnum(c),
{
    ('0' <= c && c <= '9') || ('A' <= c && c <= 'Z') || ('a' <= c && c <= 'z')
}

pub fn char_ascii_lower(c: char) -> (r: char)
    ensures
        r == ascii_lower(c),
{
    if 'A' <= c && c <= 'Z' {
        let v: u32 = c as u32;
        proof {
            assert(65 <= v <= 90);
        }
        char_from_ascii(v + 32)
    } else {
        c
    }
}

pub fn char_ascii_upper(c: char) -> (r: char)
    ensures
        r == ascii_upper(c),
{
    if 'a' <= c && c <= 'z' {
        let v: u32 = c as u32;
        char_from_ascii(v - 32)
    } else {
        c
    }
}

/// The character of an ASCII code.
fn char_from_ascii(v: u32) -> (c: char)
    requires
        v < 128,
    ensures
        c == v as char,
        c as u32 == v,
{
    let b: u8 = v as u8;
    b as char
}


// ---------------------------------------------------------------------------
// White space, as `char::is_whitespace` defines it (Unicode White_Space).

pub open spec fn is_ws(c: char) -> bool {
    let v = c as u32;
    (0x09 <= v <= 0x0d) || v == 0x20 || v == 0x85 || v == 0xa0 || v == 0x1680 || (0x2000 <= v
        <= 0x200a) || v == 0x2028 || v == 0x2029 || v == 0x202f || v == 0x205f || v == 0x3000
}

pub fn char_is_ws(c: char) -> (r: bool)
    ensures
        r == is_ws(c),
{
    let v: u32 = c as u32;
    (0x09 <= v && v <= 0x0d) || v == 0x20 || v == 0x85 || v == 0xa0 || v == 0x1680 || (0x2000 <= v
        && v <= 0x200a) || v == 0x2028 || v == 0x2029 || v == 0x202f || v == 0x205f || v == 0x3000
}

/// The maximal runs of non-white-space characters of `s`, in order
/// (`str::split_whitespace`).
pub open spec fn ws_tokens(s: Seq<char>) -> Seq<Seq<char>>
    decreases s.len(),
{
    if s.len() == 0 {
        Seq::empty()
    } else {
        let p = s.drop_last();
        let c = s.last();
        if is_ws(c) {
            ws_tokens(p)
        } else if p.len() > 0 && !is_ws(p.last()) {
            let t = ws_tokens(p);
            t.update(t.len() - 1, t.last().push(c))
        } else {
            ws_tokens(p).push(seq![c])
        }
    }
}

proof fn lemma_ws_tokens_nonempty(s: Seq<char>)
    requires
        s.len() > 0,
        !is_ws(s.last()),
    ensures
        ws_tokens(s).len() > 0,
        ws_tokens(s).last().len() > 0,
    decreases s.len(),
{
    let p = s.drop_last();
    if p.len() > 0 && !is_ws(p.last()) {
        lemma_ws_tokens_nonempty(p);
    }
}

/// `str::split_whitespace`, each token as its characters.
pub fn split_ws(s: &Vec<char>) -> (t: Vec<Vec<char>>)
    ensures
        t@.len() == ws_tokens(s@).len(),
        forall|k: int| 0 <= k < t@.len() ==> #[trigger] t@[k]@ == ws_tokens(s@)[k],
{
    let mut out: Vec<Vec<char>> = Vec::new();
    let mut cur: Vec<char> = Vec::new();
    let mut i: usize = 0;
    while i < s.len()
        invariant
            i <= s.len(),
            ({
                let full = ws_tokens(s@.take(i as int));
                if i > 0 && !is_ws(s@[i - 1]) {
                    &&& full.len() == out@.len() + 1
                    &&& full.last() == cur@
                    &&& cur@.len() > 0
                    &&& forall|k: int| 0 <= k < out@.len() ==> #[trigger] out@[k]@ == full[k]
                } else {
                    &&& cur@.len() == 0
                    &&& full.len() == out@.len()
                    &&& forall|k: int| 0 <= k < out@.len() ==> #[trigger] out@[k]@ == full[k]
                }
            }),
        decreases s.len() - i,
    {
        let c = s[i];
        let ghost full = ws_tokens(s@.take(i as int));
        let ghost old_out = out@;
        let ghost old_cur = cur@;
        let ghost prev_word = i > 0 && !is_ws(s@[i - 1]);
        proof {
            let q = s@.take(i as int + 1);
            assert(q.drop_last() == s@.take(i as int));
            assert(q.last() == c);
            if i > 0 {
                assert(s@.take(i as int).last() == s@[i - 1]);
            }
        }
        if char_is_ws(c) {
            if cur.len() > 0 {
                let done = cur;
                cur = Vec::new();
                out.push(done);
                proof {
                    assert forall|k: int| 0 <= k < out@.len() implies #[trigger] out@[k]@ == full[k] by {
                        if k < old_out.len() {
                            assert(out@[k] == old_out[k]);
                        }
                    }
                }
            }
        } else {
            cur.push(c);
            proof {
                let full2 = ws_tokens(s@.take(i as int + 1));
                if prev_word {
                    assert(full2 == full.update(full.len() - 1, full.last().push(c)));
                    assert forall|k: int| 0 <= k < out@.len() implies #[trigger] out@[k]@ == full2[k] by {
                        assert(out@[k]@ == full[k]);
                    }
                } else {
                    assert(full2 == full.push(seq![c]));
                    assert(cur@ == seq![c]);
                    assert forall|k: int| 0 <= k < out@.len() implies #[trigger] out@[k]@ == full2[k] by {
                        assert(out@[k]@ == full[k]);
                    }
                }
            }
        }
        i += 1;
    }
    if cur.len() > 0 {
        let ghost old_out = out@;
        out.push(cur);
        proof {
            let full = ws_tokens(s@.take(i as int));
            assert forall|k: int| 0 <= k < out@.len() implies #[trigger] out@[k]@ == full[k] by {
                if k < old_out.len() {
                    assert(out@[k] == old_out[k]);
                }
            }
        }
    }
    assert(s@.take(s.len() as int) == s@);
    out
}

/// ASCII white space, as `char::is_ascii_whitespace` defines it: space,
/// tab, line feed, form feed and carriage return.
pub open spec fn is_ascii_ws(c: char) -> bool {
    c == ' ' || c == '\t' || c == '\n' || c == '\x0C' || c == '\r'
}

pub fn char_is_ascii_ws(c: char) -> (r: bool)
    ensures
        r == is_ascii_ws(c),
{
    c == ' ' || c == '\t' || c == '\n' || c == '\x0C' || c == '\r'
}

/// The maximal runs of characters of `s` that are not ASCII white space, in order
/// (`str::split_ascii_whitespace`).
pub open spec fn ascii_ws_tokens(s: Seq<char>) -> Seq<Seq<char>>
    decreases s.len(),
{
    if s.len() == 0 {
        Seq::empty()
    } else {
        let p = s.drop_last();
        let c = s.last();
        if is_ascii_ws(c) {
            ascii_ws_tokens(p)
        } else if p.len() > 0 && !is_ascii_ws(p.last()) {
            let t = ascii_ws_tokens(p);
            t.update(t.len() - 1, t.last().push(c))
        } else {
            ascii_ws_tokens(p).push(seq![c])
        }
    }
}

/// `str::split_ascii_whitespace`, each token as its characters.
pub fn split_ascii_ws(s: &Vec<char>) -> (t: Vec<Vec<char>>)
    ensures
        t@.len() == ascii_ws_tokens(s@).len(),
        forall|k: int| 0 <= k < t@.len() ==> #[trigger] t@[k]@ == ascii_ws_tokens(s@)[k],
{
    let mut out: Vec<Vec<char>> = Vec::new();
    let mut cur: Vec<char> = Vec::new();
    let mut i: usize = 0;
    while i < s.len()
        invariant
            i <= s.len(),
            ({
                let full = ascii_ws_tokens(s@.take(i as int));
                if i > 0 && !is_ascii_ws(s@[i - 1]) {
                    &&& full.len() == out@.len() + 1
                    &&& full.last() == cur@
                    &&& cur@.len() > 0
                    &&& forall|k: int| 0 <= k < out@.len() ==> #[trigger] out@[k]@ == full[k]
                } else {
                    &&& cur@.len() == 0
                    &&& full.len() == out@.len()
                    &&& forall|k: int| 0 <= k < out@.len() ==> #[trigger] out@[k]@ == full[k]
                }
            }),
        decreases s.len() - i,
    {
        let c = s[i];
        let ghost full = ascii_ws_tokens(s@.take(i as int));
        let ghost old_out = out@;
        let ghost old_cur = cur@;
        let ghost prev_word = i > 0 && !is_ascii_ws(s@[i - 1]);
        proof {
            let q = s@.take(i as int + 1);
            assert(q.drop_last() == s@.take(i as int));
            assert(q.last() == c);
            if i > 0 {
                assert(s@.take(i as int).last() == s@[i - 1]);
            }
        }
        if char_is_ascii_ws(c) {
            if cur.len() > 0 {
                let done = cur;
                cur = Vec::new();
                out.push(done);
                proof {
                    assert forall|k: int| 0 <= k < out@.len() implies #[trigger] out@[k]@ == full[k] by {
                        if k < old_out.len() {
                            assert(out@[k] == old_out[k]);
                        }
                    }
                }
            }
        } else {
            cur.push(c);
            proof {
                let full2 = ascii_ws_tokens(s@.take(i as int + 1));
                if prev_word {
                    assert(full2 == full.update(full.len() - 1, full.last().push(c)));
                    assert forall|k: int| 0 <= k < out@.len() implies #[trigger] out@[k]@ == full2[k] by {
                        assert(out@[k]@ == full[k]);
                    }
                } else {
                    assert(full2 == full.push(seq![c]));
                    assert(cur@ == seq![c]);
                    assert forall|k: int| 0 <= k < out@.len() implies #[trigger] out@[k]@ == full2[k] by {
                        assert(out@[k]@ == full[k]);
                    }
                }
            }
        }
        i += 1;
    }
    if cur.len() > 0 {
        let ghost old_out = out@;
        out.push(cur);
        proof {
            let full = ascii_ws_tokens(s@.take(i as int));
            assert forall|k: int| 0 <= k < out@.len() implies #[trigger] out@[k]@ == full[k] by {
                if k < old_out.len() {
                    assert(out@[k] == old_out[k]);
                }
            }
        }
    }
    assert(s@.take(s.len() as int) == s@);
    out
}

/// `s` without its leading white space (`str::trim_start`).
pub open spec fn trim_start(s: Seq<char>) -> Seq<char>
    decreases s.len(),
{
    if s.len() > 0 && is_ws(s[0]) {
        trim_start(s.drop_first())
    } else {
        s
    }
}

/// `s` without its trailing white space (`str::trim_end`).
pub open spec fn trim_end(s: Seq<char>) -> Seq<char>
    decreases s.len(),
{
    if s.len() > 0 && is_ws(s.last()) {
        trim_end(s.drop_last())
    } else {
        s
    }
}

/// `s` without leading and trailing white space (`str::trim`).
pub open spec fn trim(s: Seq<char>) -> Seq<char> {
    trim_end(trim_start(s))
}

proof fn lemma_trim_start_skip(s: Seq<char>, i: int)
    requires
        0 <= i <= s.len(),
        forall|j: int| 0 <= j < i ==> is_ws(s[j]),
    ensures
        trim_start(s) == trim_start(s.skip(i)),
    decreases i,
{
    if i > 0 {
        assert(s.skip(1) == s.drop_first());
        lemma_trim_start_skip(s.drop_first(), i - 1);
        assert(s.drop_first().skip(i - 1) == s.skip(i));
    } else {
        assert(s.skip(0) == s);
    }
}

proof fn lemma_trim_end_take(s: Seq<char>, i: int)
    requires
        0 <= i <= s.len(),
        forall|j: int| i <= j < s.len() ==> is_ws(s[j]),
    ensures
        trim_end(s) == trim_end(s.take(i)),
    decreases s.len() - i,
{
    if i < s.len() {
        assert(s.take(s.len() - 1) == s.drop_last());
        lemma_trim_end_take(s.drop_last(), i);
        assert(s.drop_last().take(i) == s.take(i));
    } else {
        assert(s.take(i) == s);
    }
}

/// `str::trim_end` on a sequence of characters.
pub fn trim_end_chars(s: &Vec<char>) -> (r: Vec<char>)
    ensures
        r@ == trim_end(s@),
{
    let mut hi: usize = s.len();
    while hi > 0 && char_is_ws(s[hi - 1])
        invariant
            hi <= s.len(),
            forall|j: int| hi <= j < s.len() ==> is_ws(s@[j]),
        decreases hi,
    {
        hi -= 1;
    }
    let mut r: Vec<char> = Vec::new();
    let mut k: usize = 0;
    while k < hi
        invariant
            k <= hi <= s.len(),
            r@ == s@.take(k as int),
        decreases hi - k,
    {
        r.push(s[k]);
        k += 1;
        assert(r@ =~= s@.take(k as int));
    }
    proof {
        lemma_trim_end_take(s@, hi as int);
        if hi > 0 {
            assert(!is_ws(s@.take(hi as int).last()));
        }
    }
    r
}

/// `str::trim` on a sequence of characters.
pub fn trim_chars(s: &Vec<char>) -> (r: Vec<char>)
    ensures
        r@ == trim(s@),
{
    let mut lo: usize = 0;
    while lo < s.len() && char_is_ws(s[lo])
        invariant
            lo <= s.len(),
            forall|j: int| 0 <= j < lo ==> is_ws(s@[j]),
        decreases s.len() - lo,
    {
        lo += 1;
    }
    let mut hi: usize = s.len();
    while hi > lo && char_is_ws(s[hi - 1])
        invariant
            lo <= hi <= s.len(),
            forall|j: int| hi <= j < s.len() ==> is_ws(s@[j]),
        decreases hi,
    {
        hi -= 1;
    }
    let mut r: Vec<char> = Vec::new();
    let mut k: usize = lo;
    while k < hi
        invariant
            lo <= k <= hi,
            hi <= s.len(),
            r@ == s@.subrange(lo as int, k as int),
        decreases hi - k,
    {
        r.push(s[k]);
        k += 1;
        assert(s@.subrange(lo as int, k as int) == s@.subrange(lo as int, k - 1).push(s@[k - 1]));
    }
    proof {
        lemma_trim_start_skip(s@, lo as int);
        let t = s@.skip(lo as int);
        if lo < s.len() {
            assert(!is_ws(t[0]));
        }
        assert(trim_start(t) == t);
        lemma_trim_end_take(t, hi - lo);
        assert(t.take(hi - lo) == s@.subrange(lo as int, hi as int));
        if hi > lo {
            assert(!is_ws(t.take(hi - lo).last()));
        }
    }
    r
}


// ---------------------------------------------------------------------------
// Decimal numbers, as the `FromStr` impls of std's integer types read them
// and as `Display` writes them.

pub open spec fn digit_val(c: char) -> nat {
    ((c as u32) - ('0' as u32)) as nat
}

pub open spec fn all_digits(s: Seq<char>) -> bool {
    forall|i: int| 0 <= i < s.len() ==> is_ascii_digit(#[trigger] s[i])
}

/// The number that the decimal digits `s` spell (0 for no digit).
pub open spec fn digits_value(s: Seq<char>) -> nat
    decreases s.len(),
{
    if s.len() == 0 {
        0
    } else {
        digits_value(s.drop_last()) * 10 + digit_val(s.last())
    }
}

/// An optional `+` and at least one decimal digit, read as a number.
pub open spec fn unsigned_decimal(s: Seq<char>) -> Option<nat> {
    let body = if s.len() > 0 && s[0] == '+' {
        s.drop_first()
    } else {
        s
    };
    if body.len() > 0 && all_digits(body) {
        Some(digits_value(body))
    } else {
        None
    }
}

/// What `str::parse::<u64>` gives back, as an option.
pub open spec fn spec_parse_u64(s: Seq<char>) -> Option<u64> {
    match unsigned_decimal(s) {
        Some(v) => if v <= u64::MAX {
            Some(v as u64)
        } else {
            None
        },
        None => None,
    }
}

/// What `str::parse::<u32>` gives back, as an option.
pub open spec fn spec_parse_u32(s: Seq<char>) -> Option<u32> {
    match unsigned_decimal(s) {
        Some(v) => if v <= u32::MAX {
            Some(v as u32)
        } else {
            None
        },
        None => None,
    }
}

/// What `str::parse::<usize>` gives back, as an option.
pub open spec fn spec_parse_usize(s: Seq<char>) -> Option<usize> {
    match unsigned_decimal(s) {
        Some(v) => if v <= usize::MAX {
            Some(v as usize)
        } else {
            None
        },
        None => None,
    }
}

/// What `str::parse::<i32>` gives back, as an option: an optional sign and at
/// least one digit, in range.
pub open spec fn spec_parse_i32(s: Seq<char>) -> Option<i32> {
    if s.len() > 0 && s[0] == '-' {
        let body = s.drop_first();
        if body.len() > 0 && all_digits(body) && digits_value(body) <= 0x8000_0000 {
            Some((0 - digits_value(body)) as i32)
        } else {
            None
        }
    } else {
        match unsigned_decimal(s) {
            Some(v) => if v <= i32::MAX {
                Some(v as i32)
            } else {
                None
            },
            None => None,
        }
    }
}

proof fn lemma_digits_value_grows(s: Seq<char>, k: int)
    requires
        0 <= k < s.len(),
    ensures
        digits_value(s.take(k + 1)) == digits_value(s.take(k)) * 10 + digit_val(s[k]),
        digits_value(s.take(k + 1)) >= digits_value(s.take(k)),
{
    assert(s.take(k + 1).drop_last() == s.take(k));
}

/// Reads decimal digits `s[start..]`; `None` when one is not a digit, when
/// there is none, or when the number exceeds `max`.
fn digits_up_to(s: &Vec<char>, start: usize, max: u64) -> (r: Option<u64>)
    requires
        start <= s.len(),
    ensures
        ({
            let body = s@.skip(start as int);
            match r {
                Some(v) => body.len() > 0 && all_digits(body) && v == digits_value(body) && v
                    <= max,
                None => !(body.len() > 0 && all_digits(body) && digits_value(body) <= max),
            }
        }),
{
    let ghost body = s@.skip(start as int);
    if start >= s.len() {
        return None;
    }
    let mut acc: u64 = 0;
    let mut over = false;
    let mut i: usize = start;
    while i < s.len()
        invariant
            start <= i <= s.len(),
            body == s@.skip(start as int),
            all_digits(body.take(i - start)),
            !over ==> acc == digits_value(body.take(i - start)) && acc <= max,
            over ==> digits_value(body.take(i - start)) > max,
        decreases s.len() - i,
    {
        let c = s[i];
        if !char_is_ascii_digit(c) {
            proof {
                assert(body[i - start] == c);
            }
            return None;
        }
        let d: u64 = (c as u32 - '0' as u32) as u64;
        proof {
            assert(body[i - start] == c);
            lemma_digits_value_grows(body, i - start);
            assert(body.take(i - start + 1).drop_last() == body.take(i - start));
            assert forall|j: int| 0 <= j < i - start + 1 implies is_ascii_digit(
                #[trigger] body.take(i - start + 1)[j],
            ) by {
                if j < i - start {
                    assert(body.take(i - start + 1)[j] == body.take(i - start)[j]);
                }
            }
        }
        if !over {
            if d <= max && acc <= (max - d) / 10 {
                proof {
                    assert(acc * 10 + d <= max) by (nonlinear_arith)
                        requires
                            d <= max,
                            acc <= (max - d) / 10,
                    ;
                }
                acc = acc * 10 + d;
            } else {
                proof {
                    assert(acc * 10 + d > max) by (nonlinear_arith)
                        requires
                            !(d <= max && acc <= (max - d) / 10),
                            0 <= d <= 9,
                    ;
                }
                over = true;
            }
        }
        i += 1;
    }
    proof {
        assert(body.take(i - start) == body);
    }
    if over {
        None
    } else {
        Some(acc)
    }
}

/// `str::parse::<u64>` on characters.
pub fn parse_u64_chars(s: &Vec<char>) -> (r: Option<u64>)
    ensures
        r == spec_parse_u64(s@),
{
    let start: usize = if s.len() > 0 && s[0] == '+' {
        1
    } else {
        0
    };
    proof {
        if start == 1 {
            assert(s@.skip(1) == s@.drop_first());
        } else {
            assert(s@.skip(0) == s@);
        }
    }
    digits_up_to(s, start, u64::MAX)
}

/// `str::parse::<u32>` on characters.
pub fn parse_u32_chars(s: &Vec<char>) -> (r: Option<u32>)
    ensures
        r == spec_parse_u32(s@),
{
    let start: usize = if s.len() > 0 && s[0] == '+' {
        1
    } else {
        0
    };
    proof {
        if start == 1 {
            assert(s@.skip(1) == s@.drop_first());
        } else {
            assert(s@.skip(0) == s@);
        }
    }
    match digits_up_to(s, start, u32::MAX as u64) {
        Some(v) => Some(v as u32),
        None => None,
    }
}

/// `str::parse::<usize>` on characters.
pub fn parse_usize_chars(s: &Vec<char>) -> (r: Option<usize>)
    ensures
        r == spec_parse_usize(s@),
{
    let start: usize = if s.len() > 0 && s[0] == '+' {
        1
    } else {
        0
    };
    proof {
        if start == 1 {
            assert(s@.skip(1) == s@.drop_first());
        } else {
            assert(s@.skip(0) == s@);
        }
    }
    match digits_up_to(s, start, usize::MAX as u64) {
        Some(v) => Some(v as usize),
        None => None,
    }
}

/// `str::parse::<i32>` on characters.
pub fn parse_i32_chars(s: &Vec<char>) -> (r: Option<i32>)
    ensures
        r == spec_parse_i32(s@),
{
    if s.len() > 0 && s[0] == '-' {
        proof {
            assert(s@.skip(1) == s@.drop_first());
        }
        match digits_up_to(s, 1, 0x8000_0000u64) {
            Some(v) => {
                let neg: i64 = 0i64 - (v as i64);
                Some(neg as i32)
            },
            None => None,
        }
    } else {
        let start: usize = if s.len() > 0 && s[0] == '+' {
            1
        } else {
            0
        };
        proof {
            if start == 1 {
                assert(s@.skip(1) == s@.drop_first());
            } else {
                assert(s@.skip(0) == s@);
            }
        }
        match digits_up_to(s, start, i32::MAX as u64) {
            Some(v) => Some(v as i32),
            None => None,
        }
    }
}

/// The decimal digit character of `d < 10`.
pub open spec fn digit_char(d: nat) -> char {
    ((d + ('0' as u32)) as u32) as char
}

/// The decimal text of `n`, with no sign and no leading zero
/// (`Display` of an unsigned integer).
pub open spec fn decimal_text(n: nat) -> Seq<char>
    decreases n,
{
    if n < 10 {
        seq![digit_char(n)]
    } else {
        decimal_text(n / 10).push(digit_char(n % 10))
    }
}

/// The decimal text of `n` (`Display` of a signed integer).
pub open spec fn signed_decimal_text(n: int) -> Seq<char> {
    if n < 0 {
        seq!['-'] + decimal_text((0 - n) as nat)
    } else {
        decimal_text(n as nat)
    }
}

/// Appends the decimal text of `n` to `out`.
pub fn push_decimal(out: &mut Vec<char>, n: u64)
    ensures
        final(out)@ == old(out)@ + decimal_text(n as nat),
    decreases n,
{
    if n >= 10 {
        push_decimal(out, n / 10);
    }
    let d: u64 = n % 10;
    let c = char_from_ascii((d + 48) as u32);
    out.push(c);
    proof {
        if n >= 10 {
            assert(decimal_text(n as nat) == decimal_text((n / 10) as nat).push(digit_char(
                (n % 10) as nat,
            )));
        } else {
            assert(decimal_text(n as nat) == seq![digit_char(n as nat)]);
        }
    }
}

/// Appends the decimal text of `n`, with a `-` when negative.
pub fn push_signed_decimal(out: &mut Vec<char>, n: i64)
    ensures
        final(out)@ == old(out)@ + signed_decimal_text(n as int),
{
    if n < 0 {
        out.push('-');
        let m: u64 = if n == i64::MIN {
            0x8000_0000_0000_0000u64
        } else {
            (0 - n) as u64
        };
        let ghost mid = out@;
        push_decimal(out, m);
        assert(out@ == old(out)@ + (seq!['-'] + decimal_text(m as nat)));
    } else {
        push_decimal(out, n as u64);
    }
}

/// Appends every character of `s`.
pub fn push_str(out: &mut Vec<char>, s: &str)
    ensures
        final(out)@ == old(out)@ + s@,
{
    let v = chars_of(s);
    push_all(out, &v);
}

/// Appends every character of `v`.
pub fn push_all(out: &mut Vec<char>, v: &Vec<char>)
    ensures
        final(out)@ == old(out)@ + v@,
{
    let mut i: usize = 0;
    while i < v.len()
        invariant
            i <= v.len(),
            out@ == old(out)@ + v@.take(i as int),
        decreases v.len() - i,
    {
        out.push(v[i]);
        i += 1;
        assert(v@.take(i as int) == v@.take(i - 1).push(v@[i - 1]));
    }
    assert(v@.take(v.len() as int) == v@);
}

/// Decimal text round-trips: reading the text of `n` gives `n` back.
pub proof fn lemma_decimal_roundtrip(n: nat)
    ensures
        all_digits(decimal_text(n)),
        decimal_text(n).len() > 0,
        digits_value(decimal_text(n)) == n,
        unsigned_decimal(decimal_text(n)) == Some(n),
    decreases n,
{
    if n >= 10 {
        lemma_decimal_roundtrip(n / 10);
        let t = decimal_text(n);
        assert(t.drop_last() == decimal_text(n / 10));
        assert forall|i: int| 0 <= i < t.len() implies is_ascii_digit(#[trigger] t[i]) by {
            if i < t.len() - 1 {
                assert(t[i] == decimal_text(n / 10)[i]);
            }
        }
    }
    let t = decimal_text(n);
    let d = n % 10;
    assert(digit_char(d) as u32 == d + 48);
    assert(digit_val(digit_char(d)) == d);
    if n >= 10 {
        assert(t.last() == digit_char(d));
        assert(digits_value(t) == digits_value(decimal_text(n / 10)) * 10 + d);
        assert(n == (n / 10) * 10 + d);
        assert(digits_value(t) == n);
    } else {
        assert(t.last() == digit_char(d));
        assert(t.drop_last() == Seq::<char>::empty());
        assert(digits_value(t) == digits_value(Seq::<char>::empty()) * 10 + d);
        assert(digits_value(t) == n);
    }
    assert(t[0] != '+');
}


// ---------------------------------------------------------------------------
// The order of `str` (byte-wise on UTF-8, which is code-point-wise on chars).

pub open spec fn text_lt(a: Seq<char>, b: Seq<char>) -> bool
    decreases a.len(),
{
    if a.len() == 0 {
        b.len() > 0
    } else if b.len() == 0 {
        false
    } else if (a[0] as int) < (b[0] as int) {
        true
    } else if a[0] == b[0] {
        text_lt(a.drop_first(), b.drop_first())
    } else {
        false
    }
}

pub proof fn lemma_text_lt_irreflexive(a: Seq<char>)
    ensures
        !text_lt(a, a),
    decreases a.len(),
{
    if a.len() > 0 {
        lemma_text_lt_irreflexive(a.drop_first());
    }
}

pub proof fn lemma_text_lt_transitive(a: Seq<char>, b: Seq<char>, c: Seq<char>)
    requires
        text_lt(a, b),
        text_lt(b, c),
    ensures
        text_lt(a, c),
    decreases a.len(),
{
    if a.len() > 0 && b.len() > 0 && c.len() > 0 {
        if a[0] == b[0] && b[0] == c[0] {
            lemma_text_lt_transitive(a.drop_first(), b.drop_first(), c.drop_first());
        }
    }
}

pub proof fn lemma_text_lt_total(a: Seq<char>, b: Seq<char>)
    requires
        a != b,
    ensures
        text_lt(a, b) || text_lt(b, a),
    decreases a.len(),
{
    if a.len() == 0 || b.len() == 0 {
        if a.len() == 0 && b.len() == 0 {
            assert(a == b);
        }
    } else {
        let x = a[0];
        let y = b[0];
        if x == y {
            if a.drop_first() == b.drop_first() {
                assert(a == seq![x] + a.drop_first());
                assert(b == seq![y] + b.drop_first());
            }
            lemma_text_lt_total(a.drop_first(), b.drop_first());
        } else {
            assert((x as int) != (y as int));
        }
    }
}

pub proof fn lemma_text_lt_asymmetric(a: Seq<char>, b: Seq<char>)
    requires
        text_lt(a, b),
    ensures
        !text_lt(b, a),
{
    if text_lt(b, a) {
        lemma_text_lt_transitive(a, b, a);
        lemma_text_lt_irreflexive(a);
    }
}

proof fn lemma_text_lt_skip(a: Seq<char>, b: Seq<char>, i: int)
    requires
        0 <= i <= a.len(),
        i <= b.len(),
        a.take(i) == b.take(i),
    ensures
        text_lt(a, b) == text_lt(a.skip(i), b.skip(i)),
    decreases i,
{
    if i > 0 {
        assert(a[0] == a.take(i)[0]);
        assert(b[0] == b.take(i)[0]);
        assert(a.drop_first().take(i - 1) == a.take(i).drop_first());
        assert(b.drop_first().take(i - 1) == b.take(i).drop_first());
        lemma_text_lt_skip(a.drop_first(), b.drop_first(), i - 1);
        assert(a.drop_first().skip(i - 1) == a.skip(i));
        assert(b.drop_first().skip(i - 1) == b.skip(i));
    } else {
        assert(a.skip(0) == a);
        assert(b.skip(0) == b);
    }
}

/// Whether `a` sorts before `b` (`<` on `str`).
pub fn chars_lt(a: &Vec<char>, b: &Vec<char>) -> (r: bool)
    ensures
        r == text_lt(a@, b@),
{
    let mut i: usize = 0;
    while i < a.len() && i < b.len() && a[i] == b[i]
        invariant
            i <= a.len(),
            i <= b.len(),
            a@.take(i as int) == b@.take(i as int),
        decreases a.len() - i,
    {
        assert(a@.take(i + 1) == a@.take(i as int).push(a@[i as int]));
        assert(b@.take(i + 1) == b@.take(i as int).push(b@[i as int]));
        i += 1;
    }
    proof {
        lemma_text_lt_skip(a@, b@, i as int);
        let sa = a@.skip(i as int);
        let sb = b@.skip(i as int);
        if i < a.len() {
            assert(sa[0] == a@[i as int]);
        }
        if i < b.len() {
            assert(sb[0] == b@[i as int]);
        }
    }
    if i == a.len() {
        i < b.len()
    } else if i == b.len() {
        false
    } else {
        let x = a[i];
        let y = b[i];
        x < y
    }
}

/// Whether `a` and `b` hold the same characters.
pub fn chars_same(a: &Vec<char>, b: &Vec<char>) -> (r: bool)
    ensures
        r == (a@ == b@),
{
    if a.len() != b.len() {
        return false;
    }
    let mut i: usize = 0;
    while i < a.len()
        invariant
            a.len() == b.len(),
            i <= a.len(),
            forall|j: int| 0 <= j < i ==> a@[j] == b@[j],
        decreases a.len() - i,
    {
        if a[i] != b[i] {
            return false;
        }
        i += 1;
    }
    assert(a@ =~= b@);
    true
}


// ---------------------------------------------------------------------------
// Case, prefixes and trimming of one character.

/// `s` with every ASCII upper-case letter lowered.
pub open spec fn lower_seq(s: Seq<char>) -> Seq<char> {
    s.map_values(|c: char| ascii_lower(c))
}

/// `s` with every ASCII lower-case letter raised.
pub open spec fn upper_seq(s: Seq<char>) -> Seq<char> {
    s.map_values(|c: char| ascii_upper(c))
}

/// `str::eq_ignore_ascii_case`.
pub open spec fn eq_ignore_case(a: Seq<char>, b: Seq<char>) -> bool {
    lower_seq(a) == lower_seq(b)
}

pub fn lower_chars(s: &Vec<char>) -> (r: Vec<char>)
    ensures
        r@ == lower_seq(s@),
{
    let mut r: Vec<char> = Vec::new();
    let mut i: usize = 0;
    while i < s.len()
        invariant
            i <= s.len(),
            r@ == lower_seq(s@.take(i as int)),
        decreases s.len() - i,
    {
        r.push(char_ascii_lower(s[i]));
        i += 1;
        assert(lower_seq(s@.take(i as int)) =~= lower_seq(s@.take(i - 1)).push(ascii_lower(s@[i - 1])));
    }
    assert(s@.take(s.len() as int) == s@);
    r
}

pub fn upper_chars(s: &Vec<char>) -> (r: Vec<char>)
    ensures
        r@ == upper_seq(s@),
{
    let mut r: Vec<char> = Vec::new();
    let mut i: usize = 0;
    while i < s.len()
        invariant
            i <= s.len(),
            r@ == upper_seq(s@.take(i as int)),
        decreases s.len() - i,
    {
        r.push(char_ascii_upper(s[i]));
        i += 1;
        assert(upper_seq(s@.take(i as int)) =~= upper_seq(s@.take(i - 1)).push(ascii_upper(s@[i - 1])));
    }
    assert(s@.take(s.len() as int) == s@);
    r
}

/// `a.eq_ignore_ascii_case(b)`.
pub fn chars_eq_ignore_case(a: &Vec<char>, b: &str) -> (r: bool)
    ensures
        r == eq_ignore_case(a@, b@),
{
    let la = lower_chars(a);
    let bv = chars_of(b);
    let lb = lower_chars(&bv);
    chars_same(&la, &lb)
}

/// `s` starts with `p`.
pub open spec fn has_prefix(s: Seq<char>, p: Seq<char>) -> bool {
    p.len() <= s.len() && s.take(p.len() as int) == p
}

/// `s.strip_prefix(p)`.
pub fn strip_prefix_chars(s: &Vec<char>, p: &str) -> (r: Option<Vec<char>>)
    ensures
        match r {
            Some(rest) => has_prefix(s@, p@) && rest@ == s@.skip(p@.len() as int),
            None => !has_prefix(s@, p@),
        },
{
    let pv = chars_of(p);
    if pv.len() > s.len() {
        return None;
    }
    let mut i: usize = 0;
    while i < pv.len()
        invariant
            pv@ == p@,
            pv.len() <= s.len(),
            i <= pv.len(),
            forall|j: int| 0 <= j < i ==> s@[j] == pv@[j],
        decreases pv.len() - i,
    {
        if s[i] != pv[i] {
            proof {
                assert(s@.take(pv.len() as int)[i as int] == s@[i as int]);
            }
            return None;
        }
        i += 1;
    }
    assert(s@.take(pv.len() as int) =~= pv@);
    let mut rest: Vec<char> = Vec::new();
    let mut k: usize = pv.len();
    while k < s.len()
        invariant
            pv.len() <= k <= s.len(),
            rest@ == s@.subrange(pv.len() as int, k as int),
        decreases s.len() - k,
    {
        rest.push(s[k]);
        k += 1;
        assert(s@.subrange(pv.len() as int, k as int) == s@.subrange(pv.len() as int, k - 1).push(s@[k - 1]));
    }
    assert(s@.subrange(pv.len() as int, s.len() as int) == s@.skip(pv.len() as int));
    Some(rest)
}

/// `s` without the copies of `c` at both ends (`str::trim_matches(c)`).
pub open spec fn trim_char(s: Seq<char>, c: char) -> Seq<char>
    decreases s.len(),
{
    if s.len() > 0 && s[0] == c {
        trim_char(s.drop_first(), c)
    } else if s.len() > 0 && s.last() == c {
        trim_char(s.drop_last(), c)
    } else {
        s
    }
}

pub fn trim_char_chars(s: &Vec<char>, c: char) -> (r: Vec<char>)
    ensures
        r@ == trim_char(s@, c),
{
    let mut lo: usize = 0;
    let mut hi: usize = s.len();
    assert(s@.subrange(0, s.len() as int) == s@);
    while lo < hi && (s[lo] == c || s[hi - 1] == c)
        invariant
            lo <= hi <= s.len(),
            trim_char(s@, c) == trim_char(s@.subrange(lo as int, hi as int), c),
        decreases hi - lo,
    {
        let ghost cur = s@.subrange(lo as int, hi as int);
        if s[lo] == c {
            assert(cur.drop_first() == s@.subrange(lo + 1, hi as int));
            lo += 1;
        } else {
            assert(cur.drop_last() == s@.subrange(lo as int, hi - 1));
            hi -= 1;
        }
    }
    proof {
        assert(s@.subrange(0, s.len() as int) == s@);
    }
    let mut r: Vec<char> = Vec::new();
    let mut k: usize = lo;
    while k < hi
        invariant
            lo <= k <= hi,
            hi <= s.len(),
            r@ == s@.subrange(lo as int, k as int),
        decreases hi - k,
    {
        r.push(s[k]);
        k += 1;
        assert(s@.subrange(lo as int, k as int) == s@.subrange(lo as int, k - 1).push(s@[k - 1]));
    }
    r
}

/// The pieces of `s` between the occurrences of `c`, empty ones included
/// (`str::split` on a character).
pub open spec fn split_on(s: Seq<char>, c: char) -> Seq<Seq<char>>
    decreases s.len(),
{
    if s.len() == 0 {
        seq![Seq::<char>::empty()]
    } else {
        let t = split_on(s.drop_last(), c);
        if s.last() == c {
            t.push(Seq::empty())
        } else {
            t.update(t.len() - 1, t.last().push(s.last()))
        }
    }
}

pub proof fn lemma_split_on_nonempty(s: Seq<char>, c: char)
    ensures
        split_on(s, c).len() >= 1,
    decreases s.len(),
{
    if s.len() > 0 {
        lemma_split_on_nonempty(s.drop_last(), c);
    }
}

/// Appending text free of `c` to `x` extends the last piece of `x`.
pub proof fn lemma_split_append_plain(x: Seq<char>, l: Seq<char>, c: char)
    requires
        !l.contains(c),
    ensures
        split_on(x + l, c) == split_on(x, c).update(split_on(x, c).len() - 1, split_on(x, c).last() + l),
    decreases l.len(),
{
    lemma_split_on_nonempty(x, c);
    if l.len() == 0 {
        assert(x + l =~= x);
        assert(split_on(x, c).last() + l =~= split_on(x, c).last());
        assert(split_on(x, c).update(split_on(x, c).len() - 1, split_on(x, c).last()) =~= split_on(x, c));
    } else {
        let l0 = l.drop_last();
        assert(!l0.contains(c)) by {
            if l0.contains(c) {
                let i = choose|i: int| 0 <= i < l0.len() && l0[i] == c;
                assert(l[i] == c);
            }
        }
        assert(l.last() != c) by {
            assert(l[l.len() - 1] == l.last());
        }
        lemma_split_append_plain(x, l0, c);
        assert((x + l).drop_last() =~= x + l0);
        assert((x + l).last() == l.last());
        lemma_split_on_nonempty(x + l0, c);
        let t = split_on(x + l0, c);
        let sx = split_on(x, c);
        assert(split_on(x + l, c) == t.update(t.len() - 1, t.last().push(l.last())));
        assert(t.len() == sx.len());
        assert(t.last() == sx.last() + l0) by {
            assert(t[t.len() - 1] == sx.last() + l0);
        }
        assert((sx.last() + l0).push(l.last()) =~= sx.last() + l);
        assert(t.update(t.len() - 1, t.last().push(l.last())) =~= sx.update(sx.len() - 1, sx.last() + l));
        assert(split_on(x + l, c) =~= split_on(x, c).update(split_on(x, c).len() - 1, split_on(x, c).last() + l));
    }
}

/// `str::split` on a character, each piece as its characters.
pub fn split_char(s: &Vec<char>, c: char) -> (t: Vec<Vec<char>>)
    ensures
        t@.len() == split_on(s@, c).len(),
        forall|k: int| 0 <= k < t@.len() ==> #[trigger] t@[k]@ == split_on(s@, c)[k],
{
    let mut out: Vec<Vec<char>> = Vec::new();
    let mut cur: Vec<char> = Vec::new();
    let mut i: usize = 0;
    while i < s.len()
        invariant
            i <= s.len(),
            split_on(s@.take(i as int), c).len() == out@.len() + 1,
            split_on(s@.take(i as int), c).last() == cur@,
            forall|k: int| 0 <= k < out@.len() ==> #[trigger] out@[k]@ == split_on(s@.take(i as int), c)[k],
        decreases s.len() - i,
    {
        let x = s[i];
        let ghost t = split_on(s@.take(i as int), c);
        let ghost old_out = out@;
        proof {
            let q = s@.take(i as int + 1);
            assert(q.drop_last() == s@.take(i as int));
            assert(q.last() == x);
            lemma_split_on_nonempty(s@.take(i as int), c);
        }
        if x == c {
            let done = cur;
            cur = Vec::new();
            out.push(done);
            proof {
                let t2 = split_on(s@.take(i as int + 1), c);
                assert(t2 == t.push(Seq::empty()));
                assert forall|k: int| 0 <= k < out@.len() implies #[trigger] out@[k]@ == t2[k] by {
                    if k < old_out.len() {
                        assert(out@[k] == old_out[k]);
                    }
                }
                assert(cur@ =~= t2.last());
            }
        } else {
            cur.push(x);
            proof {
                let t2 = split_on(s@.take(i as int + 1), c);
                assert(t2 == t.update(t.len() - 1, t.last().push(x)));
                assert forall|k: int| 0 <= k < out@.len() implies #[trigger] out@[k]@ == t2[k] by {
                    assert(out@[k]@ == t[k]);
                }
            }
        }
        i += 1;
    }
    let ghost old_out = out@;
    out.push(cur);
    proof {
        assert(s@.take(s@.len() as int) == s@);
        let t = split_on(s@, c);
        assert forall|k: int| 0 <= k < out@.len() implies #[trigger] out@[k]@ == t[k] by {
            if k < old_out.len() {
                assert(out@[k] == old_out[k]);
            }
        }
    }
    out
}

/// A line as `str::lines` gives it: without one trailing carriage return.
pub open spec fn line_body(piece: Seq<char>) -> Seq<char> {
    if piece.len() > 0 && piece.last() == '\r' {
        piece.drop_last()
    } else {
        piece
    }
}

/// The lines of `s`: the pieces between newlines, each without a trailing
/// carriage return (a final empty piece included).
pub open spec fn text_lines(s: Seq<char>) -> Seq<Seq<char>> {
    split_on(s, '\n').map_values(|p: Seq<char>| line_body(p))
}

/// The lines of `s`, as `text_lines` says.
pub fn lines_of(s: &str) -> (r: Vec<Vec<char>>)
    ensures
        r@.len() == text_lines(s@).len(),
        forall|k: int| 0 <= k < r@.len() ==> #[trigger] r@[k]@ == text_lines(s@)[k],
{
    let pieces = split_char(&chars_of(s), '\n');
    let mut out: Vec<Vec<char>> = Vec::new();
    let mut i: usize = 0;
    while i < pieces.len()
        invariant
            i <= pieces@.len(),
            pieces@.len() == split_on(s@, '\n').len(),
            forall|k: int| 0 <= k < pieces@.len() ==> #[trigger] pieces@[k]@ == split_on(s@, '\n')[k],
            out@.len() == i,
            forall|k: int| 0 <= k < i ==> #[trigger] out@[k]@ == line_body(split_on(s@, '\n')[k]),
        decreases pieces@.len() - i,
    {
        let mut p = pieces[i].clone();
        let n = p.len();
        if n > 0 && p[n - 1] == '\r' {
            p.pop();
        }
        proof {
            assert(p@ =~= line_body(pieces@[i as int]@));
        }
        out.push(p);
        i += 1;
    }
    out
}

} // verus!
