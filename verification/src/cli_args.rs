use vstd::prelude::*;
use crate::api::{Decision, Status};
use crate::util::DEFAULT_CONTROL_SOCKET_PATH;
use crate::text::{chars_of, chars_eq, string_from_chars, split_char, split_on, parse_i32_chars, spec_parse_i32};

verus! {

/// The parts of a region argument `rect:<pass|block>:<id>:<x>:<y>:<w>:<h>`:
/// exactly seven pieces between colons, the first `rect`, a decision, a
/// region number, and the four texts of the geometry (in that order); any
/// other shape is an invalid argument.
pub open spec fn region_head(token: Seq<char>) -> Result<(i32, Decision, Seq<Seq<char>>), Status> {
    let p = split_on(token, ':');
    if p.len() != 7 || p[0] != "rect"@ {
        Err(Status::InvalidArgument)
    } else if p[1] != "pass"@ && p[1] != "block"@ {
        Err(Status::InvalidArgument)
    } else {
        match spec_parse_i32(p[2]) {
            None => Err(Status::InvalidArgument),
            Some(id) => Ok((id, if p[1] == "pass"@ { Decision::Pass } else { Decision::Block }, p.subrange(3, 7))),
        }
    }
}

/// Reads a region argument as `region_head` says; the geometry is left as
/// text for the caller to read as numbers.
pub fn parse_region_fields(token: &str) -> (r: Result<(i32, Decision, Vec<String>), Status>)
    ensures
        match region_head(token@) {
            Err(s) => r == Err::<(i32, Decision, Vec<String>), Status>(s),
            Ok((id, d, g)) => r matches Ok((rid, rd, rg)) && rid == id && rd == d && rg@.len() == 4
                && forall|k: int| 0 <= k < 4 ==> #[trigger] rg@[k]@ == g[k],
        },
{
    let p = split_char(&chars_of(token), ':');
    if p.len() != 7 || !chars_eq(&p[0], "rect") {
        return Err(Status::InvalidArgument);
    }
    let decision = if chars_eq(&p[1], "pass") {
        Decision::Pass
    } else if chars_eq(&p[1], "block") {
        Decision::Block
    } else {
        return Err(Status::InvalidArgument);
    };
    let id = match parse_i32_chars(&p[2]) {
        Some(v) => v,
        None => return Err(Status::InvalidArgument),
    };
    let mut g: Vec<String> = Vec::new();
    let mut k: usize = 3;
    while k < 7
        invariant
            3 <= k <= 7,
            p@.len() == 7,
            forall|j: int| 0 <= j < 7 ==> #[trigger] p@[j]@ == split_on(token@, ':')[j],
            g@.len() == k - 3,
            forall|j: int| 0 <= j < k - 3 ==> #[trigger] g@[j]@ == split_on(token@, ':')[j + 3],
        decreases 7 - k,
    {
        g.push(string_from_chars(&p[k]));
        k += 1;
    }
    Ok((id, decision, g))
}

/// The stream client's options from argument `i` on, with the control
/// socket and the quiet flag so far: `--control-socket <path>` and
/// `--quiet`; anything else, or a missing path, is refused (`None`).
pub open spec fn stream_scan(argv: Seq<Seq<char>>, i: int, control: Seq<char>, quiet: bool) -> Option<(Seq<char>, bool)>
    decreases argv.len() - i,
{
    if i < 0 || i >= argv.len() {
        Some((control, quiet))
    } else if argv[i] == "--control-socket"@ {
        if i + 1 >= argv.len() {
            None
        } else {
            stream_scan(argv, i + 2, argv[i + 1], quiet)
        }
    } else if argv[i] == "--quiet"@ {
        stream_scan(argv, i + 1, control, true)
    } else {
        None
    }
}

/// Reads the stream client's arguments (after the program name) as
/// `stream_scan` says, from the default control socket and not quiet.
pub fn parse_stream_args(args: &Vec<String>) -> (r: Option<(String, bool)>)
    ensures
        match stream_scan(args@.map_values(|a: String| a@), 1, DEFAULT_CONTROL_SOCKET_PATH@, false) {
            None => r is None,
            Some((c, q)) => r matches Some((rc, rq)) && rc@ == c && rq == q,
        },
{
    let ghost argv = args@.map_values(|a: String| a@);
    let mut control = DEFAULT_CONTROL_SOCKET_PATH.to_owned();
    let mut quiet = false;
    let mut i: usize = 1;
    while i < args.len()
        invariant
            argv == args@.map_values(|a: String| a@),
            1 <= i,
            stream_scan(argv, 1, DEFAULT_CONTROL_SOCKET_PATH@, false) == stream_scan(argv, i as int, control@, quiet),
        decreases args@.len() - i,
    {
        assert(argv[i as int] == args@[i as int]@);
        let a = chars_of(args[i].as_str());
        if chars_eq(&a, "--control-socket") {
            if i + 1 >= args.len() {
                return None;
            }
            assert(argv[i + 1] == args@[i + 1]@);
            control = args[i + 1].clone();
            i += 2;
        } else if chars_eq(&a, "--quiet") {
            quiet = true;
            i += 1;
        } else {
            return None;
        }
    }
    Some((control, quiet))
}

} // verus!
