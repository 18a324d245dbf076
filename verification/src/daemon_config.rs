use vstd::prelude::*;
use crate::text::{
    chars_of, chars_eq, string_from_chars, push_str, push_all, spec_parse_u64, spec_parse_usize,
    parse_u64_chars, parse_usize_chars, split_char, split_on, trim, trim_chars, eq_ignore_case,
    chars_eq_ignore_case,
};
use crate::util::{DEFAULT_CONTROL_SOCKET_PATH, data_socket_path_of, derive_data_socket_path_text};

verus! {

/// What the environment says about the daemon's settings, each variable
/// as it was found (`None` when unset).
#[derive(Debug, Clone)]
pub struct DaemonEnv {
    pub control_socket_path: Option<String>,
    pub socket_path: Option<String>,
    pub data_socket_path: Option<String>,
    pub render_output_dir: Option<String>,
    pub supervise_presenter_cmd: Option<String>,
    pub supervise_input_cmd: Option<String>,
    pub supervise_restart_ms: Option<String>,
    pub max_connections: Option<String>,
    pub dispatch_workers: Option<String>,
    pub socket_rw_timeout_ms: Option<String>,
    pub command_max_bytes: Option<String>,
    /// How many threads the machine runs at once, when known.
    pub available_parallelism: Option<usize>,
}

/// The daemon's settings.
#[derive(Debug, Clone)]
pub struct DaemonConfig {
    pub control_socket_path: String,
    pub data_socket_path: String,
    pub render_output_dir: String,
    pub supervise_presenter_cmd: Option<String>,
    pub supervise_input_cmd: Option<String>,
    pub supervise_restart_ms: u64,
    pub max_connections: usize,
    pub dispatch_workers: usize,
    pub socket_rw_timeout_ms: u64,
    pub command_max_bytes: usize,
    pub allowed_uids: Vec<u32>,
    pub auth_permissive: bool,
}

/// The settings while the arguments are read.
pub struct CfgView {
    pub control: Seq<char>,
    pub data: Option<Seq<char>>,
    pub render_dir: Seq<char>,
    pub presenter: Option<Seq<char>>,
    pub input: Option<Seq<char>>,
    pub restart_ms: u64,
    pub max_connections: usize,
    pub dispatch_workers: usize,
    pub rw_timeout_ms: u64,
    pub command_max_bytes: usize,
}

/// A variable's value when it is set and not empty.
pub open spec fn non_empty(v: Option<String>) -> Option<Seq<char>> {
    match v {
        Some(s) => if s@.len() > 0 {
            Some(s@)
        } else {
            None
        },
        None => None,
    }
}

/// A variable read as a `u64`, else `d`.
pub open spec fn env_u64(v: Option<String>, d: u64) -> u64 {
    match v {
        Some(s) => match spec_parse_u64(s@) {
            Some(x) => x,
            None => d,
        },
        None => d,
    }
}

/// A variable read as a `usize`, else `d`.
pub open spec fn env_usize(v: Option<String>, d: usize) -> usize {
    match v {
        Some(s) => match spec_parse_usize(s@) {
            Some(x) => x,
            None => d,
        },
        None => d,
    }
}

/// The settings the environment gives before any argument: the control
/// socket from `DSAPI_CONTROL_SOCKET_PATH`, else `DSAPI_SOCKET_PATH`, else
/// the default; 500 ms restart delay, 64 connections, a worker count
/// between 4 and 8 from the machine's parallelism (else 4), a 30 s socket
/// timeout and 4096 command bytes, unless the environment says otherwise.
pub open spec fn env_defaults(env: DaemonEnv) -> CfgView {
    CfgView {
        control: match non_empty(env.control_socket_path) {
            Some(v) => v,
            None => match non_empty(env.socket_path) {
                Some(v) => v,
                None => DEFAULT_CONTROL_SOCKET_PATH@,
            },
        },
        data: non_empty(env.data_socket_path),
        render_dir: match env.render_output_dir {
            Some(v) => v@,
            None => "artifacts/render"@,
        },
        presenter: non_empty(env.supervise_presenter_cmd),
        input: non_empty(env.supervise_input_cmd),
        restart_ms: env_u64(env.supervise_restart_ms, 500),
        max_connections: env_usize(env.max_connections, 64),
        dispatch_workers: env_usize(
            env.dispatch_workers,
            match env.available_parallelism {
                Some(p) => if p > 8 {
                    8usize
                } else if p < 4 {
                    4usize
                } else {
                    p
                },
                None => 4usize,
            },
        ),
        rw_timeout_ms: env_u64(env.socket_rw_timeout_ms, 30000),
        command_max_bytes: env_usize(env.command_max_bytes, 4096),
    }
}

/// The options that take a value, each with its number.
pub open spec fn option_code(key: Seq<char>) -> int {
    if key == "--socket"@ {
        0
    } else if key == "--control-socket"@ {
        1
    } else if key == "--data-socket"@ {
        2
    } else if key == "--render-output-dir"@ {
        3
    } else if key == "--supervise-presenter"@ {
        4
    } else if key == "--supervise-input"@ {
        5
    } else if key == "--supervise-restart-ms"@ {
        6
    } else if key == "--max-connections"@ {
        7
    } else if key == "--dispatch-workers"@ {
        8
    } else if key == "--socket-rw-timeout-ms"@ {
        9
    } else if key == "--command-max-bytes"@ {
        10
    } else {
        -1
    }
}

/// The error for an option given without its value.
pub open spec fn missing_text(code: int) -> Seq<char> {
    if code == 0 {
        "missing_socket_path"@
    } else if code == 1 {
        "missing_control_socket_path"@
    } else if code == 2 {
        "missing_data_socket_path"@
    } else if code == 3 {
        "missing_render_output_dir"@
    } else if code == 4 {
        "missing_supervise_presenter_cmd"@
    } else if code == 5 {
        "missing_supervise_input_cmd"@
    } else if code == 6 {
        "missing_supervise_restart_ms"@
    } else if code == 7 {
        "missing_max_connections"@
    } else if code == 8 {
        "missing_dispatch_workers"@
    } else if code == 9 {
        "missing_socket_rw_timeout_ms"@
    } else {
        "missing_command_max_bytes"@
    }
}

/// The settings after option `code` with value `v`, or the error for a
/// number that does not parse.
pub open spec fn apply_option(c: CfgView, code: int, v: Seq<char>) -> Result<CfgView, Seq<char>> {
    if code == 0 || code == 1 {
        Ok(CfgView { control: v, ..c })
    } else if code == 2 {
        Ok(CfgView { data: Some(v), ..c })
    } else if code == 3 {
        Ok(CfgView { render_dir: v, ..c })
    } else if code == 4 {
        Ok(CfgView { presenter: Some(v), ..c })
    } else if code == 5 {
        Ok(CfgView { input: Some(v), ..c })
    } else if code == 6 || code == 9 {
        match spec_parse_u64(v) {
            None => Err("invalid_u64_value:"@ + v),
            Some(n) => if code == 6 {
                Ok(CfgView { restart_ms: n, ..c })
            } else {
                Ok(CfgView { rw_timeout_ms: n, ..c })
            },
        }
    } else {
        match spec_parse_usize(v) {
            None => Err("invalid_usize_value:"@ + v),
            Some(n) => if code == 7 {
                Ok(CfgView { max_connections: n, ..c })
            } else if code == 8 {
                Ok(CfgView { dispatch_workers: n, ..c })
            } else {
                Ok(CfgView { command_max_bytes: n, ..c })
            },
        }
    }
}

/// The settings after reading the arguments from index `i` on: each option
/// takes the next argument as its value; an unknown argument and an option
/// without value are errors.
pub open spec fn scan_args(args: Seq<Seq<char>>, i: int, c: CfgView) -> Result<CfgView, Seq<char>>
    decreases args.len() - i,
{
    if i >= args.len() || i < 0 {
        Ok(c)
    } else {
        let code = option_code(args[i]);
        if code < 0 {
            Err("unknown_arg:"@ + args[i])
        } else if i + 1 >= args.len() {
            Err(missing_text(code))
        } else {
            match apply_option(c, code, args[i + 1]) {
                Err(e) => Err(e),
                Ok(c2) => scan_args(args, i + 2, c2),
            }
        }
    }
}

/// The view of an optional text.
pub open spec fn opt_view(v: Option<String>) -> Option<Seq<char>> {
    match v {
        Some(s) => Some(s@),
        None => None,
    }
}

/// The settings once the arguments are read: a restart delay of at least
/// 50 ms, at least one connection, between one worker and one per
/// connection, a socket timeout of zero (none) or at least 100 ms, at least
/// 128 command bytes, and a data socket beside the control socket unless
/// one was given; the two sockets must differ.
pub open spec fn finish_cfg(c: CfgView) -> Result<CfgView, Seq<char>> {
    let max_connections: usize = if c.max_connections == 0 {
        1
    } else {
        c.max_connections
    };
    let w: usize = if c.dispatch_workers == 0 {
        1
    } else {
        c.dispatch_workers
    };
    let data = match c.data {
        Some(d) => if d.len() > 0 {
            d
        } else {
            data_socket_path_of(c.control)
        },
        None => data_socket_path_of(c.control),
    };
    if c.control == data {
        Err("control_socket_and_data_socket_must_differ"@)
    } else {
        Ok(
            CfgView {
                control: c.control,
                data: Some(data),
                render_dir: c.render_dir,
                presenter: c.presenter,
                input: c.input,
                restart_ms: if c.restart_ms < 50 {
                    50
                } else {
                    c.restart_ms
                },
                max_connections,
                dispatch_workers: if w > max_connections {
                    max_connections
                } else {
                    w
                },
                rw_timeout_ms: if c.rw_timeout_ms > 0 && c.rw_timeout_ms < 100 {
                    100
                } else {
                    c.rw_timeout_ms
                },
                command_max_bytes: if c.command_max_bytes < 128 {
                    128
                } else {
                    c.command_max_bytes
                },
            },
        )
    }
}

/// The settings of a configuration, as read.
pub open spec fn config_view(c: DaemonConfig) -> CfgView {
    CfgView {
        control: c.control_socket_path@,
        data: Some(c.data_socket_path@),
        render_dir: c.render_output_dir@,
        presenter: opt_view(c.supervise_presenter_cmd),
        input: opt_view(c.supervise_input_cmd),
        restart_ms: c.supervise_restart_ms,
        max_connections: c.max_connections,
        dispatch_workers: c.dispatch_workers,
        rw_timeout_ms: c.socket_rw_timeout_ms,
        command_max_bytes: c.command_max_bytes,
    }
}

struct CfgState {
    control: String,
    data: Option<String>,
    render_dir: String,
    presenter: Option<String>,
    input: Option<String>,
    restart_ms: u64,
    max_connections: usize,
    dispatch_workers: usize,
    rw_timeout_ms: u64,
    command_max_bytes: usize,
}

impl CfgState {
    spec fn view(&self) -> CfgView {
        CfgView {
            control: self.control@,
            data: opt_view(self.data),
            render_dir: self.render_dir@,
            presenter: opt_view(self.presenter),
            input: opt_view(self.input),
            restart_ms: self.restart_ms,
            max_connections: self.max_connections,
            dispatch_workers: self.dispatch_workers,
            rw_timeout_ms: self.rw_timeout_ms,
            command_max_bytes: self.command_max_bytes,
        }
    }
}

fn non_empty_of(v: &Option<String>) -> (r: Option<String>)
    ensures
        opt_view(r) == non_empty(*v),
{
    match v {
        Some(s) => if s.as_str().unicode_len() > 0 {
            Some(s.clone())
        } else {
            None
        },
        None => None,
    }
}

fn env_u64_of(v: &Option<String>, d: u64) -> (r: u64)
    ensures
        r == env_u64(*v, d),
{
    match v {
        Some(s) => match parse_u64_chars(&chars_of(s.as_str())) {
            Some(x) => x,
            None => d,
        },
        None => d,
    }
}

fn env_usize_of(v: &Option<String>, d: usize) -> (r: usize)
    ensures
        r == env_usize(*v, d),
{
    match v {
        Some(s) => match parse_usize_chars(&chars_of(s.as_str())) {
            Some(x) => x,
            None => d,
        },
        None => d,
    }
}

fn defaults_of(env: &DaemonEnv) -> (r: CfgState)
    ensures
        r.view() == env_defaults(*env),
{
    let control = match non_empty_of(&env.control_socket_path) {
        Some(v) => v,
        None => match non_empty_of(&env.socket_path) {
            Some(v) => v,
            None => DEFAULT_CONTROL_SOCKET_PATH.to_owned(),
        },
    };
    let render_dir = match &env.render_output_dir {
        Some(v) => v.clone(),
        None => "artifacts/render".to_owned(),
    };
    let workers_default: usize = match env.available_parallelism {
        Some(p) => if p > 8 {
            8
        } else if p < 4 {
            4
        } else {
            p
        },
        None => 4,
    };
    CfgState {
        control,
        data: non_empty_of(&env.data_socket_path),
        render_dir,
        presenter: non_empty_of(&env.supervise_presenter_cmd),
        input: non_empty_of(&env.supervise_input_cmd),
        restart_ms: env_u64_of(&env.supervise_restart_ms, 500),
        max_connections: env_usize_of(&env.max_connections, 64),
        dispatch_workers: env_usize_of(&env.dispatch_workers, workers_default),
        rw_timeout_ms: env_u64_of(&env.socket_rw_timeout_ms, 30000),
        command_max_bytes: env_usize_of(&env.command_max_bytes, 4096),
    }
}

fn option_code_of(key: &str) -> (r: i32)
    ensures
        r == option_code(key@),
{
    let k = chars_of(key);
    if chars_eq(&k, "--socket") {
        0
    } else if chars_eq(&k, "--control-socket") {
        1
    } else if chars_eq(&k, "--data-socket") {
        2
    } else if chars_eq(&k, "--render-output-dir") {
        3
    } else if chars_eq(&k, "--supervise-presenter") {
        4
    } else if chars_eq(&k, "--supervise-input") {
        5
    } else if chars_eq(&k, "--supervise-restart-ms") {
        6
    } else if chars_eq(&k, "--max-connections") {
        7
    } else if chars_eq(&k, "--dispatch-workers") {
        8
    } else if chars_eq(&k, "--socket-rw-timeout-ms") {
        9
    } else if chars_eq(&k, "--command-max-bytes") {
        10
    } else {
        -1
    }
}

fn missing_of(code: i32) -> (r: String)
    requires
        0 <= code <= 10,
    ensures
        r@ == missing_text(code as int),
{
    if code == 0 {
        "missing_socket_path".to_owned()
    } else if code == 1 {
        "missing_control_socket_path".to_owned()
    } else if code == 2 {
        "missing_data_socket_path".to_owned()
    } else if code == 3 {
        "missing_render_output_dir".to_owned()
    } else if code == 4 {
        "missing_supervise_presenter_cmd".to_owned()
    } else if code == 5 {
        "missing_supervise_input_cmd".to_owned()
    } else if code == 6 {
        "missing_supervise_restart_ms".to_owned()
    } else if code == 7 {
        "missing_max_connections".to_owned()
    } else if code == 8 {
        "missing_dispatch_workers".to_owned()
    } else if code == 9 {
        "missing_socket_rw_timeout_ms".to_owned()
    } else {
        "missing_command_max_bytes".to_owned()
    }
}

fn apply_option_exec(c: &mut CfgState, code: i32, v: &String) -> (r: Result<(), String>)
    requires
        0 <= code <= 10,
    ensures
        match apply_option(old(c).view(), code as int, v@) {
            Ok(c2) => r is Ok && final(c).view() == c2,
            Err(e) => r matches Err(x) && x@ == e,
        },
{
    if code == 0 || code == 1 {
        c.control = v.clone();
    } else if code == 2 {
        c.data = Some(v.clone());
    } else if code == 3 {
        c.render_dir = v.clone();
    } else if code == 4 {
        c.presenter = Some(v.clone());
    } else if code == 5 {
        c.input = Some(v.clone());
    } else if code == 6 || code == 9 {
        match parse_u64_chars(&chars_of(v.as_str())) {
            None => {
                let mut m = chars_of("invalid_u64_value:");
                push_str(&mut m, v.as_str());
                return Err(string_from_chars(&m));
            },
            Some(n) => {
                if code == 6 {
                    c.restart_ms = n;
                } else {
                    c.rw_timeout_ms = n;
                }
            },
        }
    } else {
        match parse_usize_chars(&chars_of(v.as_str())) {
            None => {
                let mut m = chars_of("invalid_usize_value:");
                push_str(&mut m, v.as_str());
                return Err(string_from_chars(&m));
            },
            Some(n) => {
                if code == 7 {
                    c.max_connections = n;
                } else if code == 8 {
                    c.dispatch_workers = n;
                } else {
                    c.command_max_bytes = n;
                }
            },
        }
    }
    Ok(())
}

/// Reads the daemon's settings: the environment's values (see
/// `env_defaults`), then the arguments after the program name (see
/// `scan_args`), then the bounds and the data socket of `finish_cfg`, then
/// the peer uids allowed (whose error, if any, is the answer).
pub fn parse_daemon_config(args: &Vec<String>, env: &DaemonEnv, allowed_uids: Result<Vec<u32>, String>, auth_permissive: bool) -> (r: Result<DaemonConfig, String>)
    ensures
        ({
            let argv = args@.map_values(|a: String| a@);
            match scan_args(argv, 1, env_defaults(*env)) {
                Err(e) => r matches Err(x) && x@ == e,
                Ok(c) => match finish_cfg(c) {
                    Err(e) => r matches Err(x) && x@ == e,
                    Ok(f) => match allowed_uids {
                        Err(e) => r matches Err(x) && x@ == e@,
                        Ok(u) => r matches Ok(cfg) && config_view(cfg) == f && cfg.allowed_uids@ == u@
                            && cfg.auth_permissive == auth_permissive,
                    },
                },
            }
        }),
{
    let ghost argv = args@.map_values(|a: String| a@);
    let mut c = defaults_of(env);
    let ghost c0 = c.view();
    let mut i: usize = 1;
    while i < args.len()
        invariant
            argv == args@.map_values(|a: String| a@),
            c0 == env_defaults(*env),
            1 <= i,
            scan_args(argv, 1, c0) == scan_args(argv, i as int, c.view()),
        decreases args@.len() - i,
    {
        let code = option_code_of(args[i].as_str());
        assert(argv[i as int] == args@[i as int]@);
        if code < 0 {
            let mut m = chars_of("unknown_arg:");
            push_str(&mut m, args[i].as_str());
            return Err(string_from_chars(&m));
        }
        if i + 1 >= args.len() {
            return Err(missing_of(code));
        }
        assert(argv[i + 1] == args@[i + 1]@);
        match apply_option_exec(&mut c, code, &args[i + 1]) {
            Ok(()) => {},
            Err(e) => return Err(e),
        }
        i += 2;
    }
    if c.restart_ms < 50 {
        c.restart_ms = 50;
    }
    if c.max_connections == 0 {
        c.max_connections = 1;
    }
    if c.dispatch_workers == 0 {
        c.dispatch_workers = 1;
    }
    if c.dispatch_workers > c.max_connections {
        c.dispatch_workers = c.max_connections;
    }
    if c.rw_timeout_ms > 0 && c.rw_timeout_ms < 100 {
        c.rw_timeout_ms = 100;
    }
    if c.command_max_bytes < 128 {
        c.command_max_bytes = 128;
    }
    let data = match &c.data {
        Some(d) => if d.as_str().unicode_len() > 0 {
            d.clone()
        } else {
            derive_data_socket_path_text(c.control.as_str())
        },
        None => derive_data_socket_path_text(c.control.as_str()),
    };
    if crate::text::chars_same(&chars_of(c.control.as_str()), &chars_of(data.as_str())) {
        return Err("control_socket_and_data_socket_must_differ".to_owned());
    }
    let uids = match allowed_uids {
        Ok(u) => u,
        Err(e) => return Err(e),
    };
    Ok(
        DaemonConfig {
            control_socket_path: c.control,
            data_socket_path: data,
            render_output_dir: c.render_dir,
            supervise_presenter_cmd: c.presenter,
            supervise_input_cmd: c.input,
            supervise_restart_ms: c.restart_ms,
            max_connections: c.max_connections,
            dispatch_workers: c.dispatch_workers,
            socket_rw_timeout_ms: c.rw_timeout_ms,
            command_max_bytes: c.command_max_bytes,
            allowed_uids: uids,
            auth_permissive,
        },
    )
}

/// The uids of `,`-separated pieces, blank pieces skipped; a piece that is
/// not a `u32` is the error `invalid_allowed_uid:<piece>`.
pub open spec fn uids_from(pieces: Seq<Seq<char>>) -> Result<Seq<u32>, Seq<char>>
    decreases pieces.len(),
{
    if pieces.len() == 0 {
        Ok(Seq::empty())
    } else {
        let t = trim(pieces[0]);
        let rest = uids_from(pieces.drop_first());
        if t.len() == 0 {
            rest
        } else {
            match crate::text::spec_parse_u32(t) {
                None => Err("invalid_allowed_uid:"@ + t),
                Some(u) => match rest {
                    Ok(us) => Ok(seq![u] + us),
                    Err(e) => Err(e),
                },
            }
        }
    }
}

/// The peer uids the daemon admits: those of `DSAPI_ALLOWED_UIDS` when it
/// is set and not blank (an empty list is the error `allowed_uids_empty`),
/// else `defaults`.
pub fn parse_allowed_uids(raw: Option<&str>, defaults: &Vec<u32>) -> (r: Result<Vec<u32>, String>)
    ensures
        match raw {
            None => r matches Ok(u) && u@ == defaults@,
            Some(s) => if trim(s@).len() == 0 {
                r matches Ok(u) && u@ == defaults@
            } else {
                match uids_from(split_on(s@, ',')) {
                    Err(e) => r matches Err(x) && x@ == e,
                    Ok(us) => if us.len() == 0 {
                        r matches Err(x) && x@ == "allowed_uids_empty"@
                    } else {
                        r matches Ok(u) && u@ == uniq(us)
                    },
                }
            },
        },
{
    let s = match raw {
        None => return Ok(defaults.clone()),
        Some(s) => s,
    };
    let sv = chars_of(s);
    if trim_chars(&sv).len() == 0 {
        return Ok(defaults.clone());
    }
    let pieces = split_char(&sv, ',');
    let ghost ps = split_on(s@, ',');
    let mut out: Vec<u32> = Vec::new();
    let mut i: usize = 0;
    proof {
        assert(ps.skip(0) =~= ps);
        match uids_from(ps) {
            Ok(us) => {
                assert(out@ + us =~= us);
            },
            Err(e) => {},
        }
    }
    while i < pieces.len()
        invariant
            i <= pieces@.len(),
            pieces@.len() == ps.len(),
            ps == split_on(s@, ','),
            raw == Some(s),
            trim(s@).len() != 0,
            forall|k: int| 0 <= k < pieces@.len() ==> #[trigger] pieces@[k]@ == ps[k],
            uids_from(ps) == match uids_from(ps.skip(i as int)) {
                Ok(us) => Ok(out@ + us),
                Err(e) => Err::<Seq<u32>, Seq<char>>(e),
            },
        decreases pieces@.len() - i,
    {
        let ghost rest = ps.skip(i as int);
        assert(rest[0] == ps[i as int]);
        assert(rest.drop_first() =~= ps.skip(i + 1));
        let t = trim_chars(&pieces[i]);
        assert(t@ == trim(rest[0]));
        if t.len() > 0 {
            match crate::text::parse_u32_chars(&t) {
                None => {
                    let mut m = chars_of("invalid_allowed_uid:");
                    push_all(&mut m, &t);
                    proof {
                        assert(rest.len() > 0);
                        assert(uids_from(rest) == Err::<Seq<u32>, Seq<char>>(m@));
                        assert(uids_from(ps) == Err::<Seq<u32>, Seq<char>>(m@));
                    }
                    return Err(string_from_chars(&m));
                },
                Some(u) => {
                    let ghost before = out@;
                    out.push(u);
                    proof {
                        match uids_from(ps.skip(i + 1)) {
                            Ok(us) => {
                                assert(before + (seq![u] + us) =~= out@ + us);
                            },
                            Err(e) => {},
                        }
                    }
                },
            }
        }
        i += 1;
    }
    assert(ps.skip(pieces@.len() as int) =~= Seq::<Seq<char>>::empty());
    assert(out@ + Seq::<u32>::empty() =~= out@);
    if out.len() == 0 {
        return Err("allowed_uids_empty".to_owned());
    }
    Ok(uniq_u32(&out))
}

/// The values of `s` in the order they first occur, each once.
pub open spec fn uniq(s: Seq<u32>) -> Seq<u32>
    decreases s.len(),
{
    if s.len() == 0 {
        Seq::empty()
    } else {
        let d = uniq(s.drop_last());
        if d.contains(s.last()) {
            d
        } else {
            d.push(s.last())
        }
    }
}

/// What `uniq` keeps: no value twice, and exactly the values of `s`.
pub proof fn lemma_uniq(s: Seq<u32>)
    ensures
        uniq(s).no_duplicates(),
        forall|x: u32| uniq(s).contains(x) <==> s.contains(x),
    decreases s.len(),
{
    if s.len() > 0 {
        lemma_uniq(s.drop_last());
        let d = uniq(s.drop_last());
        assert forall|x: u32| uniq(s).contains(x) <==> s.contains(x) by {
            if s.contains(x) && x != s.last() {
                let i = choose|i: int| 0 <= i < s.len() && s[i] == x;
                assert(s.drop_last()[i] == x);
            }
            if s.drop_last().contains(x) {
                let i = choose|i: int| 0 <= i < s.drop_last().len() && s.drop_last()[i] == x;
                assert(s[i] == x);
            }
            if !d.contains(s.last()) {
                if d.push(s.last()).contains(x) && x != s.last() {
                    let i = choose|i: int| 0 <= i < d.push(s.last()).len() && d.push(s.last())[i] == x;
                    assert(d[i] == x);
                }
                if d.contains(x) {
                    let i = choose|i: int| 0 <= i < d.len() && d[i] == x;
                    assert(d.push(s.last())[i] == x);
                }
                assert(d.push(s.last())[d.len() as int] == s.last());
            }
        }
    }
}

/// The values of `v` in the order they first occur, each once.
pub fn uniq_u32(v: &Vec<u32>) -> (r: Vec<u32>)
    ensures
        r@ == uniq(v@),
{
    let mut out: Vec<u32> = Vec::new();
    let mut i: usize = 0;
    while i < v.len()
        invariant
            i <= v@.len(),
            out@ == uniq(v@.take(i as int)),
        decreases v@.len() - i,
    {
        assert(v@.take(i + 1).drop_last() =~= v@.take(i as int));
        assert(v@.take(i + 1).last() == v@[i as int]);
        let x = v[i];
        let mut seen = false;
        let mut j: usize = 0;
        while j < out.len()
            invariant
                j <= out@.len(),
                seen <==> exists|k: int| 0 <= k < j && out@[k] == x,
            decreases out@.len() - j,
        {
            if out[j] == x {
                seen = true;
            }
            j += 1;
        }
        if !seen {
            out.push(x);
        }
        i += 1;
    }
    assert(v@.take(v@.len() as int) =~= v@);
    out
}

/// Whether peer uid checks are relaxed: `1`, `true`, `yes`, `on` (any case,
/// trimmed) say yes, `0`, `false`, `no`, `off` say no, anything else leaves
/// the platform's default (relaxed on Android).
pub open spec fn auth_permissive_of(raw: Option<Seq<char>>, android: bool) -> bool {
    match raw {
        Some(s) => {
            let v = trim(s);
            if eq_ignore_case(v, "1"@) || eq_ignore_case(v, "true"@) || eq_ignore_case(v, "yes"@)
                || eq_ignore_case(v, "on"@) {
                true
            } else if eq_ignore_case(v, "0"@) || eq_ignore_case(v, "false"@) || eq_ignore_case(v, "no"@)
                || eq_ignore_case(v, "off"@) {
                false
            } else {
                android
            }
        },
        None => android,
    }
}

/// Whether peer uid checks are relaxed, as `auth_permissive_of` says.
pub fn parse_auth_permissive(raw: Option<&str>, android: bool) -> (r: bool)
    ensures
        r == auth_permissive_of(
            match raw {
                Some(s) => Some(s@),
                None => None,
            },
            android,
        ),
{
    match raw {
        Some(s) => {
            let v = trim_chars(&chars_of(s));
            if chars_eq_ignore_case(&v, "1") || chars_eq_ignore_case(&v, "true") || chars_eq_ignore_case(
                &v,
                "yes",
            ) || chars_eq_ignore_case(&v, "on") {
                return true;
            }
            if chars_eq_ignore_case(&v, "0") || chars_eq_ignore_case(&v, "false") || chars_eq_ignore_case(
                &v,
                "no",
            ) || chars_eq_ignore_case(&v, "off") {
                return false;
            }
            android
        },
        None => android,
    }
}

} // verus!
