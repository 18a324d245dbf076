use vstd::prelude::*;
use crate::text::{chars_of, chars_eq, string_from_chars, push_str, parse_i32_chars, spec_parse_i32};
use crate::util::{DEFAULT_CONTROL_SOCKET_PATH, data_socket_path_of, derive_data_socket_path_text};

verus! {

/// How the input bridge maps raw device coordinates onto the screen: the
/// device's largest x and y, the screen size and its rotation.
#[derive(Debug, Clone, Copy, PartialEq, Eq, Structural)]
pub struct InputMapConfig {
    pub max_x: i32,
    pub max_y: i32,
    pub width: i32,
    pub height: i32,
    pub rotation: i32,
}

/// What the input bridge runs with.
#[derive(Debug, Clone)]
pub struct InputBridgeArgs {
    pub data_socket: String,
    pub device: String,
    pub cfg: InputMapConfig,
    pub quiet: bool,
}

/// The settings while the arguments are read.
pub struct InputScan {
    pub control: Seq<char>,
    pub data: Option<Seq<char>>,
    pub device: Seq<char>,
    pub max_x: Option<i32>,
    pub max_y: Option<i32>,
    pub width: Option<i32>,
    pub height: Option<i32>,
    pub rotation: i32,
    pub quiet: bool,
}

/// The settings before any argument: the default control socket, no
/// device, no mapping values, rotation 0.
pub open spec fn input_start() -> InputScan {
    InputScan {
        control: DEFAULT_CONTROL_SOCKET_PATH@,
        data: None,
        device: Seq::empty(),
        max_x: None,
        max_y: None,
        width: None,
        height: None,
        rotation: 0,
        quiet: false,
    }
}

/// The options of the input bridge, each with its number (`--quiet` takes
/// no value).
pub open spec fn input_option(key: Seq<char>) -> int {
    if key == "--control-socket"@ {
        0
    } else if key == "--data-socket"@ {
        1
    } else if key == "--device"@ {
        2
    } else if key == "--max-x"@ {
        3
    } else if key == "--max-y"@ {
        4
    } else if key == "--width"@ {
        5
    } else if key == "--height"@ {
        6
    } else if key == "--rotation"@ {
        7
    } else if key == "--quiet"@ {
        8
    } else {
        -1
    }
}

/// The error of an option given without its value.
pub open spec fn input_missing(code: int) -> Seq<char> {
    if code == 0 {
        "missing_control_socket_path"@
    } else if code == 1 {
        "missing_data_socket_path"@
    } else if code == 2 {
        "missing_device_path"@
    } else if code == 3 {
        "missing_max_x"@
    } else if code == 4 {
        "missing_max_y"@
    } else if code == 5 {
        "missing_width"@
    } else if code == 6 {
        "missing_height"@
    } else {
        "missing_rotation"@
    }
}

/// The name of a numeric option in its error.
pub open spec fn input_number_name(code: int) -> Seq<char> {
    if code == 3 {
        "max_x"@
    } else if code == 4 {
        "max_y"@
    } else if code == 5 {
        "width"@
    } else if code == 6 {
        "height"@
    } else {
        "rotation"@
    }
}

/// The settings after option `code` with value `v`; a number that does not
/// parse as an `i32` is `invalid_<name>_value`.
pub open spec fn input_apply(s: InputScan, code: int, v: Seq<char>) -> Result<InputScan, Seq<char>> {
    if code == 0 {
        Ok(InputScan { control: v, ..s })
    } else if code == 1 {
        Ok(InputScan { data: Some(v), ..s })
    } else if code == 2 {
        Ok(InputScan { device: v, ..s })
    } else {
        match spec_parse_i32(v) {
            None => Err("invalid_"@ + input_number_name(code) + "_value"@),
            Some(n) => if code == 3 {
                Ok(InputScan { max_x: Some(n), ..s })
            } else if code == 4 {
                Ok(InputScan { max_y: Some(n), ..s })
            } else if code == 5 {
                Ok(InputScan { width: Some(n), ..s })
            } else if code == 6 {
                Ok(InputScan { height: Some(n), ..s })
            } else {
                Ok(InputScan { rotation: n, ..s })
            },
        }
    }
}

/// The settings after the arguments from index `i` on.
pub open spec fn input_scan(args: Seq<Seq<char>>, i: int, s: InputScan) -> Result<InputScan, Seq<char>>
    decreases args.len() - i,
{
    if i >= args.len() || i < 0 {
        Ok(s)
    } else {
        let code = input_option(args[i]);
        if code < 0 {
            Err("unknown_arg:"@ + args[i])
        } else if code == 8 {
            input_scan(args, i + 1, InputScan { quiet: true, ..s })
        } else if i + 1 >= args.len() {
            Err(input_missing(code))
        } else {
            match input_apply(s, code, args[i + 1]) {
                Err(e) => Err(e),
                Ok(s2) => input_scan(args, i + 2, s2),
            }
        }
    }
}

/// The bridge's settings once the arguments are read: the device and the
/// four mapping values are required, the mapping values must be positive
/// and the rotation within 0 to 3; the data socket is the one given, else
/// the one beside the control socket. Gives data socket, device, mapping
/// and quietness.
pub open spec fn input_finish(s: InputScan) -> Result<(Seq<char>, Seq<char>, InputMapConfig, bool), Seq<char>> {
    if s.device.len() == 0 {
        Err("missing_device"@)
    } else if s.max_x is None {
        Err("missing_max_x"@)
    } else if s.max_y is None {
        Err("missing_max_y"@)
    } else if s.width is None {
        Err("missing_width"@)
    } else if s.height is None {
        Err("missing_height"@)
    } else {
        let cfg = InputMapConfig {
            max_x: s.max_x->Some_0,
            max_y: s.max_y->Some_0,
            width: s.width->Some_0,
            height: s.height->Some_0,
            rotation: s.rotation,
        };
        if cfg.max_x <= 0 || cfg.max_y <= 0 || cfg.width <= 0 || cfg.height <= 0 {
            Err("mapping_values_must_be_positive"@)
        } else if !(0 <= cfg.rotation <= 3) {
            Err("rotation_must_be_0_3"@)
        } else {
            let data = match s.data {
                Some(d) => d,
                None => data_socket_path_of(s.control),
            };
            Ok((data, s.device, cfg, s.quiet))
        }
    }
}

struct ScanState {
    control: String,
    data: Option<String>,
    device: String,
    max_x: Option<i32>,
    max_y: Option<i32>,
    width: Option<i32>,
    height: Option<i32>,
    rotation: i32,
    quiet: bool,
}

impl ScanState {
    spec fn view(&self) -> InputScan {
        InputScan {
            control: self.control@,
            data: match self.data {
                Some(d) => Some(d@),
                None => None,
            },
            device: self.device@,
            max_x: self.max_x,
            max_y: self.max_y,
            width: self.width,
            height: self.height,
            rotation: self.rotation,
            quiet: self.quiet,
        }
    }
}

fn input_option_of(key: &str) -> (r: i32)
    ensures
        r == input_option(key@),
{
    let k = chars_of(key);
    if chars_eq(&k, "--control-socket") {
        0
    } else if chars_eq(&k, "--data-socket") {
        1
    } else if chars_eq(&k, "--device") {
        2
    } else if chars_eq(&k, "--max-x") {
        3
    } else if chars_eq(&k, "--max-y") {
        4
    } else if chars_eq(&k, "--width") {
        5
    } else if chars_eq(&k, "--height") {
        6
    } else if chars_eq(&k, "--rotation") {
        7
    } else if chars_eq(&k, "--quiet") {
        8
    } else {
        -1
    }
}

fn input_missing_of(code: i32) -> (r: String)
    requires
        0 <= code <= 7,
    ensures
        r@ == input_missing(code as int),
{
    if code == 0 {
        "missing_control_socket_path".to_owned()
    } else if code == 1 {
        "missing_data_socket_path".to_owned()
    } else if code == 2 {
        "missing_device_path".to_owned()
    } else if code == 3 {
        "missing_max_x".to_owned()
    } else if code == 4 {
        "missing_max_y".to_owned()
    } else if code == 5 {
        "missing_width".to_owned()
    } else if code == 6 {
        "missing_height".to_owned()
    } else {
        "missing_rotation".to_owned()
    }
}

fn input_apply_exec(s: &mut ScanState, code: i32, v: &String) -> (r: Result<(), String>)
    requires
        0 <= code <= 7,
    ensures
        match input_apply(old(s).view(), code as int, v@) {
            Err(e) => r matches Err(x) && x@ == e,
            Ok(s2) => r is Ok && final(s).view() == s2,
        },
{
    if code == 0 {
        s.control = v.clone();
        return Ok(());
    }
    if code == 1 {
        s.data = Some(v.clone());
        return Ok(());
    }
    if code == 2 {
        s.device = v.clone();
        return Ok(());
    }
    let n = match parse_i32_chars(&chars_of(v.as_str())) {
        Some(n) => n,
        None => {
            let name = if code == 3 {
                "max_x"
            } else if code == 4 {
                "max_y"
            } else if code == 5 {
                "width"
            } else if code == 6 {
                "height"
            } else {
                "rotation"
            };
            let mut m: Vec<char> = Vec::new();
            push_str(&mut m, "invalid_");
            push_str(&mut m, name);
            push_str(&mut m, "_value");
            return Err(string_from_chars(&m));
        },
    };
    if code == 3 {
        s.max_x = Some(n);
    } else if code == 4 {
        s.max_y = Some(n);
    } else if code == 5 {
        s.width = Some(n);
    } else if code == 6 {
        s.height = Some(n);
    } else {
        s.rotation = n;
    }
    Ok(())
}

/// Reads the input bridge's arguments (after the program name) as
/// `input_scan` and then `input_finish` say.
pub fn parse_input_args(args: &Vec<String>) -> (r: Result<InputBridgeArgs, String>)
    ensures
        ({
            let argv = args@.map_values(|a: String| a@);
            match input_scan(argv, 1, input_start()) {
                Err(e) => r matches Err(x) && x@ == e,
                Ok(s) => match input_finish(s) {
                    Err(e) => r matches Err(x) && x@ == e,
                    Ok((data, device, cfg, quiet)) => r matches Ok(a) && a.data_socket@ == data && a.device@ == device
                        && a.cfg == cfg && a.quiet == quiet,
                },
            }
        }),
{
    let ghost argv = args@.map_values(|a: String| a@);
    let mut s = ScanState {
        control: DEFAULT_CONTROL_SOCKET_PATH.to_owned(),
        data: None,
        device: String::new(),
        max_x: None,
        max_y: None,
        width: None,
        height: None,
        rotation: 0,
        quiet: false,
    };
    proof {
        assert(s.view().device =~= Seq::<char>::empty());
    }
    let mut i: usize = 1;
    while i < args.len()
        invariant
            argv == args@.map_values(|a: String| a@),
            1 <= i,
            input_scan(argv, 1, input_start()) == input_scan(argv, i as int, s.view()),
        decreases args@.len() - i,
    {
        let code = input_option_of(args[i].as_str());
        assert(argv[i as int] == args@[i as int]@);
        if code < 0 {
            let mut m = chars_of("unknown_arg:");
            push_str(&mut m, args[i].as_str());
            return Err(string_from_chars(&m));
        }
        if code == 8 {
            s.quiet = true;
            i += 1;
        } else {
            if i + 1 >= args.len() {
                return Err(input_missing_of(code));
            }
            assert(argv[i + 1] == args@[i + 1]@);
            match input_apply_exec(&mut s, code, &args[i + 1]) {
                Ok(()) => {},
                Err(e) => return Err(e),
            }
            i += 2;
        }
    }
    if s.device.as_str().unicode_len() == 0 {
        return Err("missing_device".to_owned());
    }
    let max_x = match s.max_x {
        Some(v) => v,
        None => return Err("missing_max_x".to_owned()),
    };
    let max_y = match s.max_y {
        Some(v) => v,
        None => return Err("missing_max_y".to_owned()),
    };
    let width = match s.width {
        Some(v) => v,
        None => return Err("missing_width".to_owned()),
    };
    let height = match s.height {
        Some(v) => v,
        None => return Err("missing_height".to_owned()),
    };
    let cfg = InputMapConfig { max_x, max_y, width, height, rotation: s.rotation };
    if max_x <= 0 || max_y <= 0 || width <= 0 || height <= 0 {
        return Err("mapping_values_must_be_positive".to_owned());
    }
    if !(0 <= s.rotation && s.rotation <= 3) {
        return Err("rotation_must_be_0_3".to_owned());
    }
    let data = match s.data {
        Some(d) => d,
        None => derive_data_socket_path_text(s.control.as_str()),
    };
    Ok(InputBridgeArgs { data_socket: data, device: s.device, cfg, quiet: s.quiet })
}

} // verus!
