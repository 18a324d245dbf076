use vstd::prelude::*;
use crate::text::{chars_of, string_from_chars, push_str};

verus! {

/// Where the control socket is when nothing else says.
pub const DEFAULT_CONTROL_SOCKET_PATH: &'static str = "artifacts/run/dsapi.sock";

/// A rotation as a quarter-turn count in `0..4`.
pub fn normalize_rotation(rotation: u32) -> (r: u32)
    ensures
        r == rotation % 4,
{
    rotation % 4
}

/// The default control socket path.
pub fn default_control_socket_path() -> (r: String)
    ensures
        r@ == DEFAULT_CONTROL_SOCKET_PATH@,
{
    DEFAULT_CONTROL_SOCKET_PATH.to_owned()
}

/// The data socket beside a control socket: `x.sock` gives `x.data.sock`,
/// any other path `p` gives `p.data`.
pub open spec fn data_socket_path_of(control: Seq<char>) -> Seq<char> {
    let suffix = ".sock"@;
    if control.len() >= suffix.len() && control.subrange(control.len() - suffix.len(), control.len() as int)
        == suffix {
        control.subrange(0, control.len() - suffix.len()) + ".data.sock"@
    } else {
        control + ".data"@
    }
}

/// The data socket path that goes with `control_socket_path`, as
/// `data_socket_path_of` says.
pub fn derive_data_socket_path_text(control_socket_path: &str) -> (r: String)
    ensures
        r@ == data_socket_path_of(control_socket_path@),
{
    let c = chars_of(control_socket_path);
    let n = c.len();
    let suffix = chars_of(".sock");
    proof {
        reveal_strlit(".sock");
    }
    let mut ends: bool = n >= 5;
    if ends {
        let mut k: usize = 0;
        while k < 5
            invariant
                n == c@.len(),
                n >= 5,
                suffix@ == ".sock"@,
                suffix@.len() == 5,
                k <= 5,
                ends == forall|j: int| 0 <= j < k ==> c@[n - 5 + j] == suffix@[j],
            decreases 5 - k,
        {
            if c[n - 5 + k] != suffix[k] {
                ends = false;
            }
            k += 1;
        }
        proof {
            if ends {
                assert(c@.subrange(n - 5, n as int) =~= ".sock"@);
            } else {
                assert(c@.subrange(n - 5, n as int) != ".sock"@) by {
                    let j = choose|j: int| 0 <= j < 5 && c@[n - 5 + j] != suffix@[j];
                    assert(c@.subrange(n - 5, n as int)[j] != ".sock"@[j]);
                }
            }
        }
    }
    let mut out: Vec<char> = Vec::new();
    if ends {
        let mut i: usize = 0;
        while i < n - 5
            invariant
                n == c@.len(),
                n >= 5,
                i <= n - 5,
                out@ == c@.take(i as int),
            decreases n - 5 - i,
        {
            out.push(c[i]);
            i += 1;
            assert(out@ =~= c@.take(i as int));
        }
        push_str(&mut out, ".data.sock");
        assert(out@ =~= data_socket_path_of(control_socket_path@));
    } else {
        push_str(&mut out, control_socket_path);
        push_str(&mut out, ".data");
        assert(out@ =~= data_socket_path_of(control_socket_path@));
    }
    string_from_chars(&out)
}

} // verus!
