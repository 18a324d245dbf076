use vstd::prelude::*;
use crate::api::{Status, status_code};
use crate::wire::{u16_at, u32_at, u64_at, get_u16_le, get_u32_le, get_u64_le,
    lemma_le16_of_bytes, lemma_le32_of_bytes, lemma_le64_of_bytes, bytes64};
use crate::text::{
    chars_of, chars_eq, string_from_chars, push_str, push_decimal, push_signed_decimal, upper_chars, upper_seq,
    parse_u32_chars, parse_u64_chars, parse_i32_chars, spec_parse_u32, spec_parse_u64, spec_parse_i32,
    decimal_text, signed_decimal_text, split_ascii_ws, ascii_ws_tokens,
};
use crate::api::status_name;
use crate::protocol::{
    BinaryCommand, BinaryDisplaySetPayload, BinaryTouchPayload, BinaryRenderSubmitPayload, BinaryResponse, BINARY_PROTOCOL_MAGIC, BINARY_PROTOCOL_VERSION, encoded_response,
    };

verus! {

/// A response as the control client reads it.
#[derive(Debug, Clone, Copy, PartialEq, Eq)]
pub struct BinaryCtlResponse {
    pub seq: u64,
    pub opcode: u16,
    pub status: Status,
    pub values: [u64; 8],
}

/// Why the bytes of a response could not be read.
#[derive(Debug, Clone, Copy, PartialEq, Eq, Structural)]
pub enum ResponseDecodeError {
    /// The stream ended inside the header or inside the payload.
    Truncated,
    /// The magic or the version is not this protocol's.
    HeaderInvalid,
    /// The declared payload length is not that of a response.
    PayloadLenInvalid,
    /// The status number names no status.
    StatusInvalid,
}

impl ResponseDecodeError {
    /// The text the control client reports for this failure.
    pub fn message(self) -> (r: &'static str)
        ensures
            r@ == decode_error_text(self),
    {
        match self {
            ResponseDecodeError::Truncated => "binary_response_truncated",
            ResponseDecodeError::HeaderInvalid => "binary_response_header_invalid",
            ResponseDecodeError::PayloadLenInvalid => "binary_response_payload_len_invalid",
            ResponseDecodeError::StatusInvalid => "binary_response_status_invalid",
        }
    }
}

/// The text of each failure.
pub open spec fn decode_error_text(e: ResponseDecodeError) -> Seq<char> {
    match e {
        ResponseDecodeError::Truncated => "binary_response_truncated"@,
        ResponseDecodeError::HeaderInvalid => "binary_response_header_invalid"@,
        ResponseDecodeError::PayloadLenInvalid => "binary_response_payload_len_invalid"@,
        ResponseDecodeError::StatusInvalid => "binary_response_status_invalid"@,
    }
}

/// The status a wire number names.
pub open spec fn status_of(v: i32) -> Option<Status> {
    if v == 0 {
        Some(Status::Success)
    } else if v == 1 {
        Some(Status::NullPointer)
    } else if v == 2 {
        Some(Status::InvalidArgument)
    } else if v == 3 {
        Some(Status::OutOfRange)
    } else if v == 4 {
        Some(Status::InternalError)
    } else {
        None
    }
}

/// The eight values stored from byte 24 of `s`.
pub open spec fn values_at(s: Seq<u8>) -> Seq<u64> {
    Seq::new(8, |i: int| u64_at(s, 24 + 8 * i))
}

/// What the bytes a client received for one response say. Nothing at all
/// is the end of the stream. A stream that ends inside the header or
/// anywhere before the end of the payload is truncated. Bytes past the
/// first response are not read.
pub open spec fn spec_read_response(s: Seq<u8>) -> Result<Option<(u64, u16, Status, Seq<u64>)>, ResponseDecodeError> {
    if s.len() == 0 {
        Ok(None)
    } else if s.len() < 20 {
        Err(ResponseDecodeError::Truncated)
    } else if u32_at(s, 0) != BINARY_PROTOCOL_MAGIC || u16_at(s, 4) != BINARY_PROTOCOL_VERSION {
        Err(ResponseDecodeError::HeaderInvalid)
    } else if u32_at(s, 8) != 68 {
        Err(ResponseDecodeError::PayloadLenInvalid)
    } else if s.len() < 88 {
        Err(ResponseDecodeError::Truncated)
    } else {
        match status_of(u32_at(s, 20) as i32) {
            None => Err(ResponseDecodeError::StatusInvalid),
            Some(st) => Ok(Some((u64_at(s, 12), u16_at(s, 6), st, values_at(s)))),
        }
    }
}

/// The parts of a read response.
pub open spec fn ctl_parts(r: BinaryCtlResponse) -> (u64, u16, Status, Seq<u64>) {
    (r.seq, r.opcode, r.status, r.values@)
}

/// Reads one response from the bytes a client received, as
/// `spec_read_response` says.
pub fn read_response(frame: &[u8]) -> (r: Result<Option<BinaryCtlResponse>, ResponseDecodeError>)
    ensures
        match r {
            Ok(Some(v)) => spec_read_response(frame@) == Ok::<
                Option<(u64, u16, Status, Seq<u64>)>,
                ResponseDecodeError,
            >(Some(ctl_parts(v))),
            Ok(None) => spec_read_response(frame@) == Ok::<
                Option<(u64, u16, Status, Seq<u64>)>,
                ResponseDecodeError,
            >(None),
            Err(e) => spec_read_response(frame@) == Err::<
                Option<(u64, u16, Status, Seq<u64>)>,
                ResponseDecodeError,
            >(e),
        },
{
    if frame.len() == 0 {
        return Ok(None);
    }
    if frame.len() < 20 {
        return Err(ResponseDecodeError::Truncated);
    }
    let magic = get_u32_le(frame, 0);
    let version = get_u16_le(frame, 4);
    let opcode = get_u16_le(frame, 6);
    let payload_len = get_u32_le(frame, 8);
    let seq = get_u64_le(frame, 12);
    if magic != BINARY_PROTOCOL_MAGIC || version != BINARY_PROTOCOL_VERSION {
        return Err(ResponseDecodeError::HeaderInvalid);
    }
    if payload_len != 68 {
        return Err(ResponseDecodeError::PayloadLenInvalid);
    }
    if frame.len() < 88 {
        return Err(ResponseDecodeError::Truncated);
    }
    let status = match Status::from_i32(get_u32_le(frame, 20) as i32) {
        Some(s) => s,
        None => return Err(ResponseDecodeError::StatusInvalid),
    };
    let r = BinaryCtlResponse {
        seq,
        opcode,
        status,
        values: [
            get_u64_le(frame, 24),
            get_u64_le(frame, 32),
            get_u64_le(frame, 40),
            get_u64_le(frame, 48),
            get_u64_le(frame, 56),
            get_u64_le(frame, 64),
            get_u64_le(frame, 72),
            get_u64_le(frame, 80),
        ],
    };
    assert(r.values@ =~= values_at(frame@));
    Ok(Some(r))
}

/// A response read back from the frame it was sent as (with no body) is
/// the response that was sent.
pub proof fn lemma_read_encoded_response(resp: BinaryResponse)
    ensures
        spec_read_response(encoded_response(resp, Seq::empty())) == Ok::<
            Option<(u64, u16, Status, Seq<u64>)>,
            ResponseDecodeError,
        >(Some((resp.seq, resp.opcode, resp.status, resp.values@))),
{
    let s = encoded_response(resp, Seq::empty());
    let v = resp.values@;
    lemma_le32_of_bytes(BINARY_PROTOCOL_MAGIC);
    lemma_le16_of_bytes(BINARY_PROTOCOL_VERSION);
    lemma_le16_of_bytes(resp.opcode);
    lemma_le32_of_bytes(68u32);
    lemma_le64_of_bytes(resp.seq);
    lemma_le32_of_bytes(status_code(resp.status) as u32);
    assert forall|i: int| 0 <= i < 8 implies value_slot_reads_back(v, i) by {
        lemma_le64_of_bytes(v[i]);
    }
    assert(s.len() == 88);
    let st = status_code(resp.status);
    assert((st as u32) as i32 == st) by (bit_vector)
        requires 0 <= st <= 4;
    assert(status_of(u32_at(s, 20) as i32) == Some(resp.status));
    assert forall|i: int| 0 <= i < 8 implies u64_at(s, 24 + 8 * i) == v[i] by {
        assert(value_slot_reads_back(v, i));
        assert(s[24 + 8 * i] == bytes64(v[i])[0]);
        assert(s[24 + 8 * i + 1] == bytes64(v[i])[1]);
        assert(s[24 + 8 * i + 2] == bytes64(v[i])[2]);
        assert(s[24 + 8 * i + 3] == bytes64(v[i])[3]);
        assert(s[24 + 8 * i + 4] == bytes64(v[i])[4]);
        assert(s[24 + 8 * i + 5] == bytes64(v[i])[5]);
        assert(s[24 + 8 * i + 6] == bytes64(v[i])[6]);
        assert(s[24 + 8 * i + 7] == bytes64(v[i])[7]);
    }
    assert(values_at(s) =~= v);
}

/// Slot `i` of eight values reads back as the value.
pub open spec fn value_slot_reads_back(v: Seq<u64>, i: int) -> bool {
    crate::wire::le64(
        bytes64(v[i])[0],
        bytes64(v[i])[1],
        bytes64(v[i])[2],
        bytes64(v[i])[3],
        bytes64(v[i])[4],
        bytes64(v[i])[5],
        bytes64(v[i])[6],
        bytes64(v[i])[7],
    ) == v[i]
}


// ---------------------------------------------------------------------------
// The text commands of the control client. Floats travel as the bits of an
// `f32`: the host reads a float token into its bits (`None` when it is no
// float) and writes the floats a reply shows; the rest is read and written
// here.

/// One pass of a Gaussian filter chain: its radius and the bits of its
/// sigma.
#[derive(Debug, Clone, Copy, PartialEq, Eq, Structural)]
pub struct BinaryCtlGaussianPass {
    pub radius: u32,
    pub sigma_bits: u32,
}

/// A control command, float fields as `f32` bits.
#[derive(Debug, Clone)]
pub enum BinaryCtlCommand {
    Ping,
    Version,
    DisplayGet,
    DisplayWait { last_seq: u64, timeout_ms: u32 },
    DisplaySet { width: u32, height: u32, refresh_hz_bits: u32, density_dpi: u32, rotation: u32 },
    TouchClear,
    TouchCount,
    TouchMove { pointer_id: i32, x_bits: u32, y_bits: u32 },
    RenderSubmit { draw_calls: u32, frost_passes: u32, text_calls: u32 },
    RenderGet,
    FilterChainSet { passes: Vec<BinaryCtlGaussianPass> },
    FilterClear,
    FilterGet,
    Shutdown,
}

/// A control command with its passes as a sequence of (radius, sigma bits).
pub enum CtlShape {
    Ping,
    Version,
    DisplayGet,
    DisplayWait(u64, u32),
    DisplaySet(u32, u32, u32, u32, u32),
    TouchClear,
    TouchCount,
    TouchMove(i32, u32, u32),
    RenderSubmit(u32, u32, u32),
    RenderGet,
    FilterChainSet(Seq<(u32, u32)>),
    FilterClear,
    FilterGet,
    Shutdown,
}

impl View for BinaryCtlCommand {
    type V = CtlShape;

    open spec fn view(&self) -> CtlShape {
        match self {
            BinaryCtlCommand::Ping => CtlShape::Ping,
            BinaryCtlCommand::Version => CtlShape::Version,
            BinaryCtlCommand::DisplayGet => CtlShape::DisplayGet,
            BinaryCtlCommand::DisplayWait { last_seq, timeout_ms } => CtlShape::DisplayWait(*last_seq, *timeout_ms),
            BinaryCtlCommand::DisplaySet { width, height, refresh_hz_bits, density_dpi, rotation } => CtlShape::DisplaySet(
                *width,
                *height,
                *refresh_hz_bits,
                *density_dpi,
                *rotation,
            ),
            BinaryCtlCommand::TouchClear => CtlShape::TouchClear,
            BinaryCtlCommand::TouchCount => CtlShape::TouchCount,
            BinaryCtlCommand::TouchMove { pointer_id, x_bits, y_bits } => CtlShape::TouchMove(*pointer_id, *x_bits, *y_bits),
            BinaryCtlCommand::RenderSubmit { draw_calls, frost_passes, text_calls } => CtlShape::RenderSubmit(
                *draw_calls,
                *frost_passes,
                *text_calls,
            ),
            BinaryCtlCommand::RenderGet => CtlShape::RenderGet,
            BinaryCtlCommand::FilterChainSet { passes } => CtlShape::FilterChainSet(
                passes@.map_values(|p: BinaryCtlGaussianPass| (p.radius, p.sigma_bits)),
            ),
            BinaryCtlCommand::FilterClear => CtlShape::FilterClear,
            BinaryCtlCommand::FilterGet => CtlShape::FilterGet,
            BinaryCtlCommand::Shutdown => CtlShape::Shutdown,
        }
    }
}

/// A `u32` token, else `invalid_u32:<token>`.
pub open spec fn u32_field(t: Seq<char>) -> Result<u32, Seq<char>> {
    match spec_parse_u32(t) {
        Some(v) => Ok(v),
        None => Err("invalid_u32:"@ + t),
    }
}

/// A `u64` token, else `invalid_u64:<token>`.
pub open spec fn u64_field(t: Seq<char>) -> Result<u64, Seq<char>> {
    match spec_parse_u64(t) {
        Some(v) => Ok(v),
        None => Err("invalid_u64:"@ + t),
    }
}

/// An `i32` token, else `invalid_i32:<token>`.
pub open spec fn i32_field(t: Seq<char>) -> Result<i32, Seq<char>> {
    match spec_parse_i32(t) {
        Some(v) => Ok(v),
        None => Err("invalid_i32:"@ + t),
    }
}

/// A float token, given the bits the host read from it, else
/// `invalid_f32:<token>`.
pub open spec fn f32_field(t: Seq<char>, bits: Option<u32>) -> Result<u32, Seq<char>> {
    match bits {
        Some(b) => Ok(b),
        None => Err("invalid_f32:"@ + t),
    }
}

/// The float bits the host read from token `i`.
pub open spec fn bits_at(fb: Seq<Option<u32>>, i: int) -> Option<u32> {
    if 0 <= i < fb.len() {
        fb[i]
    } else {
        None
    }
}

/// The first `k` passes of a chain: radius at token `2 + 2i`, sigma at
/// `3 + 2i`; the first token that is not a number gives the error.
pub open spec fn passes_of(toks: Seq<Seq<char>>, fb: Seq<Option<u32>>, k: nat) -> Result<Seq<(u32, u32)>, Seq<char>>
    decreases k,
{
    if k == 0 {
        Ok(Seq::empty())
    } else {
        match passes_of(toks, fb, (k - 1) as nat) {
            Err(e) => Err(e),
            Ok(ps) => {
                let i = k - 1;
                match u32_field(toks[2 + 2 * i]) {
                    Err(e) => Err(e),
                    Ok(radius) => match f32_field(toks[3 + 2 * i], bits_at(fb, 3 + 2 * i)) {
                        Err(e) => Err(e),
                        Ok(sigma) => Ok(ps.push((radius, sigma))),
                    },
                }
            },
        }
    }
}

/// The passes of `FILTER_CHAIN_SET <count> (<radius> <sigma>)*`.
pub open spec fn chain_of(toks: Seq<Seq<char>>, fb: Seq<Option<u32>>) -> Result<Seq<(u32, u32)>, Seq<char>> {
    let err = "filter_chain_set_args_invalid"@;
    if toks.len() < 2 {
        Err(err)
    } else {
        match u32_field(toks[1]) {
            Err(e) => Err(e),
            Ok(count) => if toks.len() != 2 + 2 * count {
                Err(err)
            } else {
                passes_of(toks, fb, count as nat)
            },
        }
    }
}

/// `t` is the command word `w`, in any ASCII case.
pub open spec fn word_is(t: Seq<char>, w: Seq<char>) -> bool {
    upper_seq(t) == w
}

/// A command of no argument.
pub open spec fn bare(toks: Seq<Seq<char>>, c: CtlShape, err: Seq<char>) -> Result<CtlShape, Seq<char>> {
    if toks.len() != 1 {
        Err(err)
    } else {
        Ok(c)
    }
}

/// The command the tokens `toks` spell (the host read float tokens into
/// `fb`, one per token), or the error the control client reports: the
/// command word in any ASCII case, then exactly its arguments, read in
/// order, the first that is not a number giving the error.
pub open spec fn spec_command_of(toks: Seq<Seq<char>>, fb: Seq<Option<u32>>) -> Result<CtlShape, Seq<char>> {
    if toks.len() == 0 {
        Err("empty_command"@)
    } else {
        let w = toks[0];
        if word_is(w, "PING"@) {
            bare(toks, CtlShape::Ping, "ping_args_invalid"@)
        } else if word_is(w, "VERSION"@) {
            bare(toks, CtlShape::Version, "version_args_invalid"@)
        } else if word_is(w, "DISPLAY_GET"@) {
            bare(toks, CtlShape::DisplayGet, "display_get_args_invalid"@)
        } else if word_is(w, "DISPLAY_WAIT"@) {
            if toks.len() != 3 {
                Err("display_wait_args_invalid"@)
            } else {
                match u64_field(toks[1]) {
                    Err(e) => Err(e),
                    Ok(a) => match u32_field(toks[2]) {
                        Err(e) => Err(e),
                        Ok(b) => Ok(CtlShape::DisplayWait(a, b)),
                    },
                }
            }
        } else if word_is(w, "DISPLAY_SET"@) {
            if toks.len() != 6 {
                Err("display_set_args_invalid"@)
            } else {
                match u32_field(toks[1]) {
                    Err(e) => Err(e),
                    Ok(a) => match u32_field(toks[2]) {
                        Err(e) => Err(e),
                        Ok(b) => match f32_field(toks[3], bits_at(fb, 3)) {
                            Err(e) => Err(e),
                            Ok(c) => match u32_field(toks[4]) {
                                Err(e) => Err(e),
                                Ok(d) => match u32_field(toks[5]) {
                                    Err(e) => Err(e),
                                    Ok(f) => Ok(CtlShape::DisplaySet(a, b, c, d, f)),
                                },
                            },
                        },
                    },
                }
            }
        } else if word_is(w, "TOUCH_CLEAR"@) {
            bare(toks, CtlShape::TouchClear, "touch_clear_args_invalid"@)
        } else if word_is(w, "TOUCH_COUNT"@) {
            bare(toks, CtlShape::TouchCount, "touch_count_args_invalid"@)
        } else if word_is(w, "TOUCH_MOVE"@) {
            if toks.len() != 4 {
                Err("touch_move_args_invalid"@)
            } else {
                match i32_field(toks[1]) {
                    Err(e) => Err(e),
                    Ok(a) => match f32_field(toks[2], bits_at(fb, 2)) {
                        Err(e) => Err(e),
                        Ok(b) => match f32_field(toks[3], bits_at(fb, 3)) {
                            Err(e) => Err(e),
                            Ok(c) => Ok(CtlShape::TouchMove(a, b, c)),
                        },
                    },
                }
            }
        } else if word_is(w, "RENDER_SUBMIT"@) {
            if toks.len() != 4 {
                Err("render_submit_args_invalid"@)
            } else {
                match u32_field(toks[1]) {
                    Err(e) => Err(e),
                    Ok(a) => match u32_field(toks[2]) {
                        Err(e) => Err(e),
                        Ok(b) => match u32_field(toks[3]) {
                            Err(e) => Err(e),
                            Ok(c) => Ok(CtlShape::RenderSubmit(a, b, c)),
                        },
                    },
                }
            }
        } else if word_is(w, "RENDER_GET"@) {
            bare(toks, CtlShape::RenderGet, "render_get_args_invalid"@)
        } else if word_is(w, "FILTER_SET_GAUSSIAN"@) {
            if toks.len() != 3 {
                Err("filter_set_gaussian_args_invalid"@)
            } else {
                match u32_field(toks[1]) {
                    Err(e) => Err(e),
                    Ok(a) => match f32_field(toks[2], bits_at(fb, 2)) {
                        Err(e) => Err(e),
                        Ok(b) => Ok(CtlShape::FilterChainSet(seq![(a, b)])),
                    },
                }
            }
        } else if word_is(w, "FILTER_CHAIN_SET"@) {
            match chain_of(toks, fb) {
                Err(e) => Err(e),
                Ok(ps) => Ok(CtlShape::FilterChainSet(ps)),
            }
        } else if word_is(w, "FILTER_CLEAR"@) || word_is(w, "FILTER_CHAIN_CLEAR"@) {
            bare(toks, CtlShape::FilterClear, "filter_clear_args_invalid"@)
        } else if word_is(w, "FILTER_GET"@) {
            bare(toks, CtlShape::FilterGet, "filter_get_args_invalid"@)
        } else if word_is(w, "SHUTDOWN"@) {
            bare(toks, CtlShape::Shutdown, "shutdown_args_invalid"@)
        } else {
            Err("unsupported_command:"@ + w)
        }
    }
}

/// A parse result with the command and the error taken by their views.
pub open spec fn command_view(r: Result<BinaryCtlCommand, String>) -> Result<CtlShape, Seq<char>> {
    match r {
        Ok(c) => Ok(c@),
        Err(e) => Err(e@),
    }
}

/// `prefix` then `token`.
fn field_error(prefix: &str, token: &Vec<char>) -> (r: String)
    ensures
        r@ == prefix@ + token@,
{
    let mut v: Vec<char> = Vec::new();
    push_str(&mut v, prefix);
    let mut i: usize = 0;
    while i < token.len()
        invariant
            i <= token@.len(),
            v@ == prefix@ + token@.take(i as int),
        decreases token@.len() - i,
    {
        v.push(token[i]);
        i += 1;
        assert(v@ =~= prefix@ + token@.take(i as int));
    }
    assert(token@.take(token@.len() as int) =~= token@);
    string_from_chars(&v)
}

fn read_u32(t: &Vec<char>) -> (r: Result<u32, String>)
    ensures
        match u32_field(t@) {
            Ok(v) => r == Ok::<u32, String>(v),
            Err(e) => r matches Err(s) && s@ == e,
        },
{
    match parse_u32_chars(t) {
        Some(v) => Ok(v),
        None => Err(field_error("invalid_u32:", t)),
    }
}

fn read_u64(t: &Vec<char>) -> (r: Result<u64, String>)
    ensures
        match u64_field(t@) {
            Ok(v) => r == Ok::<u64, String>(v),
            Err(e) => r matches Err(s) && s@ == e,
        },
{
    match parse_u64_chars(t) {
        Some(v) => Ok(v),
        None => Err(field_error("invalid_u64:", t)),
    }
}

fn read_i32(t: &Vec<char>) -> (r: Result<i32, String>)
    ensures
        match i32_field(t@) {
            Ok(v) => r == Ok::<i32, String>(v),
            Err(e) => r matches Err(s) && s@ == e,
        },
{
    match parse_i32_chars(t) {
        Some(v) => Ok(v),
        None => Err(field_error("invalid_i32:", t)),
    }
}

fn read_f32(t: &Vec<char>, fb: &Vec<Option<u32>>, i: usize) -> (r: Result<u32, String>)
    ensures
        match f32_field(t@, bits_at(fb@, i as int)) {
            Ok(v) => r == Ok::<u32, String>(v),
            Err(e) => r matches Err(s) && s@ == e,
        },
{
    let bits = if i < fb.len() {
        fb[i]
    } else {
        None
    };
    match bits {
        Some(b) => Ok(b),
        None => Err(field_error("invalid_f32:", t)),
    }
}

/// A command of no argument, as `bare` says.
fn read_bare(n: usize, c: BinaryCtlCommand, err: &str) -> (r: Result<BinaryCtlCommand, String>)
    ensures
        n != 1 ==> (r matches Err(s) && s@ == err@),
        n == 1 ==> (r matches Ok(x) && x@ == c@),
{
    if n != 1 {
        Err(err.to_owned())
    } else {
        Ok(c)
    }
}

/// The passes of a `FILTER_CHAIN_SET` command, as `chain_of` says.
fn read_chain(toks: &Vec<Vec<char>>, fb: &Vec<Option<u32>>) -> (r: Result<Vec<BinaryCtlGaussianPass>, String>)
    ensures
        match chain_of(toks@.map_values(|t: Vec<char>| t@), fb@) {
            Ok(ps) => r matches Ok(v) && v@.map_values(|p: BinaryCtlGaussianPass| (p.radius, p.sigma_bits)) == ps,
            Err(e) => r matches Err(s) && s@ == e,
        },
{
    let ghost ts = toks@.map_values(|t: Vec<char>| t@);
    if toks.len() < 2 {
        return Err("filter_chain_set_args_invalid".to_owned());
    }
    let count = match read_u32(&toks[1]) {
        Err(e) => return Err(e),
        Ok(c) => c,
    };
    assert(ts[1] == toks@[1]@);
    if (toks.len() as u64) != 2 + 2 * (count as u64) {
        return Err("filter_chain_set_args_invalid".to_owned());
    }
    let mut out: Vec<BinaryCtlGaussianPass> = Vec::new();
    let mut i: usize = 0;
    assert(out@.map_values(|p: BinaryCtlGaussianPass| (p.radius, p.sigma_bits)) =~= Seq::<(u32, u32)>::empty());
    assert(ts.len() == toks@.len());
    assert(u32_field(ts[1]) == Ok::<u32, Seq<char>>(count));
    while i < count as usize
        invariant
            i <= count,
            toks@.len() == 2 + 2 * count,
            toks@.len() <= usize::MAX,
            ts.len() == toks@.len(),
            u32_field(ts[1]) == Ok::<u32, Seq<char>>(count),
            ts == toks@.map_values(|t: Vec<char>| t@),
            passes_of(ts, fb@, i as nat) == Ok::<Seq<(u32, u32)>, Seq<char>>(
                out@.map_values(|p: BinaryCtlGaussianPass| (p.radius, p.sigma_bits)),
            ),
        decreases count - i,
    {
        let radius = match read_u32(&toks[2 + 2 * i]) {
            Err(e) => {
                assert(ts[2 + 2 * i] == toks@[2 + 2 * i as int]@);
                assert(passes_of(ts, fb@, (i + 1) as nat) == Err::<Seq<(u32, u32)>, Seq<char>>(e@));
                proof {
                    lemma_passes_err(ts, fb@, (i + 1) as nat, count as nat);
                }
                return Err(e);
            },
            Ok(v) => v,
        };
        let sigma = match read_f32(&toks[3 + 2 * i], fb, 3 + 2 * i) {
            Err(e) => {
                assert(ts[2 + 2 * i] == toks@[2 + 2 * i as int]@);
                assert(ts[3 + 2 * i] == toks@[3 + 2 * i as int]@);
                assert(passes_of(ts, fb@, (i + 1) as nat) == Err::<Seq<(u32, u32)>, Seq<char>>(e@));
                proof {
                    lemma_passes_err(ts, fb@, (i + 1) as nat, count as nat);
                }
                return Err(e);
            },
            Ok(v) => v,
        };
        let ghost before = out@;
        out.push(BinaryCtlGaussianPass { radius, sigma_bits: sigma });
        proof {
            assert(ts[2 + 2 * i] == toks@[2 + 2 * i as int]@);
            assert(ts[3 + 2 * i] == toks@[3 + 2 * i as int]@);
            assert(out@.map_values(|p: BinaryCtlGaussianPass| (p.radius, p.sigma_bits)) =~= before.map_values(
                |p: BinaryCtlGaussianPass| (p.radius, p.sigma_bits),
            ).push((radius, sigma)));
        }
        i += 1;
    }
    Ok(out)
}

/// Once some first passes fail, the whole chain fails the same way.
proof fn lemma_passes_err(toks: Seq<Seq<char>>, fb: Seq<Option<u32>>, k: nat, n: nat)
    requires
        k <= n,
        passes_of(toks, fb, k) is Err,
    ensures
        passes_of(toks, fb, n) == passes_of(toks, fb, k),
    decreases n - k,
{
    if k < n {
        lemma_passes_err(toks, fb, k, (n - 1) as nat);
    }
}

/// The command that `tokens` spell, as `spec_command_of` says; `float_bits`
/// holds, for each token, the bits of the `f32` the host read from it.
pub fn parse_command_tokens(tokens: &Vec<String>, float_bits: &Vec<Option<u32>>) -> (r: Result<BinaryCtlCommand, String>)
    ensures
        command_view(r) == spec_command_of(tokens@.map_values(|t: String| t@), float_bits@),
{
    let mut toks: Vec<Vec<char>> = Vec::new();
    let mut i: usize = 0;
    while i < tokens.len()
        invariant
            i <= tokens@.len(),
            toks@.len() == i,
            forall|j: int| 0 <= j < i ==> #[trigger] toks@[j]@ == tokens@[j]@,
        decreases tokens@.len() - i,
    {
        toks.push(chars_of(tokens[i].as_str()));
        i += 1;
    }
    assert(toks@.map_values(|t: Vec<char>| t@) =~= tokens@.map_values(|t: String| t@));
    command_of_chars(&toks, float_bits)
}

/// The command that the ASCII-white-space-separated words of `line`
/// spell, as `spec_command_of` says; `float_bits` holds, for each word, the
/// bits of the `f32` the host read from it.
pub fn parse_command_line(line: &str, float_bits: &Vec<Option<u32>>) -> (r: Result<BinaryCtlCommand, String>)
    ensures
        command_view(r) == spec_command_of(ascii_ws_tokens(line@), float_bits@),
{
    let toks = split_ascii_ws(&chars_of(line));
    assert(toks@.map_values(|t: Vec<char>| t@) =~= ascii_ws_tokens(line@));
    command_of_chars(&toks, float_bits)
}

/// The command that `toks` spell, as `spec_command_of` says.
fn command_of_chars(toks: &Vec<Vec<char>>, fb: &Vec<Option<u32>>) -> (r: Result<BinaryCtlCommand, String>)
    ensures
        command_view(r) == spec_command_of(toks@.map_values(|t: Vec<char>| t@), fb@),
{
    let ghost ts = toks@.map_values(|t: Vec<char>| t@);
    let n = toks.len();
    if n == 0 {
        return Err("empty_command".to_owned());
    }
    assert(forall|j: int| 0 <= j < n ==> #[trigger] ts[j] == toks@[j]@);
    let w = upper_chars(&toks[0]);
    if chars_eq(&w, "PING") {
        return read_bare(n, BinaryCtlCommand::Ping, "ping_args_invalid");
    }
    if chars_eq(&w, "VERSION") {
        return read_bare(n, BinaryCtlCommand::Version, "version_args_invalid");
    }
    if chars_eq(&w, "DISPLAY_GET") {
        return read_bare(n, BinaryCtlCommand::DisplayGet, "display_get_args_invalid");
    }
    if chars_eq(&w, "DISPLAY_WAIT") {
        if n != 3 {
            return Err("display_wait_args_invalid".to_owned());
        }
        let last_seq = match read_u64(&toks[1]) {
            Err(e) => return Err(e),
            Ok(v) => v,
        };
        let timeout_ms = match read_u32(&toks[2]) {
            Err(e) => return Err(e),
            Ok(v) => v,
        };
        return Ok(BinaryCtlCommand::DisplayWait { last_seq, timeout_ms });
    }
    if chars_eq(&w, "DISPLAY_SET") {
        if n != 6 {
            return Err("display_set_args_invalid".to_owned());
        }
        let width = match read_u32(&toks[1]) {
            Err(e) => return Err(e),
            Ok(v) => v,
        };
        let height = match read_u32(&toks[2]) {
            Err(e) => return Err(e),
            Ok(v) => v,
        };
        let refresh_hz_bits = match read_f32(&toks[3], fb, 3) {
            Err(e) => return Err(e),
            Ok(v) => v,
        };
        let density_dpi = match read_u32(&toks[4]) {
            Err(e) => return Err(e),
            Ok(v) => v,
        };
        let rotation = match read_u32(&toks[5]) {
            Err(e) => return Err(e),
            Ok(v) => v,
        };
        return Ok(BinaryCtlCommand::DisplaySet { width, height, refresh_hz_bits, density_dpi, rotation });
    }
    if chars_eq(&w, "TOUCH_CLEAR") {
        return read_bare(n, BinaryCtlCommand::TouchClear, "touch_clear_args_invalid");
    }
    if chars_eq(&w, "TOUCH_COUNT") {
        return read_bare(n, BinaryCtlCommand::TouchCount, "touch_count_args_invalid");
    }
    if chars_eq(&w, "TOUCH_MOVE") {
        if n != 4 {
            return Err("touch_move_args_invalid".to_owned());
        }
        let pointer_id = match read_i32(&toks[1]) {
            Err(e) => return Err(e),
            Ok(v) => v,
        };
        let x_bits = match read_f32(&toks[2], fb, 2) {
            Err(e) => return Err(e),
            Ok(v) => v,
        };
        let y_bits = match read_f32(&toks[3], fb, 3) {
            Err(e) => return Err(e),
            Ok(v) => v,
        };
        return Ok(BinaryCtlCommand::TouchMove { pointer_id, x_bits, y_bits });
    }
    if chars_eq(&w, "RENDER_SUBMIT") {
        if n != 4 {
            return Err("render_submit_args_invalid".to_owned());
        }
        let draw_calls = match read_u32(&toks[1]) {
            Err(e) => return Err(e),
            Ok(v) => v,
        };
        let frost_passes = match read_u32(&toks[2]) {
            Err(e) => return Err(e),
            Ok(v) => v,
        };
        let text_calls = match read_u32(&toks[3]) {
            Err(e) => return Err(e),
            Ok(v) => v,
        };
        return Ok(BinaryCtlCommand::RenderSubmit { draw_calls, frost_passes, text_calls });
    }
    if chars_eq(&w, "RENDER_GET") {
        return read_bare(n, BinaryCtlCommand::RenderGet, "render_get_args_invalid");
    }
    if chars_eq(&w, "FILTER_SET_GAUSSIAN") {
        if n != 3 {
            return Err("filter_set_gaussian_args_invalid".to_owned());
        }
        let radius = match read_u32(&toks[1]) {
            Err(e) => return Err(e),
            Ok(v) => v,
        };
        let sigma_bits = match read_f32(&toks[2], fb, 2) {
            Err(e) => return Err(e),
            Ok(v) => v,
        };
        let passes = vec![BinaryCtlGaussianPass { radius, sigma_bits }];
        assert(passes@.map_values(|p: BinaryCtlGaussianPass| (p.radius, p.sigma_bits)) =~= seq![(radius, sigma_bits)]);
        return Ok(BinaryCtlCommand::FilterChainSet { passes });
    }
    if chars_eq(&w, "FILTER_CHAIN_SET") {
        return match read_chain(toks, fb) {
            Err(e) => Err(e),
            Ok(passes) => Ok(BinaryCtlCommand::FilterChainSet { passes }),
        };
    }
    if chars_eq(&w, "FILTER_CLEAR") || chars_eq(&w, "FILTER_CHAIN_CLEAR") {
        return read_bare(n, BinaryCtlCommand::FilterClear, "filter_clear_args_invalid");
    }
    if chars_eq(&w, "FILTER_GET") {
        return read_bare(n, BinaryCtlCommand::FilterGet, "filter_get_args_invalid");
    }
    if chars_eq(&w, "SHUTDOWN") {
        return read_bare(n, BinaryCtlCommand::Shutdown, "shutdown_args_invalid");
    }
    Err(field_error("unsupported_command:", &toks[0]))
}

/// The floats a reply shows, in order: the bits of each and how many
/// decimals it is written with. The host writes each; `format_response`
/// puts them in place.
pub open spec fn spec_response_floats(cmd: CtlShape, resp: BinaryCtlResponse) -> Seq<(u32, usize)> {
    if resp.status != Status::Success {
        Seq::empty()
    } else {
        match cmd {
            CtlShape::DisplayGet => seq![(resp.values[2] as u32, 2usize)],
            CtlShape::DisplayWait(_, _) => if resp.values[6] == 0 {
                Seq::empty()
            } else {
                seq![(resp.values[3] as u32, 2usize)]
            },
            CtlShape::FilterChainSet(_) | CtlShape::FilterClear | CtlShape::FilterGet => seq![
                (resp.values[4] as u32, 3usize),
                (resp.values[6] as u32, 3usize),
            ],
            _ => Seq::empty(),
        }
    }
}

/// The floats a reply shows, as `spec_response_floats` says.
pub fn response_floats(cmd: &BinaryCtlCommand, resp: &BinaryCtlResponse) -> (r: Vec<(u32, usize)>)
    ensures
        r@ == spec_response_floats(cmd@, *resp),
{
    let mut out: Vec<(u32, usize)> = Vec::new();
    let ok = match resp.status {
        Status::Success => true,
        _ => false,
    };
    if !ok {
        return out;
    }
    match cmd {
        BinaryCtlCommand::DisplayGet => {
            out.push((resp.values[2] as u32, 2));
        },
        BinaryCtlCommand::DisplayWait { .. } => {
            if resp.values[6] != 0 {
                out.push((resp.values[3] as u32, 2));
            }
        },
        BinaryCtlCommand::FilterChainSet { .. } | BinaryCtlCommand::FilterClear | BinaryCtlCommand::FilterGet => {
            out.push((resp.values[4] as u32, 3));
            out.push((resp.values[6] as u32, 3));
        },
        _ => {},
    }
    assert(out@ =~= spec_response_floats(cmd@, *resp));
    out
}

/// The text the host wrote for float `i` of a reply (empty when it gave
/// none).
pub open spec fn float_text(ft: Seq<Seq<char>>, i: int) -> Seq<char> {
    if 0 <= i < ft.len() {
        ft[i]
    } else {
        Seq::empty()
    }
}

/// The filter state a reply carries: backend, whether the GPU path is
/// active, the pass count and the first two Gaussian passes.
pub open spec fn filter_info_text(v: Seq<u64>, ft: Seq<Seq<char>>) -> Seq<char> {
    "backend="@ + (if v[0] == 1 {
        "vulkan"@
    } else {
        "cpu"@
    }) + " gpu_active="@ + decimal_text(v[1] as nat) + " pass_count="@ + decimal_text(v[2] as nat)
        + " first_gaussian="@ + decimal_text(v[3] as nat) + ":"@ + float_text(ft, 0) + " second_gaussian="@
        + decimal_text(v[5] as nat) + ":"@ + float_text(ft, 1)
}

/// The line the control client prints for the reply `resp` to `cmd`, with
/// `ft` the texts of the floats that `spec_response_floats` lists.
pub open spec fn response_text(cmd: CtlShape, resp: BinaryCtlResponse, ft: Seq<Seq<char>>) -> Seq<char> {
    let v = resp.values@;
    if resp.status != Status::Success {
        "ERR "@ + status_name(resp.status)
    } else {
        match cmd {
            CtlShape::Ping => "OK PONG"@,
            CtlShape::Version => "OK "@ + decimal_text(v[0] as nat) + "."@ + decimal_text(v[1] as nat) + "."@ + decimal_text(v[2] as nat),
            CtlShape::DisplayGet => "OK "@ + decimal_text(v[0] as nat) + " "@ + decimal_text(v[1] as nat) + " "@ + float_text(ft, 0) + " "@ + decimal_text(v[3] as nat) + " "@ + decimal_text(v[4] as nat),
            CtlShape::DisplayWait(_, _) => if v[6] == 0 {
                "OK TIMEOUT"@
            } else {
                "OK "@ + decimal_text(v[0] as nat) + " "@ + decimal_text(v[1] as nat) + " "@ + decimal_text(v[2] as nat) + " "@ + float_text(ft, 0) + " "@ + decimal_text(v[4] as nat) + " "@ + decimal_text(v[5] as nat)
            },
            CtlShape::DisplaySet(_, _, _, _, _) => "OK"@,
            CtlShape::TouchClear => "OK"@,
            CtlShape::TouchCount => "OK "@ + decimal_text(v[0] as nat),
            CtlShape::TouchMove(_, _, _) => "OK "@ + signed_decimal_text((v[0] as i32) as int) + " "@
                + signed_decimal_text((v[1] as i32) as int),
            CtlShape::RenderSubmit(_, _, _) | CtlShape::RenderGet => "OK "@ + decimal_text(v[0] as nat) + " "@ + decimal_text(v[1] as nat) + " "@ + decimal_text(v[2] as nat) + " "@
                + decimal_text(v[3] as nat),
            CtlShape::FilterChainSet(_) | CtlShape::FilterClear | CtlShape::FilterGet => "OK "@ + filter_info_text(v, ft),
            CtlShape::Shutdown => "OK SHUTDOWN"@,
        }
    }
}

fn push_float(v: &mut Vec<char>, ft: &Vec<String>, i: usize)
    ensures
        final(v)@ == old(v)@ + float_text(ft@.map_values(|s: String| s@), i as int),
{
    if i < ft.len() {
        push_str(v, ft[i].as_str());
    } else {
        assert(old(v)@ + Seq::<char>::empty() =~= old(v)@);
    }
}

/// The line the control client prints for the reply `resp` to `cmd`, as
/// `response_text` says; `float_texts` are the texts the host wrote for
/// the floats that `response_floats` lists.
#[verifier::spinoff_prover]
pub fn format_response(cmd: &BinaryCtlCommand, resp: &BinaryCtlResponse, float_texts: &Vec<String>) -> (r: String)
    ensures
        r@ == response_text(cmd@, *resp, float_texts@.map_values(|s: String| s@)),
{
    let ghost ft = float_texts@.map_values(|s: String| s@);
    let vals = resp.values;
    let mut v: Vec<char> = Vec::new();
    let ok = match resp.status {
        Status::Success => true,
        _ => false,
    };
    if !ok {
        push_str(&mut v, "ERR ");
        push_str(&mut v, resp.status.as_str());
        assert(v@ =~= response_text(cmd@, *resp, ft));
        return string_from_chars(&v);
    }
    match cmd {
        BinaryCtlCommand::Ping => {
            push_str(&mut v, "OK PONG");
            assert(v@ =~= response_text(cmd@, *resp, ft));
        },
        BinaryCtlCommand::Version => {
            push_str(&mut v, "OK ");
            push_decimal(&mut v, vals[0]);
            push_str(&mut v, ".");
            push_decimal(&mut v, vals[1]);
            push_str(&mut v, ".");
            push_decimal(&mut v, vals[2]);
            assert(v@ =~= response_text(cmd@, *resp, ft));
        },
        BinaryCtlCommand::DisplayGet => {
            push_str(&mut v, "OK ");
            push_decimal(&mut v, vals[0]);
            push_str(&mut v, " ");
            push_decimal(&mut v, vals[1]);
            push_str(&mut v, " ");
            push_float(&mut v, float_texts, 0);
            push_str(&mut v, " ");
            push_decimal(&mut v, vals[3]);
            push_str(&mut v, " ");
            push_decimal(&mut v, vals[4]);
            assert(v@ =~= response_text(cmd@, *resp, ft));
        },
        BinaryCtlCommand::DisplayWait { .. } => {
            if vals[6] == 0 {
                push_str(&mut v, "OK TIMEOUT");
            } else {
                push_str(&mut v, "OK ");
                push_decimal(&mut v, vals[0]);
                push_str(&mut v, " ");
                push_decimal(&mut v, vals[1]);
                push_str(&mut v, " ");
                push_decimal(&mut v, vals[2]);
                push_str(&mut v, " ");
                push_float(&mut v, float_texts, 0);
                push_str(&mut v, " ");
                push_decimal(&mut v, vals[4]);
                push_str(&mut v, " ");
                push_decimal(&mut v, vals[5]);
            }
            assert(v@ =~= response_text(cmd@, *resp, ft));
        },
        BinaryCtlCommand::DisplaySet { .. } | BinaryCtlCommand::TouchClear => {
            push_str(&mut v, "OK");
            assert(v@ =~= response_text(cmd@, *resp, ft));
        },
        BinaryCtlCommand::TouchCount => {
            push_str(&mut v, "OK ");
            push_decimal(&mut v, vals[0]);
            assert(v@ =~= response_text(cmd@, *resp, ft));
        },
        BinaryCtlCommand::TouchMove { .. } => {
            push_str(&mut v, "OK ");
            push_signed_decimal(&mut v, (vals[0] as i32) as i64);
            push_str(&mut v, " ");
            push_signed_decimal(&mut v, (vals[1] as i32) as i64);
            assert(v@ =~= response_text(cmd@, *resp, ft));
        },
        BinaryCtlCommand::RenderSubmit { .. } | BinaryCtlCommand::RenderGet => {
            push_str(&mut v, "OK ");
            push_decimal(&mut v, vals[0]);
            push_str(&mut v, " ");
            push_decimal(&mut v, vals[1]);
            push_str(&mut v, " ");
            push_decimal(&mut v, vals[2]);
            push_str(&mut v, " ");
            push_decimal(&mut v, vals[3]);
            assert(v@ =~= response_text(cmd@, *resp, ft));
        },
        BinaryCtlCommand::FilterChainSet { .. } | BinaryCtlCommand::FilterClear | BinaryCtlCommand::FilterGet => {
            push_str(&mut v, "OK ");
            push_str(&mut v, "backend=");
            push_str(&mut v, if vals[0] == 1 { "vulkan" } else { "cpu" });
            push_str(&mut v, " gpu_active=");
            push_decimal(&mut v, vals[1]);
            push_str(&mut v, " pass_count=");
            push_decimal(&mut v, vals[2]);
            push_str(&mut v, " first_gaussian=");
            push_decimal(&mut v, vals[3]);
            push_str(&mut v, ":");
            push_float(&mut v, float_texts, 0);
            push_str(&mut v, " second_gaussian=");
            push_decimal(&mut v, vals[5]);
            push_str(&mut v, ":");
            push_float(&mut v, float_texts, 1);
            assert(v@ =~= response_text(cmd@, *resp, ft));
        },
        BinaryCtlCommand::Shutdown => {
            push_str(&mut v, "OK SHUTDOWN");
            assert(v@ =~= response_text(cmd@, *resp, ft));
        },
    }
    string_from_chars(&v)
}


/// The protocol command that sends `cmd` with sequence number `seq`; none
/// for a display wait or a filter command, which the daemon's protocol has
/// no opcode for.
pub open spec fn ctl_request_spec(seq: u64, cmd: CtlShape) -> Option<BinaryCommand> {
    match cmd {
        CtlShape::Ping => Some(BinaryCommand::Ping { seq }),
        CtlShape::Version => Some(BinaryCommand::Version { seq }),
        CtlShape::DisplayGet => Some(BinaryCommand::DisplayGet { seq }),
        CtlShape::DisplaySet(width, height, refresh_hz, density_dpi, rotation) => Some(
            BinaryCommand::DisplaySet {
                seq,
                payload: BinaryDisplaySetPayload { width, height, refresh_hz, density_dpi, rotation },
            },
        ),
        CtlShape::TouchClear => Some(BinaryCommand::TouchClear { seq }),
        CtlShape::TouchCount => Some(BinaryCommand::TouchCount { seq }),
        CtlShape::TouchMove(pointer_id, x, y) => Some(
            BinaryCommand::TouchMove { seq, payload: BinaryTouchPayload { pointer_id, x, y } },
        ),
        CtlShape::RenderSubmit(draw_calls, frost_passes, text_calls) => Some(
            BinaryCommand::RenderSubmit {
                seq,
                payload: BinaryRenderSubmitPayload { draw_calls, frost_passes, text_calls },
            },
        ),
        CtlShape::RenderGet => Some(BinaryCommand::RenderGet { seq }),
        CtlShape::Shutdown => Some(BinaryCommand::Shutdown { seq }),
        _ => None,
    }
}

/// The numbers of a display change, a touch move and a render submission
/// are read from the words after the command word, in order: a display
/// change's width is the first number, its height the second, then the
/// refresh rate, density and rotation; a touch move's pointer, then x and
/// y; a render submission's draw calls, frost passes and text calls.
pub proof fn lemma_command_numbers_in_word_order(toks: Seq<Seq<char>>, fb: Seq<Option<u32>>)
    ensures
        spec_command_of(toks, fb) matches Ok(CtlShape::DisplaySet(a, b, c, d, e)) ==> {
            &&& toks.len() == 6
            &&& spec_parse_u32(toks[1]) == Some(a)
            &&& spec_parse_u32(toks[2]) == Some(b)
            &&& bits_at(fb, 3) == Some(c)
            &&& spec_parse_u32(toks[4]) == Some(d)
            &&& spec_parse_u32(toks[5]) == Some(e)
        },
        spec_command_of(toks, fb) matches Ok(CtlShape::TouchMove(a, b, c)) ==> {
            &&& toks.len() == 4
            &&& spec_parse_i32(toks[1]) == Some(a)
            &&& bits_at(fb, 2) == Some(b)
            &&& bits_at(fb, 3) == Some(c)
        },
        spec_command_of(toks, fb) matches Ok(CtlShape::RenderSubmit(a, b, c)) ==> {
            &&& toks.len() == 4
            &&& spec_parse_u32(toks[1]) == Some(a)
            &&& spec_parse_u32(toks[2]) == Some(b)
            &&& spec_parse_u32(toks[3]) == Some(c)
        },
{
}

/// The protocol request of a control command carries the command's numbers
/// unchanged, each in the field of the same meaning, under the sequence
/// number given: a display change sends its width, height, refresh bits,
/// density and rotation in that order; a touch move its pointer and
/// position; a render submission its three counts.
pub proof fn lemma_ctl_request_keeps_fields(seq: u64, cmd: BinaryCtlCommand)
    ensures
        match cmd {
            BinaryCtlCommand::DisplaySet { width, height, refresh_hz_bits, density_dpi, rotation } => ctl_request_spec(
                seq,
                cmd@,
            ) matches Some(BinaryCommand::DisplaySet { seq: s, payload }) && s == seq && payload.width == width
                && payload.height == height && payload.refresh_hz == refresh_hz_bits && payload.density_dpi
                == density_dpi && payload.rotation == rotation,
            BinaryCtlCommand::TouchMove { pointer_id, x_bits, y_bits } => ctl_request_spec(
                seq,
                cmd@,
            ) matches Some(BinaryCommand::TouchMove { seq: s, payload }) && s == seq && payload.pointer_id == pointer_id
                && payload.x == x_bits && payload.y == y_bits,
            BinaryCtlCommand::RenderSubmit { draw_calls, frost_passes, text_calls } => ctl_request_spec(
                seq,
                cmd@,
            ) matches Some(BinaryCommand::RenderSubmit { seq: s, payload }) && s == seq && payload.draw_calls
                == draw_calls && payload.frost_passes == frost_passes && payload.text_calls == text_calls,
            _ => true,
        },
{
}

/// The protocol command that sends `cmd`, as `ctl_request_spec` says; the
/// frame is then `encode_request` of it.
pub fn ctl_request(seq: u64, cmd: &BinaryCtlCommand) -> (r: Option<BinaryCommand>)
    ensures
        r == ctl_request_spec(seq, cmd@),
{
    match cmd {
        BinaryCtlCommand::Ping => Some(BinaryCommand::Ping { seq }),
        BinaryCtlCommand::Version => Some(BinaryCommand::Version { seq }),
        BinaryCtlCommand::DisplayGet => Some(BinaryCommand::DisplayGet { seq }),
        BinaryCtlCommand::DisplaySet { width, height, refresh_hz_bits, density_dpi, rotation } => Some(
            BinaryCommand::DisplaySet {
                seq,
                payload: BinaryDisplaySetPayload {
                    width: *width,
                    height: *height,
                    refresh_hz: *refresh_hz_bits,
                    density_dpi: *density_dpi,
                    rotation: *rotation,
                },
            },
        ),
        BinaryCtlCommand::TouchClear => Some(BinaryCommand::TouchClear { seq }),
        BinaryCtlCommand::TouchCount => Some(BinaryCommand::TouchCount { seq }),
        BinaryCtlCommand::TouchMove { pointer_id, x_bits, y_bits } => Some(
            BinaryCommand::TouchMove { seq, payload: BinaryTouchPayload { pointer_id: *pointer_id, x: *x_bits, y: *y_bits } },
        ),
        BinaryCtlCommand::RenderSubmit { draw_calls, frost_passes, text_calls } => Some(
            BinaryCommand::RenderSubmit {
                seq,
                payload: BinaryRenderSubmitPayload {
                    draw_calls: *draw_calls,
                    frost_passes: *frost_passes,
                    text_calls: *text_calls,
                },
            },
        ),
        BinaryCtlCommand::RenderGet => Some(BinaryCommand::RenderGet { seq }),
        BinaryCtlCommand::Shutdown => Some(BinaryCommand::Shutdown { seq }),
        _ => None,
    }
}

} // verus!
