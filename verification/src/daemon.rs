use vstd::prelude::*;
use crate::api::{RouteResult, Status};
use crate::engine::{
    RuntimeEngine, TouchEvent, route_of, touch_down_outcome, touches_after_down, touch_move_outcome,
    touches_after_move, touch_up_outcome, touch_cancel_outcome, touches_after_end,
};
use crate::text::{chars_of, string_from_chars, trim, trim_chars, split_ws, ws_tokens};
use crate::wire::{u32_at, get_u32_le};
use crate::protocol::{BinaryOpcode, BinaryResponse, BINARY_COMMAND_HEADER_BYTES, header_at, opcode_code, parse_binary_header};
use crate::api::status_name;

verus! {

/// Bytes of one touch stream packet.
pub const TOUCH_PACKET_BYTES: usize = 16;

/// Packet kind: a touch goes down.
pub const TOUCH_PACKET_DOWN: u8 = 1;

/// Packet kind: a touch moves.
pub const TOUCH_PACKET_MOVE: u8 = 2;

/// Packet kind: a touch lifts.
pub const TOUCH_PACKET_UP: u8 = 3;

/// Packet kind: a touch is cancelled.
pub const TOUCH_PACKET_CANCEL: u8 = 4;

/// Packet kind: every touch ends.
pub const TOUCH_PACKET_CLEAR: u8 = 5;

/// A character a shell would give a meaning to.
pub open spec fn is_shell_meta(c: char) -> bool {
    c == ';' || c == '|' || c == '&' || c == '<' || c == '>' || c == '$' || c == '`' || c == '\n'
        || c == '\r' || c == '\'' || c == '"' || c == '\\'
}

/// Some character of `s` is one a shell would give a meaning to.
pub open spec fn has_shell_meta(s: Seq<char>) -> bool {
    exists|i: int| 0 <= i < s.len() && is_shell_meta(#[trigger] s[i])
}

/// Tells whether `raw` holds a character a shell would give a meaning to.
pub fn contains_shell_meta(raw: &Vec<char>) -> (r: bool)
    ensures
        r == has_shell_meta(raw@),
{
    let mut i: usize = 0;
    while i < raw.len()
        invariant
            i <= raw@.len(),
            forall|k: int| 0 <= k < i ==> !is_shell_meta(#[trigger] raw@[k]),
        decreases raw@.len() - i,
    {
        let c = raw[i];
        if c == ';' || c == '|' || c == '&' || c == '<' || c == '>' || c == '$' || c == '`' || c
            == '\n' || c == '\r' || c == '\'' || c == '"' || c == '\\' {
            return true;
        }
        i += 1;
    }
    false
}

/// A worker program and its arguments, run without a shell.
#[derive(Debug, Clone, PartialEq, Eq)]
pub struct WorkerCommand {
    pub program: String,
    pub args: Vec<String>,
}

/// Splits a worker command line into program and arguments. An empty line
/// is `worker_cmd_empty`, a line with a shell character is
/// `worker_cmd_contains_shell_meta`, and a program that starts with `-` is
/// `worker_program_invalid`.
pub fn parse_worker_command(raw: &str) -> (r: Result<WorkerCommand, String>)
    ensures
        ({
            let t = trim(raw@);
            let w = ws_tokens(t);
            if t.len() == 0 {
                r matches Err(e) && e@ == "worker_cmd_empty"@
            } else if has_shell_meta(t) {
                r matches Err(e) && e@ == "worker_cmd_contains_shell_meta"@
            } else if w.len() == 0 {
                r matches Err(e) && e@ == "worker_cmd_empty"@
            } else if w[0].len() > 0 && w[0][0] == '-' {
                r matches Err(e) && e@ == "worker_program_invalid"@
            } else {
                r matches Ok(c) && c.program@ == w[0] && c.args@.len() == w.len() - 1 && forall|k: int|
                    0 <= k < c.args@.len() ==> #[trigger] c.args@[k]@ == w[k + 1]
            }
        }),
{
    let trimmed = trim_chars(&chars_of(raw));
    if trimmed.len() == 0 {
        return Err("worker_cmd_empty".to_owned());
    }
    if contains_shell_meta(&trimmed) {
        return Err("worker_cmd_contains_shell_meta".to_owned());
    }
    let tokens = split_ws(&trimmed);
    if tokens.len() == 0 {
        return Err("worker_cmd_empty".to_owned());
    }
    if tokens[0].len() > 0 && tokens[0][0] == '-' {
        return Err("worker_program_invalid".to_owned());
    }
    let mut args: Vec<String> = Vec::new();
    let mut i: usize = 1;
    while i < tokens.len()
        invariant
            1 <= i <= tokens@.len(),
            args@.len() == i - 1,
            forall|k: int| 0 <= k < args@.len() ==> #[trigger] args@[k]@ == tokens@[k + 1]@,
        decreases tokens@.len() - i,
    {
        args.push(string_from_chars(&tokens[i]));
        i += 1;
    }
    Ok(WorkerCommand { program: string_from_chars(&tokens[0]), args })
}

/// `2` to the power `shift`.
pub open spec fn pow2(shift: nat) -> nat
    decreases shift,
{
    if shift == 0 {
        1
    } else {
        2 * pow2((shift - 1) as nat)
    }
}

/// The wait before restarting a worker after `failures` failures: the base
/// delay doubled once per failure, at most six times, and never more than
/// thirty seconds.
pub open spec fn backoff_ms(base_ms: u64, failures: u32) -> int {
    let shift: nat = if failures > 6 { 6 } else { failures as nat };
    let ms = base_ms * pow2(shift);
    if ms > 30000 { 30000 } else { ms }
}

/// The restart delay in milliseconds, as `backoff_ms` says.
pub fn backoff_delay(base_ms: u64, failures: u32) -> (r: u64)
    ensures
        r == backoff_ms(base_ms, failures),
{
    let shift: u32 = if failures > 6 { 6 } else { failures };
    let mut factor: u64 = 1;
    let mut k: u32 = 0;
    while k < shift
        invariant
            k <= shift <= 6,
            factor == pow2(k as nat),
            1 <= factor <= 64,
        decreases shift - k,
    {
        assert(pow2(k as nat) <= 32) by {
            reveal_with_fuel(pow2, 7);
        }
        factor = factor * 2;
        k += 1;
    }
    if base_ms > 30000 {
        assert(base_ms * factor >= base_ms) by (nonlinear_arith)
            requires
                factor >= 1,
        ;
        return 30000;
    }
    assert(base_ms * factor <= 30000 * 64) by (nonlinear_arith)
        requires
            base_ms <= 30000,
            factor <= 64,
    ;
    let ms = base_ms * factor;
    if ms > 30000 {
        30000
    } else {
        ms
    }
}

/// The little-endian `i32` of four bytes.
pub fn parse_i32_le(bytes: &[u8]) -> (r: i32)
    requires
        bytes@.len() == 4,
    ensures
        r == u32_at(bytes@, 0) as i32,
{
    get_u32_le(bytes, 0) as i32
}

/// The touch point a packet carries: the pointer at byte 4 and the
/// position bits at bytes 8 and 12.
pub open spec fn packet_event(p: Seq<u8>) -> TouchEvent {
    TouchEvent { pointer_id: u32_at(p, 4) as i32, x: u32_at(p, 8), y: u32_at(p, 12) }
}

/// Applies one touch stream packet to the engine: down, move, lift or
/// cancel the touch it carries, or end every touch; an unknown kind is an
/// invalid argument and changes nothing. `hits` tells which regions contain
/// the packet's position.
pub fn apply_touch_packet(engine: &mut RuntimeEngine, packet: &[u8], hits: &Vec<bool>) -> (r: Result<RouteResult, Status>)
    requires
        old(engine).wf(),
        packet@.len() == TOUCH_PACKET_BYTES,
        hits@.len() == old(engine).spec_regions().len(),
    ensures
        final(engine).wf(),
        final(engine).spec_regions() == old(engine).spec_regions(),
        final(engine).spec_display() == old(engine).spec_display(),
        final(engine).kb() == old(engine).kb(),
        final(engine).rs() == old(engine).rs(),
        ({
            let e = packet_event(packet@);
            let t = old(engine).touches();
            let route = route_of(old(engine).spec_default_decision(), old(engine).spec_regions(), hits@);
            let kind = packet@[0];
            if kind == TOUCH_PACKET_DOWN {
                r == touch_down_outcome(t, route, e) && final(engine).touches() == touches_after_down(t, route, e)
            } else if kind == TOUCH_PACKET_MOVE {
                r == touch_move_outcome(t, e) && final(engine).touches() == touches_after_move(t, e)
            } else if kind == TOUCH_PACKET_UP {
                r == touch_up_outcome(t, e) && final(engine).touches() == touches_after_end(t, r, e.pointer_id)
            } else if kind == TOUCH_PACKET_CANCEL {
                r == touch_cancel_outcome(t, e.pointer_id) && final(engine).touches() == touches_after_end(t, r, e.pointer_id)
            } else if kind == TOUCH_PACKET_CLEAR {
                r == Ok::<RouteResult, Status>(RouteResult { decision: crate::api::Decision::Pass, region_id: -1i32 })
                    && final(engine).touches() == Map::<i32, crate::engine::ActiveTouch>::empty()
            } else {
                r == Err::<RouteResult, Status>(Status::InvalidArgument) && final(engine).touches() == t
            }
        }),
{
    let kind = packet[0];
    let pointer_id = get_u32_le(packet, 4) as i32;
    let x = get_u32_le(packet, 8);
    let y = get_u32_le(packet, 12);
    let event = TouchEvent { pointer_id, x, y };
    if kind == TOUCH_PACKET_DOWN {
        engine.touch_down(event, hits)
    } else if kind == TOUCH_PACKET_MOVE {
        engine.touch_move(event)
    } else if kind == TOUCH_PACKET_UP {
        engine.touch_up(event)
    } else if kind == TOUCH_PACKET_CANCEL {
        engine.touch_cancel(pointer_id)
    } else if kind == TOUCH_PACKET_CLEAR {
        engine.clear_touches();
        Ok(RouteResult::passthrough())
    } else {
        Err(Status::InvalidArgument)
    }
}

/// Admits one more connection when fewer than `limit` are open: gives the
/// new count, or `None` at the limit.
pub fn try_acquire_connection(active: usize, limit: usize) -> (r: Option<usize>)
    ensures
        active < limit ==> r == Some((active + 1) as usize),
        active >= limit ==> r is None,
{
    if active >= limit {
        None
    } else {
        Some(active + 1)
    }
}


/// The worker failure count after a worker ran for `runtime_ms`: back to
/// zero after a run of ten seconds or more, else one more (at most
/// `u32::MAX`).
pub fn worker_failures_after(failures: u32, runtime_ms: u64) -> (r: u32)
    ensures
        runtime_ms >= 10000 ==> r == 0,
        runtime_ms < 10000 ==> r == (if failures == u32::MAX { u32::MAX } else { (failures + 1) as u32 }),
{
    if runtime_ms >= 10000 {
        0
    } else {
        failures.saturating_add(1)
    }
}

/// The text line that refuses a request: `ERR`, the status's name and a
/// newline.
pub fn status_error_line(status: Status) -> (r: String)
    ensures
        r@ == "ERR "@ + status_name(status) + "\n"@,
{
    let mut v = chars_of("ERR ");
    crate::text::push_str(&mut v, status.as_str());
    crate::text::push_str(&mut v, "\n");
    string_from_chars(&v)
}

/// The bytes a control request may carry after its header: the configured
/// limit, and never less than a header's size.
pub fn control_max_payload(command_max_bytes: usize) -> (r: usize)
    ensures
        r == (if command_max_bytes < BINARY_COMMAND_HEADER_BYTES {
            BINARY_COMMAND_HEADER_BYTES
        } else {
            command_max_bytes
        }),
{
    if command_max_bytes < BINARY_COMMAND_HEADER_BYTES {
        BINARY_COMMAND_HEADER_BYTES
    } else {
        command_max_bytes
    }
}

/// What the control loop does after reading a request header.
#[derive(Debug, Clone, Copy, PartialEq, Eq, Structural)]
pub enum HeaderStep {
    /// Read this many payload bytes.
    ReadPayload(usize),
    /// Answer with this status; `close` ends the connection.
    Refuse { status: Status, close: bool },
}

/// The step after a request header: a short header is an invalid argument
/// (the loop goes on); a payload longer than `max_payload` is out of range
/// and ends the connection; else the payload is read.
pub fn control_header_step(header: &[u8], max_payload: usize) -> (r: HeaderStep)
    ensures
        header@.len() < 20 ==> r == (HeaderStep::Refuse { status: Status::InvalidArgument, close: false }),
        header@.len() >= 20 ==> r == (if header_at(header@).payload_len > max_payload {
            HeaderStep::Refuse { status: Status::OutOfRange, close: true }
        } else {
            HeaderStep::ReadPayload(header_at(header@).payload_len as usize)
        }),
{
    match parse_binary_header(header) {
        Err(s) => HeaderStep::Refuse { status: s, close: false },
        Ok(h) => {
            if h.payload_len as usize > max_payload {
                HeaderStep::Refuse { status: Status::OutOfRange, close: true }
            } else {
                HeaderStep::ReadPayload(h.payload_len as usize)
            }
        },
    }
}

/// A response that ends the daemon: a successful answer to a shutdown.
pub fn response_requests_shutdown(resp: &BinaryResponse) -> (r: bool)
    ensures
        r == (resp.status == Status::Success && resp.opcode == opcode_code(BinaryOpcode::Shutdown)),
{
    resp.status == Status::Success && resp.opcode == BinaryOpcode::Shutdown.code()
}

/// A command line being read byte by byte, at most `max_bytes` long.
pub struct LineAssembler {
    pub bytes: Vec<u8>,
    pub max_bytes: usize,
    /// The line grew too long; the rest of it is being dropped.
    pub overflow: bool,
}

/// What a byte, or the end of the stream, gives.
#[derive(Debug, Clone, PartialEq, Eq)]
pub enum LineStep {
    /// Nothing yet.
    More,
    /// A whole line, with its newline when it had one.
    Line(Vec<u8>),
    /// The line was longer than allowed; it is dropped.
    TooLong,
    /// The stream ended with no line begun.
    Closed,
}

impl LineAssembler {
    /// No byte read yet.
    pub fn new(max_bytes: usize) -> (r: Self)
        ensures
            r.bytes@ == Seq::<u8>::empty(),
            r.max_bytes == max_bytes,
            !r.overflow,
    {
        LineAssembler { bytes: Vec::new(), max_bytes, overflow: false }
    }

    /// Takes one byte. A byte that comes when the line already holds
    /// `max_bytes` bytes is dropped and the rest of the line with it, up to
    /// its newline, which gives `TooLong`. Otherwise the byte joins the
    /// line; a newline completes it.
    pub fn push(&mut self, b: u8) -> (r: LineStep)
        ensures
            final(self).max_bytes == old(self).max_bytes,
            old(self).overflow ==> if b == 10 {
                r == LineStep::TooLong && final(self).bytes@ == Seq::<u8>::empty() && !final(self).overflow
            } else {
                r == LineStep::More && final(self).bytes@ == old(self).bytes@ && final(self).overflow
            },
            !old(self).overflow && old(self).bytes@.len() >= old(self).max_bytes ==> r == LineStep::More
                && final(self).bytes@ == old(self).bytes@ && final(self).overflow,
            !old(self).overflow && old(self).bytes@.len() < old(self).max_bytes ==> if b == 10 {
                (r matches LineStep::Line(l) && l@ == old(self).bytes@.push(b)) && final(self).bytes@
                    == Seq::<u8>::empty() && !final(self).overflow
            } else {
                r == LineStep::More && final(self).bytes@ == old(self).bytes@.push(b) && !final(self).overflow
            },
    {
        if self.overflow {
            if b == 10 {
                self.overflow = false;
                self.bytes.clear();
                return LineStep::TooLong;
            }
            return LineStep::More;
        }
        if self.bytes.len() >= self.max_bytes {
            self.overflow = true;
            return LineStep::More;
        }
        self.bytes.push(b);
        if b == 10 {
            let mut line: Vec<u8> = Vec::new();
            std::mem::swap(&mut line, &mut self.bytes);
            return LineStep::Line(line);
        }
        LineStep::More
    }

    /// The end of the stream: a line cut short by it is still a line, a
    /// dropped one is `TooLong`, and no line at all is `Closed`.
    pub fn finish(&mut self) -> (r: LineStep)
        ensures
            old(self).overflow ==> r == LineStep::TooLong,
            !old(self).overflow && old(self).bytes@.len() == 0 ==> r == LineStep::Closed,
            !old(self).overflow && old(self).bytes@.len() > 0 ==> (r matches LineStep::Line(l) && l@ == old(self).bytes@),
            final(self).bytes@ == Seq::<u8>::empty(),
            !final(self).overflow,
            final(self).max_bytes == old(self).max_bytes,
    {
        if self.overflow {
            self.overflow = false;
            self.bytes.clear();
            return LineStep::TooLong;
        }
        if self.bytes.len() == 0 {
            return LineStep::Closed;
        }
        let mut line: Vec<u8> = Vec::new();
        std::mem::swap(&mut line, &mut self.bytes);
        LineStep::Line(line)
    }
}

} // verus!
