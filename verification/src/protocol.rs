use vstd::prelude::*;
use crate::api::{Status, status_code, decision_code, RouteResult};
use crate::text::{chars_of, split_char, split_on, is_ascii_digit, digit_val, char_is_ascii_digit};
use crate::engine::{RuntimeEngine, DisplayState, TouchEvent, display_failure, touch_move_outcome,
    touches_after_move};
use crate::frames::bumped_u64;
use crate::wire::{
    u16_at, u32_at, u64_at, bytes16, bytes32, bytes64, get_u16_le, get_u32_le, get_u64_le,
    put_u16_le, put_u32_le, put_u64_le, lemma_le16_of_bytes, lemma_le32_of_bytes,
    lemma_le64_of_bytes,
};

verus! {

/// First word of every frame: the bytes "DSAP" read little-endian.
pub const BINARY_PROTOCOL_MAGIC: u32 = 0x5041_5344;

/// The one protocol version spoken.
pub const BINARY_PROTOCOL_VERSION: u16 = 1;

/// Bytes of the fixed frame header.
pub const BINARY_COMMAND_HEADER_BYTES: usize = 20;

/// Number of `u64` result values in a response.
pub const BINARY_RESPONSE_VALUE_COUNT: usize = 8;

/// Bytes of the fixed response payload: the status and the values.
pub const BINARY_RESPONSE_PAYLOAD_BYTES: usize = 68;

/// The fixed header of a frame.
#[derive(Debug, Clone, Copy, PartialEq, Eq, Structural)]
pub struct BinaryCommandHeader {
    pub magic: u32,
    pub version: u16,
    pub opcode: u16,
    pub payload_len: u32,
    pub seq: u64,
}

/// The commands of the binary control protocol.
#[derive(Debug, Clone, Copy, PartialEq, Eq, Structural)]
pub enum BinaryOpcode {
    Ping,
    Version,
    Shutdown,
    DisplayGet,
    DisplaySet,
    TouchClear,
    TouchCount,
    TouchMove,
    RenderSubmit,
    RenderGet,
}

/// The wire number of each opcode.
pub open spec fn opcode_code(op: BinaryOpcode) -> u16 {
    match op {
        BinaryOpcode::Ping => 1,
        BinaryOpcode::Version => 2,
        BinaryOpcode::Shutdown => 3,
        BinaryOpcode::DisplayGet => 4,
        BinaryOpcode::DisplaySet => 5,
        BinaryOpcode::TouchClear => 6,
        BinaryOpcode::TouchCount => 7,
        BinaryOpcode::TouchMove => 8,
        BinaryOpcode::RenderSubmit => 9,
        BinaryOpcode::RenderGet => 10,
    }
}

impl BinaryOpcode {
    /// Decodes a wire number: `1..=10` name the opcodes, anything else is `None`.
    pub fn from_u16(raw: u16) -> (r: Option<Self>)
        ensures
            r matches Some(op) ==> opcode_code(op) == raw,
            r is None <==> !(1 <= raw <= 10),
    {
        match raw {
            1 => Some(BinaryOpcode::Ping),
            2 => Some(BinaryOpcode::Version),
            3 => Some(BinaryOpcode::Shutdown),
            4 => Some(BinaryOpcode::DisplayGet),
            5 => Some(BinaryOpcode::DisplaySet),
            6 => Some(BinaryOpcode::TouchClear),
            7 => Some(BinaryOpcode::TouchCount),
            8 => Some(BinaryOpcode::TouchMove),
            9 => Some(BinaryOpcode::RenderSubmit),
            10 => Some(BinaryOpcode::RenderGet),
            _ => None,
        }
    }

    /// The wire number of this opcode.
    pub fn code(self) -> (r: u16)
        ensures
            r == opcode_code(self),
    {
        match self {
            BinaryOpcode::Ping => 1,
            BinaryOpcode::Version => 2,
            BinaryOpcode::Shutdown => 3,
            BinaryOpcode::DisplayGet => 4,
            BinaryOpcode::DisplaySet => 5,
            BinaryOpcode::TouchClear => 6,
            BinaryOpcode::TouchCount => 7,
            BinaryOpcode::TouchMove => 8,
            BinaryOpcode::RenderSubmit => 9,
            BinaryOpcode::RenderGet => 10,
        }
    }
}

/// The opcode a wire number names.
pub open spec fn opcode_of(raw: u16) -> Option<BinaryOpcode> {
    if raw == 1 {
        Some(BinaryOpcode::Ping)
    } else if raw == 2 {
        Some(BinaryOpcode::Version)
    } else if raw == 3 {
        Some(BinaryOpcode::Shutdown)
    } else if raw == 4 {
        Some(BinaryOpcode::DisplayGet)
    } else if raw == 5 {
        Some(BinaryOpcode::DisplaySet)
    } else if raw == 6 {
        Some(BinaryOpcode::TouchClear)
    } else if raw == 7 {
        Some(BinaryOpcode::TouchCount)
    } else if raw == 8 {
        Some(BinaryOpcode::TouchMove)
    } else if raw == 9 {
        Some(BinaryOpcode::RenderSubmit)
    } else if raw == 10 {
        Some(BinaryOpcode::RenderGet)
    } else {
        None
    }
}

/// What a bounded read at `off` of `n` bytes of a buffer of `len` bytes
/// fails with: an end past the machine word is out of range, an end past
/// the buffer is an invalid argument.
pub open spec fn read_failure(len: int, off: int, n: int) -> Option<Status> {
    if off + n > usize::MAX {
        Some(Status::OutOfRange)
    } else if off + n > len {
        Some(Status::InvalidArgument)
    } else {
        None
    }
}

/// The little-endian `u16` at `off`, or why it cannot be read.
pub fn read_u16_le(bytes: &[u8], off: usize) -> (r: Result<u16, Status>)
    ensures
        match read_failure(bytes@.len() as int, off as int, 2) {
            Some(s) => r == Err::<u16, Status>(s),
            None => r == Ok::<u16, Status>(u16_at(bytes@, off as int)),
        },
{
    if off > usize::MAX - 2 {
        return Err(Status::OutOfRange);
    }
    if off + 2 > bytes.len() {
        return Err(Status::InvalidArgument);
    }
    Ok(get_u16_le(bytes, off))
}

/// The little-endian `u32` at `off`, or why it cannot be read.
pub fn read_u32_le(bytes: &[u8], off: usize) -> (r: Result<u32, Status>)
    ensures
        match read_failure(bytes@.len() as int, off as int, 4) {
            Some(s) => r == Err::<u32, Status>(s),
            None => r == Ok::<u32, Status>(u32_at(bytes@, off as int)),
        },
{
    if off > usize::MAX - 4 {
        return Err(Status::OutOfRange);
    }
    if off + 4 > bytes.len() {
        return Err(Status::InvalidArgument);
    }
    Ok(get_u32_le(bytes, off))
}

/// The little-endian `u64` at `off`, or why it cannot be read.
pub fn read_u64_le(bytes: &[u8], off: usize) -> (r: Result<u64, Status>)
    ensures
        match read_failure(bytes@.len() as int, off as int, 8) {
            Some(s) => r == Err::<u64, Status>(s),
            None => r == Ok::<u64, Status>(u64_at(bytes@, off as int)),
        },
{
    if off > usize::MAX - 8 {
        return Err(Status::OutOfRange);
    }
    if off + 8 > bytes.len() {
        return Err(Status::InvalidArgument);
    }
    Ok(get_u64_le(bytes, off))
}

/// The little-endian `i32` at `off` (the `u32` there, reinterpreted), or
/// why it cannot be read.
pub fn read_i32_le(bytes: &[u8], off: usize) -> (r: Result<i32, Status>)
    ensures
        match read_failure(bytes@.len() as int, off as int, 4) {
            Some(s) => r == Err::<i32, Status>(s),
            None => r == Ok::<i32, Status>(u32_at(bytes@, off as int) as i32),
        },
{
    match read_u32_le(bytes, off) {
        Ok(v) => Ok(v as i32),
        Err(s) => Err(s),
    }
}

/// The header at the start of a frame.
pub open spec fn header_at(s: Seq<u8>) -> BinaryCommandHeader {
    BinaryCommandHeader {
        magic: u32_at(s, 0),
        version: u16_at(s, 4),
        opcode: u16_at(s, 6),
        payload_len: u32_at(s, 8),
        seq: u64_at(s, 12),
    }
}

/// Reads the fixed header; a frame shorter than the header is an invalid
/// argument.
pub fn parse_binary_header(frame: &[u8]) -> (r: Result<BinaryCommandHeader, Status>)
    ensures
        frame@.len() < 20 ==> r == Err::<BinaryCommandHeader, Status>(Status::InvalidArgument),
        frame@.len() >= 20 ==> r == Ok::<BinaryCommandHeader, Status>(header_at(frame@)),
{
    if frame.len() < BINARY_COMMAND_HEADER_BYTES {
        return Err(Status::InvalidArgument);
    }
    Ok(BinaryCommandHeader {
        magic: get_u32_le(frame, 0),
        version: get_u16_le(frame, 4),
        opcode: get_u16_le(frame, 6),
        payload_len: get_u32_le(frame, 8),
        seq: get_u64_le(frame, 12),
    })
}

/// The payload of a touch move: the pointer and the position, each
/// coordinate as the bit pattern of an IEEE-754 `f32`.
#[derive(Debug, Clone, Copy, PartialEq, Eq, Structural)]
pub struct BinaryTouchPayload {
    pub pointer_id: i32,
    pub x: u32,
    pub y: u32,
}

/// The payload of a display change; the refresh rate is the bit pattern of
/// an IEEE-754 `f32`.
#[derive(Debug, Clone, Copy, PartialEq, Eq, Structural)]
pub struct BinaryDisplaySetPayload {
    pub width: u32,
    pub height: u32,
    pub refresh_hz: u32,
    pub density_dpi: u32,
    pub rotation: u32,
}

/// The payload of a render statistics submission.
#[derive(Debug, Clone, Copy, PartialEq, Eq, Structural)]
pub struct BinaryRenderSubmitPayload {
    pub draw_calls: u32,
    pub frost_passes: u32,
    pub text_calls: u32,
}

/// A decoded request frame.
#[derive(Debug, Clone, Copy, PartialEq, Eq, Structural)]
pub enum BinaryCommand {
    Ping { seq: u64 },
    Version { seq: u64 },
    Shutdown { seq: u64 },
    DisplayGet { seq: u64 },
    DisplaySet { seq: u64, payload: BinaryDisplaySetPayload },
    TouchClear { seq: u64 },
    TouchCount { seq: u64 },
    TouchMove { seq: u64, payload: BinaryTouchPayload },
    RenderSubmit { seq: u64, payload: BinaryRenderSubmitPayload },
    RenderGet { seq: u64 },
}

/// The payload length each opcode takes.
pub open spec fn payload_len_of(op: BinaryOpcode) -> int {
    match op {
        BinaryOpcode::DisplaySet => 20,
        BinaryOpcode::TouchMove => 12,
        BinaryOpcode::RenderSubmit => 12,
        _ => 0,
    }
}

/// The command an opcode, sequence number and payload (starting at byte 20
/// of `s`) make, once the payload length is right.
pub open spec fn command_of(op: BinaryOpcode, seq: u64, s: Seq<u8>) -> BinaryCommand {
    match op {
        BinaryOpcode::Ping => BinaryCommand::Ping { seq },
        BinaryOpcode::Version => BinaryCommand::Version { seq },
        BinaryOpcode::Shutdown => BinaryCommand::Shutdown { seq },
        BinaryOpcode::DisplayGet => BinaryCommand::DisplayGet { seq },
        BinaryOpcode::DisplaySet => BinaryCommand::DisplaySet {
            seq,
            payload: BinaryDisplaySetPayload {
                width: u32_at(s, 20),
                height: u32_at(s, 24),
                refresh_hz: u32_at(s, 28),
                density_dpi: u32_at(s, 32),
                rotation: u32_at(s, 36),
            },
        },
        BinaryOpcode::TouchClear => BinaryCommand::TouchClear { seq },
        BinaryOpcode::TouchCount => BinaryCommand::TouchCount { seq },
        BinaryOpcode::TouchMove => BinaryCommand::TouchMove {
            seq,
            payload: BinaryTouchPayload {
                pointer_id: u32_at(s, 20) as i32,
                x: u32_at(s, 24),
                y: u32_at(s, 28),
            },
        },
        BinaryOpcode::RenderSubmit => BinaryCommand::RenderSubmit {
            seq,
            payload: BinaryRenderSubmitPayload {
                draw_calls: u32_at(s, 20),
                frost_passes: u32_at(s, 24),
                text_calls: u32_at(s, 28),
            },
        },
        BinaryOpcode::RenderGet => BinaryCommand::RenderGet { seq },
    }
}

/// What a request frame decodes to: a short frame, a wrong magic or
/// version, a length that disagrees with the header, an unknown opcode or a
/// payload of the wrong size for its opcode is an invalid argument; a
/// declared length past the machine word is out of range.
pub open spec fn spec_parse_command(s: Seq<u8>) -> Result<BinaryCommand, Status> {
    if s.len() < 20 {
        Err(Status::InvalidArgument)
    } else {
        let h = header_at(s);
        if h.magic != BINARY_PROTOCOL_MAGIC || h.version != BINARY_PROTOCOL_VERSION {
            Err(Status::InvalidArgument)
        } else if 20 + h.payload_len > usize::MAX {
            Err(Status::OutOfRange)
        } else if s.len() != 20 + h.payload_len {
            Err(Status::InvalidArgument)
        } else {
            match opcode_of(h.opcode) {
                None => Err(Status::InvalidArgument),
                Some(op) => if h.payload_len != payload_len_of(op) {
                    Err(Status::InvalidArgument)
                } else {
                    Ok(command_of(op, h.seq, s))
                },
            }
        }
    }
}

/// Decodes a request frame, exactly as `spec_parse_command` says.
pub fn parse_binary_command(frame: &[u8]) -> (r: Result<BinaryCommand, Status>)
    ensures
        r == spec_parse_command(frame@),
{
    let header = match parse_binary_header(frame) {
        Ok(h) => h,
        Err(s) => return Err(s),
    };
    if header.magic != BINARY_PROTOCOL_MAGIC {
        return Err(Status::InvalidArgument);
    }
    if header.version != BINARY_PROTOCOL_VERSION {
        return Err(Status::InvalidArgument);
    }
    let payload_len = header.payload_len as usize;
    if payload_len > usize::MAX - BINARY_COMMAND_HEADER_BYTES {
        return Err(Status::OutOfRange);
    }
    let total_len = BINARY_COMMAND_HEADER_BYTES + payload_len;
    if frame.len() != total_len {
        return Err(Status::InvalidArgument);
    }
    let opcode = match BinaryOpcode::from_u16(header.opcode) {
        Some(op) => op,
        None => return Err(Status::InvalidArgument),
    };
    let seq = header.seq;
    match opcode {
        BinaryOpcode::Ping => {
            if payload_len != 0 {
                return Err(Status::InvalidArgument);
            }
            Ok(BinaryCommand::Ping { seq })
        },
        BinaryOpcode::Version => {
            if payload_len != 0 {
                return Err(Status::InvalidArgument);
            }
            Ok(BinaryCommand::Version { seq })
        },
        BinaryOpcode::Shutdown => {
            if payload_len != 0 {
                return Err(Status::InvalidArgument);
            }
            Ok(BinaryCommand::Shutdown { seq })
        },
        BinaryOpcode::DisplayGet => {
            if payload_len != 0 {
                return Err(Status::InvalidArgument);
            }
            Ok(BinaryCommand::DisplayGet { seq })
        },
        BinaryOpcode::DisplaySet => {
            if payload_len != 20 {
                return Err(Status::InvalidArgument);
            }
            Ok(
                BinaryCommand::DisplaySet {
                    seq,
                    payload: BinaryDisplaySetPayload {
                        width: get_u32_le(frame, 20),
                        height: get_u32_le(frame, 24),
                        refresh_hz: get_u32_le(frame, 28),
                        density_dpi: get_u32_le(frame, 32),
                        rotation: get_u32_le(frame, 36),
                    },
                },
            )
        },
        BinaryOpcode::TouchClear => {
            if payload_len != 0 {
                return Err(Status::InvalidArgument);
            }
            Ok(BinaryCommand::TouchClear { seq })
        },
        BinaryOpcode::TouchCount => {
            if payload_len != 0 {
                return Err(Status::InvalidArgument);
            }
            Ok(BinaryCommand::TouchCount { seq })
        },
        BinaryOpcode::TouchMove => {
            if payload_len != 12 {
                return Err(Status::InvalidArgument);
            }
            Ok(
                BinaryCommand::TouchMove {
                    seq,
                    payload: BinaryTouchPayload {
                        pointer_id: get_u32_le(frame, 20) as i32,
                        x: get_u32_le(frame, 24),
                        y: get_u32_le(frame, 28),
                    },
                },
            )
        },
        BinaryOpcode::RenderSubmit => {
            if payload_len != 12 {
                return Err(Status::InvalidArgument);
            }
            Ok(
                BinaryCommand::RenderSubmit {
                    seq,
                    payload: BinaryRenderSubmitPayload {
                        draw_calls: get_u32_le(frame, 20),
                        frost_passes: get_u32_le(frame, 24),
                        text_calls: get_u32_le(frame, 28),
                    },
                },
            )
        },
        BinaryOpcode::RenderGet => {
            if payload_len != 0 {
                return Err(Status::InvalidArgument);
            }
            Ok(BinaryCommand::RenderGet { seq })
        },
    }
}

/// The opcode of a command.
pub open spec fn command_opcode(cmd: BinaryCommand) -> BinaryOpcode {
    match cmd {
        BinaryCommand::Ping { .. } => BinaryOpcode::Ping,
        BinaryCommand::Version { .. } => BinaryOpcode::Version,
        BinaryCommand::Shutdown { .. } => BinaryOpcode::Shutdown,
        BinaryCommand::DisplayGet { .. } => BinaryOpcode::DisplayGet,
        BinaryCommand::DisplaySet { .. } => BinaryOpcode::DisplaySet,
        BinaryCommand::TouchClear { .. } => BinaryOpcode::TouchClear,
        BinaryCommand::TouchCount { .. } => BinaryOpcode::TouchCount,
        BinaryCommand::TouchMove { .. } => BinaryOpcode::TouchMove,
        BinaryCommand::RenderSubmit { .. } => BinaryOpcode::RenderSubmit,
        BinaryCommand::RenderGet { .. } => BinaryOpcode::RenderGet,
    }
}

/// The sequence number of a command.
pub open spec fn command_seq(cmd: BinaryCommand) -> u64 {
    match cmd {
        BinaryCommand::Ping { seq } => seq,
        BinaryCommand::Version { seq } => seq,
        BinaryCommand::Shutdown { seq } => seq,
        BinaryCommand::DisplayGet { seq } => seq,
        BinaryCommand::DisplaySet { seq, .. } => seq,
        BinaryCommand::TouchClear { seq } => seq,
        BinaryCommand::TouchCount { seq } => seq,
        BinaryCommand::TouchMove { seq, .. } => seq,
        BinaryCommand::RenderSubmit { seq, .. } => seq,
        BinaryCommand::RenderGet { seq } => seq,
    }
}

/// The payload bytes of a command.
pub open spec fn command_payload(cmd: BinaryCommand) -> Seq<u8> {
    match cmd {
        BinaryCommand::DisplaySet { payload, .. } => bytes32(payload.width) + bytes32(payload.height)
            + bytes32(payload.refresh_hz) + bytes32(payload.density_dpi) + bytes32(
            payload.rotation,
        ),
        BinaryCommand::TouchMove { payload, .. } => bytes32(payload.pointer_id as u32) + bytes32(
            payload.x,
        ) + bytes32(payload.y),
        BinaryCommand::RenderSubmit { payload, .. } => bytes32(payload.draw_calls) + bytes32(
            payload.frost_passes,
        ) + bytes32(payload.text_calls),
        _ => Seq::empty(),
    }
}

/// The frame a command is sent as.
pub open spec fn encoded_command(cmd: BinaryCommand) -> Seq<u8> {
    let p = command_payload(cmd);
    bytes32(BINARY_PROTOCOL_MAGIC) + bytes16(BINARY_PROTOCOL_VERSION) + bytes16(
        opcode_code(command_opcode(cmd)),
    ) + bytes32(p.len() as u32) + bytes64(command_seq(cmd)) + p
}

/// The frame that carries `cmd`: header (magic, version, opcode, payload
/// length, sequence number) then payload, all little-endian.
pub fn encode_request(cmd: &BinaryCommand) -> (r: Vec<u8>)
    ensures
        r@ == encoded_command(*cmd),
{
    let mut payload: Vec<u8> = Vec::new();
    let (op, seq) = match *cmd {
        BinaryCommand::Ping { seq } => (BinaryOpcode::Ping, seq),
        BinaryCommand::Version { seq } => (BinaryOpcode::Version, seq),
        BinaryCommand::Shutdown { seq } => (BinaryOpcode::Shutdown, seq),
        BinaryCommand::DisplayGet { seq } => (BinaryOpcode::DisplayGet, seq),
        BinaryCommand::DisplaySet { seq, payload: p } => {
            put_u32_le(&mut payload, p.width);
            put_u32_le(&mut payload, p.height);
            put_u32_le(&mut payload, p.refresh_hz);
            put_u32_le(&mut payload, p.density_dpi);
            put_u32_le(&mut payload, p.rotation);
            (BinaryOpcode::DisplaySet, seq)
        },
        BinaryCommand::TouchClear { seq } => (BinaryOpcode::TouchClear, seq),
        BinaryCommand::TouchCount { seq } => (BinaryOpcode::TouchCount, seq),
        BinaryCommand::TouchMove { seq, payload: p } => {
            put_u32_le(&mut payload, p.pointer_id as u32);
            put_u32_le(&mut payload, p.x);
            put_u32_le(&mut payload, p.y);
            (BinaryOpcode::TouchMove, seq)
        },
        BinaryCommand::RenderSubmit { seq, payload: p } => {
            put_u32_le(&mut payload, p.draw_calls);
            put_u32_le(&mut payload, p.frost_passes);
            put_u32_le(&mut payload, p.text_calls);
            (BinaryOpcode::RenderSubmit, seq)
        },
        BinaryCommand::RenderGet { seq } => (BinaryOpcode::RenderGet, seq),
    };
    assert(payload@ =~= command_payload(*cmd));
    let mut out: Vec<u8> = Vec::new();
    put_u32_le(&mut out, BINARY_PROTOCOL_MAGIC);
    put_u16_le(&mut out, BINARY_PROTOCOL_VERSION);
    put_u16_le(&mut out, op.code());
    put_u32_le(&mut out, payload.len() as u32);
    put_u64_le(&mut out, seq);
    let mut i: usize = 0;
    let ghost head = out@;
    while i < payload.len()
        invariant
            i <= payload.len(),
            out@ == head + payload@.take(i as int),
        decreases payload.len() - i,
    {
        out.push(payload[i]);
        i += 1;
        assert(out@ =~= head + payload@.take(i as int));
    }
    assert(payload@.take(payload.len() as int) =~= payload@);
    out
}

/// Decoding the frame a command is sent as gives back the command.
pub proof fn lemma_parse_encoded_command(cmd: BinaryCommand)
    ensures
        spec_parse_command(encoded_command(cmd)) == Ok::<BinaryCommand, Status>(cmd),
{
    let p = command_payload(cmd);
    let s = encoded_command(cmd);
    let op = command_opcode(cmd);
    lemma_le32_of_bytes(BINARY_PROTOCOL_MAGIC);
    lemma_le16_of_bytes(BINARY_PROTOCOL_VERSION);
    lemma_le16_of_bytes(opcode_code(op));
    lemma_le32_of_bytes(p.len() as u32);
    lemma_le64_of_bytes(command_seq(cmd));
    assert(p.len() <= 20);
    assert(s.len() == 20 + p.len());
    let h = header_at(s);
    assert(h.magic == BINARY_PROTOCOL_MAGIC);
    assert(h.version == BINARY_PROTOCOL_VERSION);
    assert(h.opcode == opcode_code(op));
    assert(h.payload_len == p.len());
    assert(h.seq == command_seq(cmd));
    assert(opcode_of(h.opcode) == Some(op));
    assert(h.payload_len == payload_len_of(op));
    match cmd {
        BinaryCommand::DisplaySet { seq, payload } => {
            lemma_le32_of_bytes(payload.width);
            lemma_le32_of_bytes(payload.height);
            lemma_le32_of_bytes(payload.refresh_hz);
            lemma_le32_of_bytes(payload.density_dpi);
            lemma_le32_of_bytes(payload.rotation);
            assert(command_of(op, h.seq, s) == cmd);
        },
        BinaryCommand::TouchMove { seq, payload } => {
            let pid = payload.pointer_id;
            lemma_le32_of_bytes(pid as u32);
            lemma_le32_of_bytes(payload.x);
            lemma_le32_of_bytes(payload.y);
            assert((pid as u32) as i32 == pid) by (bit_vector);
            assert(command_of(op, h.seq, s) == cmd);
        },
        BinaryCommand::RenderSubmit { seq, payload } => {
            lemma_le32_of_bytes(payload.draw_calls);
            lemma_le32_of_bytes(payload.frost_passes);
            lemma_le32_of_bytes(payload.text_calls);
            assert(command_of(op, h.seq, s) == cmd);
        },
        _ => {
            assert(command_of(op, h.seq, s) == cmd);
        },
    }
}

/// A response: the request's sequence number and opcode (both zero when
/// the request could not be decoded), a status and eight result values.
#[derive(Debug, Clone, Copy, PartialEq, Eq)]
pub struct BinaryResponse {
    pub seq: u64,
    pub opcode: u16,
    pub status: Status,
    pub values: [u64; 8],
}

impl BinaryResponse {
    /// A response with the given head and all values zero.
    pub fn with_status(seq: u64, opcode: u16, status: Status) -> (r: Self)
        ensures
            r.seq == seq,
            r.opcode == opcode,
            r.status == status,
            r.values@ == Seq::new(8, |i: int| 0u64),
    {
        let r = BinaryResponse { seq, opcode, status, values: [0u64, 0, 0, 0, 0, 0, 0, 0] };
        assert(r.values@ =~= Seq::new(8, |i: int| 0u64));
        r
    }
}

/// The little-endian bytes of eight values, in order.
pub open spec fn values_bytes(v: Seq<u64>) -> Seq<u8> {
    bytes64(v[0]) + bytes64(v[1]) + bytes64(v[2]) + bytes64(v[3]) + bytes64(v[4]) + bytes64(v[5])
        + bytes64(v[6]) + bytes64(v[7])
}

/// The frame a response is sent as, with `body` after the fixed payload;
/// the declared payload length is that of the fixed payload and the body,
/// kept to 32 bits.
pub open spec fn encoded_response(resp: BinaryResponse, body: Seq<u8>) -> Seq<u8> {
    bytes32(BINARY_PROTOCOL_MAGIC) + bytes16(BINARY_PROTOCOL_VERSION) + bytes16(resp.opcode)
        + bytes32((68 + body.len()) as u32) + bytes64(resp.seq) + bytes32(
        status_code(resp.status) as u32,
    ) + values_bytes(resp.values@) + body
}

/// Encodes a response with an optional trailing body.
pub fn encode_response(response: BinaryResponse, body: &[u8]) -> (r: Vec<u8>)
    requires
        body@.len() + 88 <= usize::MAX,
    ensures
        r@ == encoded_response(response, body@),
{
    let payload_len = BINARY_RESPONSE_PAYLOAD_BYTES + body.len();
    let mut out: Vec<u8> = Vec::new();
    put_u32_le(&mut out, BINARY_PROTOCOL_MAGIC);
    put_u16_le(&mut out, BINARY_PROTOCOL_VERSION);
    put_u16_le(&mut out, response.opcode);
    put_u32_le(&mut out, #[verifier::truncate] (payload_len as u32));
    put_u64_le(&mut out, response.seq);
    put_u32_le(&mut out, response.status.code() as u32);
    let ghost head = out@;
    let mut k: usize = 0;
    while k < 8
        invariant
            k <= 8,
            out@ == head + values_prefix(response.values@, k as int),
        decreases 8 - k,
    {
        put_u64_le(&mut out, response.values[k]);
        k += 1;
        assert(out@ =~= head + values_prefix(response.values@, k as int));
    }
    assert(values_prefix(response.values@, 8) =~= values_bytes(response.values@)) by {
        reveal_with_fuel(values_prefix, 9);
    }
    let ghost mid = out@;
    let mut i: usize = 0;
    while i < body.len()
        invariant
            i <= body.len(),
            out@ == mid + body@.take(i as int),
        decreases body.len() - i,
    {
        out.push(body[i]);
        i += 1;
        assert(out@ =~= mid + body@.take(i as int));
    }
    assert(body@.take(body@.len() as int) =~= body@);
    assert(out@ =~= encoded_response(response, body@));
    out
}

/// The bytes of the first `k` values.
pub open spec fn values_prefix(v: Seq<u64>, k: int) -> Seq<u8>
    decreases k,
{
    if k <= 0 {
        Seq::empty()
    } else {
        values_prefix(v, k - 1) + bytes64(v[k - 1])
    }
}

/// The version of this library, as `major.minor.patch`.
pub const DIRECTSCREEN_CORE_VERSION: &'static str = "0.1.0";

/// The leading ASCII digits of `s`.
pub open spec fn digit_prefix(s: Seq<char>) -> Seq<char>
    decreases s.len(),
{
    if s.len() > 0 && is_ascii_digit(s[0]) {
        seq![s[0]] + digit_prefix(s.drop_first())
    } else {
        Seq::empty()
    }
}

/// `a * 10 + d`, stuck at the largest `u64` once it gets there.
pub open spec fn sat_step(a: u64, d: nat) -> u64 {
    let m: int = if a * 10 > u64::MAX {
        u64::MAX as int
    } else {
        a * 10
    };
    if m + d > u64::MAX {
        u64::MAX
    } else {
        (m + d) as u64
    }
}

/// The decimal value of the digits `d` read from the left after `acc`,
/// each step saturating.
pub open spec fn sat_digits(acc: u64, d: Seq<char>) -> u64
    decreases d.len(),
{
    if d.len() == 0 {
        acc
    } else {
        sat_digits(sat_step(acc, digit_val(d[0])), d.drop_first())
    }
}

/// The value of the digits a version token starts with, saturating.
pub open spec fn token_prefix_value(s: Seq<char>) -> u64 {
    sat_digits(0, digit_prefix(s))
}

/// The value of the digits `token` starts with (zero when it starts with
/// none), saturating at the largest `u64`.
pub fn parse_version_token_prefix(token: &Vec<char>) -> (r: u64)
    ensures
        r == token_prefix_value(token@),
{
    let mut value: u64 = 0;
    let mut i: usize = 0;
    assert(token@.subrange(0, token@.len() as int) =~= token@);
    while i < token.len() && char_is_ascii_digit(token[i])
        invariant
            i <= token@.len(),
            token_prefix_value(token@) == sat_digits(value, digit_prefix(token@.subrange(i as int, token@.len() as int))),
        decreases token@.len() - i,
    {
        let ghost rest = token@.subrange(i as int, token@.len() as int);
        assert(rest.drop_first() =~= token@.subrange(i + 1, token@.len() as int));
        let c = token[i];
        let d = (c as u32 - '0' as u32) as u64;
        let m: u64 = if value > u64::MAX / 10 {
            u64::MAX
        } else {
            value * 10
        };
        let ghost before = value;
        value = m.saturating_add(d);
        proof {
            let dp = digit_prefix(rest);
            assert(dp == seq![c] + digit_prefix(rest.drop_first()));
            assert(dp[0] == c);
            assert(dp.drop_first() =~= digit_prefix(rest.drop_first()));
            assert(value == sat_step(before, digit_val(c)));
        }
        i += 1;
    }
    proof {
        let rest = token@.subrange(i as int, token@.len() as int);
        if i < token@.len() {
            assert(rest[0] == token@[i as int]);
            assert(digit_prefix(rest) == Seq::<char>::empty());
        } else {
            assert(rest =~= Seq::<char>::empty());
        }
    }
    value
}

/// The three numbers of a `major.minor.patch` version: the value of the
/// digits each dot-separated field starts with, zero for a missing field.
pub open spec fn version_triplet(v: Seq<char>) -> Seq<u64> {
    let f = split_on(v, '.');
    Seq::new(3, |k: int| if k < f.len() { token_prefix_value(f[k]) } else { 0u64 })
}

/// The version numbers of `version`, as `version_triplet` says.
pub fn version_triplet_of(version: &str) -> (r: [u64; 3])
    ensures
        r@ == version_triplet(version@),
{
    let parts = split_char(&chars_of(version), '.');
    let a = if parts.len() > 0 { parse_version_token_prefix(&parts[0]) } else { 0 };
    let b = if parts.len() > 1 { parse_version_token_prefix(&parts[1]) } else { 0 };
    let c = if parts.len() > 2 { parse_version_token_prefix(&parts[2]) } else { 0 };
    let r = [a, b, c];
    assert(r@ =~= version_triplet(version@));
    r
}

/// The version numbers of this library.
pub fn parse_version_triplet() -> (r: [u64; 3])
    ensures
        r@ == version_triplet(DIRECTSCREEN_CORE_VERSION@),
{
    version_triplet_of(DIRECTSCREEN_CORE_VERSION)
}

/// Eight values: the given leading ones, then zeros.
pub open spec fn values_of(lead: Seq<u64>) -> Seq<u64> {
    Seq::new(8, |i: int| if i < lead.len() { lead[i] } else { 0u64 })
}

/// The response values that carry a route: the decision's number and the
/// region id, each sign-extended to 64 bits.
pub open spec fn route_values(r: RouteResult) -> Seq<u64> {
    values_of(seq![(decision_code(r.decision) as i64) as u64, (r.region_id as i64) as u64])
}

/// Runs one request frame against the engine and gives the response. A
/// frame that does not decode is answered with its status under sequence
/// number and opcode zero, and changes nothing. Every decoded request is
/// answered under its own sequence number and opcode: a ping and a
/// shutdown with value 1, a version with the library's version numbers, a
/// display query with width, height, refresh bits, density and rotation, a
/// display change with the status of `set_display_state`, a touch clear by
/// ending every touch, a touch count with the number of touches, a touch
/// move with the route the touch keeps (or the move's status), a render
/// submission with the new counters and a render query with the current
/// ones.
pub fn execute_binary_command(engine: &mut RuntimeEngine, frame: &[u8]) -> (r: BinaryResponse)
    requires
        old(engine).wf(),
    ensures
        final(engine).wf(),
        final(engine).kb() == old(engine).kb(),
        final(engine).spec_regions() == old(engine).spec_regions(),
        final(engine).spec_default_decision() == old(engine).spec_default_decision(),
        final(engine).modules() == old(engine).modules(),
        !(spec_parse_command(frame@) matches Ok(BinaryCommand::DisplaySet { .. })) ==> final(engine).spec_display_seq()
            == old(engine).spec_display_seq(),
        match spec_parse_command(frame@) {
            Err(s) => {
                &&& r.seq == 0 && r.opcode == 0 && r.status == s
                &&& r.values@ == values_of(Seq::empty())
                &&& *final(engine) == *old(engine)
            },
            Ok(cmd) => {
                &&& r.seq == command_seq(cmd)
                &&& r.opcode == opcode_code(command_opcode(cmd))
                &&& match cmd {
                    BinaryCommand::Ping { .. } | BinaryCommand::Shutdown { .. } => {
                        &&& r.status == Status::Success && r.values@ == values_of(seq![1u64])
                        &&& *final(engine) == *old(engine)
                    },
                    BinaryCommand::Version { .. } => {
                        &&& r.status == Status::Success
                        &&& r.values@ == values_of(version_triplet(DIRECTSCREEN_CORE_VERSION@))
                        &&& *final(engine) == *old(engine)
                    },
                    BinaryCommand::DisplayGet { .. } => {
                        let d = old(engine).spec_display();
                        &&& r.status == Status::Success
                        &&& r.values@ == values_of(
                            seq![
                                d.width as u64,
                                d.height as u64,
                                d.refresh_hz as u64,
                                d.density_dpi as u64,
                                d.rotation as u64,
                            ],
                        )
                        &&& *final(engine) == *old(engine)
                    },
                    BinaryCommand::DisplaySet { payload, .. } => {
                        let d = DisplayState {
                            width: payload.width,
                            height: payload.height,
                            refresh_hz: payload.refresh_hz,
                            density_dpi: payload.density_dpi,
                            rotation: payload.rotation,
                        };
                        &&& r.status == match display_failure(d) {
                            Some(s) => s,
                            None => Status::Success,
                        }
                        &&& r.values@ == values_of(Seq::empty())
                        &&& final(engine).touches() == old(engine).touches()
                        &&& display_failure(d) is None ==> crate::engine::display_applied(*old(engine), *final(engine), d)
                        &&& display_failure(d) is Some ==> *final(engine) == *old(engine)
                    },
                    BinaryCommand::TouchClear { .. } => {
                        &&& r.status == Status::Success && r.values@ == values_of(Seq::empty())
                        &&& final(engine).touches() == Map::<i32, crate::engine::ActiveTouch>::empty()
                        &&& final(engine).rs() == old(engine).rs()
                        &&& final(engine).spec_display() == old(engine).spec_display()
                        &&& final(engine).spec_display_seq() == old(engine).spec_display_seq()
                    },
                    BinaryCommand::TouchCount { .. } => {
                        &&& r.status == Status::Success
                        &&& r.values@ == values_of(seq![old(engine).touches().len() as u64])
                        &&& *final(engine) == *old(engine)
                    },
                    BinaryCommand::TouchMove { payload, .. } => {
                        let e = TouchEvent { pointer_id: payload.pointer_id, x: payload.x, y: payload.y };
                        &&& match touch_move_outcome(old(engine).touches(), e) {
                            Ok(route) => r.status == Status::Success && r.values@ == route_values(route),
                            Err(s) => r.status == s && r.values@ == values_of(Seq::empty()),
                        }
                        &&& final(engine).touches() == touches_after_move(old(engine).touches(), e)
                        &&& final(engine).rs() == old(engine).rs()
                        &&& final(engine).spec_display() == old(engine).spec_display()
                    },
                    BinaryCommand::RenderSubmit { payload, .. } => {
                        let f = bumped_u64(old(engine).rs().stats().frame_seq);
                        &&& r.status == Status::Success
                        &&& r.values@ == values_of(
                            seq![
                                f,
                                payload.draw_calls as u64,
                                payload.frost_passes as u64,
                                payload.text_calls as u64,
                            ],
                        )
                        &&& final(engine).rs().stats() == (crate::api::RenderStats {
                            frame_seq: f,
                            draw_calls: payload.draw_calls,
                            frost_passes: payload.frost_passes,
                            text_calls: payload.text_calls,
                        })
                        &&& final(engine).rs().frame() == old(engine).rs().frame()
                        &&& final(engine).touches() == old(engine).touches()
                        &&& final(engine).spec_display() == old(engine).spec_display()
                    },
                    BinaryCommand::RenderGet { .. } => {
                        let st = old(engine).rs().stats();
                        &&& r.status == Status::Success
                        &&& r.values@ == values_of(
                            seq![
                                st.frame_seq,
                                st.draw_calls as u64,
                                st.frost_passes as u64,
                                st.text_calls as u64,
                            ],
                        )
                        &&& *final(engine) == *old(engine)
                    },
                }
            },
        },
{
    let parsed = match parse_binary_command(frame) {
        Ok(v) => v,
        Err(status) => {
            let r = BinaryResponse::with_status(0, 0, status);
            assert(r.values@ =~= values_of(Seq::empty()));
            return r;
        },
    };
    match parsed {
        BinaryCommand::Ping { seq } => {
            let r = BinaryResponse { seq, opcode: 1, status: Status::Success, values: [1, 0, 0, 0, 0, 0, 0, 0] };
            assert(r.values@ =~= values_of(seq![1u64]));
            r
        },
        BinaryCommand::Version { seq } => {
            let v = parse_version_triplet();
            let r = BinaryResponse {
                seq,
                opcode: 2,
                status: Status::Success,
                values: [v[0], v[1], v[2], 0, 0, 0, 0, 0],
            };
            assert(r.values@ =~= values_of(version_triplet(DIRECTSCREEN_CORE_VERSION@)));
            r
        },
        BinaryCommand::Shutdown { seq } => {
            let r = BinaryResponse { seq, opcode: 3, status: Status::Success, values: [1, 0, 0, 0, 0, 0, 0, 0] };
            assert(r.values@ =~= values_of(seq![1u64]));
            r
        },
        BinaryCommand::DisplayGet { seq } => {
            let d = engine.display_state();
            let r = BinaryResponse {
                seq,
                opcode: 4,
                status: Status::Success,
                values: [
                    d.width as u64,
                    d.height as u64,
                    d.refresh_hz as u64,
                    d.density_dpi as u64,
                    d.rotation as u64,
                    0,
                    0,
                    0,
                ],
            };
            assert(r.values@ =~= values_of(
                seq![
                    d.width as u64,
                    d.height as u64,
                    d.refresh_hz as u64,
                    d.density_dpi as u64,
                    d.rotation as u64,
                ],
            ));
            r
        },
        BinaryCommand::DisplaySet { seq, payload } => {
            let status = match engine.set_display_state(
                DisplayState {
                    width: payload.width,
                    height: payload.height,
                    refresh_hz: payload.refresh_hz,
                    density_dpi: payload.density_dpi,
                    rotation: payload.rotation,
                },
            ) {
                Ok(()) => Status::Success,
                Err(s) => s,
            };
            let r = BinaryResponse::with_status(seq, 5, status);
            assert(r.values@ =~= values_of(Seq::empty()));
            r
        },
        BinaryCommand::TouchClear { seq } => {
            engine.clear_touches();
            let r = BinaryResponse::with_status(seq, 6, Status::Success);
            assert(r.values@ =~= values_of(Seq::empty()));
            r
        },
        BinaryCommand::TouchCount { seq } => {
            let n = engine.active_touch_count();
            let r = BinaryResponse { seq, opcode: 7, status: Status::Success, values: [n as u64, 0, 0, 0, 0, 0, 0, 0] };
            assert(r.values@ =~= values_of(seq![n as u64]));
            r
        },
        BinaryCommand::TouchMove { seq, payload } => {
            let event = TouchEvent { pointer_id: payload.pointer_id, x: payload.x, y: payload.y };
            match engine.touch_move(event) {
                Ok(route) => {
                    let dv = (route.decision.code() as i64) as u64;
                    let rv = (route.region_id as i64) as u64;
                    let r = BinaryResponse { seq, opcode: 8, status: Status::Success, values: [dv, rv, 0, 0, 0, 0, 0, 0] };
                    assert(r.values@ =~= route_values(route));
                    r
                },
                Err(s) => {
                    let r = BinaryResponse::with_status(seq, 8, s);
                    assert(r.values@ =~= values_of(Seq::empty()));
                    r
                },
            }
        },
        BinaryCommand::RenderSubmit { seq, payload } => {
            let st = engine.render_mut().submit_render_stats(
                payload.draw_calls,
                payload.frost_passes,
                payload.text_calls,
            );
            let r = BinaryResponse {
                seq,
                opcode: 9,
                status: Status::Success,
                values: [
                    st.frame_seq,
                    st.draw_calls as u64,
                    st.frost_passes as u64,
                    st.text_calls as u64,
                    0,
                    0,
                    0,
                    0,
                ],
            };
            assert(r.values@ =~= values_of(
                seq![
                    st.frame_seq,
                    st.draw_calls as u64,
                    st.frost_passes as u64,
                    st.text_calls as u64,
                ],
            ));
            r
        },
        BinaryCommand::RenderGet { seq } => {
            let st = engine.render().render_stats();
            let r = BinaryResponse {
                seq,
                opcode: 10,
                status: Status::Success,
                values: [
                    st.frame_seq,
                    st.draw_calls as u64,
                    st.frost_passes as u64,
                    st.text_calls as u64,
                    0,
                    0,
                    0,
                    0,
                ],
            };
            assert(r.values@ =~= values_of(
                seq![
                    st.frame_seq,
                    st.draw_calls as u64,
                    st.frost_passes as u64,
                    st.text_calls as u64,
                ],
            ));
            r
        },
    }
}

} // verus!
