use vstd::prelude::*;
use crate::text::{
    chars_of, chars_eq, string_from_chars, split_ws, ws_tokens, push_str, push_all, parse_u32_chars,
    parse_u64_chars, spec_parse_u32, spec_parse_u64, push_decimal, decimal_text, push_signed_decimal,
    signed_decimal_text,
};
use crate::wire::{bytes32, u32_at, get_u32_le, put_u32_le};
use crate::daemon::{TOUCH_PACKET_BYTES, TOUCH_PACKET_DOWN, TOUCH_PACKET_MOVE, TOUCH_PACKET_UP};

verus! {

/// A failure of the client library: of the connection (with the system's
/// description), of the daemon's answer, or of a value.
#[derive(Debug, Clone, PartialEq, Eq)]
pub enum DsapiError {
    IoError(String),
    ProtocolError(String),
    ParseError(String),
}

/// The text of an error: its kind, a colon, a space and its message.
pub open spec fn error_text(e: DsapiError) -> Seq<char> {
    match e {
        DsapiError::IoError(m) => "io_error: "@ + m@,
        DsapiError::ProtocolError(m) => "protocol_error: "@ + m@,
        DsapiError::ParseError(m) => "parse_error: "@ + m@,
    }
}

/// A protocol error with this message.
pub open spec fn is_protocol_error(e: DsapiError, m: Seq<char>) -> bool {
    e matches DsapiError::ProtocolError(x) && x@ == m
}

/// A parse error with this message.
pub open spec fn is_parse_error(e: DsapiError, m: Seq<char>) -> bool {
    e matches DsapiError::ParseError(x) && x@ == m
}

impl DsapiError {
    /// The text of this error, as `error_text` says.
    pub fn to_string(&self) -> (r: String)
        ensures
            r@ == error_text(*self),
    {
        let mut v: Vec<char> = Vec::new();
        match self {
            DsapiError::IoError(m) => {
                push_str(&mut v, "io_error: ");
                push_str(&mut v, m.as_str());
            },
            DsapiError::ProtocolError(m) => {
                push_str(&mut v, "protocol_error: ");
                push_str(&mut v, m.as_str());
            },
            DsapiError::ParseError(m) => {
                push_str(&mut v, "parse_error: ");
                push_str(&mut v, m.as_str());
            },
        }
        string_from_chars(&v)
    }
}

/// The words of a daemon reply after `OK`. An empty reply, an `ERR`
/// reply (the whole line becomes the message) and a reply with any other
/// first word are protocol errors.
pub fn parse_ok_tokens(line: &str) -> (r: Result<Vec<String>, DsapiError>)
    ensures
        ({
            let t = ws_tokens(line@);
            if t.len() == 0 {
                r matches Err(e) && is_protocol_error(e, "empty_response"@)
            } else if t[0] == "OK"@ {
                r matches Ok(v) && v@.len() == t.len() - 1 && forall|k: int|
                    0 <= k < v@.len() ==> #[trigger] v@[k]@ == t[k + 1]
            } else if t[0] == "ERR"@ {
                r matches Err(e) && is_protocol_error(e, line@)
            } else {
                r matches Err(e) && is_protocol_error(
                    e,
                    "unexpected_response_prefix:"@ + t[0] + " line="@ + line@,
                )
            }
        }),
{
    let toks = split_ws(&chars_of(line));
    if toks.len() == 0 {
        return Err(DsapiError::ProtocolError("empty_response".to_owned()));
    }
    if chars_eq(&toks[0], "OK") {
        let mut out: Vec<String> = Vec::new();
        let mut i: usize = 1;
        while i < toks.len()
            invariant
                1 <= i <= toks@.len(),
                out@.len() == i - 1,
                forall|k: int| 0 <= k < out@.len() ==> #[trigger] out@[k]@ == toks@[k + 1]@,
            decreases toks@.len() - i,
        {
            out.push(string_from_chars(&toks[i]));
            i += 1;
        }
        return Ok(out);
    }
    if chars_eq(&toks[0], "ERR") {
        return Err(DsapiError::ProtocolError(line.to_owned()));
    }
    let mut m: Vec<char> = Vec::new();
    push_str(&mut m, "unexpected_response_prefix:");
    push_all(&mut m, &toks[0]);
    push_str(&mut m, " line=");
    push_str(&mut m, line);
    Err(DsapiError::ProtocolError(string_from_chars(&m)))
}

/// A field of a reply as a `u32`; anything else is the parse error
/// `invalid_<field>:<token>`.
pub fn parse_u32_token(token: &str, field: &str) -> (r: Result<u32, DsapiError>)
    ensures
        match spec_parse_u32(token@) {
            Some(v) => r == Ok::<u32, DsapiError>(v),
            None => r matches Err(e) && is_parse_error(e, "invalid_"@ + field@ + ":"@ + token@),
        },
{
    match parse_u32_chars(&chars_of(token)) {
        Some(v) => Ok(v),
        None => {
            let mut m: Vec<char> = Vec::new();
            push_str(&mut m, "invalid_");
            push_str(&mut m, field);
            push_str(&mut m, ":");
            push_str(&mut m, token);
            Err(DsapiError::ParseError(string_from_chars(&m)))
        },
    }
}

/// A field of a reply as a `u64`; anything else is the parse error
/// `invalid_<field>:<token>`.
pub fn parse_u64(token: &str, field: &str) -> (r: Result<u64, DsapiError>)
    ensures
        match spec_parse_u64(token@) {
            Some(v) => r == Ok::<u64, DsapiError>(v),
            None => r matches Err(e) && is_parse_error(e, "invalid_"@ + field@ + ":"@ + token@),
        },
{
    match parse_u64_chars(&chars_of(token)) {
        Some(v) => Ok(v),
        None => {
            let mut m: Vec<char> = Vec::new();
            push_str(&mut m, "invalid_");
            push_str(&mut m, field);
            push_str(&mut m, ":");
            push_str(&mut m, token);
            Err(DsapiError::ParseError(string_from_chars(&m)))
        },
    }
}

/// The byte count of a `width` by `height` RGBA frame; a count past the
/// machine word is the parse error `frame_size_overflow`.
pub fn expected_rgba_len(width: u32, height: u32) -> (r: Result<usize, DsapiError>)
    ensures
        width * height * 4 <= usize::MAX ==> r == Ok::<usize, DsapiError>(
            (width * height * 4) as usize,
        ),
        width * height * 4 > usize::MAX ==> (r matches Err(e) && is_parse_error(
            e,
            "frame_size_overflow"@,
        )),
{
    let w = width as usize;
    let h = height as usize;
    match w.checked_mul(h) {
        Some(p) => match p.checked_mul(4) {
            Some(n) => Ok(n),
            None => {
                assert(width * height * 4 > usize::MAX);
                Err(DsapiError::ParseError("frame_size_overflow".to_owned()))
            },
        },
        None => {
            assert(width * height * 4 > usize::MAX) by (nonlinear_arith)
                requires
                    width * height > usize::MAX,
            ;
            Err(DsapiError::ParseError("frame_size_overflow".to_owned()))
        },
    }
}

/// What the display stream was meant to give: the display's width,
/// height, refresh rate (the bits of an `f32`), density and rotation.
#[derive(Debug, Clone, Copy, PartialEq, Eq, Structural)]
pub struct DisplayInfo {
    pub width: u32,
    pub height: u32,
    pub refresh_hz_bits: u32,
    pub density_dpi: u32,
    pub rotation: u32,
}

/// A change of the display, with its sequence number.
#[derive(Debug, Clone, Copy, PartialEq, Eq, Structural)]
pub struct DisplayEvent {
    pub seq: u64,
    pub info: DisplayInfo,
}

/// A stream of display changes. The daemon no longer offers one: clients
/// poll the display with the binary `DISPLAY_GET` command instead, and
/// every use of the stream says so.
#[derive(Debug)]
pub struct DisplayStream {
    _private: (),
}

/// The message of every display stream failure.
pub open spec fn display_stream_removed() -> Seq<char> {
    "display_stream_removed_use_binary_display_get_polling"@
}

impl DisplayStream {
    /// Opening a display stream always fails with a protocol error.
    pub fn connect(socket_path: &str) -> (r: Result<Self, DsapiError>)
        ensures
            r matches Err(e) && is_protocol_error(e, display_stream_removed()),
    {
        Err(DsapiError::ProtocolError("display_stream_removed_use_binary_display_get_polling".to_owned()))
    }

    /// Reading a display stream always fails with a protocol error.
    pub fn next_event(&mut self) -> (r: Result<DisplayEvent, DsapiError>)
        ensures
            r matches Err(e) && is_protocol_error(e, display_stream_removed()),
    {
        Err(DsapiError::ProtocolError("display_stream_removed_use_binary_display_get_polling".to_owned()))
    }
}

/// What a render session makes of the daemon's reply to a frame of
/// `width` by `height` pixels and `len` bytes: the reply's words after `OK`
/// (as `parse_ok_tokens` reads them) must be six, the fourth `RGBA8888`,
/// then a frame number, width, height, byte count and checksum; the size
/// and byte count must be the frame's. The result is the frame number, or
/// the error as its kind (0 for a protocol error, 1 for a parse error) and
/// message.
pub open spec fn submit_reply(line: Seq<char>, width: u32, height: u32, len: usize) -> Result<u64, (int, Seq<char>)> {
    let t = ws_tokens(line);
    if t.len() == 0 {
        Err((0, "empty_response"@))
    } else if t[0] == "OK"@ {
        let k = t.skip(1);
        if k.len() != 6 {
            Err((0, "RENDER_FRAME_SUBMIT_RGBA_RAW_bad_token_count:"@ + decimal_text(k.len()) + " line="@ + line))
        } else if k[3] != "RGBA8888"@ {
            Err((0, "RENDER_FRAME_SUBMIT_RGBA_RAW_bad_pixel_format:"@ + line))
        } else {
            match (spec_parse_u64(k[0]), spec_parse_u32(k[1]), spec_parse_u32(k[2]), spec_parse_u32(k[4]), spec_parse_u32(k[5])) {
                (None, _, _, _, _) => Err((1, "invalid_"@ + "frame_seq"@ + ":"@ + k[0])),
                (Some(_), None, _, _, _) => Err((1, "invalid_"@ + "width"@ + ":"@ + k[1])),
                (Some(_), Some(_), None, _, _) => Err((1, "invalid_"@ + "height"@ + ":"@ + k[2])),
                (Some(_), Some(_), Some(_), None, _) => Err((1, "invalid_"@ + "byte_len"@ + ":"@ + k[4])),
                (Some(_), Some(_), Some(_), Some(_), None) => Err((1, "invalid_"@ + "checksum_fnv1a32"@ + ":"@ + k[5])),
                (Some(seq), Some(w), Some(h), Some(b), Some(_)) => if w != width || h != height {
                    Err((0, "submit_frame_response_size_mismatch line="@ + line))
                } else if b != len {
                    Err((0, "submit_frame_response_len_mismatch line="@ + line))
                } else {
                    Ok(seq)
                },
            }
        }
    } else if t[0] == "ERR"@ {
        Err((0, line))
    } else {
        Err((0, "unexpected_response_prefix:"@ + t[0] + " line="@ + line))
    }
}

/// Reads the daemon's reply to a submitted frame, as `submit_reply` says.
pub fn check_submit_reply(line: &str, width: u32, height: u32, len: usize) -> (r: Result<u64, DsapiError>)
    ensures
        match submit_reply(line@, width, height, len) {
            Ok(seq) => r == Ok::<u64, DsapiError>(seq),
            Err((kind, m)) => if kind == 0 {
                r matches Err(e) && is_protocol_error(e, m)
            } else {
                r matches Err(e) && is_parse_error(e, m)
            },
        },
{
    let ghost t = ws_tokens(line@);
    let k = match parse_ok_tokens(line) {
        Ok(v) => v,
        Err(e) => return Err(e),
    };
    assert(k@.map_values(|x: String| x@) =~= t.skip(1));
    if k.len() != 6 {
        let mut m = chars_of("RENDER_FRAME_SUBMIT_RGBA_RAW_bad_token_count:");
        push_decimal(&mut m, k.len() as u64);
        push_str(&mut m, " line=");
        push_str(&mut m, line);
        return Err(DsapiError::ProtocolError(string_from_chars(&m)));
    }
    assert(k@[3]@ == t.skip(1)[3]);
    if !chars_eq(&chars_of(k[3].as_str()), "RGBA8888") {
        let mut m = chars_of("RENDER_FRAME_SUBMIT_RGBA_RAW_bad_pixel_format:");
        push_str(&mut m, line);
        return Err(DsapiError::ProtocolError(string_from_chars(&m)));
    }
    assert(k@[0]@ == t.skip(1)[0] && k@[1]@ == t.skip(1)[1] && k@[2]@ == t.skip(1)[2] && k@[4]@ == t.skip(1)[4]
        && k@[5]@ == t.skip(1)[5]);
    let seq = parse_u64(k[0].as_str(), "frame_seq")?;
    let w = parse_u32_token(k[1].as_str(), "width")?;
    let h = parse_u32_token(k[2].as_str(), "height")?;
    let b = parse_u32_token(k[4].as_str(), "byte_len")?;
    let _checksum = parse_u32_token(k[5].as_str(), "checksum_fnv1a32")?;
    if w != width || h != height {
        let mut m = chars_of("submit_frame_response_size_mismatch line=");
        push_str(&mut m, line);
        return Err(DsapiError::ProtocolError(string_from_chars(&m)));
    }
    if b as usize != len {
        let mut m = chars_of("submit_frame_response_len_mismatch line=");
        push_str(&mut m, line);
        return Err(DsapiError::ProtocolError(string_from_chars(&m)));
    }
    Ok(seq)
}


// ---------------------------------------------------------------------------
// The packets of the touch stream: kind at byte 0, pointer at byte 4, the
// position's `f32` bits at bytes 8 and 12. The host turns a position's bits
// into whole pixels and back; the rest is here.

/// A touch the client sends or receives: the pointer and the position in
/// whole pixels.
#[derive(Debug, Clone, Copy, PartialEq, Eq, Structural)]
pub enum TouchEvent {
    Down { id: u32, x: u32, y: u32 },
    Move { id: u32, x: u32, y: u32 },
    Up { id: u32 },
}

/// The pointer of a touch.
pub open spec fn touch_id(e: TouchEvent) -> u32 {
    match e {
        TouchEvent::Down { id, .. } => id,
        TouchEvent::Move { id, .. } => id,
        TouchEvent::Up { id } => id,
    }
}

/// The packet of a touch whose position's `f32` bits are `x_bits` and
/// `y_bits`: a lift carries no position.
pub open spec fn touch_packet_bytes(e: TouchEvent, x_bits: u32, y_bits: u32) -> Seq<u8> {
    match e {
        TouchEvent::Down { id, .. } => seq![TOUCH_PACKET_DOWN, 0u8, 0u8, 0u8] + bytes32(id) + bytes32(x_bits) + bytes32(
            y_bits,
        ),
        TouchEvent::Move { id, .. } => seq![TOUCH_PACKET_MOVE, 0u8, 0u8, 0u8] + bytes32(id) + bytes32(x_bits) + bytes32(
            y_bits,
        ),
        TouchEvent::Up { id } => seq![TOUCH_PACKET_UP, 0u8, 0u8, 0u8] + bytes32(id) + Seq::new(8, |i: int| 0u8),
    }
}

/// Writes the packet of `event`, as `touch_packet_bytes` says; `x_bits` and
/// `y_bits` are the bits of its position as `f32`. A pointer past
/// `i32::MAX` cannot be sent.
pub fn encode_touch_packet(event: TouchEvent, x_bits: u32, y_bits: u32) -> (r: Result<Vec<u8>, DsapiError>)
    ensures
        touch_id(event) > i32::MAX ==> (r matches Err(DsapiError::ParseError(s)) && s@ == "pointer_id_out_of_range:"@
            + decimal_text(touch_id(event) as nat)),
        touch_id(event) <= i32::MAX ==> (r matches Ok(b) && b@ == touch_packet_bytes(event, x_bits, y_bits)),
{
    let (kind, id) = match event {
        TouchEvent::Down { id, .. } => (TOUCH_PACKET_DOWN, id),
        TouchEvent::Move { id, .. } => (TOUCH_PACKET_MOVE, id),
        TouchEvent::Up { id } => (TOUCH_PACKET_UP, id),
    };
    if id > 0x7fff_ffff {
        let mut v: Vec<char> = Vec::new();
        push_str(&mut v, "pointer_id_out_of_range:");
        push_decimal(&mut v, id as u64);
        return Err(DsapiError::ParseError(string_from_chars(&v)));
    }
    let mut out: Vec<u8> = Vec::new();
    out.push(kind);
    out.push(0);
    out.push(0);
    out.push(0);
    put_u32_le(&mut out, id);
    match event {
        TouchEvent::Up { .. } => {
            put_u32_le(&mut out, 0);
            put_u32_le(&mut out, 0);
            proof {
                assert(bytes32(0) =~= seq![0u8, 0u8, 0u8, 0u8]) by {
                    assert((0u32 >> 8u32) == 0u32 && (0u32 >> 16u32) == 0u32 && (0u32 >> 24u32) == 0u32) by (bit_vector);
                }
            }
        },
        _ => {
            put_u32_le(&mut out, x_bits);
            put_u32_le(&mut out, y_bits);
        },
    }
    assert(out@ =~= touch_packet_bytes(event, x_bits, y_bits));
    Ok(out)
}

/// What a packet reads as, given the host's reading of its two position
/// fields into whole pixels (`x`, `y`, each with the host's error): a
/// negative pointer is refused first, then a position that could not be
/// read, then a kind other than down, move or lift.
pub open spec fn touch_decoded(
    p: Seq<u8>,
    x: Result<u32, DsapiError>,
    y: Result<u32, DsapiError>,
    r: Result<TouchEvent, DsapiError>,
) -> bool {
    let raw = u32_at(p, 4) as i32;
    if raw < 0 {
        r matches Err(DsapiError::ParseError(s)) && s@ == "negative_pointer_id:"@ + signed_decimal_text(raw as int)
    } else {
        match x {
            Err(e) => r == Err::<TouchEvent, DsapiError>(e),
            Ok(xv) => match y {
                Err(e) => r == Err::<TouchEvent, DsapiError>(e),
                Ok(yv) => {
                    let id = raw as u32;
                    if p[0] == TOUCH_PACKET_DOWN {
                        r == Ok::<TouchEvent, DsapiError>(TouchEvent::Down { id, x: xv, y: yv })
                    } else if p[0] == TOUCH_PACKET_MOVE {
                        r == Ok::<TouchEvent, DsapiError>(TouchEvent::Move { id, x: xv, y: yv })
                    } else if p[0] == TOUCH_PACKET_UP {
                        r == Ok::<TouchEvent, DsapiError>(TouchEvent::Up { id })
                    } else {
                        r matches Err(DsapiError::ParseError(s)) && s@ == "unknown_touch_packet_kind:"@ + decimal_text(
                            p[0] as nat,
                        )
                    }
                },
            },
        }
    }
}

/// Reads a packet, as `touch_decoded` says; `x` and `y` are the host's
/// reading of bytes 8 and 12 into whole pixels.
pub fn decode_touch_packet(packet: &[u8], x: Result<u32, DsapiError>, y: Result<u32, DsapiError>) -> (r: Result<TouchEvent, DsapiError>)
    requires
        packet@.len() == TOUCH_PACKET_BYTES,
    ensures
        touch_decoded(packet@, x, y, r),
{
    let kind = packet[0];
    let raw = get_u32_le(packet, 4) as i32;
    if raw < 0 {
        let mut v: Vec<char> = Vec::new();
        push_str(&mut v, "negative_pointer_id:");
        push_signed_decimal(&mut v, raw as i64);
        return Err(DsapiError::ParseError(string_from_chars(&v)));
    }
    let xv = match x {
        Err(e) => return Err(e),
        Ok(v) => v,
    };
    let yv = match y {
        Err(e) => return Err(e),
        Ok(v) => v,
    };
    let id = raw as u32;
    if kind == TOUCH_PACKET_DOWN {
        Ok(TouchEvent::Down { id, x: xv, y: yv })
    } else if kind == TOUCH_PACKET_MOVE {
        Ok(TouchEvent::Move { id, x: xv, y: yv })
    } else if kind == TOUCH_PACKET_UP {
        Ok(TouchEvent::Up { id })
    } else {
        let mut v: Vec<char> = Vec::new();
        push_str(&mut v, "unknown_touch_packet_kind:");
        push_decimal(&mut v, kind as u64);
        Err(DsapiError::ParseError(string_from_chars(&v)))
    }
}

} // verus!
