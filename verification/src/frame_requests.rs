use vstd::prelude::*;
use crate::api::{Status, RENDER_MAX_FRAME_BYTES};
use crate::text::{
    string_from_chars, push_str, push_decimal, decimal_text,
    chars_of, split_ws, ws_tokens, trim, eq_ignore_case, chars_eq_ignore_case, parse_u32_chars,
    parse_u64_chars, parse_i32_chars, spec_parse_u32, spec_parse_u64, spec_parse_i32,
};

verus! {

/// A shared-memory frame submission: the size, where the pixels are in the
/// shared buffer, and where the frame goes on the display.
#[derive(Debug, Clone, Copy, PartialEq, Eq, Structural)]
pub struct ShmFrameSubmitRequest {
    pub width: u32,
    pub height: u32,
    pub byte_len: usize,
    pub offset: usize,
    pub origin_x: i32,
    pub origin_y: i32,
}

/// Whether a control line asks to bind the shared frame buffer: `None`
/// when it is another command (or blank), `Some(true)` for the bare
/// command and `Some(false)` when it has extra words.
pub open spec fn bind_request(line: Seq<char>) -> Option<bool> {
    let t = ws_tokens(line);
    if t.len() == 0 || !eq_ignore_case(t[0], "RENDER_FRAME_BIND_SHM"@) {
        None
    } else {
        Some(t.len() == 1)
    }
}

/// Reads a bind request: `Ok(false)` for another command, `Ok(true)` for
/// the command alone, an invalid argument when it has extra words.
pub fn parse_frame_bind_shm_request(line: &str) -> (r: Result<bool, Status>)
    ensures
        match bind_request(line@) {
            None => r == Ok::<bool, Status>(false),
            Some(true) => r == Ok::<bool, Status>(true),
            Some(false) => r == Err::<bool, Status>(Status::InvalidArgument),
        },
{
    let t = split_ws(&chars_of(line));
    if t.len() == 0 || !chars_eq_ignore_case(&t[0], "RENDER_FRAME_BIND_SHM") {
        return Ok(false);
    }
    if t.len() > 1 {
        return Err(Status::InvalidArgument);
    }
    Ok(true)
}

/// A wait-and-present request's fields: the last frame number seen and the
/// timeout, or the status of a malformed request; `None` for another
/// command.
pub open spec fn wait_request(line: Seq<char>) -> Option<Result<(u64, u32), Status>> {
    let t = ws_tokens(line);
    if t.len() == 0 || !eq_ignore_case(t[0], "RENDER_FRAME_WAIT_SHM_PRESENT"@) {
        None
    } else if t.len() < 2 {
        Some(Err(Status::InvalidArgument))
    } else {
        match spec_parse_u64(t[1]) {
            None => Some(Err(Status::InvalidArgument)),
            Some(seq) => if t.len() < 3 {
                Some(Err(Status::InvalidArgument))
            } else {
                match spec_parse_u32(t[2]) {
                    None => Some(Err(Status::InvalidArgument)),
                    Some(ms) => if t.len() > 3 {
                        Some(Err(Status::InvalidArgument))
                    } else {
                        Some(Ok((seq, ms)))
                    },
                }
            },
        }
    }
}

/// Reads a wait-and-present request, as `wait_request` says.
pub fn parse_frame_wait_shm_present_request(line: &str) -> (r: Result<Option<(u64, u32)>, Status>)
    ensures
        match wait_request(line@) {
            None => r == Ok::<Option<(u64, u32)>, Status>(None),
            Some(Ok(v)) => r == Ok::<Option<(u64, u32)>, Status>(Some(v)),
            Some(Err(s)) => r == Err::<Option<(u64, u32)>, Status>(s),
        },
{
    let t = split_ws(&chars_of(line));
    if t.len() == 0 || !chars_eq_ignore_case(&t[0], "RENDER_FRAME_WAIT_SHM_PRESENT") {
        return Ok(None);
    }
    if t.len() < 2 {
        return Err(Status::InvalidArgument);
    }
    let seq = match parse_u64_chars(&t[1]) {
        Some(v) => v,
        None => return Err(Status::InvalidArgument),
    };
    if t.len() < 3 {
        return Err(Status::InvalidArgument);
    }
    let ms = match parse_u32_chars(&t[2]) {
        Some(v) => v,
        None => return Err(Status::InvalidArgument),
    };
    if t.len() > 3 {
        return Err(Status::InvalidArgument);
    }
    Ok(Some((seq, ms)))
}

/// An optional `i32` field: zero when absent, the status when it does not
/// parse.
pub open spec fn opt_i32_field(t: Seq<Seq<char>>, k: int) -> Result<i32, Status> {
    if t.len() <= k {
        Ok(0i32)
    } else {
        match spec_parse_i32(t[k]) {
            Some(v) => Ok(v),
            None => Err(Status::InvalidArgument),
        }
    }
}

/// A shared-memory submission's fields: four numbers (width, height, byte
/// count, offset) and an optional origin; a missing or malformed number or
/// an extra word is an invalid argument, as are an empty size and a byte
/// count other than four per pixel; more than `RENDER_MAX_FRAME_BYTES` is
/// out of range. `None` for another command.
pub open spec fn submit_request(line: Seq<char>) -> Option<Result<ShmFrameSubmitRequest, Status>> {
    let t = ws_tokens(line);
    if t.len() == 0 || !eq_ignore_case(t[0], "RENDER_FRAME_SUBMIT_SHM"@) {
        None
    } else if t.len() < 5 {
        Some(Err(Status::InvalidArgument))
    } else {
        match (spec_parse_u32(t[1]), spec_parse_u32(t[2]), spec_parse_u32(t[3]), spec_parse_u32(t[4])) {
            (Some(w), Some(h), Some(n), Some(off)) => match (opt_i32_field(t, 5), opt_i32_field(t, 6)) {
                (Ok(ox), Ok(oy)) => if t.len() > 7 {
                    Some(Err(Status::InvalidArgument))
                } else if w == 0 || h == 0 {
                    Some(Err(Status::InvalidArgument))
                } else if w * h * 4 > usize::MAX {
                    Some(Err(Status::OutOfRange))
                } else if n != w * h * 4 {
                    Some(Err(Status::InvalidArgument))
                } else if n > RENDER_MAX_FRAME_BYTES {
                    Some(Err(Status::OutOfRange))
                } else {
                    Some(
                        Ok(
                            ShmFrameSubmitRequest {
                                width: w,
                                height: h,
                                byte_len: n as usize,
                                offset: off as usize,
                                origin_x: ox,
                                origin_y: oy,
                            },
                        ),
                    )
                },
                _ => Some(Err(Status::InvalidArgument)),
            },
            _ => Some(Err(Status::InvalidArgument)),
        }
    }
}

/// An accepted submission takes its numbers from the words of the line in
/// order: width, height, byte count and offset are the second to fifth
/// words; the origin's x is the sixth word and its y the seventh, each 0
/// when its word is absent; the line has at most seven words, a non-empty
/// size and four bytes per pixel.
pub proof fn lemma_submit_fields_in_word_order(line: Seq<char>)
    ensures
        submit_request(line) matches Some(Ok(req)) ==> {
            let t = ws_tokens(line);
            &&& 5 <= t.len() <= 7
            &&& spec_parse_u32(t[1]) == Some(req.width)
            &&& spec_parse_u32(t[2]) == Some(req.height)
            &&& spec_parse_u32(t[3]) matches Some(n) && req.byte_len == n
            &&& spec_parse_u32(t[4]) matches Some(off) && req.offset == off
            &&& t.len() > 5 ==> spec_parse_i32(t[5]) == Some(req.origin_x)
            &&& t.len() <= 5 ==> req.origin_x == 0
            &&& t.len() > 6 ==> spec_parse_i32(t[6]) == Some(req.origin_y)
            &&& t.len() <= 6 ==> req.origin_y == 0
            &&& req.width > 0 && req.height > 0
            &&& req.byte_len == req.width * req.height * 4
        },
{
}

/// Reads a shared-memory frame submission, as `submit_request` says.
pub fn parse_frame_submit_shm_request(line: &str) -> (r: Result<Option<ShmFrameSubmitRequest>, Status>)
    ensures
        match submit_request(line@) {
            None => r == Ok::<Option<ShmFrameSubmitRequest>, Status>(None),
            Some(Ok(v)) => r == Ok::<Option<ShmFrameSubmitRequest>, Status>(Some(v)),
            Some(Err(s)) => r == Err::<Option<ShmFrameSubmitRequest>, Status>(s),
        },
{
    let t = split_ws(&chars_of(line));
    if t.len() == 0 || !chars_eq_ignore_case(&t[0], "RENDER_FRAME_SUBMIT_SHM") {
        return Ok(None);
    }
    if t.len() < 5 {
        return Err(Status::InvalidArgument);
    }
    let w = match parse_u32_chars(&t[1]) {
        Some(v) => v,
        None => return Err(Status::InvalidArgument),
    };
    let h = match parse_u32_chars(&t[2]) {
        Some(v) => v,
        None => return Err(Status::InvalidArgument),
    };
    let n = match parse_u32_chars(&t[3]) {
        Some(v) => v,
        None => return Err(Status::InvalidArgument),
    };
    let off = match parse_u32_chars(&t[4]) {
        Some(v) => v,
        None => return Err(Status::InvalidArgument),
    };
    let ox: i32 = if t.len() > 5 {
        match parse_i32_chars(&t[5]) {
            Some(v) => v,
            None => return Err(Status::InvalidArgument),
        }
    } else {
        0
    };
    let oy: i32 = if t.len() > 6 {
        match parse_i32_chars(&t[6]) {
            Some(v) => v,
            None => return Err(Status::InvalidArgument),
        }
    } else {
        0
    };
    if t.len() > 7 {
        return Err(Status::InvalidArgument);
    }
    if w == 0 || h == 0 {
        return Err(Status::InvalidArgument);
    }
    let expected = match (w as usize).checked_mul(h as usize) {
        Some(p) => match p.checked_mul(4) {
            Some(e) => e,
            None => return Err(Status::OutOfRange),
        },
        None => {
            assert(w * h * 4 > usize::MAX) by (nonlinear_arith)
                requires
                    w * h > usize::MAX,
            ;
            return Err(Status::OutOfRange);
        },
    };
    if n as usize != expected {
        return Err(Status::InvalidArgument);
    }
    if n as usize > RENDER_MAX_FRAME_BYTES {
        return Err(Status::OutOfRange);
    }
    Ok(
        Some(
            ShmFrameSubmitRequest {
                width: w,
                height: h,
                byte_len: n as usize,
                offset: off as usize,
                origin_x: ox,
                origin_y: oy,
            },
        ),
    )
}


/// What the daemon does with a line of its data socket.
#[derive(Debug, Clone, Copy, PartialEq, Eq, Structural)]
pub enum DataRequest {
    /// Bind the shared frame buffer for this connection.
    BindShm,
    /// Wait for a frame newer than `last_seq` and present it.
    WaitShmPresent { last_seq: u64, timeout_ms: u32 },
    /// Take a frame from the bound shared buffer.
    SubmitShm(ShmFrameSubmitRequest),
    /// Turn the connection into a touch packet stream.
    TouchStream,
    /// Answer with this status and read the next line.
    Refuse(Status),
}

/// The request a data-socket line makes, with `bound` telling whether the
/// connection has bound a shared buffer: the frame commands are tried in
/// order (bind, wait-and-present, submit; a malformed one is refused with
/// its status, and the last two need a bound buffer), then
/// `STREAM_TOUCH_V1` (trimmed, any case); anything else is an invalid
/// argument.
pub open spec fn data_request(line: Seq<char>, bound: bool) -> DataRequest {
    match bind_request(line) {
        Some(false) => DataRequest::Refuse(Status::InvalidArgument),
        Some(true) => DataRequest::BindShm,
        None => match wait_request(line) {
            Some(Err(s)) => DataRequest::Refuse(s),
            Some(Ok((seq, ms))) => if bound {
                DataRequest::WaitShmPresent { last_seq: seq, timeout_ms: ms }
            } else {
                DataRequest::Refuse(Status::InvalidArgument)
            },
            None => match submit_request(line) {
                Some(Err(s)) => DataRequest::Refuse(s),
                Some(Ok(req)) => if bound {
                    DataRequest::SubmitShm(req)
                } else {
                    DataRequest::Refuse(Status::InvalidArgument)
                },
                None => if eq_ignore_case(trim(line), "STREAM_TOUCH_V1"@) {
                    DataRequest::TouchStream
                } else {
                    DataRequest::Refuse(Status::InvalidArgument)
                },
            },
        },
    }
}

/// The request a data-socket line makes, as `data_request` says.
pub fn classify_data_line(line: &str, bound: bool) -> (r: DataRequest)
    ensures
        r == data_request(line@, bound),
{
    match parse_frame_bind_shm_request(line) {
        Err(s) => return DataRequest::Refuse(s),
        Ok(true) => return DataRequest::BindShm,
        Ok(false) => {},
    }
    match parse_frame_wait_shm_present_request(line) {
        Err(s) => return DataRequest::Refuse(s),
        Ok(Some((seq, ms))) => {
            return if bound {
                DataRequest::WaitShmPresent { last_seq: seq, timeout_ms: ms }
            } else {
                DataRequest::Refuse(Status::InvalidArgument)
            };
        },
        Ok(None) => {},
    }
    match parse_frame_submit_shm_request(line) {
        Err(s) => return DataRequest::Refuse(s),
        Ok(Some(req)) => {
            return if bound {
                DataRequest::SubmitShm(req)
            } else {
                DataRequest::Refuse(Status::InvalidArgument)
            };
        },
        Ok(None) => {},
    }
    let t = crate::text::trim_chars(&chars_of(line));
    if chars_eq_ignore_case(&t, "STREAM_TOUCH_V1") {
        DataRequest::TouchStream
    } else {
        DataRequest::Refuse(Status::InvalidArgument)
    }
}


/// The smallest shared frame buffer a connection binds.
pub const INITIAL_BOUND_FD_CAPACITY: usize = 524288;

/// The size of the shared buffer a connection binds, from the size of the
/// current frame: at least `INITIAL_BOUND_FD_CAPACITY`, at most
/// `RENDER_MAX_FRAME_BYTES`.
pub fn bound_capacity(frame_byte_len: usize) -> (r: usize)
    ensures
        r == (if frame_byte_len < INITIAL_BOUND_FD_CAPACITY {
            INITIAL_BOUND_FD_CAPACITY
        } else if frame_byte_len > RENDER_MAX_FRAME_BYTES {
            RENDER_MAX_FRAME_BYTES
        } else {
            frame_byte_len
        }),
{
    if frame_byte_len < INITIAL_BOUND_FD_CAPACITY {
        INITIAL_BOUND_FD_CAPACITY
    } else if frame_byte_len > RENDER_MAX_FRAME_BYTES {
        RENDER_MAX_FRAME_BYTES
    } else {
        frame_byte_len
    }
}

/// `byte_len` bytes at `offset` lie inside a bound buffer of `capacity`
/// bytes: their end is no further than the capacity (an end past
/// `usize::MAX` does not fit).
pub fn span_fits(offset: usize, byte_len: usize, capacity: usize) -> (r: bool)
    ensures
        r == (offset + byte_len <= capacity),
{
    match offset.checked_add(byte_len) {
        Some(end) => end <= capacity,
        None => false,
    }
}

/// The reply that hands over a bound buffer: `OK BOUND` and its size.
pub fn bound_line(capacity: usize) -> (r: String)
    ensures
        r@ == "OK BOUND "@ + decimal_text(capacity as nat) + "\n"@,
{
    let mut v: Vec<char> = Vec::new();
    push_str(&mut v, "OK BOUND ");
    push_decimal(&mut v, capacity as u64);
    push_str(&mut v, "\n");
    string_from_chars(&v)
}

/// The reply that describes a frame copied to the bound buffer: `OK`, its
/// number, width, height and byte count.
pub fn frame_line(frame_seq: u64, width: u32, height: u32, byte_len: u32) -> (r: String)
    ensures
        r@ == "OK "@ + decimal_text(frame_seq as nat) + " "@ + decimal_text(width as nat) + " "@
            + decimal_text(height as nat) + " "@ + decimal_text(byte_len as nat) + "\n"@,
{
    let mut v: Vec<char> = Vec::new();
    push_str(&mut v, "OK ");
    push_decimal(&mut v, frame_seq);
    push_str(&mut v, " ");
    push_decimal(&mut v, width as u64);
    push_str(&mut v, " ");
    push_decimal(&mut v, height as u64);
    push_str(&mut v, " ");
    push_decimal(&mut v, byte_len as u64);
    push_str(&mut v, "\n");
    string_from_chars(&v)
}

/// The reply that describes a presented frame: `OK`, its number, width,
/// height, the pixel format `RGBA8888`, byte count and checksum.
pub fn present_line(frame_seq: u64, width: u32, height: u32, byte_len: u32, checksum: u32) -> (r: String)
    ensures
        r@ == "OK "@ + decimal_text(frame_seq as nat) + " "@ + decimal_text(width as nat) + " "@
            + decimal_text(height as nat) + " RGBA8888 "@ + decimal_text(byte_len as nat) + " "@
            + decimal_text(checksum as nat) + "\n"@,
{
    let mut v: Vec<char> = Vec::new();
    push_str(&mut v, "OK ");
    push_decimal(&mut v, frame_seq);
    push_str(&mut v, " ");
    push_decimal(&mut v, width as u64);
    push_str(&mut v, " ");
    push_decimal(&mut v, height as u64);
    push_str(&mut v, " RGBA8888 ");
    push_decimal(&mut v, byte_len as u64);
    push_str(&mut v, " ");
    push_decimal(&mut v, checksum as u64);
    push_str(&mut v, "\n");
    string_from_chars(&v)
}

} // verus!
