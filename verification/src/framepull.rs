use vstd::prelude::*;
use crate::text::{
    chars_of, chars_eq, string_from_chars, split_ws, ws_tokens, push_str, push_all,
    parse_usize_chars, spec_parse_usize, push_decimal, decimal_text, trim, trim_chars,
};

verus! {

/// A failure of the frame puller: its exit code and message.
#[derive(Debug, Clone, PartialEq, Eq)]
pub struct AppError {
    pub code: i32,
    pub message: String,
}

impl AppError {
    /// An error with this exit code and message.
    pub fn new(code: i32, message: &str) -> (r: Self)
        ensures
            r.code == code,
            r.message@ == message@,
    {
        AppError { code, message: message.to_owned() }
    }
}

/// The layout a bind reply gives, or the error: the reply must be exactly
/// `OK SHM_BOUND <capacity> <offset>` (exit 5 otherwise), with two numbers
/// and a capacity above zero (exit 6 otherwise).
pub open spec fn bind_reply(line: Seq<char>) -> Result<(usize, usize), (i32, Seq<char>)> {
    let t = ws_tokens(line);
    if !(t.len() == 4 && t[0] == "OK"@ && t[1] == "SHM_BOUND"@) {
        Err((5i32, "frame_pull_error=bad_bind_header line='"@ + line + "'"@))
    } else {
        match (spec_parse_usize(t[2]), spec_parse_usize(t[3])) {
            (Some(cap), Some(off)) => if cap == 0 {
                Err((6i32, "frame_pull_error=invalid_bind_layout"@))
            } else {
                Ok((cap, off))
            },
            _ => Err((6i32, "frame_pull_error=invalid_bind_layout"@)),
        }
    }
}

/// Reads a bind reply, as `bind_reply` says.
pub fn parse_bind_response(line: &str) -> (r: Result<(usize, usize), AppError>)
    ensures
        match bind_reply(line@) {
            Ok(v) => r == Ok::<(usize, usize), AppError>(v),
            Err((code, m)) => r matches Err(e) && e.code == code && e.message@ == m,
        },
{
    let t = split_ws(&chars_of(line));
    if !(t.len() == 4 && chars_eq(&t[0], "OK") && chars_eq(&t[1], "SHM_BOUND")) {
        let mut m = chars_of("frame_pull_error=bad_bind_header line='");
        push_str(&mut m, line);
        push_str(&mut m, "'");
        return Err(AppError { code: 5, message: string_from_chars(&m) });
    }
    let cap = match parse_usize_chars(&t[2]) {
        Some(v) => v,
        None => return Err(AppError::new(6, "frame_pull_error=invalid_bind_layout")),
    };
    let off = match parse_usize_chars(&t[3]) {
        Some(v) => v,
        None => return Err(AppError::new(6, "frame_pull_error=invalid_bind_layout")),
    };
    if cap == 0 {
        return Err(AppError::new(6, "frame_pull_error=invalid_bind_layout"));
    }
    Ok((cap, off))
}

/// A frame announced by a wait reply: its number, size (as sent), byte
/// count and offset in the shared buffer.
#[derive(Debug, Clone, PartialEq, Eq)]
pub struct WaitFrame {
    pub frame_seq: String,
    pub width: String,
    pub height: String,
    pub byte_len: usize,
    pub offset: usize,
}

/// What a wait reply says: `OK TIMEOUT` is no frame; otherwise eight words
/// starting with `OK` (exit 5 otherwise), the pixel format `RGBA8888` (exit
/// 6 otherwise), a non-zero byte count and an offset (exit 6 otherwise).
/// A frame is given as its number, width, height, byte count and offset.
pub open spec fn wait_reply(line: Seq<char>) -> Result<Option<(Seq<char>, Seq<char>, Seq<char>, usize, usize)>, (i32, Seq<char>)> {
    let t = ws_tokens(line);
    if t.len() == 2 && t[0] == "OK"@ && t[1] == "TIMEOUT"@ {
        Ok(None)
    } else if t.len() != 8 || t[0] != "OK"@ {
        Err((5i32, "frame_pull_error=bad_wait_header line='"@ + line + "'"@))
    } else if t[4] != "RGBA8888"@ {
        Err((6i32, "frame_pull_error=bad_pixel_format:"@ + t[4]))
    } else {
        match spec_parse_usize(t[5]) {
            None => Err((6i32, "frame_pull_error=invalid_byte_len"@)),
            Some(n) => match spec_parse_usize(t[7]) {
                None => Err((6i32, "frame_pull_error=invalid_offset_or_length"@)),
                Some(off) => if n == 0 {
                    Err((6i32, "frame_pull_error=invalid_byte_len"@))
                } else {
                    Ok(Some((t[1], t[2], t[3], n, off)))
                },
            },
        }
    }
}

/// Reads a wait reply, as `wait_reply` says.
pub fn parse_wait_response(line: &str) -> (r: Result<Option<WaitFrame>, AppError>)
    ensures
        match wait_reply(line@) {
            Ok(None) => r matches Ok(None),
            Ok(Some((s, w, h, n, off))) => r matches Ok(Some(f)) && f.frame_seq@ == s && f.width@ == w
                && f.height@ == h && f.byte_len == n && f.offset == off,
            Err((code, m)) => r matches Err(e) && e.code == code && e.message@ == m,
        },
{
    let t = split_ws(&chars_of(line));
    if t.len() == 2 && chars_eq(&t[0], "OK") && chars_eq(&t[1], "TIMEOUT") {
        return Ok(None);
    }
    if t.len() != 8 || !chars_eq(&t[0], "OK") {
        let mut m = chars_of("frame_pull_error=bad_wait_header line='");
        push_str(&mut m, line);
        push_str(&mut m, "'");
        return Err(AppError { code: 5, message: string_from_chars(&m) });
    }
    if !chars_eq(&t[4], "RGBA8888") {
        let mut m = chars_of("frame_pull_error=bad_pixel_format:");
        push_all(&mut m, &t[4]);
        return Err(AppError { code: 6, message: string_from_chars(&m) });
    }
    let n = match parse_usize_chars(&t[5]) {
        Some(v) => v,
        None => return Err(AppError::new(6, "frame_pull_error=invalid_byte_len")),
    };
    let off = match parse_usize_chars(&t[7]) {
        Some(v) => v,
        None => return Err(AppError::new(6, "frame_pull_error=invalid_offset_or_length")),
    };
    if n == 0 {
        return Err(AppError::new(6, "frame_pull_error=invalid_byte_len"));
    }
    Ok(
        Some(
            WaitFrame {
                frame_seq: string_from_chars(&t[1]),
                width: string_from_chars(&t[2]),
                height: string_from_chars(&t[3]),
                byte_len: n,
                offset: off,
            },
        ),
    )
}

/// Checks that `byte_len` bytes from `offset` lie within a mapping of `len`
/// bytes; otherwise the error `invalid_offset_or_length` (exit 6).
pub fn check_slice(len: usize, offset: usize, byte_len: usize) -> (r: Result<usize, AppError>)
    ensures
        offset + byte_len <= len ==> r == Ok::<usize, AppError>((offset + byte_len) as usize),
        offset + byte_len > len ==> (r matches Err(e) && e.code == 6 && e.message@
            == "frame_pull_error=invalid_offset_or_length"@),
{
    if offset > usize::MAX - byte_len || offset + byte_len > len {
        return Err(AppError::new(6, "frame_pull_error=invalid_offset_or_length"));
    }
    Ok(offset + byte_len)
}

/// The longest header line the frame puller accepts.
pub const MAX_HEADER_LEN: usize = 4096;

/// A header line after the bytes of `chunk` arrive, from the line so far
/// and whether it has ended: after its newline every byte is ignored;
/// before it, a carriage return is dropped and any other byte is kept, and
/// a line that grows past `MAX_HEADER_LEN` bytes is refused.
pub open spec fn header_after(line: Seq<u8>, done: bool, chunk: Seq<u8>) -> Option<(Seq<u8>, bool)>
    decreases chunk.len(),
{
    if chunk.len() == 0 {
        Some((line, done))
    } else if done {
        header_after(line, done, chunk.skip(1))
    } else if chunk[0] == 10 {
        header_after(line, true, chunk.skip(1))
    } else {
        let next = if chunk[0] != 13 { line.push(chunk[0]) } else { line };
        if next.len() > MAX_HEADER_LEN {
            None
        } else {
            header_after(next, false, chunk.skip(1))
        }
    }
}

/// A header line being received.
pub struct HeaderLine {
    pub bytes: Vec<u8>,
    pub done: bool,
}

impl HeaderLine {
    /// Nothing received yet.
    pub fn new() -> (r: Self)
        ensures
            r.bytes@ == Seq::<u8>::empty(),
            !r.done,
    {
        HeaderLine { bytes: Vec::new(), done: false }
    }

    /// Takes the bytes of one read, as `header_after` says; a line that
    /// grows too long gives the error `header_too_long` (exit 4).
    pub fn push_chunk(&mut self, chunk: &[u8]) -> (r: Result<(), AppError>)
        requires
            old(self).bytes@.len() <= MAX_HEADER_LEN,
        ensures
            match header_after(old(self).bytes@, old(self).done, chunk@) {
                Some((line, done)) => r is Ok && final(self).bytes@ == line && final(self).done == done,
                None => r matches Err(e) && e.code == 4 && e.message@ == "frame_pull_error=header_too_long"@,
            },
            final(self).bytes@.len() <= MAX_HEADER_LEN,
    {
        let ghost line0 = self.bytes@;
        let ghost done0 = self.done;
        assert(chunk@.skip(0) =~= chunk@);
        let mut i: usize = 0;
        while i < chunk.len()
            invariant
                i <= chunk@.len(),
                line0 == old(self).bytes@,
                done0 == old(self).done,
                self.bytes@.len() <= MAX_HEADER_LEN,
                header_after(line0, done0, chunk@) == header_after(self.bytes@, self.done, chunk@.skip(i as int)),
            decreases chunk@.len() - i,
        {
            let b = chunk[i];
            proof {
                assert(chunk@.skip(i as int)[0] == b);
                assert(chunk@.skip(i as int).skip(1) =~= chunk@.skip(i + 1));
            }
            if !self.done {
                if b == 10 {
                    self.done = true;
                } else {
                    if b != 13 {
                        if self.bytes.len() >= MAX_HEADER_LEN {
                            assert(self.bytes@.push(b).len() > MAX_HEADER_LEN);
                            assert(header_after(self.bytes@, self.done, chunk@.skip(i as int)) is None);
                            return Err(AppError::new(4, "frame_pull_error=header_too_long"));
                        }
                        self.bytes.push(b);
                    }
                }
            }
            i += 1;
        }
        proof {
            assert(chunk@.skip(chunk@.len() as int) =~= Seq::<u8>::empty());
        }
        Ok(())
    }
}

/// What a receive of a header line does next.
#[derive(Debug, Clone, PartialEq, Eq)]
pub enum RecvStep {
    /// Receive more.
    More,
    /// The line (and the descriptor, when one is needed) is here.
    Done,
    /// The receive failed.
    Fail(AppError),
}

/// The step after a read of `bytes_read` bytes (taken into `line`) while
/// receiving a header line, which may need a descriptor: a read of no bytes
/// is the end of the stream, which fails (`bind_missing_fd`, exit 5, when the
/// line had ended, else `header_eof`, exit 4); the receive is done once the
/// line has ended and a needed descriptor has come.
pub fn recv_step(bytes_read: usize, line: &HeaderLine, line_text: &str, require_fd: bool, have_fd: bool) -> (r: RecvStep)
    ensures
        bytes_read == 0 && line.done ==> (r matches RecvStep::Fail(e) && e.code == 5
            && e.message@ == "frame_pull_error=bind_missing_fd line='"@ + line_text@ + "'"@),
        bytes_read == 0 && !line.done ==> (r matches RecvStep::Fail(e) && e.code == 4
            && e.message@ == "frame_pull_error=header_eof"@),
        bytes_read > 0 ==> r == (if line.done && (!require_fd || have_fd) {
            RecvStep::Done
        } else {
            RecvStep::More
        }),
{
    if bytes_read == 0 {
        if line.done {
            let mut m = chars_of("frame_pull_error=bind_missing_fd line='");
            push_str(&mut m, line_text);
            push_str(&mut m, "'");
            return RecvStep::Fail(AppError { code: 5, message: string_from_chars(&m) });
        }
        return RecvStep::Fail(AppError::new(4, "frame_pull_error=header_eof"));
    }
    if line.done && (!require_fd || have_fd) {
        RecvStep::Done
    } else {
        RecvStep::More
    }
}

/// The length to map for a bound buffer: its capacity and offset together,
/// or `invalid_bind_layout` (exit 6) when that overflows.
pub fn bind_map_len(capacity: usize, offset: usize) -> (r: Result<usize, AppError>)
    ensures
        capacity + offset <= usize::MAX ==> r == Ok::<usize, AppError>((capacity + offset) as usize),
        capacity + offset > usize::MAX ==> (r matches Err(e) && e.code == 6 && e.message@
            == "frame_pull_error=invalid_bind_layout"@),
{
    if capacity > usize::MAX - offset {
        return Err(AppError::new(6, "frame_pull_error=invalid_bind_layout"));
    }
    Ok(capacity + offset)
}

/// The request that waits for a presented frame: `RENDER_FRAME_WAIT_SHM_PRESENT 0`
/// and the wait in milliseconds.
pub fn wait_request_line(wait_timeout_ms: u32) -> (r: String)
    ensures
        r@ == "RENDER_FRAME_WAIT_SHM_PRESENT 0 "@ + decimal_text(wait_timeout_ms as nat),
{
    let mut v = chars_of("RENDER_FRAME_WAIT_SHM_PRESENT 0 ");
    push_decimal(&mut v, wait_timeout_ms as u64);
    string_from_chars(&v)
}

/// The frame puller's two arguments, the data socket and the output file,
/// trimmed; `None` unless there are exactly two and neither is blank.
pub fn framepull_args(args: &Vec<String>) -> (r: Option<(String, String)>)
    ensures
        args@.len() != 3 ==> r is None,
        args@.len() == 3 && (trim(args@[1]@).len() == 0 || trim(args@[2]@).len() == 0) ==> r is None,
        args@.len() == 3 && trim(args@[1]@).len() > 0 && trim(args@[2]@).len() > 0 ==> (r matches Some((s, o))
            && s@ == trim(args@[1]@) && o@ == trim(args@[2]@)),
{
    if args.len() != 3 {
        return None;
    }
    let s = trim_chars(&chars_of(args[1].as_str()));
    let o = trim_chars(&chars_of(args[2].as_str()));
    if s.len() == 0 || o.len() == 0 {
        return None;
    }
    Some((string_from_chars(&s), string_from_chars(&o)))
}

} // verus!
