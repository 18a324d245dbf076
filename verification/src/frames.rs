use vstd::prelude::*;
use crate::api::{RenderFrameInfo, RenderStats, Status, RENDER_MAX_CHUNK_BYTES, RENDER_MAX_FRAME_BYTES};
use crate::text::{
    chars_of, chars_eq, lower_chars, lower_seq, trim, trim_chars, push_str, push_decimal, decimal_text,
    string_from_chars,
};

verus! {

/// The FNV-1a 32-bit hash of `s`.
pub open spec fn spec_fnv1a32(s: Seq<u8>) -> u32
    decreases s.len(),
{
    if s.len() == 0 {
        0x811c9dc5u32
    } else {
        (spec_fnv1a32(s.drop_last()) ^ (s.last() as u32)).wrapping_mul(0x0100_0193u32)
    }
}

/// The FNV-1a 32-bit hash of `data`.
pub fn fnv1a32(data: &[u8]) -> (r: u32)
    ensures
        r == spec_fnv1a32(data@),
{
    let mut hash: u32 = 0x811c9dc5u32;
    let mut i: usize = 0;
    while i < data.len()
        invariant
            i <= data@.len(),
            hash == spec_fnv1a32(data@.take(i as int)),
        decreases data@.len() - i,
    {
        assert(data@.take(i + 1).drop_last() =~= data@.take(i as int));
        hash = (hash ^ (data[i] as u32)).wrapping_mul(0x0100_0193u32);
        i += 1;
    }
    assert(data@.take(data@.len() as int) =~= data@);
    hash
}

/// The checksum stored with a frame: its FNV-1a hash, or zero when
/// checksums are turned off.
pub fn compute_render_checksum(data: &[u8], enabled: bool) -> (r: u32)
    ensures
        r == if enabled {
            spec_fnv1a32(data@)
        } else {
            0
        },
{
    if enabled {
        fnv1a32(data)
    } else {
        0
    }
}

/// What a present recorded.
#[derive(Debug, Clone, Copy, PartialEq, Eq, Structural)]
pub struct RenderPresentInfo {
    pub present_seq: u64,
    pub frame_seq: u64,
    pub width: u32,
    pub height: u32,
    pub byte_len: u32,
    pub checksum_fnv1a32: u32,
}

/// A piece of the stored frame.
#[derive(Debug, Clone, PartialEq, Eq)]
pub struct RenderFrameChunk {
    pub frame_seq: u64,
    pub total_bytes: u32,
    pub offset: u32,
    pub chunk_bytes: Vec<u8>,
}

/// The stored frame: its description, its pixels and where it goes on the
/// display.
#[derive(Debug, Clone)]
pub struct StoredRenderFrame {
    pub info: RenderFrameInfo,
    pub pixels_rgba8: Vec<u8>,
    pub origin_x: i32,
    pub origin_y: i32,
}

/// Why a frame of `width` by `height` with `len` bytes is refused, if it
/// is: an empty size or a byte count other than four per pixel is an
/// invalid argument; more than `RENDER_MAX_FRAME_BYTES` is out of range.
pub open spec fn frame_failure(width: u32, height: u32, len: int) -> Option<Status> {
    if width == 0 || height == 0 {
        Some(Status::InvalidArgument)
    } else if width * height * 4 > RENDER_MAX_FRAME_BYTES {
        Some(Status::OutOfRange)
    } else if len != width * height * 4 {
        Some(Status::InvalidArgument)
    } else {
        None
    }
}

/// Checks a frame's size against its bytes, as `frame_failure` says, and
/// gives its byte count.
pub fn check_frame_len(width: u32, height: u32, len: usize) -> (r: Result<usize, Status>)
    ensures
        match frame_failure(width, height, len as int) {
            Some(s) => r == Err::<usize, Status>(s),
            None => r == Ok::<usize, Status>(len),
        },
{
    if width == 0 || height == 0 {
        return Err(Status::InvalidArgument);
    }
    assert((width as u64) * (height as u64) <= 0xffff_ffffu64 * 0xffff_ffffu64) by (nonlinear_arith);
    let pixels: u64 = (width as u64) * (height as u64);
    if pixels > (RENDER_MAX_FRAME_BYTES as u64) / 4 {
        return Err(Status::OutOfRange);
    }
    let expected = (pixels * 4) as usize;
    if len != expected {
        return Err(Status::InvalidArgument);
    }
    Ok(expected)
}

/// Render counters, the stored frame and what was presented.
#[derive(Debug)]
pub struct RenderState {
    render: RenderStats,
    render_frame_seq: u64,
    last_render_frame: Option<StoredRenderFrame>,
    present_seq: u64,
    dump_seq: u64,
    last_present: Option<RenderPresentInfo>,
    checksum_enabled: bool,
}

/// The number after `n`, stuck at the largest `u64`.
pub open spec fn bumped_u64(n: u64) -> u64 {
    if n == u64::MAX {
        u64::MAX
    } else {
        (n + 1) as u64
    }
}

impl RenderState {
    /// The counters of the last statistics submission.
    pub closed spec fn stats(&self) -> RenderStats {
        self.render
    }

    /// The number of the last stored frame (zero before any).
    pub closed spec fn frame_seq(&self) -> u64 {
        self.render_frame_seq
    }

    /// The stored frame: description, pixels, origin.
    pub closed spec fn frame(&self) -> Option<(RenderFrameInfo, Seq<u8>, i32, i32)> {
        match self.last_render_frame {
            Some(f) => Some((f.info, f.pixels_rgba8@, f.origin_x, f.origin_y)),
            None => None,
        }
    }

    /// The number of the last present (zero before any).
    pub closed spec fn present_seq(&self) -> u64 {
        self.present_seq
    }

    /// What the last present recorded.
    pub closed spec fn last_present(&self) -> Option<RenderPresentInfo> {
        self.last_present
    }

    /// The number of the last dump (zero before any).
    pub closed spec fn dump_seq(&self) -> u64 {
        self.dump_seq
    }

    /// Whether stored frames carry their checksum.
    pub closed spec fn checksums(&self) -> bool {
        self.checksum_enabled
    }

    /// A stored frame has four bytes per pixel, at most
    /// `RENDER_MAX_FRAME_BYTES` of them, and a number no later than the
    /// last one given out.
    pub closed spec fn wf(&self) -> bool {
        match self.last_render_frame {
            Some(f) => {
                &&& f.pixels_rgba8@.len() == f.info.byte_len
                &&& f.info.byte_len == f.info.width * f.info.height * 4
                &&& f.info.byte_len <= RENDER_MAX_FRAME_BYTES
                &&& f.info.frame_seq <= self.render_frame_seq
            },
            None => true,
        }
    }

    /// Nothing rendered yet.
    pub fn new(checksum_enabled: bool) -> (r: Self)
        ensures
            r.wf(),
            r.stats() == (RenderStats { frame_seq: 0, draw_calls: 0, frost_passes: 0, text_calls: 0 }),
            r.frame_seq() == 0,
            r.frame() is None,
            r.present_seq() == 0,
            r.last_present() is None,
            r.dump_seq() == 0,
            r.checksums() == checksum_enabled,
    {
        RenderState {
            render: RenderStats { frame_seq: 0, draw_calls: 0, frost_passes: 0, text_calls: 0 },
            render_frame_seq: 0,
            last_render_frame: None,
            present_seq: 0,
            dump_seq: 0,
            last_present: None,
            checksum_enabled,
        }
    }

    /// Records the counters of a render pass under the next statistics
    /// number and gives them back.
    pub fn submit_render_stats(&mut self, draw_calls: u32, frost_passes: u32, text_calls: u32) -> (r: RenderStats)
        requires
            old(self).wf(),
        ensures
            final(self).wf(),
            r == (RenderStats {
                frame_seq: bumped_u64(old(self).stats().frame_seq),
                draw_calls,
                frost_passes,
                text_calls,
            }),
            final(self).stats() == r,
            final(self).frame_seq() == old(self).frame_seq(),
            final(self).frame() == old(self).frame(),
            final(self).present_seq() == old(self).present_seq(),
            final(self).last_present() == old(self).last_present(),
            final(self).dump_seq() == old(self).dump_seq(),
            final(self).checksums() == old(self).checksums(),
    {
        self.render = RenderStats {
            frame_seq: self.render.frame_seq.saturating_add(1),
            draw_calls,
            frost_passes,
            text_calls,
        };
        self.render
    }

    /// The counters of the last statistics submission.
    pub fn render_stats(&self) -> (r: RenderStats)
        ensures
            r == self.stats(),
    {
        self.render
    }

    /// Stores a frame of `width` by `height` RGBA pixels under the next
    /// frame number, with its checksum, in place of the previous one. A
    /// frame refused by `frame_failure` gets that status and changes
    /// nothing.
    pub fn submit_render_frame_rgba_at(
        &mut self,
        width: u32,
        height: u32,
        pixels_rgba8: &[u8],
        origin_x: i32,
        origin_y: i32,
    ) -> (r: Result<RenderFrameInfo, Status>)
        requires
            old(self).wf(),
        ensures
            final(self).wf(),
            final(self).stats() == old(self).stats(),
            final(self).present_seq() == old(self).present_seq(),
            final(self).last_present() == old(self).last_present(),
            final(self).dump_seq() == old(self).dump_seq(),
            final(self).checksums() == old(self).checksums(),
            match frame_failure(width, height, pixels_rgba8@.len() as int) {
                Some(s) => {
                    &&& r == Err::<RenderFrameInfo, Status>(s)
                    &&& final(self).frame_seq() == old(self).frame_seq()
                    &&& final(self).frame() == old(self).frame()
                },
                None => {
                    let info = RenderFrameInfo {
                        frame_seq: bumped_u64(old(self).frame_seq()),
                        width,
                        height,
                        byte_len: pixels_rgba8@.len() as u32,
                        checksum_fnv1a32: if old(self).checksums() {
                            spec_fnv1a32(pixels_rgba8@)
                        } else {
                            0
                        },
                    };
                    &&& r == Ok::<RenderFrameInfo, Status>(info)
                    &&& final(self).frame_seq() == info.frame_seq
                    &&& final(self).frame() == Some((info, pixels_rgba8@, origin_x, origin_y))
                },
            },
    {
        let expected_len = match check_frame_len(width, height, pixels_rgba8.len()) {
            Ok(n) => n,
            Err(s) => return Err(s),
        };
        let mut pixels: Vec<u8> = Vec::new();
        let mut i: usize = 0;
        while i < pixels_rgba8.len()
            invariant
                i <= pixels_rgba8@.len(),
                pixels@ == pixels_rgba8@.take(i as int),
            decreases pixels_rgba8@.len() - i,
        {
            pixels.push(pixels_rgba8[i]);
            i += 1;
            assert(pixels@ =~= pixels_rgba8@.take(i as int));
        }
        assert(pixels_rgba8@.take(pixels_rgba8@.len() as int) =~= pixels_rgba8@);
        let checksum = compute_render_checksum(pixels_rgba8, self.checksum_enabled);
        self.render_frame_seq = self.render_frame_seq.saturating_add(1);
        let info = RenderFrameInfo {
            frame_seq: self.render_frame_seq,
            width,
            height,
            byte_len: expected_len as u32,
            checksum_fnv1a32: checksum,
        };
        self.last_render_frame = Some(
            StoredRenderFrame { info, pixels_rgba8: pixels, origin_x, origin_y },
        );
        Ok(info)
    }

    /// The description of the stored frame.
    pub fn render_frame_info(&self) -> (r: Option<RenderFrameInfo>)
        ensures
            match self.frame() {
                Some(f) => r == Some(f.0),
                None => r is None,
            },
    {
        match &self.last_render_frame {
            Some(f) => Some(f.info),
            None => None,
        }
    }

    /// The pixels of the stored frame.
    pub fn render_frame_pixels(&self) -> (r: Option<&Vec<u8>>)
        ensures
            match self.frame() {
                Some(f) => r matches Some(p) && p@ == f.1,
                None => r is None,
            },
    {
        match &self.last_render_frame {
            Some(f) => Some(&f.pixels_rgba8),
            None => None,
        }
    }

    /// The byte count of the stored frame.
    pub fn render_frame_byte_len(&self) -> (r: Option<usize>)
        ensures
            match self.frame() {
                Some(f) => r == Some(f.1.len() as usize),
                None => r is None,
            },
    {
        match &self.last_render_frame {
            Some(f) => Some(f.pixels_rgba8.len()),
            None => None,
        }
    }

    /// Where the stored frame goes on the display.
    pub fn render_frame_origin(&self) -> (r: Option<(i32, i32)>)
        ensures
            match self.frame() {
                Some(f) => r == Some((f.2, f.3)),
                None => r is None,
            },
    {
        match &self.last_render_frame {
            Some(f) => Some((f.origin_x, f.origin_y)),
            None => None,
        }
    }

    /// Forgets the stored frame.
    pub fn clear_render_frame(&mut self)
        requires
            old(self).wf(),
        ensures
            final(self).wf(),
            final(self).frame() is None,
            final(self).stats() == old(self).stats(),
            final(self).frame_seq() == old(self).frame_seq(),
            final(self).present_seq() == old(self).present_seq(),
            final(self).last_present() == old(self).last_present(),
            final(self).dump_seq() == old(self).dump_seq(),
            final(self).checksums() == old(self).checksums(),
    {
        self.last_render_frame = None;
    }
}

/// What a present of `info` records under number `present_seq`.
pub open spec fn present_of(present_seq: u64, info: RenderFrameInfo) -> RenderPresentInfo {
    RenderPresentInfo {
        present_seq,
        frame_seq: info.frame_seq,
        width: info.width,
        height: info.height,
        byte_len: info.byte_len,
        checksum_fnv1a32: info.checksum_fnv1a32,
    }
}

impl RenderState {
    /// Up to `max_bytes` of the stored frame from `offset` on. A chunk size
    /// of zero or above `RENDER_MAX_CHUNK_BYTES`, no stored frame, or an
    /// offset at or past its end is out of range.
    pub fn render_frame_read_chunk(&self, offset: usize, max_bytes: usize) -> (r: Result<RenderFrameChunk, Status>)
        requires
            self.wf(),
        ensures
            max_bytes == 0 || max_bytes > RENDER_MAX_CHUNK_BYTES ==> r == Err::<
                RenderFrameChunk,
                Status,
            >(Status::OutOfRange),
            !(max_bytes == 0 || max_bytes > RENDER_MAX_CHUNK_BYTES) ==> match self.frame() {
                None => r == Err::<RenderFrameChunk, Status>(Status::OutOfRange),
                Some(f) => if offset >= f.1.len() {
                    r == Err::<RenderFrameChunk, Status>(Status::OutOfRange)
                } else {
                    let end = if offset + max_bytes > f.1.len() {
                        f.1.len() as int
                    } else {
                        offset + max_bytes
                    };
                    r matches Ok(c) && c.frame_seq == f.0.frame_seq && c.total_bytes == f.0.byte_len
                        && c.offset == offset && c.chunk_bytes@ == f.1.subrange(offset as int, end)
                },
            },
    {
        if max_bytes == 0 || max_bytes > RENDER_MAX_CHUNK_BYTES {
            return Err(Status::OutOfRange);
        }
        let frame = match &self.last_render_frame {
            Some(f) => f,
            None => return Err(Status::OutOfRange),
        };
        let total = frame.pixels_rgba8.len();
        if offset >= total {
            return Err(Status::OutOfRange);
        }
        let end = if max_bytes > total - offset {
            total
        } else {
            offset + max_bytes
        };
        let mut bytes: Vec<u8> = Vec::new();
        let mut i: usize = offset;
        while i < end
            invariant
                offset <= i <= end <= total,
                total == frame.pixels_rgba8@.len(),
                bytes@ == frame.pixels_rgba8@.subrange(offset as int, i as int),
            decreases end - i,
        {
            bytes.push(frame.pixels_rgba8[i]);
            i += 1;
            assert(bytes@ =~= frame.pixels_rgba8@.subrange(offset as int, i as int));
        }
        Ok(
            RenderFrameChunk {
                frame_seq: frame.info.frame_seq,
                total_bytes: frame.info.byte_len,
                offset: offset as u32,
                chunk_bytes: bytes,
            },
        )
    }

    /// Records a present of the stored frame under the next present number
    /// and gives what it recorded; with no stored frame it is out of range
    /// and changes nothing.
    pub fn render_present(&mut self) -> (r: Result<RenderPresentInfo, Status>)
        requires
            old(self).wf(),
        ensures
            final(self).wf(),
            final(self).stats() == old(self).stats(),
            final(self).frame_seq() == old(self).frame_seq(),
            final(self).frame() == old(self).frame(),
            final(self).dump_seq() == old(self).dump_seq(),
            final(self).checksums() == old(self).checksums(),
            match old(self).frame() {
                None => {
                    &&& r == Err::<RenderPresentInfo, Status>(Status::OutOfRange)
                    &&& final(self).present_seq() == old(self).present_seq()
                    &&& final(self).last_present() == old(self).last_present()
                },
                Some(f) => {
                    let p = present_of(bumped_u64(old(self).present_seq()), f.0);
                    &&& r == Ok::<RenderPresentInfo, Status>(p)
                    &&& final(self).present_seq() == p.present_seq
                    &&& final(self).last_present() == Some(p)
                },
            },
    {
        let info = match &self.last_render_frame {
            Some(f) => f.info,
            None => return Err(Status::OutOfRange),
        };
        self.present_seq = self.present_seq.saturating_add(1);
        let p = RenderPresentInfo {
            present_seq: self.present_seq,
            frame_seq: info.frame_seq,
            width: info.width,
            height: info.height,
            byte_len: info.byte_len,
            checksum_fnv1a32: info.checksum_fnv1a32,
        };
        self.last_present = Some(p);
        Ok(p)
    }

    /// What the last present recorded.
    pub fn render_present_get(&self) -> (r: Option<RenderPresentInfo>)
        ensures
            r == self.last_present(),
    {
        self.last_present
    }

    /// Presents the stored frame if it is newer than `last_frame_seq`, and
    /// gives its description and origin; otherwise changes nothing.
    pub fn present_latest_if_newer(&mut self, last_frame_seq: u64) -> (r: Option<(RenderFrameInfo, i32, i32)>)
        requires
            old(self).wf(),
        ensures
            final(self).wf(),
            final(self).stats() == old(self).stats(),
            final(self).frame_seq() == old(self).frame_seq(),
            final(self).frame() == old(self).frame(),
            final(self).dump_seq() == old(self).dump_seq(),
            final(self).checksums() == old(self).checksums(),
            match old(self).frame() {
                Some(f) => if f.0.frame_seq > last_frame_seq {
                    let p = present_of(bumped_u64(old(self).present_seq()), f.0);
                    &&& r == Some((f.0, f.2, f.3))
                    &&& final(self).present_seq() == p.present_seq
                    &&& final(self).last_present() == Some(p)
                } else {
                    &&& r is None
                    &&& final(self).present_seq() == old(self).present_seq()
                    &&& final(self).last_present() == old(self).last_present()
                },
                None => {
                    &&& r is None
                    &&& final(self).present_seq() == old(self).present_seq()
                    &&& final(self).last_present() == old(self).last_present()
                },
            },
    {
        let (info, ox, oy) = match &self.last_render_frame {
            Some(f) => (f.info, f.origin_x, f.origin_y),
            None => return None,
        };
        if info.frame_seq <= last_frame_seq {
            return None;
        }
        let _ = self.render_present();
        Some((info, ox, oy))
    }

    /// The description of the stored frame if it is newer than
    /// `last_frame_seq`.
    pub fn frame_after(&self, last_frame_seq: u64) -> (r: Option<RenderFrameInfo>)
        ensures
            match self.frame() {
                Some(f) => if f.0.frame_seq > last_frame_seq {
                    r == Some(f.0)
                } else {
                    r is None
                },
                None => r is None,
            },
    {
        match &self.last_render_frame {
            Some(f) => if f.info.frame_seq > last_frame_seq {
                Some(f.info)
            } else {
                None
            },
            None => None,
        }
    }

    /// Takes the next dump number for the stored frame and gives it with
    /// the frame's description; with no stored frame it is out of range and
    /// changes nothing.
    pub fn next_dump(&mut self) -> (r: Result<(u64, RenderFrameInfo), Status>)
        requires
            old(self).wf(),
        ensures
            final(self).wf(),
            final(self).stats() == old(self).stats(),
            final(self).frame_seq() == old(self).frame_seq(),
            final(self).frame() == old(self).frame(),
            final(self).present_seq() == old(self).present_seq(),
            final(self).last_present() == old(self).last_present(),
            final(self).checksums() == old(self).checksums(),
            match old(self).frame() {
                None => r == Err::<(u64, RenderFrameInfo), Status>(Status::OutOfRange)
                    && final(self).dump_seq() == old(self).dump_seq(),
                Some(f) => r == Ok::<(u64, RenderFrameInfo), Status>(
                    (bumped_u64(old(self).dump_seq()), f.0),
                ) && final(self).dump_seq() == bumped_u64(old(self).dump_seq()),
            },
    {
        let info = match &self.last_render_frame {
            Some(f) => f.info,
            None => return Err(Status::OutOfRange),
        };
        self.dump_seq = self.dump_seq.saturating_add(1);
        Ok((self.dump_seq, info))
    }
}


// ---------------------------------------------------------------------------
// The checksum switch and the PPM dump of the stored frame.

/// Whether frame checksums are kept, given the switch's text (`None`: no
/// switch): they are, unless the text, trimmed and in any ASCII case, is
/// `0`, `false`, `off` or `no`.
pub open spec fn checksum_switch_on(raw: Option<Seq<char>>) -> bool {
    match raw {
        None => true,
        Some(t) => {
            let w = lower_seq(trim(t));
            !(w == "0"@ || w == "false"@ || w == "off"@ || w == "no"@)
        },
    }
}

/// Whether frame checksums are kept, as `checksum_switch_on` says.
pub fn checksum_enabled_from(raw: Option<&str>) -> (r: bool)
    ensures
        r == checksum_switch_on(
            match raw {
                Some(t) => Some(t@),
                None => None,
            },
        ),
{
    match raw {
        None => true,
        Some(t) => {
            let w = lower_chars(&trim_chars(&chars_of(t)));
            !(chars_eq(&w, "0") || chars_eq(&w, "false") || chars_eq(&w, "off") || chars_eq(&w, "no"))
        },
    }
}

/// The bytes of ASCII text.
pub open spec fn ascii_bytes(s: Seq<char>) -> Seq<u8> {
    s.map_values(|c: char| (c as u32) as u8)
}

/// The red, green and blue bytes of the first `n` pixels of `rgba`.
pub open spec fn rgb_of(rgba: Seq<u8>, n: nat) -> Seq<u8>
    decreases n,
{
    if n == 0 {
        Seq::empty()
    } else {
        let k = 4 * (n - 1);
        rgb_of(rgba, (n - 1) as nat) + seq![rgba[k], rgba[k + 1], rgba[k + 2]]
    }
}

/// A binary PPM image of a `w` by `h` frame: the `P6` header, then the
/// red, green and blue bytes of each pixel, the alpha byte dropped.
pub open spec fn ppm_bytes(w: u32, h: u32, rgba: Seq<u8>) -> Seq<u8> {
    ascii_bytes("P6\n"@ + decimal_text(w as nat) + " "@ + decimal_text(h as nat) + "\n255\n"@) + rgb_of(
        rgba,
        (w * h) as nat,
    )
}

/// `n` in decimal, with zeros in front up to eight digits.
pub open spec fn eight_digits(n: nat) -> Seq<char> {
    let d = decimal_text(n);
    if d.len() >= 8 {
        d
    } else {
        Seq::new((8 - d.len()) as nat, |i: int| '0') + d
    }
}

/// The file name of dump `dump_seq` of frame `frame_seq`.
pub open spec fn dump_file_name(dump_seq: u64, frame_seq: u64) -> Seq<char> {
    "frame_dump_"@ + eight_digits(dump_seq as nat) + "_frame_"@ + eight_digits(frame_seq as nat) + ".ppm"@
}

fn push_eight_digits(out: &mut Vec<char>, n: u64)
    ensures
        final(out)@ == old(out)@ + eight_digits(n as nat),
{
    let mut d: Vec<char> = Vec::new();
    push_decimal(&mut d, n);
    assert(d@ =~= decimal_text(n as nat));
    let ghost start = out@;
    let pad: usize = if d.len() < 8 {
        8 - d.len()
    } else {
        0
    };
    let mut z: usize = 0;
    while z < pad
        invariant
            z <= pad,
            out@ == start + Seq::new(z as nat, |i: int| '0'),
        decreases pad - z,
    {
        out.push('0');
        z += 1;
        assert(out@ =~= start + Seq::new(z as nat, |i: int| '0'));
    }
    let ghost mid = out@;
    let mut i: usize = 0;
    while i < d.len()
        invariant
            i <= d@.len(),
            out@ == mid + d@.take(i as int),
        decreases d@.len() - i,
    {
        out.push(d[i]);
        i += 1;
        assert(out@ =~= mid + d@.take(i as int));
    }
    assert(d@.take(d@.len() as int) =~= d@);
    assert(out@ =~= old(out)@ + eight_digits(n as nat));
}

fn push_ascii(out: &mut Vec<u8>, text: &Vec<char>)
    ensures
        final(out)@ == old(out)@ + ascii_bytes(text@),
{
    let mut i: usize = 0;
    while i < text.len()
        invariant
            i <= text@.len(),
            out@ == old(out)@ + ascii_bytes(text@.take(i as int)),
        decreases text@.len() - i,
    {
        out.push((text[i] as u32) as u8);
        i += 1;
        assert(ascii_bytes(text@.take(i as int)) =~= ascii_bytes(text@.take(i - 1)).push((text@[i - 1] as u32) as u8));
        assert(out@ =~= old(out)@ + ascii_bytes(text@.take(i as int)));
    }
    assert(text@.take(text@.len() as int) =~= text@);
}

/// The PPM image of a `w` by `h` frame of `rgba` bytes, as `ppm_bytes`
/// says.
pub fn ppm_image(w: u32, h: u32, rgba: &Vec<u8>) -> (r: Vec<u8>)
    requires
        rgba@.len() == (w * h) * 4,
    ensures
        r@ == ppm_bytes(w, h, rgba@),
{
    let mut head: Vec<char> = Vec::new();
    push_str(&mut head, "P6\n");
    push_decimal(&mut head, w as u64);
    push_str(&mut head, " ");
    push_decimal(&mut head, h as u64);
    push_str(&mut head, "\n255\n");
    let mut out: Vec<u8> = Vec::new();
    push_ascii(&mut out, &head);
    let ghost hb = out@;
    let mut k: usize = 0;
    let ghost mut p: nat = 0;
    while k < rgba.len()
        invariant
            rgba@.len() == (w * h) * 4,
            k == 4 * p,
            k <= rgba@.len(),
            out@ == hb + rgb_of(rgba@, p),
        decreases rgba@.len() - k,
    {
        out.push(rgba[k]);
        out.push(rgba[k + 1]);
        out.push(rgba[k + 2]);
        proof {
            p = p + 1;
            assert(out@ =~= hb + rgb_of(rgba@, p));
        }
        k += 4;
    }
    assert(p == w * h);
    assert(head@ =~= "P6\n"@ + decimal_text(w as nat) + " "@ + decimal_text(h as nat) + "\n255\n"@);
    out
}

impl RenderState {
    /// Takes the next dump of the stored frame: its number counts one more
    /// dump; gives the dump's file name and the frame as a PPM image. With
    /// no stored frame it is out of range and nothing changes.
    pub fn render_dump_ppm(&mut self) -> (r: Result<(String, Vec<u8>), Status>)
        requires
            old(self).wf(),
        ensures
            final(self).wf(),
            final(self).stats() == old(self).stats(),
            final(self).frame_seq() == old(self).frame_seq(),
            final(self).frame() == old(self).frame(),
            final(self).present_seq() == old(self).present_seq(),
            final(self).last_present() == old(self).last_present(),
            final(self).checksums() == old(self).checksums(),
            match old(self).frame() {
                None => r == Err::<(String, Vec<u8>), Status>(Status::OutOfRange) && final(self).dump_seq()
                    == old(self).dump_seq(),
                Some(f) => {
                    let n = bumped_u64(old(self).dump_seq());
                    &&& final(self).dump_seq() == n
                    &&& r matches Ok((name, bytes)) && name@ == dump_file_name(n, f.0.frame_seq) && bytes@ == ppm_bytes(
                        f.0.width,
                        f.0.height,
                        f.1,
                    )
                },
            },
    {
        let (n, info) = match self.next_dump() {
            Err(s) => return Err(s),
            Ok(v) => v,
        };
        let pixels = match self.render_frame_pixels() {
            Some(p) => p,
            None => return Err(Status::OutOfRange),
        };
        proof {
            self.lemma_frame_size();
        }
        let bytes = ppm_image(info.width, info.height, pixels);
        let mut name: Vec<char> = Vec::new();
        push_str(&mut name, "frame_dump_");
        push_eight_digits(&mut name, n);
        push_str(&mut name, "_frame_");
        push_eight_digits(&mut name, info.frame_seq);
        push_str(&mut name, ".ppm");
        assert(name@ =~= dump_file_name(n, info.frame_seq));
        Ok((string_from_chars(&name), bytes))
    }

    /// A stored frame holds four bytes for each of its pixels.
    pub proof fn lemma_frame_size(&self)
        requires
            self.wf(),
        ensures
            self.frame() matches Some(f) ==> f.1.len() == (f.0.width * f.0.height) * 4,
    {
    }
}

} // verus!
