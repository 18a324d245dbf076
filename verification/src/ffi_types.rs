use vstd::prelude::*;
use crate::api::{RenderFrameInfo, RenderStats, RouteResult, Status, decision_code, RENDER_MAX_FRAME_BYTES};
use crate::frames::{RenderFrameChunk, RenderPresentInfo};

verus! {

/// A route answer as the C interface carries it: the decision's number and
/// the region.
#[derive(Debug, Clone, Copy, PartialEq, Eq, Structural)]
pub struct DsapiRouteResult {
    pub decision: i32,
    pub region_id: i32,
}

/// Render statistics as the C interface carries them.
#[derive(Debug, Clone, Copy, PartialEq, Eq, Structural)]
pub struct DsapiRenderStats {
    pub frame_seq: u64,
    pub draw_calls: u32,
    pub frost_passes: u32,
    pub text_calls: u32,
}

/// A stored frame's description as the C interface carries it.
#[derive(Debug, Clone, Copy, PartialEq, Eq, Structural)]
pub struct DsapiRenderFrameInfo {
    pub frame_seq: u64,
    pub width: u32,
    pub height: u32,
    pub byte_len: u32,
    pub checksum_fnv1a32: u32,
}

/// A presentation's description as the C interface carries it.
#[derive(Debug, Clone, Copy, PartialEq, Eq, Structural)]
pub struct DsapiRenderPresentInfo {
    pub present_seq: u64,
    pub frame_seq: u64,
    pub width: u32,
    pub height: u32,
    pub byte_len: u32,
    pub checksum_fnv1a32: u32,
}

/// A piece of the stored frame as the C interface describes it; the bytes
/// themselves go to a buffer of the caller.
#[derive(Debug, Clone, Copy, PartialEq, Eq, Structural)]
pub struct DsapiRenderFrameChunk {
    pub frame_seq: u64,
    pub total_bytes: u32,
    pub offset: u32,
    pub chunk_len: u32,
}

/// A hardware buffer as the C interface describes it.
#[derive(Debug, Clone, Copy, PartialEq, Eq, Structural)]
pub struct DsapiHwBufferDesc {
    pub width: u32,
    pub height: u32,
    pub stride: u32,
    pub format: u32,
    pub usage: u64,
    pub byte_offset: u32,
    pub byte_len: u32,
}

impl DsapiRouteResult {
    /// The C form of a route answer.
    pub fn from_route(v: RouteResult) -> (r: Self)
        ensures
            r.decision == decision_code(v.decision),
            r.region_id == v.region_id,
    {
        DsapiRouteResult { decision: v.decision.code(), region_id: v.region_id }
    }
}

impl DsapiRenderStats {
    /// The C form of render statistics.
    pub fn from_stats(v: RenderStats) -> (r: Self)
        ensures
            r.frame_seq == v.frame_seq,
            r.draw_calls == v.draw_calls,
            r.frost_passes == v.frost_passes,
            r.text_calls == v.text_calls,
    {
        DsapiRenderStats {
            frame_seq: v.frame_seq,
            draw_calls: v.draw_calls,
            frost_passes: v.frost_passes,
            text_calls: v.text_calls,
        }
    }
}

impl DsapiRenderFrameInfo {
    /// The C form of a frame's description.
    pub fn from_info(v: RenderFrameInfo) -> (r: Self)
        ensures
            r.frame_seq == v.frame_seq,
            r.width == v.width,
            r.height == v.height,
            r.byte_len == v.byte_len,
            r.checksum_fnv1a32 == v.checksum_fnv1a32,
    {
        DsapiRenderFrameInfo {
            frame_seq: v.frame_seq,
            width: v.width,
            height: v.height,
            byte_len: v.byte_len,
            checksum_fnv1a32: v.checksum_fnv1a32,
        }
    }
}

impl DsapiRenderPresentInfo {
    /// The C form of a presentation's description.
    pub fn from_present(v: RenderPresentInfo) -> (r: Self)
        ensures
            r.present_seq == v.present_seq,
            r.frame_seq == v.frame_seq,
            r.width == v.width,
            r.height == v.height,
            r.byte_len == v.byte_len,
            r.checksum_fnv1a32 == v.checksum_fnv1a32,
    {
        DsapiRenderPresentInfo {
            present_seq: v.present_seq,
            frame_seq: v.frame_seq,
            width: v.width,
            height: v.height,
            byte_len: v.byte_len,
            checksum_fnv1a32: v.checksum_fnv1a32,
        }
    }
}

impl DsapiRenderFrameChunk {
    /// The C description of a chunk that fits in a buffer of `capacity`
    /// bytes; a larger chunk is out of range.
    pub fn from_chunk(chunk: &RenderFrameChunk, capacity: usize) -> (r: Result<Self, Status>)
        ensures
            chunk.chunk_bytes@.len() > capacity ==> r == Err::<Self, Status>(Status::OutOfRange),
            chunk.chunk_bytes@.len() <= capacity ==> r == Ok::<Self, Status>(
                DsapiRenderFrameChunk {
                    frame_seq: chunk.frame_seq,
                    total_bytes: chunk.total_bytes,
                    offset: chunk.offset,
                    chunk_len: chunk.chunk_bytes@.len() as u32,
                },
            ),
    {
        if chunk.chunk_bytes.len() > capacity {
            return Err(Status::OutOfRange);
        }
        Ok(
            DsapiRenderFrameChunk {
                frame_seq: chunk.frame_seq,
                total_bytes: chunk.total_bytes,
                offset: chunk.offset,
                chunk_len: chunk.chunk_bytes.len() as u32,
            },
        )
    }
}

/// Filtering done on the CPU.
pub const FILTER_BACKEND_CPU: u32 = 0;

/// Filtering done by the Vulkan backend.
pub const FILTER_BACKEND_VULKAN: u32 = 1;

/// Which backend filters frames, and whether it runs on the GPU.
#[derive(Debug, Clone, Copy, PartialEq, Eq, Structural)]
pub struct FilterRuntimeInfo {
    pub backend_kind: u32,
    pub gpu_active: bool,
}

/// The filter backend's description: with a Vulkan backend (`Some`, with
/// whether its GPU path is active) it is Vulkan, else the CPU.
pub fn filter_runtime_info(vulkan_gpu_active: Option<bool>) -> (r: FilterRuntimeInfo)
    ensures
        match vulkan_gpu_active {
            Some(g) => r == (FilterRuntimeInfo { backend_kind: FILTER_BACKEND_VULKAN, gpu_active: g }),
            None => r == (FilterRuntimeInfo { backend_kind: FILTER_BACKEND_CPU, gpu_active: false }),
        },
{
    match vulkan_gpu_active {
        Some(g) => FilterRuntimeInfo { backend_kind: FILTER_BACKEND_VULKAN, gpu_active: g },
        None => FilterRuntimeInfo { backend_kind: FILTER_BACKEND_CPU, gpu_active: false },
    }
}

/// Something that wants to hear where touches were routed.
pub trait InputBackend {
    /// Hears a route answer; by default nothing is done.
    fn on_route_result(&mut self, result: RouteResult) -> (r: Result<(), Status>)
        default_ensures
            r == Ok::<(), Status>(()),
    {
        Ok(())
    }
}

/// The only pixel format a hardware buffer may have: RGBA, eight bits each.
pub const HW_BUFFER_FORMAT_RGBA8888: u32 = 1;

/// Where a frame lies in a hardware buffer of descriptor `fd`, or why it is
/// refused: a negative descriptor, a zero width, height or stride, or
/// another format is an invalid argument; a mapping of no bytes or of more
/// than `RENDER_MAX_FRAME_BYTES` is out of range; an offset at or past the
/// mapping's end is an invalid argument; a frame (width × height × 4 bytes
/// from the offset) whose end does not fit in a `usize` is out of range,
/// and one that runs past the mapping is an invalid argument. What passes
/// gives the mapping's length, the frame's offset and its byte count.
pub open spec fn hw_frame_window(fd: i32, d: DsapiHwBufferDesc) -> Result<(nat, nat, nat), Status> {
    let frame = d.width * d.height * 4;
    if fd < 0 {
        Err(Status::InvalidArgument)
    } else if d.width == 0 || d.height == 0 || d.stride == 0 {
        Err(Status::InvalidArgument)
    } else if d.format != HW_BUFFER_FORMAT_RGBA8888 {
        Err(Status::InvalidArgument)
    } else if d.byte_len == 0 || d.byte_len > RENDER_MAX_FRAME_BYTES {
        Err(Status::OutOfRange)
    } else if d.byte_offset >= d.byte_len {
        Err(Status::InvalidArgument)
    } else if frame > usize::MAX || d.byte_offset + frame > usize::MAX {
        Err(Status::OutOfRange)
    } else if d.byte_offset + frame > d.byte_len {
        Err(Status::InvalidArgument)
    } else {
        Ok((d.byte_len as nat, d.byte_offset as nat, frame as nat))
    }
}

impl DsapiHwBufferDesc {
    /// Checks a hardware buffer handed in with descriptor `fd`, as
    /// `hw_frame_window` says.
    pub fn frame_window(&self, fd: i32) -> (r: Result<(usize, usize, usize), Status>)
        ensures
            match hw_frame_window(fd, *self) {
                Err(s) => r == Err::<(usize, usize, usize), Status>(s),
                Ok((m, o, n)) => r matches Ok((rm, ro, rn)) && rm == m && ro == o && rn == n,
            },
    {
        if fd < 0 {
            return Err(Status::InvalidArgument);
        }
        if self.width == 0 || self.height == 0 || self.stride == 0 {
            return Err(Status::InvalidArgument);
        }
        if self.format != HW_BUFFER_FORMAT_RGBA8888 {
            return Err(Status::InvalidArgument);
        }
        if self.byte_len == 0 || self.byte_len as usize > RENDER_MAX_FRAME_BYTES {
            return Err(Status::OutOfRange);
        }
        let map_len = self.byte_len as usize;
        let offset = self.byte_offset as usize;
        if offset >= map_len {
            return Err(Status::InvalidArgument);
        }
        let w = self.width as usize;
        let h = self.height as usize;
        let wh = match w.checked_mul(h) {
            Some(v) => v,
            None => return Err(Status::OutOfRange),
        };
        let frame = match wh.checked_mul(4) {
            Some(v) => v,
            None => {
                assert(self.width * self.height * 4 > usize::MAX);
                return Err(Status::OutOfRange);
            },
        };
        let end = match offset.checked_add(frame) {
            Some(v) => v,
            None => return Err(Status::OutOfRange),
        };
        if end > map_len {
            return Err(Status::InvalidArgument);
        }
        Ok((map_len, offset, frame))
    }
}

} // verus!
