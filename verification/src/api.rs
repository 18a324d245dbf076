use vstd::prelude::*;

verus! {

/// Result code shared by the C ABI, the binary protocol and the engine.
#[derive(Clone, Copy, Debug, PartialEq, Eq, Structural)]
pub enum Status {
    Success,
    NullPointer,
    InvalidArgument,
    OutOfRange,
    InternalError,
}

/// The wire number of each status.
pub open spec fn status_code(s: Status) -> i32 {
    match s {
        Status::Success => 0,
        Status::NullPointer => 1,
        Status::InvalidArgument => 2,
        Status::OutOfRange => 3,
        Status::InternalError => 4,
    }
}

/// The name of each status on the text control plane.
pub open spec fn status_name(s: Status) -> Seq<char> {
    match s {
        Status::Success => "OK"@,
        Status::NullPointer => "NULL_POINTER"@,
        Status::InvalidArgument => "INVALID_ARGUMENT"@,
        Status::OutOfRange => "OUT_OF_RANGE"@,
        Status::InternalError => "INTERNAL_ERROR"@,
    }
}

impl Status {
    /// The wire number of this status.
    pub fn code(self) -> (r: i32)
        ensures
            r == status_code(self),
    {
        match self {
            Status::Success => 0,
            Status::NullPointer => 1,
            Status::InvalidArgument => 2,
            Status::OutOfRange => 3,
            Status::InternalError => 4,
        }
    }

    /// The name of this status on the text control plane.
    pub fn as_str(self) -> (r: &'static str)
        ensures
            r@ == status_name(self),
    {
        match self {
            Status::Success => "OK",
            Status::NullPointer => "NULL_POINTER",
            Status::InvalidArgument => "INVALID_ARGUMENT",
            Status::OutOfRange => "OUT_OF_RANGE",
            Status::InternalError => "INTERNAL_ERROR",
        }
    }

    /// Decodes a wire number; unknown numbers give `None`.
    pub fn from_i32(v: i32) -> (r: Option<Status>)
        ensures
            r matches Some(s) ==> status_code(s) == v,
            r is None <==> !(0 <= v <= 4),
    {
        match v {
            0 => Some(Status::Success),
            1 => Some(Status::NullPointer),
            2 => Some(Status::InvalidArgument),
            3 => Some(Status::OutOfRange),
            4 => Some(Status::InternalError),
            _ => None,
        }
    }
}


/// The version of the C interface a caller must ask for.
pub const DSAPI_ABI_VERSION: u32 = 1;

/// Most touch points tracked at once.
pub const TOUCH_MAX_POINTERS: usize = 16;

/// Largest RGBA frame the engine stores, in bytes.
pub const RENDER_MAX_FRAME_BYTES: usize = 67108864;

/// Largest chunk of a frame handed out by one read, in bytes.
pub const RENDER_MAX_CHUNK_BYTES: usize = 1048576;

/// Counters of the last render submission.
#[derive(Clone, Copy, Debug, PartialEq, Eq, Default, Structural)]
pub struct RenderStats {
    pub frame_seq: u64,
    pub draw_calls: u32,
    pub frost_passes: u32,
    pub text_calls: u32,
}

/// Description of the stored RGBA frame.
#[derive(Clone, Copy, Debug, PartialEq, Eq, Default, Structural)]
pub struct RenderFrameInfo {
    pub frame_seq: u64,
    pub width: u32,
    pub height: u32,
    pub byte_len: u32,
    pub checksum_fnv1a32: u32,
}

/// What happens to a touch: handed to the system or kept by the overlay.
#[derive(Clone, Copy, Debug, PartialEq, Eq, Structural)]
pub enum Decision {
    Pass,
    Block,
}

/// The wire number of each decision.
pub open spec fn decision_code(d: Decision) -> i32 {
    match d {
        Decision::Pass => 0,
        Decision::Block => 1,
    }
}

impl Decision {
    /// Decodes a wire number; unknown numbers give `None`.
    pub fn from_i32(v: i32) -> (r: Option<Decision>)
        ensures
            r matches Some(d) ==> decision_code(d) == v,
            r is None <==> !(0 <= v <= 1),
    {
        match v {
            0 => Some(Decision::Pass),
            1 => Some(Decision::Block),
            _ => None,
        }
    }

    /// The wire number of this decision.
    pub fn code(self) -> (r: i32)
        ensures
            r == decision_code(self),
    {
        match self {
            Decision::Pass => 0,
            Decision::Block => 1,
        }
    }
}

/// The decision for a point and the region that made it (`-1` for none).
#[derive(Clone, Copy, Debug, PartialEq, Eq, Structural)]
pub struct RouteResult {
    pub decision: Decision,
    pub region_id: i32,
}

impl RouteResult {
    /// The answer when no region claims a point: pass, region `-1`.
    pub fn passthrough() -> (r: Self)
        ensures
            r.decision == Decision::Pass,
            r.region_id == -1,
    {
        RouteResult { decision: Decision::Pass, region_id: -1 }
    }
}

} // verus!
