use vstd::prelude::*;
use std::collections::HashMap;
use crate::api::{Decision, RouteResult, Status, TOUCH_MAX_POINTERS};
use crate::frames::RenderState;
use crate::keyboard::KeyboardState;
use crate::module_registry::{
    ModuleErrorRecord, ModuleRecord, ModuleRegistry, ModuleRegistryError, ModuleReloadAllResult,
    ModuleState, sanitized_id, upserted, bumped, reloadable, reloaded, all_reloaded, count_reloadable,
    min_u32,
};

verus! {

broadcast use vstd::std_specs::hash::group_hash_axioms;

/// An IEEE-754 `f32`, given by its bits, is neither infinite nor NaN: its
/// exponent field is not all ones.
pub open spec fn f32_bits_finite(bits: u32) -> bool {
    (bits >> 23u32) & 0xffu32 != 0xffu32
}

/// An IEEE-754 `f32`, given by its bits, is finite and greater than zero:
/// the sign is clear, the exponent is not all ones and the value is not
/// zero.
pub open spec fn f32_bits_positive_finite(bits: u32) -> bool {
    0 < bits <= 0x7f7f_ffff
}

/// Tells whether the `f32` with these bits is finite.
pub fn f32_is_finite(bits: u32) -> (r: bool)
    ensures
        r == f32_bits_finite(bits),
{
    (bits >> 23u32) & 0xffu32 != 0xffu32
}

/// Display parameters; the refresh rate is the bit pattern of an `f32`.
#[derive(Clone, Copy, Debug, PartialEq, Eq, Structural)]
pub struct DisplayState {
    pub width: u32,
    pub height: u32,
    pub refresh_hz: u32,
    pub density_dpi: u32,
    pub rotation: u32,
}

/// Why a display state is refused, if it is: a zero size is an invalid
/// argument; a refresh rate that is not a positive finite number, a zero
/// density or a rotation above 3 is out of range.
pub open spec fn display_failure(d: DisplayState) -> Option<Status> {
    if d.width == 0 || d.height == 0 {
        Some(Status::InvalidArgument)
    } else if !f32_bits_positive_finite(d.refresh_hz) {
        Some(Status::OutOfRange)
    } else if d.density_dpi == 0 {
        Some(Status::OutOfRange)
    } else if d.rotation > 3 {
        Some(Status::OutOfRange)
    } else {
        None
    }
}

/// The bits of the `f32` 60.0.
pub const REFRESH_60_HZ_BITS: u32 = 0x4270_0000;

impl DisplayState {
    /// A 1080x2400 portrait display at 60 Hz and 420 dpi.
    pub fn default_state() -> (r: Self)
        ensures
            r.width == 1080 && r.height == 2400 && r.refresh_hz == REFRESH_60_HZ_BITS
                && r.density_dpi == 420 && r.rotation == 0,
    {
        DisplayState {
            width: 1080,
            height: 2400,
            refresh_hz: REFRESH_60_HZ_BITS,
            density_dpi: 420,
            rotation: 0,
        }
    }

    /// Checks the parameters, as `display_failure` says.
    pub fn validate(&self) -> (r: Result<(), Status>)
        ensures
            match display_failure(*self) {
                Some(s) => r == Err::<(), Status>(s),
                None => r is Ok,
            },
    {
        if self.width == 0 || self.height == 0 {
            return Err(Status::InvalidArgument);
        }
        if self.refresh_hz == 0 || self.refresh_hz > 0x7f7f_ffff {
            return Err(Status::OutOfRange);
        }
        if self.density_dpi == 0 {
            return Err(Status::OutOfRange);
        }
        if self.rotation > 3 {
            return Err(Status::OutOfRange);
        }
        Ok(())
    }
}

impl DisplayState {
    /// The parameters `default_state` gives.
    pub open spec fn default_state_spec() -> DisplayState {
        DisplayState {
            width: 1080,
            height: 2400,
            refresh_hz: REFRESH_60_HZ_BITS,
            density_dpi: 420,
            rotation: 0,
        }
    }
}

impl Default for DisplayState {
    fn default() -> (r: Self)
        ensures
            r.width == 1080 && r.height == 2400 && r.refresh_hz == REFRESH_60_HZ_BITS
                && r.density_dpi == 420 && r.rotation == 0,
    {
        DisplayState::default_state()
    }
}

/// A rectangle that claims the touches inside it; the geometry is the bit
/// patterns of `f32` values.
#[derive(Clone, Copy, Debug, PartialEq, Eq, Structural)]
pub struct RectRegion {
    pub region_id: i32,
    pub decision: Decision,
    pub x: u32,
    pub y: u32,
    pub w: u32,
    pub h: u32,
}

/// Why a region is refused, if it is: a coordinate that is not finite is an
/// invalid argument; a width or height that is not above zero is out of
/// range.
pub open spec fn region_failure(r: RectRegion) -> Option<Status> {
    if !f32_bits_finite(r.x) || !f32_bits_finite(r.y) || !f32_bits_finite(r.w) || !f32_bits_finite(
        r.h,
    ) {
        Some(Status::InvalidArgument)
    } else if !f32_bits_positive_finite(r.w) || !f32_bits_positive_finite(r.h) {
        Some(Status::OutOfRange)
    } else {
        None
    }
}

impl RectRegion {
    /// Checks the geometry, as `region_failure` says.
    pub fn validate(&self) -> (r: Result<(), Status>)
        ensures
            match region_failure(*self) {
                Some(s) => r == Err::<(), Status>(s),
                None => r is Ok,
            },
    {
        if !f32_is_finite(self.x) || !f32_is_finite(self.y) || !f32_is_finite(self.w)
            || !f32_is_finite(self.h) {
            return Err(Status::InvalidArgument);
        }
        if self.w == 0 || self.w > 0x7f7f_ffff || self.h == 0 || self.h > 0x7f7f_ffff {
            return Err(Status::OutOfRange);
        }
        Ok(())
    }
}

/// One touch point; the position is the bit patterns of `f32` values.
#[derive(Clone, Copy, Debug, PartialEq, Eq, Structural)]
pub struct TouchEvent {
    pub pointer_id: i32,
    pub x: u32,
    pub y: u32,
}

/// Why a touch point is refused, if it is: a negative pointer is out of
/// range, a position that is not finite is an invalid argument.
pub open spec fn touch_failure(e: TouchEvent) -> Option<Status> {
    if e.pointer_id < 0 {
        Some(Status::OutOfRange)
    } else if !f32_bits_finite(e.x) || !f32_bits_finite(e.y) {
        Some(Status::InvalidArgument)
    } else {
        None
    }
}

impl TouchEvent {
    /// Checks the point, as `touch_failure` says.
    pub fn validate(&self) -> (r: Result<(), Status>)
        ensures
            match touch_failure(*self) {
                Some(s) => r == Err::<(), Status>(s),
                None => r is Ok,
            },
    {
        if self.pointer_id < 0 {
            return Err(Status::OutOfRange);
        }
        if !f32_is_finite(self.x) || !f32_is_finite(self.y) {
            return Err(Status::InvalidArgument);
        }
        Ok(())
    }
}

/// The route a point gets from the regions, given which of them contain it
/// (`hits[i]` for `regions[i]`): the last added region that contains it, or
/// the default decision with region `-1`.
pub open spec fn route_of(default: Decision, regions: Seq<RectRegion>, hits: Seq<bool>) -> RouteResult
    decreases regions.len(),
{
    if regions.len() == 0 {
        RouteResult { decision: default, region_id: -1i32 }
    } else if hits[regions.len() - 1] {
        RouteResult { decision: regions.last().decision, region_id: regions.last().region_id }
    } else {
        route_of(default, regions.drop_last(), hits)
    }
}

/// A region that contains the point wins over every region added before
/// it: when region `i` contains the point and no later one does, the point
/// gets region `i`'s decision and id.
pub proof fn lemma_route_last_added_wins(
    default: Decision,
    regions: Seq<RectRegion>,
    hits: Seq<bool>,
    i: int,
)
    requires
        0 <= i < regions.len(),
        regions.len() <= hits.len(),
        hits[i],
        forall|j: int| i < j < regions.len() ==> !hits[j],
    ensures
        route_of(default, regions, hits) == (RouteResult {
            decision: regions[i].decision,
            region_id: regions[i].region_id,
        }),
    decreases regions.len(),
{
    if i < regions.len() - 1 {
        lemma_route_last_added_wins(default, regions.drop_last(), hits, i);
    }
}

/// A touch in progress: where it was last seen and the route it got when
/// it went down.
#[derive(Clone, Copy, Debug, PartialEq, Eq, Structural)]
pub struct ActiveTouch {
    pub x: u32,
    pub y: u32,
    pub routed: RouteResult,
}

/// The state of the daemon's engine: the display, the routing regions, the
/// touches in progress, the keyboard events and the render output.
#[derive(Debug)]
pub struct RuntimeEngine {
    display: DisplayState,
    display_signal_seq: u64,
    default_decision: Decision,
    regions: Vec<RectRegion>,
    active_touches: HashMap<i32, ActiveTouch>,
    keyboard: KeyboardState,
    render: RenderState,
    modules: ModuleRegistry,
}

/// What taking the valid display `display` makes of the engine `o`: `n`
/// shows it; the same display changes nothing more (the stored frame and
/// the display counter stay), a new one counts one change and drops the
/// stored frame, the rest of the render state kept.
pub open spec fn display_applied(o: RuntimeEngine, n: RuntimeEngine, display: DisplayState) -> bool {
    &&& n.spec_display() == display
    &&& display == o.spec_display() ==> n.spec_display_seq() == o.spec_display_seq() && n.rs() == o.rs()
    &&& display != o.spec_display() ==> {
        &&& n.spec_display_seq() == crate::frames::bumped_u64(o.spec_display_seq())
        &&& n.rs().frame() is None
        &&& n.rs().stats() == o.rs().stats()
        &&& n.rs().frame_seq() == o.rs().frame_seq()
        &&& n.rs().present_seq() == o.rs().present_seq()
        &&& n.rs().last_present() == o.rs().last_present()
        &&& n.rs().dump_seq() == o.rs().dump_seq()
        &&& n.rs().checksums() == o.rs().checksums()
    }
}

impl RuntimeEngine {
    /// The touches in progress, by pointer.
    pub closed spec fn touches(&self) -> Map<i32, ActiveTouch> {
        self.active_touches@
    }

    /// The routing regions, oldest first.
    pub closed spec fn spec_regions(&self) -> Seq<RectRegion> {
        self.regions@
    }

    /// The decision for points no region claims.
    pub closed spec fn spec_default_decision(&self) -> Decision {
        self.default_decision
    }

    /// The current display parameters.
    pub closed spec fn spec_display(&self) -> DisplayState {
        self.display
    }

    /// How many times the display has changed.
    pub closed spec fn spec_display_seq(&self) -> u64 {
        self.display_signal_seq
    }

    /// The keyboard events.
    pub closed spec fn kb(&self) -> KeyboardState {
        self.keyboard
    }

    /// The render counters, the stored frame and the presents.
    pub closed spec fn rs(&self) -> RenderState {
        self.render
    }

    /// At most sixteen touches, each under a pointer that is not negative.
    pub closed spec fn touches_ok(&self) -> bool {
        &&& self.active_touches@.dom().finite()
        &&& self.active_touches@.len() <= TOUCH_MAX_POINTERS
        &&& forall|p: i32| self.active_touches@.contains_key(p) ==> p >= 0
    }

    /// A well-formed engine holds finitely many touches, at most sixteen,
    /// each under a pointer that is not negative.
    pub proof fn lemma_touches_ok(&self)
        requires
            self.wf(),
        ensures
            self.touches().dom().finite(),
            self.touches().len() <= TOUCH_MAX_POINTERS,
            forall|p: i32| self.touches().contains_key(p) ==> p >= 0,
    {
    }

    /// What every operation keeps: the touches, the keyboard events and
    /// the render state are each well formed.
    pub open spec fn wf(&self) -> bool {
        &&& self.touches_ok()
        &&& self.kb().wf()
        &&& self.rs().wf()
        &&& self.modules().wf()
    }

    /// The registry of modules.
    pub closed spec fn modules(&self) -> ModuleRegistry {
        self.modules
    }

    /// Everything but the module registry is the same in `a` and `b`.
    pub open spec fn same_but_modules(a: &Self, b: &Self) -> bool {
        &&& a.touches() == b.touches()
        &&& a.spec_regions() == b.spec_regions()
        &&& a.spec_default_decision() == b.spec_default_decision()
        &&& a.spec_display() == b.spec_display()
        &&& a.spec_display_seq() == b.spec_display_seq()
        &&& a.kb() == b.kb()
        &&& a.rs() == b.rs()
    }

    /// An engine with the default display, no region, no touch, no
    /// keyboard event and nothing rendered; stored frames carry their
    /// checksum when `checksum_enabled`.
    pub fn new_with_checksum(checksum_enabled: bool) -> (r: Self)
        ensures
            r.wf(),
            r.spec_display() == DisplayState::default_state_spec(),
            r.spec_display_seq() == 0,
            r.spec_default_decision() == Decision::Pass,
            r.spec_regions() == Seq::<RectRegion>::empty(),
            r.touches() == Map::<i32, ActiveTouch>::empty(),
            r.kb().events() == Seq::<crate::keyboard::KeyboardEvent>::empty(),
            r.kb().last_seq() == 0,
            r.rs().frame() is None,
            r.rs().frame_seq() == 0,
            r.rs().stats().frame_seq == 0,
            r.rs().present_seq() == 0,
            r.rs().last_present() is None,
            r.rs().dump_seq() == 0,
            r.rs().checksums() == checksum_enabled,
            r.modules()@ == Map::<Seq<char>, ModuleRecord>::empty(),
            r.modules().entries() == Seq::<ModuleRecord>::empty(),
            r.modules().spec_last_error() is None,
            r.modules().spec_event_seq() == 0,
    {
        RuntimeEngine {
            display: DisplayState::default_state(),
            display_signal_seq: 0,
            default_decision: Decision::Pass,
            regions: Vec::new(),
            active_touches: HashMap::new(),
            keyboard: KeyboardState::new(),
            render: RenderState::new(checksum_enabled),
            modules: ModuleRegistry::new(),
        }
    }

    /// Sets the decision for points no region claims.
    pub fn set_default_decision(&mut self, decision: Decision)
        requires
            old(self).wf(),
        ensures
            final(self).modules() == old(self).modules(),
            final(self).wf(),
            final(self).spec_default_decision() == decision,
            final(self).spec_regions() == old(self).spec_regions(),
            final(self).touches() == old(self).touches(),
            final(self).spec_display() == old(self).spec_display(),
            final(self).spec_display_seq() == old(self).spec_display_seq(),
            final(self).kb() == old(self).kb(),
            final(self).rs() == old(self).rs(),
    {
        self.default_decision = decision;
    }

    /// Drops every region.
    pub fn clear_regions(&mut self)
        requires
            old(self).wf(),
        ensures
            final(self).modules() == old(self).modules(),
            final(self).wf(),
            final(self).spec_regions() == Seq::<RectRegion>::empty(),
            final(self).spec_default_decision() == old(self).spec_default_decision(),
            final(self).touches() == old(self).touches(),
            final(self).spec_display() == old(self).spec_display(),
            final(self).spec_display_seq() == old(self).spec_display_seq(),
            final(self).kb() == old(self).kb(),
            final(self).rs() == old(self).rs(),
    {
        self.regions.clear();
    }

    /// Adds a region on top of the others, once its geometry is valid.
    pub fn add_region_rect(&mut self, region: RectRegion) -> (r: Result<(), Status>)
        requires
            old(self).wf(),
        ensures
            final(self).modules() == old(self).modules(),
            final(self).wf(),
            match region_failure(region) {
                Some(s) => r == Err::<(), Status>(s) && final(self).spec_regions() == old(
                    self,
                ).spec_regions(),
                None => r is Ok && final(self).spec_regions() == old(self).spec_regions().push(
                    region,
                ),
            },
            final(self).spec_default_decision() == old(self).spec_default_decision(),
            final(self).touches() == old(self).touches(),
            final(self).spec_display() == old(self).spec_display(),
            final(self).spec_display_seq() == old(self).spec_display_seq(),
            final(self).kb() == old(self).kb(),
            final(self).rs() == old(self).rs(),
    {
        match region.validate() {
            Ok(()) => {},
            Err(s) => return Err(s),
        }
        self.regions.push(region);
        Ok(())
    }

    /// The regions, oldest first; the caller tells from their geometry
    /// which of them contain a point.
    pub fn regions(&self) -> (r: &Vec<RectRegion>)
        ensures
            r@ == self.spec_regions(),
    {
        &self.regions
    }

    /// The route of a point, given which regions contain it.
    pub fn route_point(&self, hits: &Vec<bool>) -> (r: RouteResult)
        requires
            hits@.len() == self.spec_regions().len(),
        ensures
            r == route_of(self.spec_default_decision(), self.spec_regions(), hits@),
    {
        let mut i: usize = self.regions.len();
        assert(self.regions@.take(i as int) =~= self.regions@);
        while i > 0
            invariant
                i <= self.regions@.len(),
                hits@.len() == self.regions@.len(),
                forall|j: int| i <= j < self.regions@.len() ==> !hits@[j],
                route_of(self.default_decision, self.regions@, hits@) == route_of(
                    self.default_decision,
                    self.regions@.take(i as int),
                    hits@,
                ),
            decreases i,
        {
            let k = i - 1;
            assert(self.regions@.take(i as int).drop_last() =~= self.regions@.take(k as int));
            if hits[k] {
                let reg = self.regions[k];
                return RouteResult { decision: reg.decision, region_id: reg.region_id };
            }
            i = k;
        }
        RouteResult { decision: self.default_decision, region_id: -1 }
    }
}

impl RuntimeEngine {
    /// Starts a touch: the point goes to the route its position gets
    /// (given by `hits`, which regions contain it) and keeps that route until
    /// it ends. A point refused by `touch_failure` gets that status; a
    /// pointer already down is an invalid argument; a seventeenth touch is
    /// out of range.
    pub fn touch_down(&mut self, event: TouchEvent, hits: &Vec<bool>) -> (r: Result<RouteResult, Status>)
        requires
            old(self).wf(),
            hits@.len() == old(self).spec_regions().len(),
        ensures
            final(self).modules() == old(self).modules(),
            final(self).wf(),
            final(self).spec_regions() == old(self).spec_regions(),
            final(self).spec_default_decision() == old(self).spec_default_decision(),
            final(self).spec_display() == old(self).spec_display(),
            final(self).spec_display_seq() == old(self).spec_display_seq(),
            final(self).kb() == old(self).kb(),
            final(self).rs() == old(self).rs(),
            r == touch_down_outcome(
                old(self).touches(),
                route_of(old(self).spec_default_decision(), old(self).spec_regions(), hits@),
                event,
            ),
            final(self).touches() == touches_after_down(
                old(self).touches(),
                route_of(old(self).spec_default_decision(), old(self).spec_regions(), hits@),
                event,
            ),
    {
        match event.validate() {
            Ok(()) => {},
            Err(s) => return Err(s),
        }
        let routed = self.route_point(hits);
        if self.active_touches.contains_key(&event.pointer_id) {
            return Err(Status::InvalidArgument);
        }
        if self.active_touches.len() >= TOUCH_MAX_POINTERS {
            return Err(Status::OutOfRange);
        }
        self.active_touches.insert(event.pointer_id, ActiveTouch { x: event.x, y: event.y, routed });
        proof {
            assert(self.active_touches@.dom() =~= old(self).active_touches@.dom().insert(
                event.pointer_id,
            ));
        }
        Ok(routed)
    }

    /// Moves a touch in progress; it keeps the route it went down with. A
    /// point refused by `touch_failure` gets that status; an unknown pointer
    /// is out of range.
    pub fn touch_move(&mut self, event: TouchEvent) -> (r: Result<RouteResult, Status>)
        requires
            old(self).wf(),
        ensures
            final(self).modules() == old(self).modules(),
            final(self).wf(),
            final(self).spec_regions() == old(self).spec_regions(),
            final(self).spec_default_decision() == old(self).spec_default_decision(),
            final(self).spec_display() == old(self).spec_display(),
            final(self).spec_display_seq() == old(self).spec_display_seq(),
            final(self).kb() == old(self).kb(),
            final(self).rs() == old(self).rs(),
            r == touch_move_outcome(old(self).touches(), event),
            final(self).touches() == touches_after_move(old(self).touches(), event),
    {
        match event.validate() {
            Ok(()) => {},
            Err(s) => return Err(s),
        }
        let routed = match self.active_touches.get(&event.pointer_id) {
            Some(t) => t.routed,
            None => return Err(Status::OutOfRange),
        };
        self.active_touches.insert(event.pointer_id, ActiveTouch { x: event.x, y: event.y, routed });
        proof {
            assert(self.active_touches@.dom() =~= old(self).active_touches@.dom());
        }
        Ok(routed)
    }

    /// Ends a touch and gives the route it had. A point refused by
    /// `touch_failure` gets that status; an unknown pointer is out of range.
    pub fn touch_up(&mut self, event: TouchEvent) -> (r: Result<RouteResult, Status>)
        requires
            old(self).wf(),
        ensures
            final(self).modules() == old(self).modules(),
            final(self).wf(),
            final(self).spec_regions() == old(self).spec_regions(),
            final(self).spec_default_decision() == old(self).spec_default_decision(),
            final(self).spec_display() == old(self).spec_display(),
            final(self).spec_display_seq() == old(self).spec_display_seq(),
            final(self).kb() == old(self).kb(),
            final(self).rs() == old(self).rs(),
            r == touch_up_outcome(old(self).touches(), event),
            final(self).touches() == touches_after_end(old(self).touches(), r, event.pointer_id),
    {
        match event.validate() {
            Ok(()) => {},
            Err(s) => return Err(s),
        }
        self.end_touch(event.pointer_id)
    }

    /// Cancels a touch and gives the route it had; a negative or unknown
    /// pointer is out of range.
    pub fn touch_cancel(&mut self, pointer_id: i32) -> (r: Result<RouteResult, Status>)
        requires
            old(self).wf(),
        ensures
            final(self).modules() == old(self).modules(),
            final(self).wf(),
            final(self).spec_regions() == old(self).spec_regions(),
            final(self).spec_default_decision() == old(self).spec_default_decision(),
            final(self).spec_display() == old(self).spec_display(),
            final(self).spec_display_seq() == old(self).spec_display_seq(),
            final(self).kb() == old(self).kb(),
            final(self).rs() == old(self).rs(),
            r == touch_cancel_outcome(old(self).touches(), pointer_id),
            final(self).touches() == touches_after_end(old(self).touches(), r, pointer_id),
    {
        if pointer_id < 0 {
            return Err(Status::OutOfRange);
        }
        self.end_touch(pointer_id)
    }

    fn end_touch(&mut self, pointer_id: i32) -> (r: Result<RouteResult, Status>)
        requires
            old(self).wf(),
        ensures
            final(self).modules() == old(self).modules(),
            final(self).wf(),
            final(self).spec_regions() == old(self).spec_regions(),
            final(self).spec_default_decision() == old(self).spec_default_decision(),
            final(self).spec_display() == old(self).spec_display(),
            final(self).spec_display_seq() == old(self).spec_display_seq(),
            final(self).kb() == old(self).kb(),
            final(self).rs() == old(self).rs(),
            old(self).touches().contains_key(pointer_id) ==> r == Ok::<RouteResult, Status>(
                old(self).touches()[pointer_id].routed,
            ),
            !old(self).touches().contains_key(pointer_id) ==> r == Err::<RouteResult, Status>(
                Status::OutOfRange,
            ),
            r is Ok ==> final(self).touches() == old(self).touches().remove(pointer_id),
            r is Err ==> final(self).touches() == old(self).touches(),
    {
        match self.active_touches.remove(&pointer_id) {
            Some(t) => {
                proof {
                    assert(self.active_touches@.dom() =~= old(self).active_touches@.dom().remove(
                        pointer_id,
                    ));
                }
                Ok(t.routed)
            },
            None => Err(Status::OutOfRange),
        }
    }

    /// Ends every touch.
    pub fn clear_touches(&mut self)
        requires
            old(self).wf(),
        ensures
            final(self).modules() == old(self).modules(),
            final(self).wf(),
            final(self).touches() == Map::<i32, ActiveTouch>::empty(),
            final(self).spec_regions() == old(self).spec_regions(),
            final(self).spec_default_decision() == old(self).spec_default_decision(),
            final(self).spec_display() == old(self).spec_display(),
            final(self).spec_display_seq() == old(self).spec_display_seq(),
            final(self).kb() == old(self).kb(),
            final(self).rs() == old(self).rs(),
    {
        self.active_touches.clear();
    }

    /// How many touches are in progress.
    pub fn active_touch_count(&self) -> (r: usize)
        requires
            self.wf(),
        ensures
            r == self.touches().len(),
    {
        self.active_touches.len()
    }
}

/// What a touch going down with `e` gives, given the touches in progress
/// and the route its position gets: the route, unless the point is
/// refused, the pointer is already down (invalid argument) or sixteen
/// touches are in progress (out of range).
pub open spec fn touch_down_outcome(t: Map<i32, ActiveTouch>, route: RouteResult, e: TouchEvent) -> Result<RouteResult, Status> {
    match touch_failure(e) {
        Some(s) => Err(s),
        None => if t.contains_key(e.pointer_id) {
            Err(Status::InvalidArgument)
        } else if t.len() >= TOUCH_MAX_POINTERS {
            Err(Status::OutOfRange)
        } else {
            Ok(route)
        },
    }
}

/// The touches in progress after a touch goes down with `e`.
pub open spec fn touches_after_down(t: Map<i32, ActiveTouch>, route: RouteResult, e: TouchEvent) -> Map<i32, ActiveTouch> {
    match touch_down_outcome(t, route, e) {
        Ok(r) => t.insert(e.pointer_id, ActiveTouch { x: e.x, y: e.y, routed: r }),
        Err(_) => t,
    }
}

/// What lifting `e` gives: the route the touch had, unless the point is
/// refused or the pointer is not down (out of range).
pub open spec fn touch_up_outcome(t: Map<i32, ActiveTouch>, e: TouchEvent) -> Result<RouteResult, Status> {
    match touch_failure(e) {
        Some(s) => Err(s),
        None => if t.contains_key(e.pointer_id) {
            Ok(t[e.pointer_id].routed)
        } else {
            Err(Status::OutOfRange)
        },
    }
}

/// What cancelling pointer `p` gives: the route the touch had, unless the
/// pointer is negative or not down (out of range).
pub open spec fn touch_cancel_outcome(t: Map<i32, ActiveTouch>, p: i32) -> Result<RouteResult, Status> {
    if p >= 0 && t.contains_key(p) {
        Ok(t[p].routed)
    } else {
        Err(Status::OutOfRange)
    }
}

/// The touches in progress after pointer `p` ended with outcome `r`.
pub open spec fn touches_after_end(t: Map<i32, ActiveTouch>, r: Result<RouteResult, Status>, p: i32) -> Map<i32, ActiveTouch> {
    match r {
        Ok(_) => t.remove(p),
        Err(_) => t,
    }
}

/// What a move of `e` gives, given the touches in progress.
pub open spec fn touch_move_outcome(t: Map<i32, ActiveTouch>, e: TouchEvent) -> Result<RouteResult, Status> {
    match touch_failure(e) {
        Some(s) => Err(s),
        None => if t.contains_key(e.pointer_id) {
            Ok(t[e.pointer_id].routed)
        } else {
            Err(Status::OutOfRange)
        },
    }
}

/// The touches in progress after a move of `e`.
pub open spec fn touches_after_move(t: Map<i32, ActiveTouch>, e: TouchEvent) -> Map<i32, ActiveTouch> {
    match touch_move_outcome(t, e) {
        Ok(r) => t.insert(e.pointer_id, ActiveTouch { x: e.x, y: e.y, routed: r }),
        Err(_) => t,
    }
}

/// A touch keeps the route it went down with until it ends: once pointer
/// `p` is down with route `r`, every valid move of `p` gives `r` and leaves
/// `p` down with `r`, and a move of another pointer leaves `p` as it was.
pub proof fn lemma_touch_route_locked(t: Map<i32, ActiveTouch>, p: i32, r: RouteResult, e: TouchEvent)
    requires
        t.contains_key(p),
        t[p].routed == r,
    ensures
        e.pointer_id == p && touch_failure(e) is None ==> touch_move_outcome(t, e) == Ok::<
            RouteResult,
            Status,
        >(r),
        touches_after_move(t, e).contains_key(p),
        touches_after_move(t, e)[p].routed == r,
{
}

/// A call of the engine as the touches in progress see it.
pub enum TouchCall {
    /// `touch_down` of the event, whose position gets the route.
    Down(RouteResult, TouchEvent),
    /// `touch_move` of the event.
    Move(TouchEvent),
    /// `touch_up` of the event.
    Up(TouchEvent),
    /// `touch_cancel` of the pointer.
    Cancel(i32),
    /// `clear_touches`.
    Clear,
    /// Any other call: regions, default decision, display, keyboard,
    /// render output and modules leave the touches as they are.
    Other,
}

/// The touches in progress after the call `c`, as its contract says.
pub open spec fn touches_after_call(t: Map<i32, ActiveTouch>, c: TouchCall) -> Map<i32, ActiveTouch> {
    match c {
        TouchCall::Down(route, e) => touches_after_down(t, route, e),
        TouchCall::Move(e) => touches_after_move(t, e),
        TouchCall::Up(e) => touches_after_end(t, touch_up_outcome(t, e), e.pointer_id),
        TouchCall::Cancel(q) => touches_after_end(t, touch_cancel_outcome(t, q), q),
        TouchCall::Clear => Map::empty(),
        TouchCall::Other => t,
    }
}

/// The touches in progress after the calls `cs`, in order.
pub open spec fn touches_after_calls(t: Map<i32, ActiveTouch>, cs: Seq<TouchCall>) -> Map<i32, ActiveTouch>
    decreases cs.len(),
{
    if cs.len() == 0 {
        t
    } else {
        touches_after_call(touches_after_calls(t, cs.drop_last()), cs.last())
    }
}

/// The call `c` ends pointer `p`: a lift or a cancel of `p`, or ending
/// every touch.
pub open spec fn ends_pointer(c: TouchCall, p: i32) -> bool {
    match c {
        TouchCall::Up(e) => e.pointer_id == p,
        TouchCall::Cancel(q) => q == p,
        TouchCall::Clear => true,
        _ => false,
    }
}

/// Calls that do not end pointer `p` leave it down with its route.
proof fn lemma_calls_keep_route(t: Map<i32, ActiveTouch>, cs: Seq<TouchCall>, p: i32, r: RouteResult)
    requires
        t.dom().finite(),
        t.contains_key(p),
        t[p].routed == r,
        forall|i: int| 0 <= i < cs.len() ==> !ends_pointer(#[trigger] cs[i], p),
    ensures
        touches_after_calls(t, cs).dom().finite(),
        touches_after_calls(t, cs).contains_key(p),
        touches_after_calls(t, cs)[p].routed == r,
    decreases cs.len(),
{
    if cs.len() > 0 {
        let front = cs.drop_last();
        assert forall|i: int| 0 <= i < front.len() implies !ends_pointer(#[trigger] front[i], p) by {
            assert(front[i] == cs[i]);
        }
        lemma_calls_keep_route(t, front, p, r);
        let u = touches_after_calls(t, front);
        assert(!ends_pointer(cs[cs.len() - 1], p));
        match cs.last() {
            TouchCall::Move(e) => {
                lemma_touch_route_locked(u, p, r, e);
            },
            _ => {},
        }
    }
}

/// A touch keeps the route it went down with, whatever regions change in
/// between: when `touch_down` of `down` answered `Ok(route)`, then after any
/// calls that do not end its pointer (no lift or cancel of it, no
/// `clear_touches`), lifting that pointer answers `Ok(route)`, one touch
/// fewer is in progress, and the pointer is no longer down, so a later
/// move or lift of it is out of range.
pub proof fn lemma_touch_up_gives_down_route(
    t: Map<i32, ActiveTouch>,
    route: RouteResult,
    down: TouchEvent,
    calls: Seq<TouchCall>,
    up: TouchEvent,
    later: TouchEvent,
)
    requires
        t.dom().finite(),
        touch_down_outcome(t, route, down) is Ok,
        forall|i: int| 0 <= i < calls.len() ==> !ends_pointer(#[trigger] calls[i], down.pointer_id),
        up.pointer_id == down.pointer_id,
        touch_failure(up) is None,
        later.pointer_id == down.pointer_id,
        touch_failure(later) is None,
    ensures
        ({
            let held = touches_after_calls(touches_after_down(t, route, down), calls);
            let after = touches_after_end(held, touch_up_outcome(held, up), up.pointer_id);
            &&& touch_down_outcome(t, route, down) == Ok::<RouteResult, Status>(route)
            &&& touch_up_outcome(held, up) == Ok::<RouteResult, Status>(route)
            &&& after.len() + 1 == held.len()
            &&& !after.contains_key(down.pointer_id)
            &&& touch_move_outcome(after, later) == Err::<RouteResult, Status>(Status::OutOfRange)
            &&& touch_up_outcome(after, later) == Err::<RouteResult, Status>(Status::OutOfRange)
        }),
{
    let p = down.pointer_id;
    let t0 = touches_after_down(t, route, down);
    assert(t0.contains_key(p) && t0[p].routed == route);
    lemma_calls_keep_route(t0, calls, p, route);
    let held = touches_after_calls(t0, calls);
    assert(held.remove(p).len() + 1 == held.len());
}

impl Default for RuntimeEngine {
    /// An engine whose stored frames carry their checksum.
    fn default() -> (r: Self)
        ensures
            r.wf(),
            r.spec_display() == DisplayState::default_state_spec(),
            r.spec_display_seq() == 0,
            r.spec_default_decision() == Decision::Pass,
            r.spec_regions() == Seq::<RectRegion>::empty(),
            r.touches() == Map::<i32, ActiveTouch>::empty(),
            r.kb().events() == Seq::<crate::keyboard::KeyboardEvent>::empty(),
            r.kb().last_seq() == 0,
            r.rs().frame() is None,
            r.rs().frame_seq() == 0,
            r.rs().stats().frame_seq == 0,
            r.rs().present_seq() == 0,
            r.rs().last_present() is None,
            r.rs().dump_seq() == 0,
            r.rs().checksums(),
            r.modules()@ == Map::<Seq<char>, ModuleRecord>::empty(),
            r.modules().entries() == Seq::<ModuleRecord>::empty(),
            r.modules().spec_last_error() is None,
            r.modules().spec_event_seq() == 0,
    {
        RuntimeEngine::new_with_checksum(true)
    }
}

impl RuntimeEngine {
    /// Replaces the display parameters once they are valid. A real change
    /// forgets the stored frame (its size may no longer fit) and counts one
    /// more display change; setting the same parameters changes nothing.
    pub fn set_display_state(&mut self, display: DisplayState) -> (r: Result<(), Status>)
        requires
            old(self).wf(),
        ensures
            final(self).modules() == old(self).modules(),
            final(self).wf(),
            final(self).spec_regions() == old(self).spec_regions(),
            final(self).spec_default_decision() == old(self).spec_default_decision(),
            final(self).touches() == old(self).touches(),
            final(self).kb() == old(self).kb(),
            match display_failure(display) {
                Some(s) => {
                    &&& r == Err::<(), Status>(s)
                    &&& *final(self) == *old(self)
                    &&& final(self).spec_display() == old(self).spec_display()
                    &&& final(self).spec_display_seq() == old(self).spec_display_seq()
                    &&& final(self).rs() == old(self).rs()
                },
                None => r is Ok && display_applied(*old(self), *final(self), display),
            },
    {
        match display.validate() {
            Ok(()) => {},
            Err(s) => return Err(s),
        }
        let changed = self.display != display;
        self.display = display;
        if changed {
            self.render.clear_render_frame();
            self.display_signal_seq = self.display_signal_seq.saturating_add(1);
        }
        Ok(())
    }

    /// The current display parameters.
    pub fn display_state(&self) -> (r: DisplayState)
        ensures
            r == self.spec_display(),
    {
        self.display
    }

    /// How many times the display has changed.
    pub fn display_signal_seq(&self) -> (r: u64)
        ensures
            r == self.spec_display_seq(),
    {
        self.display_signal_seq
    }

    /// The change count and the display, once the display has changed more
    /// than `last_seq` times.
    pub fn display_after(&self, last_seq: u64) -> (r: Option<(u64, DisplayState)>)
        ensures
            self.spec_display_seq() > last_seq ==> r == Some(
                (self.spec_display_seq(), self.spec_display()),
            ),
            self.spec_display_seq() <= last_seq ==> r is None,
    {
        if self.display_signal_seq > last_seq {
            Some((self.display_signal_seq, self.display))
        } else {
            None
        }
    }
}

impl RuntimeEngine {
    /// The keyboard events, to submit to and read from.
    pub fn keyboard_mut(&mut self) -> (r: &mut KeyboardState)
        ensures
            final(self).modules() == old(self).modules(),
            *r == old(self).kb(),
            final(self).kb() == *final(r),
            final(self).rs() == old(self).rs(),
            final(self).touches_ok() == old(self).touches_ok(),
            final(self).touches() == old(self).touches(),
            final(self).spec_regions() == old(self).spec_regions(),
            final(self).spec_default_decision() == old(self).spec_default_decision(),
            final(self).spec_display() == old(self).spec_display(),
            final(self).spec_display_seq() == old(self).spec_display_seq(),
    {
        &mut self.keyboard
    }

    /// The render state, to submit frames and counters to and read from.
    pub fn render_mut(&mut self) -> (r: &mut RenderState)
        ensures
            final(self).modules() == old(self).modules(),
            *r == old(self).rs(),
            final(self).rs() == *final(r),
            final(self).kb() == old(self).kb(),
            final(self).touches_ok() == old(self).touches_ok(),
            final(self).touches() == old(self).touches(),
            final(self).spec_regions() == old(self).spec_regions(),
            final(self).spec_default_decision() == old(self).spec_default_decision(),
            final(self).spec_display() == old(self).spec_display(),
            final(self).spec_display_seq() == old(self).spec_display_seq(),
    {
        &mut self.render
    }

    /// The keyboard events, to read from.
    pub fn keyboard(&self) -> (r: &KeyboardState)
        ensures
            *r == self.kb(),
    {
        &self.keyboard
    }

    /// The render state, to read from.
    pub fn render(&self) -> (r: &RenderState)
        ensures
            *r == self.rs(),
    {
        &self.render
    }
}

impl RuntimeEngine {
    /// Adds or replaces a module record, as `ModuleRegistry::upsert` does.
    pub fn module_registry_upsert(&mut self, record: ModuleRecord) -> (r: Result<ModuleRecord, ModuleRegistryError>)
        requires
            old(self).wf(),
        ensures
            final(self).wf(),
            Self::same_but_modules(final(self), old(self)),
            match sanitized_id(record.id@) {
                None => {
                    &&& r matches Err(e) && e.code@ == "E_MODULE_ID_INVALID"@
                        && e.module_id@ == record.id@
                    &&& final(self).modules()@ == old(self).modules()@
                    &&& final(self).modules().spec_event_seq() == old(self).modules().spec_event_seq()
                },
                Some(id) => {
                    &&& r matches Ok(out) && exists|now: u64| upserted(out, record, id, old(self).modules()@, now)
                    &&& final(self).modules()@ == old(self).modules()@.insert(id, r->Ok_0)
                    &&& final(self).modules().spec_event_seq() == bumped(old(self).modules().spec_event_seq())
                },
            },
            final(self).modules().spec_last_error() == old(self).modules().spec_last_error(),
    {
        self.modules.upsert(record)
    }

    /// Drops the record of a module; tells whether there was one.
    pub fn module_registry_remove(&mut self, module_id: &str) -> (r: Result<bool, ModuleRegistryError>)
        requires
            old(self).wf(),
        ensures
            final(self).wf(),
            Self::same_but_modules(final(self), old(self)),
            r == Ok::<bool, ModuleRegistryError>(old(self).modules()@.contains_key(module_id@)),
            final(self).modules()@ == old(self).modules()@.remove(module_id@),
            final(self).modules().spec_event_seq() == if old(self).modules()@.contains_key(module_id@) {
                bumped(old(self).modules().spec_event_seq())
            } else {
                old(self).modules().spec_event_seq()
            },
            final(self).modules().spec_last_error() == old(self).modules().spec_last_error(),
    {
        Ok(self.modules.remove(module_id))
    }

    /// The record of a module, if there is one.
    pub fn module_registry_get(&self, module_id: &str) -> (r: Result<Option<ModuleRecord>, ModuleRegistryError>)
        requires
            self.wf(),
        ensures
            r == Ok::<Option<ModuleRecord>, ModuleRegistryError>(if self.modules()@.contains_key(module_id@) {
                Some(self.modules()@[module_id@])
            } else {
                None
            }),
    {
        Ok(self.modules.get(module_id))
    }

    /// Every module record, in id order.
    pub fn module_registry_list(&self) -> (r: Result<Vec<ModuleRecord>, ModuleRegistryError>)
        ensures
            r matches Ok(v) && v@ == self.modules().entries(),
    {
        Ok(self.modules.list())
    }

    /// Reloads one module, as `ModuleRegistry::reload_by_id` does.
    pub fn module_registry_reload(&mut self, module_id: &str) -> (r: Result<ModuleRecord, ModuleRegistryError>)
        requires
            old(self).wf(),
        ensures
            final(self).wf(),
            Self::same_but_modules(final(self), old(self)),
            exists|now: u64| #[trigger] crate::module_registry::reload_by_id_done(old(self).modules(), final(self).modules(), module_id@, now, r),
    {
        self.modules.reload_by_id(module_id)
    }

    /// Reloads every enabled module, as `ModuleRegistry::reload_all` does.
    pub fn module_registry_reload_all(&mut self) -> (r: Result<ModuleReloadAllResult, ModuleRegistryError>)
        requires
            old(self).wf(),
        ensures
            final(self).wf(),
            Self::same_but_modules(final(self), old(self)),
            r is Ok,
            exists|now: u64| #[trigger] crate::module_registry::reload_all_done(
                old(self).modules(),
                final(self).modules(),
                now,
                r->Ok_0,
            ),
    {
        let ghost before = self.modules;
        let res = self.modules.reload_all();
        proof {
            let now = choose|now: u64| crate::module_registry::reload_all_done(before, self.modules, now, res);
            assert(before == old(self).modules());
            assert(crate::module_registry::reload_all_done(old(self).modules(), self.modules(), now, res));
        }
        let out = Ok(res);
        assert(out->Ok_0 == res);
        out
    }

    /// The last error the registry recorded.
    pub fn module_registry_last_error(&self) -> (r: Result<Option<ModuleErrorRecord>, ModuleRegistryError>)
        ensures
            r == Ok::<Option<ModuleErrorRecord>, ModuleRegistryError>(self.modules().spec_last_error()),
    {
        Ok(self.modules.last_error())
    }

    /// Forgets the registry's last error.
    pub fn module_registry_clear_error(&mut self) -> (r: Result<(), ModuleRegistryError>)
        requires
            old(self).wf(),
        ensures
            final(self).wf(),
            Self::same_but_modules(final(self), old(self)),
            r is Ok,
            final(self).modules()@ == old(self).modules()@,
            final(self).modules().entries() == old(self).modules().entries(),
            final(self).modules().spec_last_error() is None,
            final(self).modules().spec_event_seq() == bumped(old(self).modules().spec_event_seq()),
    {
        self.modules.clear_last_error();
        Ok(())
    }

    /// Records an error as the registry's last.
    pub fn module_registry_set_error(&mut self, record: ModuleErrorRecord) -> (r: Result<(), ModuleRegistryError>)
        requires
            old(self).wf(),
        ensures
            final(self).wf(),
            Self::same_but_modules(final(self), old(self)),
            r is Ok,
            final(self).modules()@ == old(self).modules()@,
            final(self).modules().entries() == old(self).modules().entries(),
            final(self).modules().spec_last_error() == Some(record),
            final(self).modules().spec_event_seq() == bumped(old(self).modules().spec_event_seq()),
    {
        self.modules.set_last_error(record);
        Ok(())
    }

    /// How many changes the registry has seen.
    pub fn module_registry_event_seq(&self) -> (r: Result<u64, ModuleRegistryError>)
        ensures
            r == Ok::<u64, ModuleRegistryError>(self.modules().spec_event_seq()),
    {
        Ok(self.modules.event_seq())
    }

    /// How many modules the registry holds.
    pub fn module_registry_count(&self) -> (r: Result<usize, ModuleRegistryError>)
        ensures
            r matches Ok(n) && n == self.modules().entries().len(),
    {
        Ok(self.modules.count())
    }
}

} // verus!
