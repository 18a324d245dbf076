use vstd::prelude::*;
use std::collections::HashMap;
use vstd::std_specs::hash::spec_hash_map_iter;
use vstd::std_specs::iter::IteratorSpec;
use crate::text::{chars_of, trim_chars, trim};

verus! {

broadcast use vstd::std_specs::hash::group_hash_axioms;

/// Linux input event type: synchronization.
pub const EV_SYN: u16 = 0x00;

/// Linux input event type: key or button.
pub const EV_KEY: u16 = 0x01;

/// Linux input event type: absolute axis.
pub const EV_ABS: u16 = 0x03;

/// Synchronization code that ends a frame of events.
pub const SYN_REPORT: u16 = 0x00;

/// Absolute axis: the multi-touch slot that the following events are about.
pub const ABS_MT_SLOT: u16 = 0x2f;

/// Absolute axis: the x position of the current slot.
pub const ABS_MT_POSITION_X: u16 = 0x35;

/// Absolute axis: the y position of the current slot.
pub const ABS_MT_POSITION_Y: u16 = 0x36;

/// Absolute axis: the tracking id of the current slot (negative: lifted).
pub const ABS_MT_TRACKING_ID: u16 = 0x39;

/// Button: something touches the surface.
pub const BTN_TOUCH: u16 = 0x14a;

/// Touch stream packet kind: a touch goes down.
pub const TOUCH_PACKET_DOWN: u8 = 1;

/// Touch stream packet kind: a touch moves.
pub const TOUCH_PACKET_MOVE: u8 = 2;

/// Touch stream packet kind: a touch lifts.
pub const TOUCH_PACKET_UP: u8 = 3;

/// The phase of a touch message.
#[derive(Debug, Clone, Copy, PartialEq, Eq, Structural)]
pub enum TouchPhase {
    Down,
    Move,
    Up,
    Clear,
}

/// Where the touches of a pointer go: to the overlay's UI, or through to
/// the system.
#[derive(Debug, Clone, Copy, PartialEq, Eq, Structural)]
pub enum PointerRoute {
    Ui,
    PassThrough,
}

/// One input event: its type, code and value.
#[derive(Debug, Clone, Copy, PartialEq, Eq, Structural)]
pub struct InputRecord {
    pub event_type: u16,
    pub code: u16,
    pub value: i32,
}

/// The phase of a packet kind: down, move and up have one, others none.
pub fn kind_to_phase(kind: u8) -> (r: Option<TouchPhase>)
    ensures
        kind == TOUCH_PACKET_DOWN ==> r == Some(TouchPhase::Down),
        kind == TOUCH_PACKET_MOVE ==> r == Some(TouchPhase::Move),
        kind == TOUCH_PACKET_UP ==> r == Some(TouchPhase::Up),
        !(1 <= kind <= 3) ==> r is None,
{
    if kind == TOUCH_PACKET_DOWN {
        Some(TouchPhase::Down)
    } else if kind == TOUCH_PACKET_MOVE {
        Some(TouchPhase::Move)
    } else if kind == TOUCH_PACKET_UP {
        Some(TouchPhase::Up)
    } else {
        None
    }
}

/// The route a pointer has: the one it went down with, else through.
pub open spec fn route_of_pointer(routes: Map<i32, PointerRoute>, p: i32) -> PointerRoute {
    if routes.contains_key(p) {
        routes[p]
    } else {
        PointerRoute::PassThrough
    }
}

/// Decides where a touch goes. A touch going down goes to the UI when its
/// position hits the UI (`hit`), else through, and keeps that route; a move
/// keeps the route its pointer went down with; a lift gives that route and
/// forgets it; anything else goes through. A pointer with no route goes
/// through.
pub fn resolve_pointer_route(kind: u8, pointer_id: i32, hit: bool, pointer_routes: &mut HashMap<i32, PointerRoute>) -> (r: PointerRoute)
    ensures
        kind == TOUCH_PACKET_DOWN ==> {
            &&& r == if hit {
                PointerRoute::Ui
            } else {
                PointerRoute::PassThrough
            }
            &&& final(pointer_routes)@ == old(pointer_routes)@.insert(pointer_id, r)
        },
        kind == TOUCH_PACKET_MOVE ==> r == route_of_pointer(old(pointer_routes)@, pointer_id)
            && final(pointer_routes)@ == old(pointer_routes)@,
        kind == TOUCH_PACKET_UP ==> r == route_of_pointer(old(pointer_routes)@, pointer_id)
            && final(pointer_routes)@ == old(pointer_routes)@.remove(pointer_id),
        !(1 <= kind <= 3) ==> r == PointerRoute::PassThrough && final(pointer_routes)@ == old(
            pointer_routes,
        )@,
{
    if kind == TOUCH_PACKET_DOWN {
        let route = if hit {
            PointerRoute::Ui
        } else {
            PointerRoute::PassThrough
        };
        pointer_routes.insert(pointer_id, route);
        route
    } else if kind == TOUCH_PACKET_MOVE {
        match pointer_routes.get(&pointer_id) {
            Some(r) => *r,
            None => PointerRoute::PassThrough,
        }
    } else if kind == TOUCH_PACKET_UP {
        let route = match pointer_routes.get(&pointer_id) {
            Some(r) => *r,
            None => PointerRoute::PassThrough,
        };
        pointer_routes.remove(&pointer_id);
        route
    } else {
        PointerRoute::PassThrough
    }
}

/// A multi-touch axis: the slot axis or any after it.
pub fn is_mt_axis(code: u16) -> (r: bool)
    ensures
        r == (code >= ABS_MT_SLOT),
{
    code >= ABS_MT_SLOT
}

/// The buttons that tell a touch or a tool is on the surface: `BTN_TOUCH`
/// and the `BTN_TOOL_*` buttons of fingers and pens.
pub open spec fn touch_related_key(code: u16) -> bool {
    code == BTN_TOUCH || (0x140 <= code <= 0x148) || (0x14d <= code <= 0x14f)
}

/// Tells a touch-related button, as `touch_related_key` says.
pub fn is_touch_related_key(code: u16) -> (r: bool)
    ensures
        r == touch_related_key(code),
{
    code == BTN_TOUCH || (0x140 <= code && code <= 0x148) || (0x14d <= code && code <= 0x14f)
}

/// The state of one multi-touch slot.
#[derive(Debug, Clone, Copy, PartialEq, Eq, Structural)]
pub struct SlotState {
    pub active: bool,
    pub pointer_id: i32,
    pub raw_x: i32,
    pub raw_y: i32,
}

/// A slot that has never been touched.
pub open spec fn empty_slot() -> SlotState {
    SlotState { active: false, pointer_id: 0, raw_x: 0, raw_y: 0 }
}

/// The state of a slot (an untouched one when it has none).
pub open spec fn slot_of(slots: Map<i32, SlotState>, id: i32) -> SlotState {
    if slots.contains_key(id) {
        slots[id]
    } else {
        empty_slot()
    }
}

/// The route of a slot in a frame: the one decided in this frame, else
/// that of the pointer the slot holds, else through.
pub open spec fn slot_route(
    slot_id: i32,
    frame_routes: Map<i32, PointerRoute>,
    slots: Map<i32, SlotState>,
    pointer_routes: Map<i32, PointerRoute>,
) -> PointerRoute {
    if frame_routes.contains_key(slot_id) {
        frame_routes[slot_id]
    } else if !slots.contains_key(slot_id) {
        PointerRoute::PassThrough
    } else if !slots[slot_id].active || slots[slot_id].pointer_id < 0 {
        PointerRoute::PassThrough
    } else {
        route_of_pointer(pointer_routes, slots[slot_id].pointer_id)
    }
}

/// The route of a slot in a frame, as `slot_route` says.
pub fn slot_route_for_frame(
    slot_id: i32,
    frame_slot_routes: &HashMap<i32, PointerRoute>,
    slots: &HashMap<i32, SlotState>,
    pointer_routes: &HashMap<i32, PointerRoute>,
) -> (r: PointerRoute)
    ensures
        r == slot_route(slot_id, frame_slot_routes@, slots@, pointer_routes@),
{
    if let Some(route) = frame_slot_routes.get(&slot_id) {
        return *route;
    }
    let slot = match slots.get(&slot_id) {
        Some(s) => *s,
        None => return PointerRoute::PassThrough,
    };
    if !slot.active || slot.pointer_id < 0 {
        return PointerRoute::PassThrough;
    }
    match pointer_routes.get(&slot.pointer_id) {
        Some(r) => *r,
        None => PointerRoute::PassThrough,
    }
}

/// The state of the passthrough filter after the events so far: the slot
/// the events are about, the slot last announced in the output, and the
/// output.
pub open spec fn passthrough_scan(
    events: Seq<InputRecord>,
    start_slot: i32,
    frame_routes: Map<i32, PointerRoute>,
    slots: Map<i32, SlotState>,
    pointer_routes: Map<i32, PointerRoute>,
) -> (i32, Option<i32>, Seq<InputRecord>)
    decreases events.len(),
{
    if events.len() == 0 {
        (start_slot, None, Seq::empty())
    } else {
        let (cur, emitted, out) = passthrough_scan(events.drop_last(), start_slot, frame_routes, slots, pointer_routes);
        let ev = events.last();
        if ev.event_type == EV_ABS {
            if ev.code == ABS_MT_SLOT {
                (ev.value, emitted, out)
            } else if ev.code < ABS_MT_SLOT {
                (cur, emitted, out)
            } else if slot_route(cur, frame_routes, slots, pointer_routes) != PointerRoute::PassThrough {
                (cur, emitted, out)
            } else if emitted != Some(cur) {
                (
                    cur,
                    Some(cur),
                    out.push(InputRecord { event_type: EV_ABS, code: ABS_MT_SLOT, value: cur }).push(ev),
                )
            } else {
                (cur, emitted, out.push(ev))
            }
        } else if ev.event_type == EV_KEY && touch_related_key(ev.code) {
            (cur, emitted, out)
        } else if ev.event_type == EV_SYN {
            (cur, emitted, out)
        } else {
            (cur, emitted, out.push(ev))
        }
    }
}

/// The events of a frame that go through to the system: the multi-touch
/// axis events of slots routed through (each run announced by its slot),
/// and every other event but the slot changes, other absolute axes,
/// touch-related buttons and synchronizations.
pub fn build_passthrough_frame_events(
    frame_events: &Vec<InputRecord>,
    frame_start_slot: i32,
    frame_slot_routes: &HashMap<i32, PointerRoute>,
    slots: &HashMap<i32, SlotState>,
    pointer_routes: &HashMap<i32, PointerRoute>,
) -> (r: Vec<InputRecord>)
    ensures
        r@ == passthrough_scan(frame_events@, frame_start_slot, frame_slot_routes@, slots@, pointer_routes@).2,
{
    let mut out: Vec<InputRecord> = Vec::new();
    let mut cur_slot = frame_start_slot;
    let mut emitted_slot: Option<i32> = None;
    let mut i: usize = 0;
    while i < frame_events.len()
        invariant
            i <= frame_events@.len(),
            passthrough_scan(frame_events@.take(i as int), frame_start_slot, frame_slot_routes@, slots@, pointer_routes@)
                == (cur_slot, emitted_slot, out@),
        decreases frame_events@.len() - i,
    {
        let ev = frame_events[i];
        assert(frame_events@.take(i + 1).drop_last() =~= frame_events@.take(i as int));
        assert(frame_events@.take(i + 1).last() == ev);
        if ev.event_type == EV_ABS {
            if ev.code == ABS_MT_SLOT {
                cur_slot = ev.value;
            } else if is_mt_axis(ev.code) {
                let route = slot_route_for_frame(cur_slot, frame_slot_routes, slots, pointer_routes);
                if route == PointerRoute::PassThrough {
                    if emitted_slot != Some(cur_slot) {
                        out.push(InputRecord { event_type: EV_ABS, code: ABS_MT_SLOT, value: cur_slot });
                        emitted_slot = Some(cur_slot);
                    }
                    out.push(ev);
                }
            }
        } else if ev.event_type == EV_KEY && is_touch_related_key(ev.code) {
        } else if ev.event_type == EV_SYN {
        } else {
            out.push(ev);
        }
        i += 1;
    }
    assert(frame_events@.take(frame_events@.len() as int) =~= frame_events@);
    out
}


/// An event that selects a multi-touch slot.
pub open spec fn is_slot_event(e: InputRecord) -> bool {
    e.event_type == EV_ABS && e.code == ABS_MT_SLOT
}

/// A multi-touch axis event about the current slot.
pub open spec fn is_slot_axis_event(e: InputRecord) -> bool {
    e.event_type == EV_ABS && e.code > ABS_MT_SLOT
}

/// The slot selected by the last slot event among `evs`, if any.
pub open spec fn last_slot_selected(evs: Seq<InputRecord>) -> Option<i32>
    decreases evs.len(),
{
    if evs.len() == 0 {
        None
    } else if is_slot_event(evs.last()) {
        Some(evs.last().value)
    } else {
        last_slot_selected(evs.drop_last())
    }
}

/// The slot in force after `evs`: the last one selected, else `start`.
pub open spec fn slot_in_force(evs: Seq<InputRecord>, start: i32) -> i32 {
    match last_slot_selected(evs) {
        Some(v) => v,
        None => start,
    }
}

/// The multi-touch axis events among `evs`, in order.
pub open spec fn axis_events(evs: Seq<InputRecord>) -> Seq<InputRecord>
    decreases evs.len(),
{
    if evs.len() == 0 {
        Seq::empty()
    } else if is_slot_axis_event(evs.last()) {
        axis_events(evs.drop_last()).push(evs.last())
    } else {
        axis_events(evs.drop_last())
    }
}

/// The multi-touch axis events of a frame that are about a slot routed
/// through (the slot in force before each), in order.
pub open spec fn routed_axis_events(
    events: Seq<InputRecord>,
    start: i32,
    frame_routes: Map<i32, PointerRoute>,
    slots: Map<i32, SlotState>,
    pointer_routes: Map<i32, PointerRoute>,
) -> Seq<InputRecord>
    decreases events.len(),
{
    if events.len() == 0 {
        Seq::empty()
    } else {
        let rest = routed_axis_events(events.drop_last(), start, frame_routes, slots, pointer_routes);
        if is_slot_axis_event(events.last()) && slot_route(
            slot_in_force(events.drop_last(), start),
            frame_routes,
            slots,
            pointer_routes,
        ) == PointerRoute::PassThrough {
            rest.push(events.last())
        } else {
            rest
        }
    }
}

/// What the scan keeps true: `cur` is the input's slot in force, the slot
/// last announced in the output is `emitted` (none announced when it is
/// `None`), and every axis event of the output comes from the input, was
/// about a slot routed through, and follows an announcement of that slot.
pub open spec fn passthrough_slots_kept(
    events: Seq<InputRecord>,
    start: i32,
    frame_routes: Map<i32, PointerRoute>,
    slots: Map<i32, SlotState>,
    pointer_routes: Map<i32, PointerRoute>,
    cur: i32,
    emitted: Option<i32>,
    out: Seq<InputRecord>,
) -> bool {
    &&& cur == slot_in_force(events, start)
    &&& last_slot_selected(out) == emitted
    &&& axis_events(out) == routed_axis_events(events, start, frame_routes, slots, pointer_routes)
    &&& forall|k: int|
        0 <= k < out.len() && is_slot_axis_event(#[trigger] out[k]) ==> exists|j: int|
            0 <= j < events.len() && events[j] == out[k] && last_slot_selected(out.take(k)) == Some(
                slot_in_force(#[trigger] events.take(j), start),
            ) && slot_route(slot_in_force(events.take(j), start), frame_routes, slots, pointer_routes)
                == PointerRoute::PassThrough
}

proof fn lemma_passthrough_scan_slots(
    events: Seq<InputRecord>,
    start: i32,
    frame_routes: Map<i32, PointerRoute>,
    slots: Map<i32, SlotState>,
    pointer_routes: Map<i32, PointerRoute>,
)
    ensures
        ({
            let (cur, emitted, out) = passthrough_scan(events, start, frame_routes, slots, pointer_routes);
            passthrough_slots_kept(events, start, frame_routes, slots, pointer_routes, cur, emitted, out)
        }),
    decreases events.len(),
{
    if events.len() > 0 {
        let q = events.drop_last();
        lemma_passthrough_scan_slots(q, start, frame_routes, slots, pointer_routes);
        let (cur, emitted, out) = passthrough_scan(q, start, frame_routes, slots, pointer_routes);
        let ev = events.last();
        let n = q.len() as int;
        assert(events.take(n) =~= q);
        assert forall|j: int| 0 <= j < n implies #[trigger] events.take(j) == q.take(j) && events[j] == q[j] by {
            assert(events.take(j) =~= q.take(j));
        }
        let (cur2, emitted2, out2) = passthrough_scan(events, start, frame_routes, slots, pointer_routes);
        assert forall|k: int| 0 <= k < out.len() implies #[trigger] out2.take(k) == out.take(k) && out2[k] == out[k] by {
            assert(out2.take(k) =~= out.take(k));
        }
        assert forall|k: int|
            0 <= k < out2.len() && is_slot_axis_event(#[trigger] out2[k]) implies exists|j: int|
                0 <= j < events.len() && events[j] == out2[k] && last_slot_selected(out2.take(k)) == Some(
                    slot_in_force(#[trigger] events.take(j), start),
                ) && slot_route(slot_in_force(events.take(j), start), frame_routes, slots, pointer_routes)
                    == PointerRoute::PassThrough by {
            if k < out.len() {
                let j = choose|j: int|
                    0 <= j < q.len() && q[j] == out[k] && last_slot_selected(out.take(k)) == Some(
                        slot_in_force(#[trigger] q.take(j), start),
                    ) && slot_route(slot_in_force(q.take(j), start), frame_routes, slots, pointer_routes)
                        == PointerRoute::PassThrough;
                assert(events.take(j) == q.take(j) && events[j] == q[j]);
            } else {
                assert(out2[k] == ev);
                assert(events[n] == ev);
                if emitted == Some(cur) {
                    assert(out2.take(k) =~= out);
                } else {
                    assert(out2.take(k) =~= out.push(InputRecord { event_type: EV_ABS, code: ABS_MT_SLOT, value: cur }));
                }
                assert(events.take(n) == q);
            }
        }
        if ev.event_type == EV_ABS && ev.code == ABS_MT_SLOT {
        } else {
            assert(last_slot_selected(events) == last_slot_selected(q));
        }
        if out2 != out {
            if out2.len() == out.len() + 1 {
                assert(out2.drop_last() =~= out);
            } else {
                let ann = out.push(InputRecord { event_type: EV_ABS, code: ABS_MT_SLOT, value: cur });
                assert(out2.drop_last().drop_last() =~= out);
                assert(out2.drop_last() =~= ann);
                assert(ann.drop_last() =~= out);
                assert(axis_events(ann) == axis_events(out));
            }
        }
    }
}

/// Through events stay on their slots: the multi-touch axis events that go
/// through are exactly those of the frame about a slot routed through, in
/// order; every one of them comes from the frame, was about a slot routed through, and
/// the last slot announcement before it in the output names the slot that
/// was in force before it in the frame (the frame's start slot when the
/// frame had not changed it).
pub proof fn lemma_passthrough_keeps_slots(
    events: Seq<InputRecord>,
    start: i32,
    frame_routes: Map<i32, PointerRoute>,
    slots: Map<i32, SlotState>,
    pointer_routes: Map<i32, PointerRoute>,
)
    ensures
        ({
            let out = passthrough_scan(events, start, frame_routes, slots, pointer_routes).2;
            &&& axis_events(out) == routed_axis_events(events, start, frame_routes, slots, pointer_routes)
            &&& forall|k: int|
                0 <= k < out.len() && is_slot_axis_event(#[trigger] out[k]) ==> exists|j: int|
                    0 <= j < events.len() && events[j] == out[k] && last_slot_selected(out.take(k)) == Some(
                        slot_in_force(#[trigger] events.take(j), start),
                    ) && slot_route(slot_in_force(events.take(j), start), frame_routes, slots, pointer_routes)
                        == PointerRoute::PassThrough
        }),
{
    lemma_passthrough_scan_slots(events, start, frame_routes, slots, pointer_routes);
}

/// A slot holds a pointer that is down and routed through.
pub open spec fn slot_passes_through(s: SlotState, pointer_routes: Map<i32, PointerRoute>) -> bool {
    s.active && s.pointer_id >= 0 && route_of_pointer(pointer_routes, s.pointer_id) == PointerRoute::PassThrough
}

/// Some slot holds a pointer that is down and routed through.
pub open spec fn any_passthrough_active(slots: Map<i32, SlotState>, pointer_routes: Map<i32, PointerRoute>) -> bool {
    exists|k: i32| slots.contains_key(k) && slot_passes_through(#[trigger] slots[k], pointer_routes)
}

/// Whether some slot holds a pointer that is down and routed through, so
/// that the system should see the surface touched.
pub fn has_passthrough_active_touch(
    slots: &HashMap<i32, SlotState>,
    pointer_routes: &HashMap<i32, PointerRoute>,
) -> (r: bool)
    ensures
        r == any_passthrough_active(slots@, pointer_routes@),
{
    let mut found = false;
    let ghost v = spec_hash_map_iter(slots).remaining();
    for (k, s) in it: slots.iter()
        invariant
            it.seq() == v,
            found <==> exists|i: int| 0 <= i < it.index() && slot_passes_through(*(#[trigger] v[i]).1, pointer_routes@),
        ensures
            found <==> exists|i: int| 0 <= i < v.len() && slot_passes_through(*(#[trigger] v[i]).1, pointer_routes@),
    {
        if !found && s.active && s.pointer_id >= 0 {
            let route = match pointer_routes.get(&s.pointer_id) {
                Some(r) => *r,
                None => PointerRoute::PassThrough,
            };
            if route == PointerRoute::PassThrough {
                found = true;
            }
        }
    }
    proof {
        if found {
            let i = choose|i: int| 0 <= i < v.len() && slot_passes_through(*(#[trigger] v[i]).1, pointer_routes@);
            assert(slots@.contains_key(*v[i].0));
            assert(slots@[*v[i].0] == *v[i].1);
        }
        if any_passthrough_active(slots@, pointer_routes@) {
            let k = choose|k: i32| slots@.contains_key(k) && slot_passes_through(#[trigger] slots@[k], pointer_routes@);
            assert(v.contains((&k, &slots@[k])));
            let i = choose|i: int| 0 <= i < v.len() && v[i] == (&k, &slots@[k]);
            assert(slot_passes_through(*v[i].1, pointer_routes@));
        }
    }
    found
}


/// What a touch router runs with: the daemon's sockets, the name of its
/// touch route, the touch device, and the screen it maps touches to.
#[derive(Debug, Clone)]
pub struct TouchRouterConfig {
    pub control_socket_path: String,
    pub data_socket_path: String,
    pub route_name: String,
    pub device_path: String,
    pub screen_width: u32,
    pub screen_height: u32,
    pub rotation: i32,
    pub quiet: bool,
}

/// The ranges of a touch device's multi-touch axes.
#[derive(Debug, Clone, Copy, PartialEq, Eq, Structural)]
pub struct TouchAxisCaps {
    pub x_min: i32,
    pub x_max: i32,
    pub y_min: i32,
    pub y_max: i32,
    pub slot_min: i32,
    pub slot_max: i32,
    pub tracking_min: i32,
    pub tracking_max: i32,
}

/// How raw device coordinates map to the screen: the device's ranges, the
/// screen size and its rotation (quarter turns).
#[derive(Debug, Clone, Copy, PartialEq, Eq, Structural)]
pub struct TouchMapConfig {
    pub min_x: i32,
    pub max_x: i32,
    pub min_y: i32,
    pub max_y: i32,
    pub width: i32,
    pub height: i32,
    pub rotation: i32,
}

/// The screen a router maps touches to: its size and rotation.
#[derive(Debug, Clone, Copy, PartialEq, Eq, Structural)]
pub struct TouchDisplayTransform {
    pub width: i32,
    pub height: i32,
    pub rotation: i32,
}

/// Why a touch router refuses a configuration.
#[derive(Debug, Clone, Copy, PartialEq, Eq, Structural)]
pub enum TouchRouterError {
    RouteNameEmpty,
    ScreenSizeInvalid,
    RotationOutOfRange,
}

impl TouchRouterError {
    /// The words that name the refusal.
    pub fn message(&self) -> (r: &'static str)
        ensures
            *self == TouchRouterError::RouteNameEmpty ==> r@ == "route_name_empty"@,
            *self == TouchRouterError::ScreenSizeInvalid ==> r@ == "screen_size_invalid"@,
            *self == TouchRouterError::RotationOutOfRange ==> r@ == "rotation_must_be_0_3"@,
    {
        match self {
            TouchRouterError::RouteNameEmpty => "route_name_empty",
            TouchRouterError::ScreenSizeInvalid => "screen_size_invalid",
            TouchRouterError::RotationOutOfRange => "rotation_must_be_0_3",
        }
    }
}

/// A screen dimension as a signed size, `i32::MAX` when it does not fit.
pub open spec fn screen_dim(v: u32) -> i32 {
    if v <= i32::MAX {
        v as i32
    } else {
        i32::MAX
    }
}

/// The display transform of a screen size and rotation, as `display_transform` gives it.
pub open spec fn display_transform_of(
    screen_width: u32,
    screen_height: u32,
    rotation: i32,
) -> Result<TouchDisplayTransform, TouchRouterError> {
    if screen_width == 0 || screen_height == 0 {
        Err(TouchRouterError::ScreenSizeInvalid)
    } else if !(0 <= rotation <= 3) {
        Err(TouchRouterError::RotationOutOfRange)
    } else {
        Ok(TouchDisplayTransform {
            width: screen_dim(screen_width),
            height: screen_dim(screen_height),
            rotation,
        })
    }
}

fn screen_dim_of(v: u32) -> (r: i32)
    ensures
        r == screen_dim(v),
{
    if v <= 0x7fff_ffffu32 {
        v as i32
    } else {
        i32::MAX
    }
}

/// The transform a router maps touches with: a screen with no width or
/// height, or a rotation outside 0 to 3, is refused.
pub fn display_transform(screen_width: u32, screen_height: u32, rotation: i32) -> (r: Result<TouchDisplayTransform, TouchRouterError>)
    ensures
        r == display_transform_of(screen_width, screen_height, rotation),
{
    if screen_width == 0 || screen_height == 0 {
        return Err(TouchRouterError::ScreenSizeInvalid);
    }
    if !(0 <= rotation && rotation <= 3) {
        return Err(TouchRouterError::RotationOutOfRange);
    }
    Ok(TouchDisplayTransform {
        width: screen_dim_of(screen_width),
        height: screen_dim_of(screen_height),
        rotation,
    })
}

impl TouchRouterConfig {
    /// Checks a configuration before a router starts: a route name of
    /// white space only is refused, then the screen as `display_transform`
    /// checks it; what passes gives the initial transform.
    pub fn validate(&self) -> (r: Result<TouchDisplayTransform, TouchRouterError>)
        ensures
            trim(self.route_name@).len() == 0 ==> r == Err::<TouchDisplayTransform, TouchRouterError>(
                TouchRouterError::RouteNameEmpty,
            ),
            trim(self.route_name@).len() != 0 ==> r == display_transform_of(
                self.screen_width,
                self.screen_height,
                self.rotation,
            ),
    {
        let name = chars_of(self.route_name.as_str());
        let trimmed = trim_chars(&name);
        if trimmed.len() == 0 {
            return Err(TouchRouterError::RouteNameEmpty);
        }
        display_transform(self.screen_width, self.screen_height, self.rotation)
    }
}

/// The multi-touch axes a device must have, in the order they are checked.
pub open spec fn required_touch_axes() -> Seq<u16> {
    seq![ABS_MT_POSITION_X, ABS_MT_POSITION_Y, ABS_MT_SLOT, ABS_MT_TRACKING_ID]
}

/// The first required multi-touch axis missing from `supported`, if any.
pub fn first_missing_touch_axis(supported: &Vec<u16>) -> (r: Option<u16>)
    ensures
        r matches Some(a) ==> exists|i: int|
            0 <= i < 4 && required_touch_axes()[i] == a && !supported@.contains(a) && forall|j: int|
                0 <= j < i ==> supported@.contains(#[trigger] required_touch_axes()[j]),
        r is None ==> forall|j: int| 0 <= j < 4 ==> supported@.contains(#[trigger] required_touch_axes()[j]),
{
    let required: [u16; 4] = [ABS_MT_POSITION_X, ABS_MT_POSITION_Y, ABS_MT_SLOT, ABS_MT_TRACKING_ID];
    let mut k: usize = 0;
    while k < 4
        invariant
            k <= 4,
            required@ == required_touch_axes(),
            forall|j: int| 0 <= j < k ==> supported@.contains(#[trigger] required_touch_axes()[j]),
        decreases 4 - k,
    {
        let a = required[k];
        let mut found = false;
        let mut i: usize = 0;
        while i < supported.len()
            invariant
                i <= supported@.len(),
                found <==> exists|m: int| 0 <= m < i && supported@[m] == a,
            decreases supported@.len() - i,
        {
            if supported[i] == a {
                found = true;
            }
            i += 1;
        }
        if !found {
            proof {
                assert forall|m: int| 0 <= m < supported@.len() implies supported@[m] != a by {}
            }
            return Some(a);
        }
        k += 1;
    }
    None
}

/// The ranges of a device's axes as its absolute-axis state gives them; a
/// position range that is empty or reversed is refused (`None`).
pub fn touch_axis_caps(
    x: (i32, i32),
    y: (i32, i32),
    slot: (i32, i32),
    tracking: (i32, i32),
) -> (r: Option<TouchAxisCaps>)
    ensures
        (x.1 <= x.0 || y.1 <= y.0) ==> r is None,
        !(x.1 <= x.0 || y.1 <= y.0) ==> r == Some(TouchAxisCaps {
            x_min: x.0,
            x_max: x.1,
            y_min: y.0,
            y_max: y.1,
            slot_min: slot.0,
            slot_max: slot.1,
            tracking_min: tracking.0,
            tracking_max: tracking.1,
        }),
{
    if x.1 <= x.0 || y.1 <= y.0 {
        return None;
    }
    Some(TouchAxisCaps {
        x_min: x.0,
        x_max: x.1,
        y_min: y.0,
        y_max: y.1,
        slot_min: slot.0,
        slot_max: slot.1,
        tracking_min: tracking.0,
        tracking_max: tracking.1,
    })
}

impl TouchMapConfig {
    /// The mapping of a device with ranges `caps` onto the screen of `t`.
    pub fn from_parts(caps: TouchAxisCaps, t: TouchDisplayTransform) -> (r: TouchMapConfig)
        ensures
            r == (TouchMapConfig {
                min_x: caps.x_min,
                max_x: caps.x_max,
                min_y: caps.y_min,
                max_y: caps.y_max,
                width: t.width,
                height: t.height,
                rotation: t.rotation,
            }),
    {
        TouchMapConfig {
            min_x: caps.x_min,
            max_x: caps.x_max,
            min_y: caps.y_min,
            max_y: caps.y_max,
            width: t.width,
            height: t.height,
            rotation: t.rotation,
        }
    }
}

} // verus!
