use vstd::prelude::*;
use std::collections::HashMap;
use crate::touch_router::{
    InputRecord, PointerRoute, SlotState, EV_ABS, EV_KEY, EV_SYN, SYN_REPORT, ABS_MT_SLOT,
    ABS_MT_TRACKING_ID, ABS_MT_POSITION_X, ABS_MT_POSITION_Y, BTN_TOUCH, TOUCH_PACKET_DOWN,
    TOUCH_PACKET_MOVE, TOUCH_PACKET_UP, slot_of, route_of_pointer, passthrough_scan,
    any_passthrough_active, resolve_pointer_route, build_passthrough_frame_events,
    has_passthrough_active_touch,
};

verus! {

broadcast use vstd::std_specs::hash::group_hash_axioms;

/// A touch of a slot that waits for the end of its frame: what happened
/// (down, move or up), the pointer, its raw position and when the last
/// event about it came (microseconds on the caller's clock).
#[derive(Debug, Clone, Copy, PartialEq, Eq, Structural)]
pub struct PendingTouch {
    pub kind: u8,
    pub pointer_id: i32,
    pub raw_x: i32,
    pub raw_y: i32,
    pub event_time_us: u64,
}

// ---------------------------------------------------------------------------
// The pending touches of a frame, kept in increasing slot order.

/// Slots strictly increase along `s`.
pub open spec fn slots_increasing(s: Seq<(i32, PendingTouch)>) -> bool {
    forall|i: int, j: int| 0 <= i < j < s.len() ==> (#[trigger] s[i]).0 < (#[trigger] s[j]).0
}

/// Some entry of `s` is about slot `k`.
pub open spec fn lists_slot(s: Seq<(i32, PendingTouch)>, k: i32) -> bool {
    exists|i: int| 0 <= i < s.len() && (#[trigger] s[i]).0 == k
}

/// The pending touches of `s`, by slot.
pub open spec fn pending_map(s: Seq<(i32, PendingTouch)>) -> Map<i32, PendingTouch> {
    Map::new(
        |k: i32| lists_slot(s, k),
        |k: i32| s[choose|i: int| 0 <= i < s.len() && (#[trigger] s[i]).0 == k].1,
    )
}

proof fn lemma_pending_at(s: Seq<(i32, PendingTouch)>, i: int)
    requires
        slots_increasing(s),
        0 <= i < s.len(),
    ensures
        pending_map(s).contains_key(s[i].0),
        pending_map(s)[s[i].0] == s[i].1,
{
    let k = s[i].0;
    assert(lists_slot(s, k));
    let j = choose|j: int| 0 <= j < s.len() && (#[trigger] s[j]).0 == k;
    if j < i {
        assert(s[j].0 < s[i].0);
    } else if j > i {
        assert(s[i].0 < s[j].0);
    }
}

proof fn lemma_pending_ext(b: Seq<(i32, PendingTouch)>, m: Map<i32, PendingTouch>)
    requires
        slots_increasing(b),
        forall|k: i32| #[trigger] m.contains_key(k) <==> lists_slot(b, k),
        forall|i: int| 0 <= i < b.len() ==> m[(#[trigger] b[i]).0] == b[i].1,
    ensures
        pending_map(b) == m,
{
    assert forall|k: i32| #[trigger] pending_map(b).contains_key(k) implies pending_map(b)[k] == m[k] by {
        let i = choose|i: int| 0 <= i < b.len() && (#[trigger] b[i]).0 == k;
        lemma_pending_at(b, i);
    }
    assert(pending_map(b) =~= m);
}

/// Where `slot` stands in a pending list: the entries before the returned
/// index are about smaller slots; with `true` the entry at it is about
/// `slot`, else every entry from it on is about a larger slot.
fn pending_position(pending: &Vec<(i32, PendingTouch)>, slot: i32) -> (r: (usize, bool))
    requires
        slots_increasing(pending@),
    ensures
        r.0 <= pending@.len(),
        forall|j: int| 0 <= j < r.0 ==> (#[trigger] pending@[j]).0 < slot,
        r.1 ==> r.0 < pending@.len() && pending@[r.0 as int].0 == slot,
        !r.1 ==> forall|j: int| r.0 <= j < pending@.len() ==> slot < (#[trigger] pending@[j]).0,
{
    let mut i: usize = 0;
    while i < pending.len()
        invariant
            i <= pending@.len(),
            slots_increasing(pending@),
            forall|j: int| 0 <= j < i ==> (#[trigger] pending@[j]).0 < slot,
        decreases pending@.len() - i,
    {
        let s = pending[i].0;
        if s == slot {
            return (i, true);
        }
        if s > slot {
            assert forall|j: int| i <= j < pending@.len() implies slot < (#[trigger] pending@[j]).0 by {
                if j > i {
                    assert(pending@[i as int].0 < pending@[j].0);
                }
            }
            return (i, false);
        }
        i += 1;
    }
    (i, false)
}

/// Puts the touch `t` of slot `slot` among the pending touches, in place of
/// any touch of that slot.
fn pending_put(pending: &mut Vec<(i32, PendingTouch)>, slot: i32, t: PendingTouch)
    requires
        slots_increasing(old(pending)@),
    ensures
        slots_increasing(final(pending)@),
        pending_map(final(pending)@) == pending_map(old(pending)@).insert(slot, t),
{
    let ghost s = pending@;
    let (p, found) = pending_position(pending, slot);
    let ghost m = pending_map(s).insert(slot, t);
    if found {
        pending.set(p, (slot, t));
        proof {
            let b = pending@;
            assert(b == s.update(p as int, (slot, t)));
            assert forall|i: int, j: int| 0 <= i < j < b.len() implies (#[trigger] b[i]).0 < (#[trigger] b[j]).0 by {
                assert(s[i].0 < s[j].0);
            }
            assert forall|k: i32| #[trigger] m.contains_key(k) <==> lists_slot(b, k) by {
                if lists_slot(s, k) {
                    let i = choose|i: int| 0 <= i < s.len() && (#[trigger] s[i]).0 == k;
                    assert(b[i].0 == s[i].0);
                }
                if lists_slot(b, k) {
                    let i = choose|i: int| 0 <= i < b.len() && (#[trigger] b[i]).0 == k;
                    assert(b[i].0 == s[i].0);
                }
                assert(b[p as int].0 == slot);
            }
            assert forall|i: int| 0 <= i < b.len() implies m[(#[trigger] b[i]).0] == b[i].1 by {
                if i != p {
                    lemma_pending_at(s, i);
                    if i < p {
                        assert(s[i].0 < s[p as int].0);
                    } else {
                        assert(s[p as int].0 < s[i].0);
                    }
                }
            }
            lemma_pending_ext(b, m);
        }
    } else {
        pending.insert(p, (slot, t));
        proof {
            let b = pending@;
            assert(b == s.insert(p as int, (slot, t)));
            assert forall|i: int, j: int| 0 <= i < j < b.len() implies (#[trigger] b[i]).0 < (#[trigger] b[j]).0 by {
                if j < p {
                    assert(s[i].0 < s[j].0);
                } else if j == p {
                } else if i < p {
                    assert(b[j] == s[j - 1]);
                } else if i == p {
                    assert(b[j] == s[j - 1]);
                } else {
                    assert(b[i] == s[i - 1]);
                    assert(b[j] == s[j - 1]);
                    assert(s[i - 1].0 < s[j - 1].0);
                }
            }
            assert forall|k: i32| #[trigger] m.contains_key(k) <==> lists_slot(b, k) by {
                if lists_slot(s, k) {
                    let i = choose|i: int| 0 <= i < s.len() && (#[trigger] s[i]).0 == k;
                    if i < p {
                        assert(b[i] == s[i]);
                    } else {
                        assert(b[i + 1] == s[i]);
                    }
                }
                if lists_slot(b, k) {
                    let i = choose|i: int| 0 <= i < b.len() && (#[trigger] b[i]).0 == k;
                    if i < p {
                        assert(s[i] == b[i]);
                    } else if i > p {
                        assert(s[i - 1] == b[i]);
                    }
                }
                assert(b[p as int].0 == slot);
            }
            assert forall|i: int| 0 <= i < b.len() implies m[(#[trigger] b[i]).0] == b[i].1 by {
                if i != p {
                    let oi = if i < p { i } else { i - 1 };
                    assert(b[i] == s[oi]);
                    lemma_pending_at(s, oi);
                }
            }
            lemma_pending_ext(b, m);
        }
    }
}

/// The touch of `slot` in a pending list, when there is one.
fn pending_get(pending: &Vec<(i32, PendingTouch)>, slot: i32) -> (r: Option<PendingTouch>)
    requires
        slots_increasing(pending@),
    ensures
        r == (if pending_map(pending@).contains_key(slot) {
            Some(pending_map(pending@)[slot])
        } else {
            None::<PendingTouch>
        }),
{
    let (p, found) = pending_position(pending, slot);
    if found {
        proof {
            lemma_pending_at(pending@, p as int);
        }
        Some(pending[p].1)
    } else {
        proof {
            if lists_slot(pending@, slot) {
                let i = choose|i: int| 0 <= i < pending@.len() && (#[trigger] pending@[i]).0 == slot;
                if i < p {
                } else {
                }
            }
        }
        None
    }
}

// ---------------------------------------------------------------------------
// What one absolute-axis event does to the slots and the pending touches.

/// The slots after an absolute-axis event about the current slot `cur`.
pub open spec fn slots_after_abs(slots: Map<i32, SlotState>, cur: i32, code: u16, value: i32) -> Map<i32, SlotState> {
    let s = slot_of(slots, cur);
    if code == ABS_MT_TRACKING_ID {
        if value < 0 {
            slots.insert(cur, SlotState { active: false, pointer_id: -1i32, ..s })
        } else {
            slots.insert(cur, SlotState { active: true, pointer_id: value, ..s })
        }
    } else if code == ABS_MT_POSITION_X {
        slots.insert(cur, SlotState { raw_x: value, ..s })
    } else if code == ABS_MT_POSITION_Y {
        slots.insert(cur, SlotState { raw_y: value, ..s })
    } else {
        slots
    }
}

/// The pending touch of a slot moved to a new position `s` along x (or
/// else y): the one waiting, with that coordinate and time, or else a move
/// from where the slot is.
pub open spec fn moved_touch(
    pending: Map<i32, PendingTouch>,
    cur: i32,
    s: SlotState,
    along_x: bool,
    time_us: u64,
) -> PendingTouch {
    if pending.contains_key(cur) {
        if along_x {
            PendingTouch { raw_x: s.raw_x, event_time_us: time_us, ..pending[cur] }
        } else {
            PendingTouch { raw_y: s.raw_y, event_time_us: time_us, ..pending[cur] }
        }
    } else {
        PendingTouch {
            kind: TOUCH_PACKET_MOVE,
            pointer_id: s.pointer_id,
            raw_x: s.raw_x,
            raw_y: s.raw_y,
            event_time_us: time_us,
        }
    }
}

/// The pending touches after an absolute-axis event about the current slot
/// `cur`: a new tracking id puts the slot down, a negative one lifts an
/// active slot, and a position change of an active slot moves its touch.
pub open spec fn pending_after_abs(
    pending: Map<i32, PendingTouch>,
    slots: Map<i32, SlotState>,
    cur: i32,
    code: u16,
    value: i32,
    time_us: u64,
) -> Map<i32, PendingTouch> {
    let s = slot_of(slots, cur);
    if code == ABS_MT_TRACKING_ID {
        if value < 0 {
            if s.active {
                pending.insert(cur, PendingTouch {
                    kind: TOUCH_PACKET_UP,
                    pointer_id: s.pointer_id,
                    raw_x: s.raw_x,
                    raw_y: s.raw_y,
                    event_time_us: time_us,
                })
            } else {
                pending
            }
        } else {
            pending.insert(cur, PendingTouch {
                kind: TOUCH_PACKET_DOWN,
                pointer_id: value,
                raw_x: s.raw_x,
                raw_y: s.raw_y,
                event_time_us: time_us,
            })
        }
    } else if code == ABS_MT_POSITION_X && s.active {
        pending.insert(cur, moved_touch(pending, cur, SlotState { raw_x: value, ..s }, true, time_us))
    } else if code == ABS_MT_POSITION_Y && s.active {
        pending.insert(cur, moved_touch(pending, cur, SlotState { raw_y: value, ..s }, false, time_us))
    } else {
        pending
    }
}

// ---------------------------------------------------------------------------
// Routing the touches of a frame.

/// The route a touch takes, and the pointer routes after it.
pub open spec fn route_step(kind: u8, pointer_id: i32, hit: bool, routes: Map<i32, PointerRoute>) -> (PointerRoute, Map<i32, PointerRoute>) {
    if kind == TOUCH_PACKET_DOWN {
        let r = if hit { PointerRoute::Ui } else { PointerRoute::PassThrough };
        (r, routes.insert(pointer_id, r))
    } else if kind == TOUCH_PACKET_MOVE {
        (route_of_pointer(routes, pointer_id), routes)
    } else if kind == TOUCH_PACKET_UP {
        (route_of_pointer(routes, pointer_id), routes.remove(pointer_id))
    } else {
        (PointerRoute::PassThrough, routes)
    }
}

/// Routes the pending touches of a frame in order, each with its hit: the
/// route of each (none for a touch without a pointer), the pointer routes
/// after them, and the route decided for each slot in this frame.
pub open spec fn route_pending(
    pending: Seq<(i32, PendingTouch)>,
    hits: Seq<bool>,
    routes: Map<i32, PointerRoute>,
) -> (Seq<Option<PointerRoute>>, Map<i32, PointerRoute>, Map<i32, PointerRoute>)
    decreases pending.len(),
{
    if pending.len() == 0 {
        (Seq::empty(), routes, Map::empty())
    } else {
        let (rs, pr, fr) = route_pending(pending.drop_last(), hits.drop_last(), routes);
        let (slot, t) = pending.last();
        if t.pointer_id < 0 {
            (rs.push(None), pr, fr)
        } else {
            let (r, pr2) = route_step(t.kind, t.pointer_id, hits.last(), pr);
            (rs.push(Some(r)), pr2, fr.insert(slot, r))
        }
    }
}

/// The button event that tells the system whether the surface is touched.
pub open spec fn btn_touch_event(down: bool) -> InputRecord {
    InputRecord { event_type: EV_KEY, code: BTN_TOUCH, value: if down { 1 } else { 0 } }
}

/// What the end of a frame gives: the route of each pending touch, in the
/// order of the pending list (none for a touch without a pointer), and the
/// events that go through to the system.
#[derive(Debug, Clone)]
pub struct FrameOutput {
    pub routes: Vec<Option<PointerRoute>>,
    pub passthrough: Vec<InputRecord>,
}

/// The multi-touch state of a touch device as its events come: the slot
/// the events are about, the state of each slot, the touches waiting for
/// the end of the frame (by slot, in increasing order), the route of each
/// pointer, the events of the frame so far, the slot the frame began with,
/// and whether the system was last told the surface is touched.
pub struct TouchTracker {
    pub cur_slot: i32,
    pub slots: HashMap<i32, SlotState>,
    pub pending: Vec<(i32, PendingTouch)>,
    pub pointer_routes: HashMap<i32, PointerRoute>,
    pub frame_events: Vec<InputRecord>,
    pub frame_start_slot: i32,
    pub btn_touch_down: bool,
}

impl TouchTracker {
    /// The pending list stays in strictly increasing slot order.
    pub open spec fn wf(&self) -> bool {
        slots_increasing(self.pending@)
    }

    /// A tracker before any event: slot 0, nothing known, nothing pending.
    pub fn new() -> (r: Self)
        ensures
            r.wf(),
            r.cur_slot == 0,
            r.slots@ == Map::<i32, SlotState>::empty(),
            r.pending@ == Seq::<(i32, PendingTouch)>::empty(),
            r.pointer_routes@ == Map::<i32, PointerRoute>::empty(),
            r.frame_events@ == Seq::<InputRecord>::empty(),
            r.frame_start_slot == 0,
            !r.btn_touch_down,
    {
        TouchTracker {
            cur_slot: 0,
            slots: HashMap::new(),
            pending: Vec::new(),
            pointer_routes: HashMap::new(),
            frame_events: Vec::new(),
            frame_start_slot: 0,
            btn_touch_down: false,
        }
    }

    /// Takes one event of the device, which came at `time_us`. A
    /// synchronization report ends the frame: it changes nothing and the
    /// result says so, and the caller then routes the frame with
    /// `finish_frame`. Every other event joins the frame; an absolute-axis
    /// event also moves to another slot or updates the current slot and its
    /// pending touch.
    pub fn on_event(&mut self, ev: InputRecord, time_us: u64) -> (frame_end: bool)
        requires
            old(self).wf(),
        ensures
            final(self).wf(),
            frame_end == (ev.event_type == EV_SYN && ev.code == SYN_REPORT),
            frame_end ==> final(self).cur_slot == old(self).cur_slot
                && final(self).slots@ == old(self).slots@
                && final(self).pending@ == old(self).pending@
                && final(self).frame_events@ == old(self).frame_events@,
            !frame_end ==> final(self).frame_events@ == old(self).frame_events@.push(ev),
            !frame_end && ev.event_type != EV_ABS ==> final(self).cur_slot == old(self).cur_slot
                && final(self).slots@ == old(self).slots@
                && final(self).pending@ == old(self).pending@,
            ev.event_type == EV_ABS ==> {
                &&& final(self).cur_slot == (if ev.code == ABS_MT_SLOT {
                    ev.value
                } else {
                    old(self).cur_slot
                })
                &&& final(self).slots@ == (if ev.code == ABS_MT_SLOT {
                    old(self).slots@
                } else {
                    slots_after_abs(old(self).slots@, old(self).cur_slot, ev.code, ev.value)
                })
                &&& pending_map(final(self).pending@) == (if ev.code == ABS_MT_SLOT {
                    pending_map(old(self).pending@)
                } else {
                    pending_after_abs(
                        pending_map(old(self).pending@),
                        old(self).slots@,
                        old(self).cur_slot,
                        ev.code,
                        ev.value,
                        time_us,
                    )
                })
            },
            final(self).pointer_routes@ == old(self).pointer_routes@,
            final(self).frame_start_slot == old(self).frame_start_slot,
            final(self).btn_touch_down == old(self).btn_touch_down,
    {
        if ev.event_type == EV_SYN && ev.code == SYN_REPORT {
            return true;
        }
        self.frame_events.push(ev);
        if ev.event_type != EV_ABS {
            return false;
        }
        if ev.code == ABS_MT_SLOT {
            self.cur_slot = ev.value;
            return false;
        }
        let cur = self.cur_slot;
        let s = match self.slots.get(&cur) {
            Some(s) => *s,
            None => SlotState { active: false, pointer_id: 0, raw_x: 0, raw_y: 0 },
        };
        if ev.code == ABS_MT_TRACKING_ID {
            if ev.value < 0 {
                if s.active {
                    pending_put(&mut self.pending, cur, PendingTouch {
                        kind: TOUCH_PACKET_UP,
                        pointer_id: s.pointer_id,
                        raw_x: s.raw_x,
                        raw_y: s.raw_y,
                        event_time_us: time_us,
                    });
                }
                self.slots.insert(cur, SlotState { active: false, pointer_id: -1, ..s });
            } else {
                self.slots.insert(cur, SlotState { active: true, pointer_id: ev.value, ..s });
                pending_put(&mut self.pending, cur, PendingTouch {
                    kind: TOUCH_PACKET_DOWN,
                    pointer_id: ev.value,
                    raw_x: s.raw_x,
                    raw_y: s.raw_y,
                    event_time_us: time_us,
                });
            }
        } else if ev.code == ABS_MT_POSITION_X || ev.code == ABS_MT_POSITION_Y {
            let ns = if ev.code == ABS_MT_POSITION_X {
                SlotState { raw_x: ev.value, ..s }
            } else {
                SlotState { raw_y: ev.value, ..s }
            };
            self.slots.insert(cur, ns);
            if s.active {
                let t = match pending_get(&self.pending, cur) {
                    Some(p) => if ev.code == ABS_MT_POSITION_X {
                        PendingTouch { raw_x: ns.raw_x, event_time_us: time_us, ..p }
                    } else {
                        PendingTouch { raw_y: ns.raw_y, event_time_us: time_us, ..p }
                    },
                    None => PendingTouch {
                        kind: TOUCH_PACKET_MOVE,
                        pointer_id: ns.pointer_id,
                        raw_x: ns.raw_x,
                        raw_y: ns.raw_y,
                        event_time_us: time_us,
                    },
                };
                pending_put(&mut self.pending, cur, t);
            }
        }
        false
    }

    /// Ends a frame. Each pending touch with a pointer, in slot order, is
    /// routed as `resolve_pointer_route` does, with its entry of `hits`
    /// (whether its position hits the UI); the result gives these routes.
    /// The events of the frame that go through to the system come next,
    /// with the slot routes of this frame; then, when whether some pointer
    /// routed through is down changed, a `BTN_TOUCH` event that says so.
    /// The frame's events and touches are then dropped, and the next frame
    /// begins with the current slot.
    pub fn finish_frame(&mut self, hits: &Vec<bool>) -> (out: FrameOutput)
        requires
            old(self).wf(),
            hits@.len() == old(self).pending@.len(),
        ensures
            final(self).wf(),
            ({
                let (rs, pr, fr) = route_pending(old(self).pending@, hits@, old(self).pointer_routes@);
                let active = any_passthrough_active(old(self).slots@, pr);
                let through = passthrough_scan(
                    old(self).frame_events@,
                    old(self).frame_start_slot,
                    fr,
                    old(self).slots@,
                    pr,
                ).2;
                &&& out.routes@ == rs
                &&& final(self).pointer_routes@ == pr
                &&& out.passthrough@ == (if active != old(self).btn_touch_down {
                    through.push(btn_touch_event(active))
                } else {
                    through
                })
                &&& final(self).btn_touch_down == active
            }),
            final(self).cur_slot == old(self).cur_slot,
            final(self).slots@ == old(self).slots@,
            final(self).pending@ == Seq::<(i32, PendingTouch)>::empty(),
            final(self).frame_events@ == Seq::<InputRecord>::empty(),
            final(self).frame_start_slot == old(self).cur_slot,
    {
        let ghost routes0 = self.pointer_routes@;
        let mut routes: Vec<Option<PointerRoute>> = Vec::new();
        let mut frame_routes: HashMap<i32, PointerRoute> = HashMap::new();
        let mut i: usize = 0;
        while i < self.pending.len()
            invariant
                i <= self.pending@.len(),
                hits@.len() == self.pending@.len(),
                self.pending@ == old(self).pending@,
                self.slots@ == old(self).slots@,
                self.frame_events@ == old(self).frame_events@,
                self.cur_slot == old(self).cur_slot,
                self.frame_start_slot == old(self).frame_start_slot,
                self.btn_touch_down == old(self).btn_touch_down,
                slots_increasing(self.pending@),
                route_pending(self.pending@.take(i as int), hits@.take(i as int), routes0)
                    == (routes@, self.pointer_routes@, frame_routes@),
            decreases self.pending@.len() - i,
        {
            let (slot, t) = self.pending[i];
            let hit = hits[i];
            proof {
                assert(self.pending@.take(i + 1).drop_last() =~= self.pending@.take(i as int));
                assert(hits@.take(i + 1).drop_last() =~= hits@.take(i as int));
                assert(self.pending@.take(i + 1).last() == (slot, t));
                assert(hits@.take(i + 1).last() == hit);
            }
            if t.pointer_id < 0 {
                routes.push(None);
            } else {
                let r = resolve_pointer_route(t.kind, t.pointer_id, hit, &mut self.pointer_routes);
                frame_routes.insert(slot, r);
                routes.push(Some(r));
            }
            i += 1;
        }
        proof {
            assert(self.pending@.take(self.pending@.len() as int) =~= self.pending@);
            assert(hits@.take(hits@.len() as int) =~= hits@);
        }
        let mut passthrough = build_passthrough_frame_events(
            &self.frame_events,
            self.frame_start_slot,
            &frame_routes,
            &self.slots,
            &self.pointer_routes,
        );
        let active = has_passthrough_active_touch(&self.slots, &self.pointer_routes);
        if active != self.btn_touch_down {
            passthrough.push(InputRecord { event_type: EV_KEY, code: BTN_TOUCH, value: if active { 1 } else { 0 } });
            self.btn_touch_down = active;
        }
        self.frame_events.clear();
        self.pending.clear();
        self.frame_start_slot = self.cur_slot;
        FrameOutput { routes, passthrough }
    }

    /// Ends a frame without routing it: gives the pending touches in slot
    /// order and drops the frame's touches and events; the next frame
    /// begins with the current slot.
    pub fn take_frame(&mut self) -> (r: Vec<(i32, PendingTouch)>)
        requires
            old(self).wf(),
        ensures
            final(self).wf(),
            r@ == old(self).pending@,
            final(self).pending@ == Seq::<(i32, PendingTouch)>::empty(),
            final(self).frame_events@ == Seq::<InputRecord>::empty(),
            final(self).frame_start_slot == old(self).cur_slot,
            final(self).cur_slot == old(self).cur_slot,
            final(self).slots@ == old(self).slots@,
            final(self).pointer_routes@ == old(self).pointer_routes@,
            final(self).btn_touch_down == old(self).btn_touch_down,
    {
        let mut out: Vec<(i32, PendingTouch)> = Vec::new();
        std::mem::swap(&mut out, &mut self.pending);
        self.frame_events.clear();
        self.frame_start_slot = self.cur_slot;
        out
    }
}


} // verus!
