use vstd::prelude::*;
use std::collections::VecDeque;
use crate::api::Status;

verus! {

/// A typed character; its codepoint is a Unicode scalar value.
pub const KEYBOARD_EVENT_KIND_CHAR: u32 = 1;

/// A deletion of the character before the caret.
pub const KEYBOARD_EVENT_KIND_BACKSPACE: u32 = 2;

/// The end of an input.
pub const KEYBOARD_EVENT_KIND_DONE: u32 = 3;

/// The input field took the focus.
pub const KEYBOARD_EVENT_KIND_FOCUS_ON: u32 = 4;

/// The input field lost the focus.
pub const KEYBOARD_EVENT_KIND_FOCUS_OFF: u32 = 5;

/// Most keyboard events kept; older ones are dropped first.
pub const KEYBOARD_EVENT_QUEUE_MAX: usize = 1024;

/// A keyboard event, numbered in the order it was submitted.
#[derive(Clone, Copy, Debug, PartialEq, Eq, Structural)]
pub struct KeyboardEvent {
    pub seq: u64,
    pub kind: u32,
    pub codepoint: u32,
}

/// A number is a Unicode scalar value: at most `0x10FFFF` and not a
/// surrogate.
pub open spec fn is_scalar_value(v: u32) -> bool {
    v <= 0x10ffff && !(0xd800 <= v <= 0xdfff)
}

/// A keyboard event is acceptable: a character with a scalar value, or one
/// of the other kinds with codepoint zero.
pub open spec fn keyboard_event_ok(kind: u32, codepoint: u32) -> bool {
    if kind == KEYBOARD_EVENT_KIND_CHAR {
        is_scalar_value(codepoint)
    } else if kind == KEYBOARD_EVENT_KIND_BACKSPACE || kind == KEYBOARD_EVENT_KIND_DONE || kind
        == KEYBOARD_EVENT_KIND_FOCUS_ON || kind == KEYBOARD_EVENT_KIND_FOCUS_OFF {
        codepoint == 0
    } else {
        false
    }
}

/// Accepts an event as `keyboard_event_ok` says; anything else is an
/// invalid argument.
pub fn validate_keyboard_event(kind: u32, codepoint: u32) -> (r: Result<(), Status>)
    ensures
        keyboard_event_ok(kind, codepoint) ==> r is Ok,
        !keyboard_event_ok(kind, codepoint) ==> r == Err::<(), Status>(Status::InvalidArgument),
{
    if kind == KEYBOARD_EVENT_KIND_CHAR {
        if codepoint > 0x10ffff || (0xd800 <= codepoint && codepoint <= 0xdfff) {
            return Err(Status::InvalidArgument);
        }
        return Ok(());
    }
    if kind == KEYBOARD_EVENT_KIND_BACKSPACE || kind == KEYBOARD_EVENT_KIND_DONE || kind
        == KEYBOARD_EVENT_KIND_FOCUS_ON || kind == KEYBOARD_EVENT_KIND_FOCUS_OFF {
        if codepoint != 0 {
            return Err(Status::InvalidArgument);
        }
        return Ok(());
    }
    Err(Status::InvalidArgument)
}

/// The keyboard events not yet dropped, and the last number given out.
#[derive(Debug)]
pub struct KeyboardState {
    next_seq: u64,
    events: VecDeque<KeyboardEvent>,
}

/// The index of the first event numbered after `last_seq`, if any.
pub open spec fn first_after(events: Seq<KeyboardEvent>, last_seq: u64) -> Option<int>
    decreases events.len(),
{
    if events.len() == 0 {
        None
    } else if events[0].seq > last_seq {
        Some(0)
    } else {
        match first_after(events.drop_first(), last_seq) {
            Some(i) => Some(i + 1),
            None => None,
        }
    }
}

impl KeyboardState {
    /// The events kept, oldest first.
    pub closed spec fn events(&self) -> Seq<KeyboardEvent> {
        self.events@
    }

    /// The number of the last submitted event (zero before any).
    pub closed spec fn last_seq(&self) -> u64 {
        self.next_seq
    }

    /// At most `KEYBOARD_EVENT_QUEUE_MAX` events, numbered in order and
    /// never past the last number given out.
    pub closed spec fn wf(&self) -> bool {
        &&& self.events@.len() <= KEYBOARD_EVENT_QUEUE_MAX
        &&& forall|i: int, j: int|
            0 <= i < j < self.events@.len() ==> self.events@[i].seq <= self.events@[j].seq
        &&& forall|i: int| 0 <= i < self.events@.len() ==> self.events@[i].seq <= self.next_seq
    }

    /// No event yet.
    pub fn new() -> (r: Self)
        ensures
            r.wf(),
            r.events() == Seq::<KeyboardEvent>::empty(),
            r.last_seq() == 0,
    {
        KeyboardState { next_seq: 0, events: VecDeque::new() }
    }

    /// Numbers and keeps an acceptable event (the number after the last,
    /// stuck at the largest `u64`), dropping the oldest events beyond
    /// `KEYBOARD_EVENT_QUEUE_MAX`; an unacceptable one is an invalid argument
    /// and changes nothing.
    pub fn submit(&mut self, kind: u32, codepoint: u32) -> (r: Result<KeyboardEvent, Status>)
        requires
            old(self).wf(),
        ensures
            final(self).wf(),
            !keyboard_event_ok(kind, codepoint) ==> r == Err::<KeyboardEvent, Status>(
                Status::InvalidArgument,
            ) && *final(self) == *old(self),
            keyboard_event_ok(kind, codepoint) ==> {
                let seq = if old(self).last_seq() == u64::MAX {
                    u64::MAX
                } else {
                    (old(self).last_seq() + 1) as u64
                };
                let e = KeyboardEvent { seq, kind, codepoint };
                let all = old(self).events().push(e);
                &&& r == Ok::<KeyboardEvent, Status>(e)
                &&& final(self).last_seq() == seq
                &&& final(self).events() == if all.len() > KEYBOARD_EVENT_QUEUE_MAX {
                    all.subrange(all.len() - KEYBOARD_EVENT_QUEUE_MAX, all.len() as int)
                } else {
                    all
                }
            },
    {
        match validate_keyboard_event(kind, codepoint) {
            Ok(()) => {},
            Err(s) => return Err(s),
        }
        self.next_seq = self.next_seq.saturating_add(1);
        let event = KeyboardEvent { seq: self.next_seq, kind, codepoint };
        let ghost all = old(self).events@.push(event);
        self.events.push_back(event);
        if self.events.len() > KEYBOARD_EVENT_QUEUE_MAX {
            let _ = self.events.pop_front();
            assert(self.events@ =~= all.subrange(all.len() - KEYBOARD_EVENT_QUEUE_MAX, all.len() as int));
        }
        Ok(event)
    }

    /// The first event numbered after `last_seq`, if one is kept.
    pub fn event_after(&self, last_seq: u64) -> (r: Option<KeyboardEvent>)
        requires
            self.wf(),
        ensures
            match first_after(self.events(), last_seq) {
                Some(i) => r == Some(self.events()[i]),
                None => r is None,
            },
    {
        let mut i: usize = 0;
        assert(self.events@.subrange(0, self.events@.len() as int) =~= self.events@);
        while i < self.events.len()
            invariant
                i <= self.events@.len(),
                forall|j: int| 0 <= j < i ==> self.events@[j].seq <= last_seq,
                first_after(self.events@, last_seq) == match first_after(
                    self.events@.subrange(i as int, self.events@.len() as int),
                    last_seq,
                ) {
                    Some(k) => Some(k + i),
                    None => None::<int>,
                },
            decreases self.events@.len() - i,
        {
            let ghost rest = self.events@.subrange(i as int, self.events@.len() as int);
            assert(rest.drop_first() =~= self.events@.subrange(i + 1, self.events@.len() as int));
            let e = self.events[i];
            if e.seq > last_seq {
                return Some(e);
            }
            i += 1;
        }
        None
    }
}

} // verus!
