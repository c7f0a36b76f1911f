//! Cycle-based event scheduler. Timestamps are in ARM7 cycles (1 ARM7 cycle = 2
//! ARM9 cycles). The earliest event fires first; among events of the same time,
//! the one scheduled first.

use vstd::prelude::*;

verus! {

/// Which CPU an event is associated with (when applicable).
#[derive(Debug, Clone, Copy, PartialEq, Eq, Structural)]
pub enum CpuId {
    Arm9,
    Arm7,
}

#[derive(Debug, Clone, Copy, PartialEq, Eq, Structural)]
pub enum EventKind {
    /// Start of HBlank: the visible part of the scanline is finished.
    HBlank,
    /// End of HBlank: advance VCOUNT.
    HBlankEnd,
    /// VBlank: line 192 transition. Fires on both CPUs.
    VBlank,
    /// Timer overflow on `(cpu, id)`.
    TimerOverflow(CpuId, u8),
    /// DMA channel completion on `(cpu, channel)`.
    DmaComplete(CpuId, u8),
    /// 32768 Hz audio sample tick.
    AudioSample,
    /// GXFIFO has dropped below half-full.
    GxFifoLow,
    /// Slot-1 cart command/data transfer complete.
    Slot1Done,
    /// AUXSPI byte transfer complete.
    AuxSpiDone,
    /// 3D engine swap-buffers latched at frame boundary.
    SwapBuffers,
}

#[derive(Debug, Clone, Copy, PartialEq, Eq, Structural)]
pub struct Event {
    pub fire_time: u64,
    pub kind: EventKind,
}

#[derive(Debug, Clone)]
pub struct Scheduler {
    timestamp: u64,
    events: Vec<Event>,
}

/// The scheduler as contracts speak of it: the time, and the scheduled events in
/// the order in which they were scheduled.
#[verifier::ext_equal]
pub struct SchedulerState {
    pub timestamp: u64,
    pub events: Seq<Event>,
}

impl View for Scheduler {
    type V = SchedulerState;

    closed spec fn view(&self) -> SchedulerState {
        SchedulerState { timestamp: self.timestamp, events: self.events@ }
    }
}

/// Position of the first event with the least time among the first `n`.
pub open spec fn earliest(events: Seq<Event>, n: int) -> int
    decreases n,
{
    if n <= 1 {
        0
    } else {
        let i = earliest(events, n - 1);
        if events[n - 1].fire_time < events[i].fire_time { n - 1 } else { i }
    }
}

/// The events that are not of a kind.
pub open spec fn without_kind(events: Seq<Event>, kind: EventKind) -> Seq<Event>
    decreases events.len(),
{
    if events.len() == 0 {
        Seq::empty()
    } else if events.last().kind == kind {
        without_kind(events.drop_last(), kind)
    } else {
        without_kind(events.drop_last(), kind).push(events.last())
    }
}

impl SchedulerState {
    /// Position of the event that fires next.
    pub open spec fn next(self) -> int {
        earliest(self.events, self.events.len() as int)
    }

    /// The time of the next event.
    pub open spec fn next_time(self) -> Option<u64> {
        if self.events.len() == 0 {
            None
        } else {
            Some(self.events[self.next()].fire_time)
        }
    }

    /// The event that is due.
    pub open spec fn due(self) -> Option<Event> {
        if self.events.len() > 0 && self.events[self.next()].fire_time <= self.timestamp {
            Some(self.events[self.next()])
        } else {
            None
        }
    }

    /// After the due event is taken, if there is one.
    pub open spec fn taken(self) -> SchedulerState {
        if self.due() is Some {
            SchedulerState { events: self.events.remove(self.next()), ..self }
        } else {
            self
        }
    }
}

proof fn lemma_earliest(events: Seq<Event>, n: int)
    requires
        1 <= n <= events.len(),
    ensures
        0 <= earliest(events, n) < n,
        forall|i: int|
            0 <= i < n ==> events[earliest(events, n)].fire_time <= (#[trigger] events[i]).fire_time,
        forall|i: int|
            0 <= i < earliest(events, n) ==> events[earliest(events, n)].fire_time < (
            #[trigger] events[i]).fire_time,
    decreases n,
{
    if n > 1 {
        lemma_earliest(events, n - 1);
    }
}

/// The event taken has the least time of all, and is the first scheduled among
/// those of that time.
pub proof fn law_earliest_event_fires_first(s: SchedulerState, i: int)
    requires
        0 <= i < s.events.len(),
    ensures
        0 <= s.next() < s.events.len(),
        s.events[s.next()].fire_time <= s.events[i].fire_time,
        i < s.next() ==> s.events[s.next()].fire_time < s.events[i].fire_time,
{
    lemma_earliest(s.events, s.events.len() as int);
}

/// No event fires before its time, and a due event is never held back.
pub proof fn law_events_fire_on_time(s: SchedulerState)
    ensures
        s.due() matches Some(e) ==> e.fire_time <= s.timestamp && s.taken().events.len()
            == s.events.len() - 1,
        s.due() is None ==> forall|i: int|
            0 <= i < s.events.len() ==> (#[trigger] s.events[i]).fire_time > s.timestamp,
{
    if s.events.len() > 0 {
        lemma_earliest(s.events, s.events.len() as int);
    }
}

/// Cancelling a kind removes every event of it and no other.
pub proof fn law_cancel_removes_kind(events: Seq<Event>, kind: EventKind, e: Event)
    ensures
        without_kind(events, kind).contains(e) == (events.contains(e) && e.kind != kind),
    decreases events.len(),
{
    if events.len() > 0 {
        let rest = events.drop_last();
        law_cancel_removes_kind(rest, kind, e);
        let out = without_kind(events, kind);
        let before = without_kind(rest, kind);
        if events.contains(e) {
            let k = events.index_of(e);
            if k < rest.len() {
                assert(rest[k] == e);
            }
        }
        if rest.contains(e) {
            assert(events[rest.index_of(e)] == e);
        }
        if e == events.last() {
            assert(events[events.len() - 1] == e);
        }
        if events.last().kind != kind {
            if before.contains(e) {
                assert(out[before.index_of(e)] == e);
            }
            if e == events.last() {
                assert(out[before.len() as int] == e);
            }
            if out.contains(e) {
                let k = out.index_of(e);
                if k < before.len() {
                    assert(before[k] == e);
                }
            }
        }
    }
}

impl Scheduler {
    pub fn new() -> (r: Self)
        ensures
            r@ == (SchedulerState { timestamp: 0, events: Seq::empty() }),
    {
        Scheduler { timestamp: 0, events: Vec::new() }
    }

    pub fn timestamp(&self) -> (r: u64)
        ensures
            r == self@.timestamp,
    {
        self.timestamp
    }

    /// Move time forward; it wraps around.
    pub fn add_cycles(&mut self, cycles: u64)
        ensures
            final(self)@ == (SchedulerState {
                timestamp: ((old(self)@.timestamp + cycles) % 0x1_0000_0000_0000_0000) as u64,
                ..old(self)@
            }),
    {
        self.timestamp = self.timestamp.wrapping_add(cycles);
    }

    /// Move time forward to `time`; never back.
    pub fn advance_to(&mut self, time: u64)
        ensures
            final(self)@ == (SchedulerState {
                timestamp: if time > old(self)@.timestamp { time } else { old(self)@.timestamp },
                ..old(self)@
            }),
    {
        if time > self.timestamp {
            self.timestamp = time;
        }
    }

    pub fn schedule(&mut self, event: Event)
        ensures
            final(self)@ == (SchedulerState {
                events: old(self)@.events.push(event),
                ..old(self)@
            }),
    {
        self.events.push(event);
    }

    /// Position of the next event.
    fn find_next(&self) -> (r: usize)
        requires
            self@.events.len() > 0,
        ensures
            r == self@.next(),
            r < self@.events.len(),
    {
        let mut best: usize = 0;
        for i in 1..self.events.len()
            invariant
                self@.events.len() > 0,
                best == earliest(self@.events, i as int),
                best < i,
        {
            if self.events[i].fire_time < self.events[best].fire_time {
                best = i;
            }
        }
        best
    }

    /// The time of the next event.
    pub fn peek_time(&self) -> (r: Option<u64>)
        ensures
            r == self@.next_time(),
    {
        if self.events.len() == 0 {
            return None;
        }
        Some(self.events[self.find_next()].fire_time)
    }

    /// Take the next event if its time has come.
    pub fn pop_if_ready(&mut self) -> (r: Option<Event>)
        ensures
            r == old(self)@.due(),
            final(self)@ == old(self)@.taken(),
    {
        if self.events.len() == 0 {
            return None;
        }
        let i: usize = self.find_next();
        if self.events[i].fire_time <= self.timestamp {
            Some(self.events.remove(i))
        } else {
            None
        }
    }

    /// Drop every event of a kind.
    pub fn cancel(&mut self, kind: EventKind)
        ensures
            final(self)@ == (SchedulerState {
                events: without_kind(old(self)@.events, kind),
                ..old(self)@
            }),
    {
        let ghost start = self@.events;
        let mut remaining: Vec<Event> = Vec::new();
        for i in 0..self.events.len()
            invariant
                self@.events == start,
                remaining@ == without_kind(start.take(i as int), kind),
        {
            let e: Event = self.events[i];
            assert(start.take(i + 1).drop_last() =~= start.take(i as int));
            if e.kind != kind {
                remaining.push(e);
            }
        }
        assert(start.take(start.len() as int) =~= start);
        self.events = remaining;
    }
}

/// The due event is the one with the least time, the first scheduled among equals; taking
/// it takes that event and no other, and leaves the time.
pub proof fn law_due_event_is_taken(s: SchedulerState, i: int)
    requires
        0 <= i < s.events.len(),
    ensures
        s.next_time() matches Some(t) && t <= s.events[i].fire_time,
        s.due() matches Some(e) ==> {
            &&& e.fire_time <= s.events[i].fire_time
            &&& s.events.contains(e)
            &&& s.taken().events.to_multiset() == s.events.to_multiset().remove(e)
            &&& s.taken().timestamp == s.timestamp
        },
        s.due() is None ==> s.taken() == s,
{
    lemma_earliest(s.events, s.events.len() as int);
    vstd::seq_lib::to_multiset_remove(s.events, s.next());
}

/// Cancelling keeps the order of the events that remain: it goes through a list part by
/// part.
pub proof fn law_cancel_keeps_order(a: Seq<Event>, b: Seq<Event>, kind: EventKind)
    ensures
        without_kind(a + b, kind) == without_kind(a, kind) + without_kind(b, kind),
    decreases b.len(),
{
    if b.len() == 0 {
        assert(a + b =~= a);
        assert(without_kind(a, kind) + without_kind(b, kind) =~= without_kind(a, kind));
    } else {
        assert((a + b).drop_last() =~= a + b.drop_last());
        assert((a + b).last() == b.last());
        law_cancel_keeps_order(a, b.drop_last(), kind);
        if b.last().kind != kind {
            assert((without_kind(a, kind) + without_kind(b.drop_last(), kind)).push(b.last())
                =~= without_kind(a, kind) + without_kind(b.drop_last(), kind).push(b.last()));
        }
    }
}

} // verus!
