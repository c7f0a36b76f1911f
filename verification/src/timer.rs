//! Timers: four per CPU, eight in all. The two CPUs' timers differ only in the
//! clock they count and in which interrupt controller an overflow reaches.
//!
//! Each timer is a 16-bit counter with a reload value and a control register.
//! It counts its CPU's clock divided by 1, 64, 256 or 1024, or (timers 1-3) the
//! overflows of the timer before it.

use vstd::prelude::*;
use vstd::arithmetic::div_mod;
use crate::fixed;

verus! {

/// One past the largest counter value.
pub const COUNTER_LIMIT: u64 = 0x1_0000;

#[derive(Debug, Clone, Copy)]
pub struct Timer {
    /// Reload register: the counter restarts here.
    pub reload: u16,
    pub counter: u16,
    pub control: u16,
    /// Cycles counted towards the next tick.
    pub prescaler_counter: u32,
}

impl Timer {
    pub open spec fn running(self) -> bool {
        fixed::bit(self.control as int, 0x80)
    }

    pub open spec fn cascades(self) -> bool {
        fixed::bit(self.control as int, 4)
    }

    pub open spec fn interrupts(self) -> bool {
        fixed::bit(self.control as int, 0x40)
    }

    /// Cycles per tick.
    pub open spec fn divider(self) -> int {
        match self.control % 4 {
            0 => 1,
            1 => 64,
            2 => 256,
            _ => 1024,
        }
    }

    /// Ticks between two overflows.
    pub open spec fn period(self) -> int {
        COUNTER_LIMIT - self.reload
    }

    /// How often the counter overflows in `ticks` ticks.
    pub open spec fn overflows(self, ticks: int) -> int {
        if self.counter + ticks < COUNTER_LIMIT {
            0
        } else {
            1 + (self.counter + ticks - COUNTER_LIMIT) / self.period()
        }
    }

    /// The timer after `ticks` ticks: an overflow continues from the reload
    /// value.
    pub open spec fn counted(self, ticks: int) -> Timer {
        Timer {
            counter: if self.counter + ticks < COUNTER_LIMIT {
                (self.counter + ticks) as u16
            } else {
                (self.reload + (self.counter + ticks - COUNTER_LIMIT) % self.period()) as u16
            },
            ..self
        }
    }

    /// Ticks that `cycles` more cycles bring.
    pub open spec fn ticks(self, cycles: int) -> int {
        (self.prescaler_counter + cycles) / self.divider()
    }

    /// The timer after `cycles` cycles of its clock.
    pub open spec fn clocked(self, cycles: int) -> Timer {
        Timer {
            prescaler_counter: ((self.prescaler_counter + cycles) % self.divider()) as u32,
            ..self
        }.counted(self.ticks(cycles))
    }

    /// The timer after its control register is written: enabling it reloads
    /// the counter.
    pub open spec fn controlled(self, value: u16) -> Timer {
        if !self.running() && fixed::bit(value as int, 0x80) {
            Timer { control: value, counter: self.reload, prescaler_counter: 0, ..self }
        } else {
            Timer { control: value, ..self }
        }
    }

    pub fn enabled(&self) -> (r: bool)
        ensures
            r == self.running(),
    {
        fixed::has_bit(self.control as u32, 0x80)
    }

    pub fn cascade(&self) -> (r: bool)
        ensures
            r == self.cascades(),
    {
        fixed::has_bit(self.control as u32, 4)
    }

    pub fn irq_enabled(&self) -> (r: bool)
        ensures
            r == self.interrupts(),
    {
        fixed::has_bit(self.control as u32, 0x40)
    }

    pub fn prescaler(&self) -> (r: u32)
        ensures
            r == self.divider(),
    {
        match self.control % 4 {
            0 => 1,
            1 => 64,
            2 => 256,
            _ => 1024,
        }
    }

    /// Count ticks. Returns the number of overflows.
    pub fn increment(&mut self, ticks: u64) -> (r: u64)
        requires
            ticks <= 0x2_0000_0000,
        ensures
            *final(self) == old(self).counted(ticks as int),
            r == old(self).overflows(ticks as int),
            r <= ticks,
    {
        let total: u64 = self.counter as u64 + ticks;
        if total >= COUNTER_LIMIT {
            let range: u64 = COUNTER_LIMIT - self.reload as u64;
            let remaining: u64 = total - COUNTER_LIMIT;
            let extra: u64 = remaining / range;
            let offset: u64 = remaining % range;
            proof {
                div_mod::lemma_div_is_ordered_by_denominator(remaining as int, 1, range as int);
                div_mod::lemma_div_basics(remaining as int);
            }
            self.counter = (self.reload as u64 + offset) as u16;
            1 + extra
        } else {
            self.counter = total as u16;
            0
        }
    }
}

impl Default for Timer {
    fn default() -> (r: Self)
        ensures
            r == (Timer { reload: 0, counter: 0, control: 0, prescaler_counter: 0 }),
    {
        Timer { reload: 0, counter: 0, control: 0, prescaler_counter: 0 }
    }
}

/// One CPU's four timers.
#[derive(Debug, Clone, Copy)]
pub struct Timers {
    pub timers: [Timer; 4],
}

#[derive(Debug, Clone, Copy)]
pub struct TimerTickResult {
    /// Per-timer interrupt requests of this tick.
    pub irqs: [bool; 4],
}

impl Default for TimerTickResult {
    fn default() -> (r: Self)
        ensures
            r.irqs@ =~= seq![false, false, false, false],
    {
        TimerTickResult { irqs: [false; 4] }
    }
}

impl Timers {
    /// Whether timer `i` counts the overflows of the one before it.
    pub open spec fn chained(self, i: int) -> bool {
        i > 0 && self.timers[i].cascades()
    }

    /// How often timer `i` overflows within `cycles` cycles. A chained timer
    /// counts the overflows of the one before it.
    pub open spec fn overflow_count(self, cycles: int, i: int) -> int
        decreases i,
    {
        let t = self.timers[i];
        if !t.running() {
            0
        } else if self.chained(i) {
            t.overflows(self.overflow_count(cycles, i - 1))
        } else {
            t.overflows(t.ticks(cycles))
        }
    }

    /// Timer `i` after `cycles` cycles.
    pub open spec fn after(self, cycles: int, i: int) -> Timer {
        let t = self.timers[i];
        if !t.running() {
            t
        } else if self.chained(i) {
            t.counted(self.overflow_count(cycles, i - 1))
        } else {
            t.clocked(cycles)
        }
    }

    /// All timers after `cycles` cycles.
    pub open spec fn ticked(self, cycles: int) -> Timers {
        Timers {
            timers: [
                self.after(cycles, 0),
                self.after(cycles, 1),
                self.after(cycles, 2),
                self.after(cycles, 3),
            ],
        }
    }

    /// Whether timer `i` asks for an interrupt within `cycles` cycles.
    pub open spec fn fires(self, cycles: int, i: int) -> bool {
        self.overflow_count(cycles, i) > 0 && self.timers[i].interrupts()
    }

    pub fn new() -> (r: Self)
        ensures
            forall|i: int|
                0 <= i < 4 ==> (#[trigger] r.timers[i]) == (Timer {
                    reload: 0,
                    counter: 0,
                    control: 0,
                    prescaler_counter: 0,
                }),
    {
        let t: Timer = Timer { reload: 0, counter: 0, control: 0, prescaler_counter: 0 };
        Timers { timers: [t, t, t, t] }
    }

    pub fn read_counter(&self, id: usize) -> (r: u16)
        requires
            id < 4,
        ensures
            r == self.timers[id as int].counter,
    {
        self.timers[id].counter
    }

    pub fn read_control(&self, id: usize) -> (r: u16)
        requires
            id < 4,
        ensures
            r == self.timers[id as int].control,
    {
        self.timers[id].control
    }

    pub fn write_reload(&mut self, id: usize, value: u16)
        requires
            id < 4,
        ensures
            final(self).timers@ == old(self).timers@.update(
                id as int,
                Timer { reload: value, ..old(self).timers[id as int] },
            ),
    {
        self.timers[id].reload = value;
    }

    pub fn write_control(&mut self, id: usize, value: u16)
        requires
            id < 4,
        ensures
            final(self).timers@ == old(self).timers@.update(
                id as int,
                old(self).timers[id as int].controlled(value),
            ),
    {
        let was_enabled: bool = self.timers[id].enabled();
        self.timers[id].control = value;
        let now_enabled: bool = self.timers[id].enabled();
        if !was_enabled && now_enabled {
            self.timers[id].counter = self.timers[id].reload;
            self.timers[id].prescaler_counter = 0;
        }
    }

    /// Tick all four timers by `cycles` cycles of this CPU's clock.
    pub fn tick(&mut self, cycles: u32) -> (result: TimerTickResult)
        ensures
            *final(self) == old(self).ticked(cycles as int),
            forall|i: int|
                0 <= i < 4 ==> (#[trigger] result.irqs[i]) == old(self).fires(cycles as int, i),
    {
        let ghost start = *self;
        let mut irqs: [bool; 4] = [false; 4];
        let mut prev_overflows: u64 = 0;
        for i in 0..4usize
            invariant
                forall|k: int| 0 <= k < i ==> self.timers[k] == start.after(cycles as int, k),
                forall|k: int| i <= k < 4 ==> self.timers[k] == start.timers[k],
                forall|k: int| 0 <= k < i ==> irqs[k] == start.fires(cycles as int, k),
                forall|k: int| i <= k < 4 ==> !irqs[k],
                i > 0 ==> prev_overflows == start.overflow_count(cycles as int, i - 1),
                prev_overflows <= 0x2_0000_0000,
        {
            let mut t: Timer = self.timers[i];
            let mut overflows: u64 = 0;
            if t.enabled() {
                if t.cascade() && i > 0 {
                    overflows = t.increment(prev_overflows);
                } else {
                    let total: u64 = t.prescaler_counter as u64 + cycles as u64;
                    let divider: u64 = t.prescaler() as u64;
                    let ticks: u64 = total / divider;
                    t.prescaler_counter = (total % divider) as u32;
                    overflows = t.increment(ticks);
                }
            }
            prev_overflows = overflows;
            assert(prev_overflows == start.overflow_count(cycles as int, i as int));
            self.timers[i] = t;
            if overflows > 0 && t.irq_enabled() {
                irqs[i] = true;
            }
        }
        assert(self.timers =~= start.ticked(cycles as int).timers);
        TimerTickResult { irqs }
    }
}

impl Default for Timers {
    fn default() -> (r: Self)
        ensures
            forall|i: int|
                0 <= i < 4 ==> (#[trigger] r.timers[i]) == (Timer {
                    reload: 0,
                    counter: 0,
                    control: 0,
                    prescaler_counter: 0,
                }),
    {
        Self::new()
    }
}

/// Counting in two steps is counting once: the counter ends at the same value
/// and no overflow is lost.
pub proof fn law_counting_adds_up(t: Timer, a: int, b: int)
    requires
        a >= 0,
        b >= 0,
    ensures
        t.counted(a).counted(b) == t.counted(a + b),
        t.overflows(a) + t.counted(a).overflows(b) == t.overflows(a + b),
{
    let p = t.period();
    if t.counter + a >= COUNTER_LIMIT {
        let r = t.counter + a - COUNTER_LIMIT;
        let q = r / p;
        let m = r % p;
        div_mod::lemma_fundamental_div_mod(r, p);
        div_mod::lemma_mod_bound(r, p);
        let u = t.counted(a);
        assert(u.counter == t.reload + m);
        if m + b < p {
            div_mod::lemma_fundamental_div_mod_converse(r + b, p, q, m + b);
        } else {
            let s = m + b - p;
            div_mod::lemma_fundamental_div_mod(s, p);
            div_mod::lemma_mod_bound(s, p);
            assert(r + b == p * (q + 1 + s / p) + s % p) by (nonlinear_arith)
                requires
                    r == p * q + m,
                    s == m + b - p,
                    s == p * (s / p) + s % p,
            ;
            div_mod::lemma_fundamental_div_mod_converse(r + b, p, q + 1 + s / p, s % p);
            assert(r + b == t.counter + (a + b) - COUNTER_LIMIT);
        }
        assert(r + b == t.counter + (a + b) - COUNTER_LIMIT);
    }
}

/// Clocking a timer in two steps is clocking it once.
proof fn lemma_clocking_adds_up(t: Timer, a: int, b: int)
    requires
        0 <= a,
        0 <= b,
    ensures
        t.clocked(a).clocked(b) == t.clocked(a + b),
        t.overflows(t.ticks(a)) + t.clocked(a).overflows(t.clocked(a).ticks(b)) == t.overflows(
            t.ticks(a + b),
        ),
{
    let d = t.divider();
    let u = t.clocked(a);
    assert(u.divider() == d);
    assert(0 <= t.ticks(a));
    assert(0 <= u.ticks(b));
    assert(t.ticks(a) + u.ticks(b) == t.ticks(a + b));
    law_counting_adds_up(t, t.ticks(a), u.ticks(b));
}

proof fn lemma_overflow_count_positive(ts: Timers, cycles: int, i: int)
    requires
        0 <= cycles,
        0 <= i < 4,
    ensures
        0 <= ts.overflow_count(cycles, i),
    decreases i,
{
    let t = ts.timers[i];
    let ticks = if ts.chained(i) { ts.overflow_count(cycles, i - 1) } else { t.ticks(cycles) };
    if ts.chained(i) {
        lemma_overflow_count_positive(ts, cycles, i - 1);
    }
    if t.counter + ticks >= COUNTER_LIMIT {
        div_mod::lemma_div_pos_is_pos(t.counter + ticks - COUNTER_LIMIT, t.period());
    }
}

proof fn lemma_timer_adds_up(ts: Timers, a: int, b: int, i: int)
    requires
        0 <= a,
        0 <= b,
        0 <= i < 4,
    ensures
        ts.ticked(a).after(b, i) == ts.after(a + b, i),
        ts.overflow_count(a, i) + ts.ticked(a).overflow_count(b, i) == ts.overflow_count(a + b, i),
    decreases i,
{
    let t = ts.timers[i];
    let us = ts.ticked(a);
    assert(us.timers[i] == ts.after(a, i));
    assert(us.timers[i].control == t.control);
    if t.running() {
        if ts.chained(i) {
            lemma_timer_adds_up(ts, a, b, i - 1);
            lemma_overflow_count_positive(ts, a, i - 1);
            lemma_overflow_count_positive(us, b, i - 1);
            law_counting_adds_up(
                t,
                ts.overflow_count(a, i - 1),
                us.overflow_count(b, i - 1),
            );
        } else {
            lemma_clocking_adds_up(t, a, b);
        }
    }
}

/// Ticking in two steps is ticking once, for all four timers, chained ones
/// too: the result does not depend on how the cycles are handed over, no overflow
/// is lost, and an interrupt comes in one step or the other exactly where it comes
/// in one.
pub proof fn law_clocking_adds_up(ts: Timers, a: int, b: int)
    requires
        0 <= a,
        0 <= b,
    ensures
        ts.ticked(a).ticked(b) == ts.ticked(a + b),
        forall|i: int|
            0 <= i < 4 ==> ts.overflow_count(a, i) + ts.ticked(a).overflow_count(b, i)
                == #[trigger] ts.overflow_count(a + b, i),
        forall|i: int|
            0 <= i < 4 ==> (#[trigger] ts.fires(a + b, i) <==> ts.fires(a, i) || ts.ticked(a).fires(
                b,
                i,
            )),
{
    assert forall|i: int| 0 <= i < 4 implies ts.overflow_count(a, i) + ts.ticked(a).overflow_count(
        b,
        i,
    ) == #[trigger] ts.overflow_count(a + b, i) by {
        lemma_timer_adds_up(ts, a, b, i);
    }
    assert forall|i: int| 0 <= i < 4 implies (#[trigger] ts.fires(a + b, i) <==> ts.fires(a, i)
        || ts.ticked(a).fires(b, i)) by {
        lemma_timer_adds_up(ts, a, b, i);
        lemma_overflow_count_positive(ts, a, i);
        lemma_overflow_count_positive(ts.ticked(a), b, i);
        assert(ts.ticked(a).timers[i] == ts.after(a, i));
    }
    lemma_timer_adds_up(ts, a, b, 0);
    lemma_timer_adds_up(ts, a, b, 1);
    lemma_timer_adds_up(ts, a, b, 2);
    lemma_timer_adds_up(ts, a, b, 3);
    assert(ts.ticked(a).ticked(b).timers =~= ts.ticked(a + b).timers);
}

/// A timer that counts the overflows of the one before it moves by as many ticks
/// as that one overflowed.
pub proof fn law_cascade_counts_overflows(ts: Timers, cycles: int, i: int)
    requires
        0 <= cycles,
        0 < i < 4,
        ts.timers[i].running(),
        ts.timers[i].cascades(),
    ensures
        ts.ticked(cycles).timers[i] == ts.timers[i].counted(ts.overflow_count(cycles, i - 1)),
{
}

/// The counter never leaves the span from the reload value to the limit once it
/// has overflowed, and a timer that is switched off keeps its counter.
pub proof fn law_counter_span(ts: Timers, cycles: int, i: int)
    requires
        0 <= cycles,
        0 <= i < 4,
    ensures
        !ts.timers[i].running() ==> ts.after(cycles, i) == ts.timers[i],
        ts.overflow_count(cycles, i) > 0 ==> ts.timers[i].reload <= ts.after(cycles, i).counter,
{
    let t = ts.timers[i];
    if ts.overflow_count(cycles, i) > 0 {
        let ticks = if ts.chained(i) { ts.overflow_count(cycles, i - 1) } else { t.ticks(cycles) };
        div_mod::lemma_mod_bound(t.counter + ticks - COUNTER_LIMIT, t.period());
    }
}

/// A timer that runs on its own clock counts up by one every 1, 64, 256 or 1024
/// cycles, as the two lowest bits of its control register select, and by nothing
/// before that.
pub proof fn law_prescaler(ts: Timers, i: int, n: int, rest: int)
    requires
        0 <= i < 4,
        ts.timers[i].control / 0x80 % 2 == 1,
        ts.timers[i].control / 4 % 2 == 0 || i == 0,
        ts.timers[i].prescaler_counter == 0,
        0 <= n,
        ts.timers[i].counter + n < 0x1_0000,
        0 <= rest < (if ts.timers[i].control % 4 == 0 {
            1int
        } else if ts.timers[i].control % 4 == 1 {
            64
        } else if ts.timers[i].control % 4 == 2 {
            256
        } else {
            1024
        }),
    ensures
        ({
            let t = ts.timers[i];
            let d: int = if t.control % 4 == 0 {
                1
            } else if t.control % 4 == 1 {
                64
            } else if t.control % 4 == 2 {
                256
            } else {
                1024
            };
            let after = ts.ticked(n * d + rest).timers[i];
            &&& after.counter == t.counter + n
            &&& after.prescaler_counter == rest
            &&& after.reload == t.reload
            &&& after.control == t.control
            &&& ts.overflow_count(n * d + rest, i) == 0
        }),
{
    let t = ts.timers[i];
    let d = t.divider();
    let cycles = n * d + rest;
    div_mod::lemma_fundamental_div_mod_converse(cycles, d, n, rest);
    assert(ts.ticked(cycles).timers[i] == ts.after(cycles, i));
}

/// Past its last value a timer goes on from its reload value, and an overflow asks for
/// an interrupt where control bit 6 is set.
pub proof fn law_overflow_reloads(ts: Timers, cycles: int, i: int)
    requires
        0 <= i < 4,
        0 <= cycles,
        ts.timers[i].control / 0x80 % 2 == 1,
        ts.timers[i].control / 4 % 2 == 0 || i == 0,
        ts.timers[i].control % 4 == 0,
        ts.timers[i].prescaler_counter == 0,
        ts.timers[i].counter + cycles == 0x1_0000,
    ensures
        ts.ticked(cycles).timers[i].counter == ts.timers[i].reload,
        ts.overflow_count(cycles, i) == 1,
        ts.fires(cycles, i) == (ts.timers[i].control / 0x40 % 2 == 1),
{
    let t = ts.timers[i];
    assert(t.divider() == 1);
    assert((t.prescaler_counter + cycles) / 1 == cycles);
    assert(t.counter + cycles - COUNTER_LIMIT == 0);
    div_mod::lemma_basic_div(0, t.period());
    div_mod::lemma_small_mod(0, t.period() as nat);
    assert(ts.ticked(cycles).timers[i] == ts.after(cycles, i));
}

/// Control bit 7 starts a timer: one that was stopped then takes its reload value; one
/// that was running keeps its count. A stopped timer stays where it is.
pub proof fn law_start_reloads(t: Timer, value: u16)
    ensures
        t.controlled(value).control == value,
        t.controlled(value).reload == t.reload,
        t.control / 0x80 % 2 == 0 && value / 0x80 % 2 == 1 ==> t.controlled(value).counter
            == t.reload && t.controlled(value).prescaler_counter == 0,
        t.control / 0x80 % 2 == 1 || value / 0x80 % 2 == 0 ==> t.controlled(value).counter
            == t.counter && t.controlled(value).prescaler_counter == t.prescaler_counter,
{
}

/// Control bit 2 makes timers 1 to 3 count the overflows of the timer before: with one
/// overflow there it moves one on, whatever its clock selection.
pub proof fn law_chained_timer_counts_one(ts: Timers, cycles: int, i: int)
    requires
        0 < i < 4,
        0 <= cycles,
        ts.timers[i].control / 0x80 % 2 == 1,
        ts.timers[i].control / 4 % 2 == 1,
        ts.timers[i].counter < 0xFFFF,
        ts.overflow_count(cycles, i - 1) <= 1,
    ensures
        ts.ticked(cycles).timers[i].counter == ts.timers[i].counter + ts.overflow_count(
            cycles,
            i - 1,
        ),
{
    lemma_overflow_count_positive(ts, cycles, i - 1);
    assert(ts.ticked(cycles).timers[i] == ts.after(cycles, i));
}

} // verus!
