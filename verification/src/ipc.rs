//! Inter-processor communication: `IPCSYNC` (doorbell) and `IPCFIFO`.
//!
//! Both CPUs see the same registers from their own side: what one sends is what
//! the other receives.

use vstd::prelude::*;
use std::collections::VecDeque;
use crate::fixed;
use crate::interrupt::{InterruptController, Irq};

verus! {

/// Maximum FIFO depth (one direction).
pub const FIFO_DEPTH: usize = 16;

/// Which CPU is performing the operation.
#[derive(Debug, Clone, Copy, PartialEq, Eq, Structural)]
pub enum Side {
    Arm9,
    Arm7,
}

impl Side {
    /// The CPU on the other side.
    pub open spec fn peer(self) -> Side {
        match self {
            Side::Arm9 => Side::Arm7,
            Side::Arm7 => Side::Arm9,
        }
    }

    pub fn other(self) -> (r: Side)
        ensures
            r == self.peer(),
    {
        match self {
            Side::Arm9 => Side::Arm7,
            Side::Arm7 => Side::Arm9,
        }
    }
}

/// The link between the two CPUs.
#[derive(Debug, Clone)]
pub struct Ipc {
    /// 4-bit value that the other CPU sees.
    pub sync_arm9_send: u8,
    pub sync_arm7_send: u8,
    /// Bit 14 of IPCSYNC: interrupt this CPU when the other rings.
    pub sync_arm9_recv_irq_en: bool,
    pub sync_arm7_recv_irq_en: bool,
    /// Bit 15 of FIFOCNT: master enable.
    pub fifo_arm9_enable: bool,
    pub fifo_arm7_enable: bool,
    /// Bit 2 of FIFOCNT: send-FIFO-empty IRQ enable.
    pub fifo_arm9_send_empty_irq: bool,
    pub fifo_arm7_send_empty_irq: bool,
    /// Bit 10 of FIFOCNT: receive-FIFO-not-empty IRQ enable.
    pub fifo_arm9_recv_irq: bool,
    pub fifo_arm7_recv_irq: bool,
    /// Sticky error flag: set on read-empty or write-full, write-1 to clear.
    pub fifo_arm9_error: bool,
    pub fifo_arm7_error: bool,
    /// Outgoing FIFOs. `9to7` is what ARM9 sends and ARM7 receives.
    pub fifo_9to7: VecDeque<u32>,
    pub fifo_7to9: VecDeque<u32>,
    /// Last word received, returned on read-empty.
    pub last_popped_9: u32,
    pub last_popped_7: u32,
}

/// One CPU's side of the link.
#[verifier::ext_equal]
pub struct SideState {
    pub sync_send: u8,
    pub sync_irq: bool,
    pub enable: bool,
    pub send_empty_irq: bool,
    pub recv_irq: bool,
    pub error: bool,
    pub last_popped: u32,
    /// Words sent and not yet received by the other side.
    pub outgoing: Seq<u32>,
}

/// The link as contracts speak of it.
#[verifier::ext_equal]
pub struct IpcState {
    pub arm9: SideState,
    pub arm7: SideState,
}

impl View for Ipc {
    type V = IpcState;

    open spec fn view(&self) -> IpcState {
        IpcState {
            arm9: SideState {
                sync_send: self.sync_arm9_send,
                sync_irq: self.sync_arm9_recv_irq_en,
                enable: self.fifo_arm9_enable,
                send_empty_irq: self.fifo_arm9_send_empty_irq,
                recv_irq: self.fifo_arm9_recv_irq,
                error: self.fifo_arm9_error,
                last_popped: self.last_popped_9,
                outgoing: self.fifo_9to7@,
            },
            arm7: SideState {
                sync_send: self.sync_arm7_send,
                sync_irq: self.sync_arm7_recv_irq_en,
                enable: self.fifo_arm7_enable,
                send_empty_irq: self.fifo_arm7_send_empty_irq,
                recv_irq: self.fifo_arm7_recv_irq,
                error: self.fifo_arm7_error,
                last_popped: self.last_popped_7,
                outgoing: self.fifo_7to9@,
            },
        }
    }
}

/// A register bit that is set under a condition.
pub open spec fn flag(condition: bool, weight: int) -> int {
    if condition { weight } else { 0 }
}

impl IpcState {
    /// Neither FIFO exceeds its depth.
    pub open spec fn wf(self) -> bool {
        self.arm9.outgoing.len() <= FIFO_DEPTH && self.arm7.outgoing.len() <= FIFO_DEPTH
    }

    pub open spec fn side(self, side: Side) -> SideState {
        match side {
            Side::Arm9 => self.arm9,
            Side::Arm7 => self.arm7,
        }
    }

    pub open spec fn with_side(self, side: Side, s: SideState) -> IpcState {
        match side {
            Side::Arm9 => IpcState { arm9: s, ..self },
            Side::Arm7 => IpcState { arm7: s, ..self },
        }
    }

    /// `IPCSYNC` as a CPU reads it: the other's value, its own value, its IRQ
    /// enable.
    pub open spec fn sync_register(self, side: Side) -> int {
        self.side(side.peer()).sync_send as int % 16 + self.side(side).sync_send as int % 16 * 0x100
            + flag(self.side(side).sync_irq, 0x4000)
    }

    /// After a CPU writes `IPCSYNC`.
    pub open spec fn sync_written(self, side: Side, val: u16) -> IpcState {
        self.with_side(
            side,
            SideState {
                sync_send: (val as int / 0x100 % 16) as u8,
                sync_irq: fixed::bit(val as int, 0x4000),
                ..self.side(side)
            },
        )
    }

    /// Whether a write to `IPCSYNC` interrupts the other CPU.
    pub open spec fn sync_rings(self, side: Side, val: u16) -> bool {
        fixed::bit(val as int, 0x2000) && self.side(side.peer()).sync_irq
    }

    /// `IPCFIFOCNT` as a CPU reads it.
    pub open spec fn fifo_register(self, side: Side) -> int {
        let mine = self.side(side);
        let incoming = self.side(side.peer()).outgoing;
        flag(mine.outgoing.len() == 0, 1) + flag(mine.outgoing.len() == FIFO_DEPTH, 2) + flag(
            mine.send_empty_irq,
            4,
        ) + flag(incoming.len() == 0, 0x100) + flag(incoming.len() == FIFO_DEPTH, 0x200) + flag(
            mine.recv_irq,
            0x400,
        ) + flag(mine.error, 0x4000) + flag(mine.enable, 0x8000)
    }

    /// The bits of `IPCFIFOCNT` that are latched: 2, 10 and 15; bit 14
    /// acknowledges the error.
    pub open spec fn fifocnt_latched(self, side: Side, val: u16) -> IpcState {
        let mine = self.side(side);
        self.with_side(
            side,
            SideState {
                send_empty_irq: fixed::bit(val as int, 4),
                recv_irq: fixed::bit(val as int, 0x400),
                enable: fixed::bit(val as int, 0x8000),
                error: mine.error && !fixed::bit(val as int, 0x4000),
                ..mine
            },
        )
    }

    /// The interrupts of newly enabled conditions that already hold.
    pub open spec fn newly_enabled(self, side: Side, val: u16) -> FifoCntEffects {
        let mine = self.side(side);
        FifoCntEffects {
            raise_send_empty_on_self: !mine.send_empty_irq && fixed::bit(val as int, 4)
                && mine.outgoing.len() == 0,
            raise_recv_not_empty_on_self: !mine.recv_irq && fixed::bit(val as int, 0x400)
                && self.side(side.peer()).outgoing.len() > 0,
        }
    }

    /// Bit 3 of `IPCFIFOCNT` empties the writer's send FIFO.
    pub open spec fn fifocnt_cleared(self, side: Side, val: u16) -> IpcState {
        if fixed::bit(val as int, 8) {
            self.with_side(side, SideState { outgoing: Seq::empty(), ..self.side(side) })
        } else {
            self
        }
    }

    /// After a CPU writes `IPCFIFOCNT`.
    pub open spec fn fifocnt_written(self, side: Side, val: u16) -> IpcState {
        self.fifocnt_cleared(side, val).fifocnt_latched(side, val)
    }

    /// The interrupts that a write to `IPCFIFOCNT` raises on the writer.
    pub open spec fn fifocnt_effects(self, side: Side, val: u16) -> FifoCntEffects {
        self.fifocnt_cleared(side, val).newly_enabled(side, val)
    }

    /// Whether a word that a CPU sends enters its FIFO.
    pub open spec fn accepts(self, side: Side) -> bool {
        self.side(side).enable && self.side(side).outgoing.len() < FIFO_DEPTH
    }

    /// After a CPU sends a word: it is queued, or dropped with the error flag
    /// set where the FIFO is full; with the FIFO disabled nothing happens.
    pub open spec fn sent(self, side: Side, val: u32) -> IpcState {
        let mine = self.side(side);
        if !mine.enable {
            self
        } else if mine.outgoing.len() >= FIFO_DEPTH {
            self.with_side(side, SideState { error: true, ..mine })
        } else {
            self.with_side(side, SideState { outgoing: mine.outgoing.push(val), ..mine })
        }
    }

    /// Whether sending a word interrupts the other CPU: its receive FIFO was
    /// empty and it asked for the interrupt.
    pub open spec fn send_rings(self, side: Side) -> bool {
        self.accepts(side) && self.side(side).outgoing.len() == 0 && self.side(side.peer()).recv_irq
    }

    /// After a CPU receives: the oldest word leaves the other's FIFO; an empty
    /// FIFO sets the error flag; with the FIFO disabled nothing happens.
    pub open spec fn received(self, side: Side) -> IpcState {
        let mine = self.side(side);
        let theirs = self.side(side.peer());
        if !mine.enable {
            self
        } else if theirs.outgoing.len() == 0 {
            self.with_side(side, SideState { error: true, ..mine })
        } else {
            self.with_side(
                side,
                SideState { last_popped: theirs.outgoing[0], ..mine },
            ).with_side(
                side.peer(),
                SideState { outgoing: theirs.outgoing.drop_first(), ..theirs },
            )
        }
    }

    /// The word that a CPU receives: the oldest one, the last one again where
    /// none is left, 0 with the FIFO disabled.
    pub open spec fn received_word(self, side: Side) -> u32 {
        let theirs = self.side(side.peer());
        if !self.side(side).enable {
            0
        } else if theirs.outgoing.len() == 0 {
            self.side(side).last_popped
        } else {
            theirs.outgoing[0]
        }
    }

    /// Whether receiving interrupts the other CPU: its send FIFO became empty
    /// and it asked for the interrupt.
    pub open spec fn receive_rings(self, side: Side) -> bool {
        let theirs = self.side(side.peer());
        self.side(side).enable && theirs.outgoing.len() == 1 && theirs.send_empty_irq
    }
}

/// The link at power-on.
pub open spec fn silent() -> IpcState {
    let s = SideState {
        sync_send: 0,
        sync_irq: false,
        enable: false,
        send_empty_irq: false,
        recv_irq: false,
        error: false,
        last_popped: 0,
        outgoing: Seq::empty(),
    };
    IpcState { arm9: s, arm7: s }
}

/// Words arrive in the order in which they were sent: receiving gives the
/// oldest word, and a word sent in between goes behind the others.
pub proof fn law_words_arrive_in_order(s: IpcState, side: Side, val: u32)
    requires
        s.wf(),
        s.side(side).enable,
        s.accepts(side.peer()),
    ensures
        ({
            let waiting = s.side(side.peer()).outgoing;
            let t = s.sent(side.peer(), val);
            &&& t.side(side.peer()).outgoing == waiting.push(val)
            &&& waiting.len() == 0 ==> t.received_word(side) == val
            &&& waiting.len() > 0 ==> t.received_word(side) == waiting[0]
            &&& t.received(side).side(side.peer()).outgoing == waiting.push(val).drop_first()
            &&& t.received(side).side(side).last_popped == t.received_word(side)
        }),
{
}

/// The FIFO depth is never exceeded, whatever either CPU does.
pub proof fn law_depth_bounded(s: IpcState, side: Side, cnt: u16, val: u32)
    requires
        s.wf(),
    ensures
        s.sync_written(side, cnt).wf(),
        s.fifocnt_written(side, cnt).wf(),
        s.sent(side, val).wf(),
        s.received(side).wf(),
{
}

/// Sending to a full FIFO loses the word and sets the sender's error flag, which
/// stays until it is acknowledged.
pub proof fn law_error_is_sticky(s: IpcState, side: Side, val: u32)
    requires
        s.side(side).enable,
    ensures
        s.side(side).outgoing.len() >= FIFO_DEPTH ==> s.sent(side, val).side(side).error && s.sent(
            side,
            val,
        ).side(side).outgoing == s.side(side).outgoing,
        s.side(side.peer()).outgoing.len() == 0 ==> s.received(side).side(side).error,
        s.side(side).error ==> s.sent(side, val).side(side).error && s.received(side).side(
            side,
        ).error,
        !s.fifocnt_written(side, 0x4000).side(side).error,
{
}

/// The two CPUs see each other's `IPCSYNC` values crosswise, and the doorbell
/// bit itself is not latched.
pub proof fn law_sync_crosses(s: IpcState, side: Side, val: u16)
    ensures
        ({
            let t = s.sync_written(side, val);
            &&& t.sync_register(side.peer()) % 16 == val as int / 0x100 % 16
            &&& t.sync_register(side) / 0x100 % 16 == val as int / 0x100 % 16
            &&& !fixed::bit(t.sync_register(side), 0x2000)
        }),
{
}

impl Ipc {
    pub fn new() -> (r: Self)
        ensures
            r@ == silent(),
            r@.wf(),
    {
        Self::default()
    }

    /// Read IPCSYNC from `side`'s perspective.
    pub fn read_sync(&self, side: Side) -> (r: u16)
        ensures
            r == self@.sync_register(side),
    {
        let (mine, others, my_irq_en): (u8, u8, bool) = match side {
            Side::Arm9 => (self.sync_arm9_send, self.sync_arm7_send, self.sync_arm9_recv_irq_en),
            Side::Arm7 => (self.sync_arm7_send, self.sync_arm9_send, self.sync_arm7_recv_irq_en),
        };
        let mut v: u16 = (others % 16) as u16 + (mine % 16) as u16 * 0x100;
        if my_irq_en {
            v = v + 0x4000;
        }
        v
    }

    /// Write IPCSYNC from `side`'s perspective. Returns true if the other CPU
    /// is to be interrupted: bit 13 is set and it enabled the interrupt. The
    /// caller then raises `Irq::IpcSync` on its controller.
    pub fn write_sync(&mut self, side: Side, val: u16) -> (r: bool)
        ensures
            final(self)@ == old(self)@.sync_written(side, val),
            r == old(self)@.sync_rings(side, val),
    {
        let send_data: u8 = ((val / 0x100) % 16) as u8;
        let my_recv_irq_en: bool = fixed::has_bit(val as u32, 0x4000);
        let trigger: bool = fixed::has_bit(val as u32, 0x2000);
        match side {
            Side::Arm9 => {
                self.sync_arm9_send = send_data;
                self.sync_arm9_recv_irq_en = my_recv_irq_en;
                trigger && self.sync_arm7_recv_irq_en
            },
            Side::Arm7 => {
                self.sync_arm7_send = send_data;
                self.sync_arm7_recv_irq_en = my_recv_irq_en;
                trigger && self.sync_arm9_recv_irq_en
            },
        }
    }

    /// Read FIFOCNT from `side`'s perspective.
    pub fn read_fifocnt(&self, side: Side) -> (r: u16)
        ensures
            r == self@.fifo_register(side),
    {
        let (enable, send_irq, recv_irq, error, sent, waiting): (
            bool,
            bool,
            bool,
            bool,
            usize,
            usize,
        ) = match side {
            Side::Arm9 => (
                self.fifo_arm9_enable,
                self.fifo_arm9_send_empty_irq,
                self.fifo_arm9_recv_irq,
                self.fifo_arm9_error,
                self.fifo_9to7.len(),
                self.fifo_7to9.len(),
            ),
            Side::Arm7 => (
                self.fifo_arm7_enable,
                self.fifo_arm7_send_empty_irq,
                self.fifo_arm7_recv_irq,
                self.fifo_arm7_error,
                self.fifo_7to9.len(),
                self.fifo_9to7.len(),
            ),
        };
        let mut v: u16 = 0;
        if sent == 0 {
            v = v + 1;
        }
        if sent == FIFO_DEPTH {
            v = v + 2;
        }
        if send_irq {
            v = v + 4;
        }
        if waiting == 0 {
            v = v + 0x100;
        }
        if waiting == FIFO_DEPTH {
            v = v + 0x200;
        }
        if recv_irq {
            v = v + 0x400;
        }
        if error {
            v = v + 0x4000;
        }
        if enable {
            v = v + 0x8000;
        }
        v
    }

    /// Write FIFOCNT from `side`. Returns the interrupts that need to be raised
    /// as a result.
    pub fn write_fifocnt(&mut self, side: Side, val: u16) -> (effects: FifoCntEffects)
        ensures
            final(self)@ == old(self)@.fifocnt_written(side, val),
            effects == old(self)@.fifocnt_effects(side, val),
    {
        if fixed::has_bit(val as u32, 8) {
            self.clear_queue(side);
        }
        match side {
            Side::Arm9 => self.write_fifocnt_arm9(val),
            Side::Arm7 => self.write_fifocnt_arm7(val),
        }
    }

    /// Empty a send FIFO.
    fn clear_queue(&mut self, side: Side)
        ensures
            final(self)@ == old(self)@.with_side(
                side,
                SideState { outgoing: Seq::empty(), ..old(self)@.side(side) },
            ),
    {
        match side {
            Side::Arm9 => self.fifo_9to7.clear(),
            Side::Arm7 => self.fifo_7to9.clear(),
        }
    }

    /// The latched bits of ARM9's FIFOCNT.
    fn write_fifocnt_arm9(&mut self, val: u16) -> (effects: FifoCntEffects)
        ensures
            final(self)@ == old(self)@.fifocnt_latched(Side::Arm9, val),
            effects == old(self)@.newly_enabled(Side::Arm9, val),
    {
        let send_irq: bool = fixed::has_bit(val as u32, 4);
        let recv_irq: bool = fixed::has_bit(val as u32, 0x400);
        let effects = FifoCntEffects {
            raise_send_empty_on_self: !self.fifo_arm9_send_empty_irq && send_irq
                && self.fifo_9to7.len() == 0,
            raise_recv_not_empty_on_self: !self.fifo_arm9_recv_irq && recv_irq
                && self.fifo_7to9.len() > 0,
        };
        self.fifo_arm9_send_empty_irq = send_irq;
        self.fifo_arm9_recv_irq = recv_irq;
        self.fifo_arm9_enable = fixed::has_bit(val as u32, 0x8000);
        if fixed::has_bit(val as u32, 0x4000) {
            self.fifo_arm9_error = false;
        }
        effects
    }

    /// The latched bits of ARM7's FIFOCNT.
    fn write_fifocnt_arm7(&mut self, val: u16) -> (effects: FifoCntEffects)
        ensures
            final(self)@ == old(self)@.fifocnt_latched(Side::Arm7, val),
            effects == old(self)@.newly_enabled(Side::Arm7, val),
    {
        let send_irq: bool = fixed::has_bit(val as u32, 4);
        let recv_irq: bool = fixed::has_bit(val as u32, 0x400);
        let effects = FifoCntEffects {
            raise_send_empty_on_self: !self.fifo_arm7_send_empty_irq && send_irq
                && self.fifo_7to9.len() == 0,
            raise_recv_not_empty_on_self: !self.fifo_arm7_recv_irq && recv_irq
                && self.fifo_9to7.len() > 0,
        };
        self.fifo_arm7_send_empty_irq = send_irq;
        self.fifo_arm7_recv_irq = recv_irq;
        self.fifo_arm7_enable = fixed::has_bit(val as u32, 0x8000);
        if fixed::has_bit(val as u32, 0x4000) {
            self.fifo_arm7_error = false;
        }
        effects
    }

    /// Push a word into `side`'s send FIFO. Returns true if the caller should
    /// raise `Irq::IpcRecvNotEmpty` on the other CPU.
    pub fn write_send(&mut self, side: Side, val: u32) -> (r: bool)
        ensures
            final(self)@ == old(self)@.sent(side, val),
            r == old(self)@.send_rings(side),
    {
        match side {
            Side::Arm9 => {
                if !self.fifo_arm9_enable {
                    return false;
                }
                let waiting: usize = self.fifo_9to7.len();
                if waiting >= FIFO_DEPTH {
                    // Overflow: drop the word, set the sender's error flag.
                    self.fifo_arm9_error = true;
                    return false;
                }
                self.fifo_9to7.push_back(val);
                waiting == 0 && self.fifo_arm7_recv_irq
            },
            Side::Arm7 => {
                if !self.fifo_arm7_enable {
                    return false;
                }
                let waiting: usize = self.fifo_7to9.len();
                if waiting >= FIFO_DEPTH {
                    self.fifo_arm7_error = true;
                    return false;
                }
                self.fifo_7to9.push_back(val);
                waiting == 0 && self.fifo_arm9_recv_irq
            },
        }
    }

    /// Pop a word from `side`'s receive FIFO. The second result is true if the
    /// caller should raise `Irq::IpcSendEmpty` on the other CPU.
    pub fn read_recv(&mut self, side: Side) -> (r: (u32, bool))
        ensures
            final(self)@ == old(self)@.received(side),
            r.0 == old(self)@.received_word(side),
            r.1 == old(self)@.receive_rings(side),
    {
        let ghost start = self@;
        match side {
            Side::Arm9 => {
                if !self.fifo_arm9_enable {
                    return (0, false);
                }
                match self.fifo_7to9.pop_front() {
                    None => {
                        // Empty: the last word comes again, with an error.
                        self.fifo_arm9_error = true;
                        assert(self@ =~= start.received(side));
                        (self.last_popped_9, false)
                    },
                    Some(val) => {
                        self.last_popped_9 = val;
                        assert(self.fifo_7to9@ =~= start.arm7.outgoing.drop_first());
                        (val, self.fifo_7to9.len() == 0 && self.fifo_arm7_send_empty_irq)
                    },
                }
            },
            Side::Arm7 => {
                if !self.fifo_arm7_enable {
                    return (0, false);
                }
                match self.fifo_9to7.pop_front() {
                    None => {
                        self.fifo_arm7_error = true;
                        assert(self@ =~= start.received(side));
                        (self.last_popped_7, false)
                    },
                    Some(val) => {
                        self.last_popped_7 = val;
                        assert(self.fifo_9to7@ =~= start.arm9.outgoing.drop_first());
                        (val, self.fifo_9to7.len() == 0 && self.fifo_arm9_send_empty_irq)
                    },
                }
            },
        }
    }
}

impl Default for Ipc {
    fn default() -> (r: Self)
        ensures
            r@ == silent(),
            r@.wf(),
    {
        let r = Ipc {
            sync_arm9_send: 0,
            sync_arm7_send: 0,
            sync_arm9_recv_irq_en: false,
            sync_arm7_recv_irq_en: false,
            fifo_arm9_enable: false,
            fifo_arm7_enable: false,
            fifo_arm9_send_empty_irq: false,
            fifo_arm7_send_empty_irq: false,
            fifo_arm9_recv_irq: false,
            fifo_arm7_recv_irq: false,
            fifo_arm9_error: false,
            fifo_arm7_error: false,
            fifo_9to7: VecDeque::new(),
            fifo_7to9: VecDeque::new(),
            last_popped_9: 0,
            last_popped_7: 0,
        };
        assert(r@ =~= silent());
        r
    }
}

/// Effects of writing FIFOCNT: extra interrupts the I/O dispatcher must raise.
#[derive(Debug, Clone, Copy)]
pub struct FifoCntEffects {
    pub raise_send_empty_on_self: bool,
    pub raise_recv_not_empty_on_self: bool,
}

impl Default for FifoCntEffects {
    fn default() -> (r: Self)
        ensures
            !r.raise_send_empty_on_self,
            !r.raise_recv_not_empty_on_self,
    {
        FifoCntEffects { raise_send_empty_on_self: false, raise_recv_not_empty_on_self: false }
    }
}

/// Interrupt the other CPU: its doorbell rang.
pub fn raise_ipc_sync(other_irq: &mut InterruptController)
    ensures
        *final(other_irq) == old(other_irq).raised(Irq::IpcSync.mask()),
{
    other_irq.request(Irq::IpcSync);
}

/// Interrupt the other CPU: its receive FIFO has words.
pub fn raise_recv_not_empty(other_irq: &mut InterruptController)
    ensures
        *final(other_irq) == old(other_irq).raised(Irq::IpcRecvNotEmpty.mask()),
{
    other_irq.request(Irq::IpcRecvNotEmpty);
}

/// Interrupt the other CPU: its send FIFO is empty.
pub fn raise_send_empty(other_irq: &mut InterruptController)
    ensures
        *final(other_irq) == old(other_irq).raised(Irq::IpcSendEmpty.mask()),
{
    other_irq.request(Irq::IpcSendEmpty);
}

/// `IPCSYNC` shows the other CPU's four bits lowest, the own four bits from bit 8 on
/// and the interrupt enable in bit 14. Bit 13 of a write rings where the other CPU has
/// enabled it, and only there.
pub proof fn law_sync_fields(s: IpcState, side: Side, val: u16)
    requires
        s.side(side).sync_send < 16,
        s.side(side.peer()).sync_send < 16,
    ensures
        ({
            let v = s.sync_register(side);
            let t = s.sync_written(side, val);
            &&& v % 16 == s.side(side.peer()).sync_send
            &&& v / 0x100 % 16 == s.side(side).sync_send
            &&& (v / 0x4000 % 2 == 1) == s.side(side).sync_irq
            &&& t.side(side).sync_send == val / 0x100 % 16
            &&& t.side(side).sync_irq == (val / 0x4000 % 2 == 1)
            &&& t.side(side.peer()) == s.side(side.peer())
            &&& s.sync_rings(side, val) == (val / 0x2000 % 2 == 1 && s.side(side.peer()).sync_irq)
        }),
{
    let a = s.side(side.peer()).sync_send as int;
    let b = s.side(side).sync_send as int;
    let c: int = if s.side(side).sync_irq { 1 } else { 0 };
    let v = s.sync_register(side);
    assert(v == a + 0x100 * b + 0x4000 * c);
    assert(v / 0x100 == b + 0x40 * c);
    assert(v / 0x4000 == c);
}

/// `IPCFIFOCNT`: bits 0 and 1 send FIFO empty and full, bit 2 its interrupt, bits 8 and
/// 9 receive FIFO empty and full, bit 10 its interrupt, bit 14 the error, bit 15 the
/// enable.
pub proof fn law_fifo_register_fields(s: IpcState, side: Side)
    ensures
        ({
            let v = s.fifo_register(side);
            let mine = s.side(side);
            let theirs = s.side(side.peer());
            &&& (v % 2 == 1) == (mine.outgoing.len() == 0)
            &&& (v / 2 % 2 == 1) == (mine.outgoing.len() == 16)
            &&& (v / 4 % 2 == 1) == mine.send_empty_irq
            &&& (v / 0x100 % 2 == 1) == (theirs.outgoing.len() == 0)
            &&& (v / 0x200 % 2 == 1) == (theirs.outgoing.len() == 16)
            &&& (v / 0x400 % 2 == 1) == mine.recv_irq
            &&& (v / 0x4000 % 2 == 1) == mine.error
            &&& (v / 0x8000 == 1) == mine.enable
        }),
{
    let mine = s.side(side);
    let theirs = s.side(side.peer());
    let a = flag(mine.outgoing.len() == 0, 1);
    let b = flag(mine.outgoing.len() == FIFO_DEPTH, 1);
    let c = flag(mine.send_empty_irq, 1);
    let d = flag(theirs.outgoing.len() == 0, 1);
    let e = flag(theirs.outgoing.len() == FIFO_DEPTH, 1);
    let f = flag(mine.recv_irq, 1);
    let g = flag(mine.error, 1);
    let h = flag(mine.enable, 1);
    let v = s.fifo_register(side);
    let v6 = g + 2 * h;
    let v5 = f + 0x10 * v6;
    let v4 = e + 2 * v5;
    let v3 = d + 2 * v4;
    let v2 = c + 0x40 * v3;
    let v1 = b + 2 * v2;
    assert(v == a + 2 * v1);
    fixed::lemma_low_field(v, a, v1, 2);
    fixed::lemma_low_field(v1, b, v2, 2);
    fixed::lemma_low_field(v2, c, v3, 0x40);
    fixed::lemma_low_field(v3, d, v4, 2);
    fixed::lemma_low_field(v4, e, v5, 2);
    fixed::lemma_low_field(v5, f, v6, 0x10);
    fixed::lemma_low_field(v6, g, h, 2);
    vstd::arithmetic::div_mod::lemma_div_denominator(v, 2, 2);
    vstd::arithmetic::div_mod::lemma_div_denominator(v, 4, 0x40);
    vstd::arithmetic::div_mod::lemma_div_denominator(v, 0x100, 2);
    vstd::arithmetic::div_mod::lemma_div_denominator(v, 0x200, 2);
    vstd::arithmetic::div_mod::lemma_div_denominator(v, 0x400, 0x10);
    vstd::arithmetic::div_mod::lemma_div_denominator(v, 0x4000, 2);
    assert(v2 % 2 == c);
    assert(v5 % 2 == f);
}

/// A write to `IPCFIFOCNT` sets the two interrupt enables and the FIFO enable of the
/// writer, empties its send FIFO with bit 3, takes its error away with bit 14, and
/// leaves the other side alone.
pub proof fn law_fifo_control_written(s: IpcState, side: Side, val: u16)
    ensures
        ({
            let t = s.fifocnt_written(side, val);
            let mine = t.side(side);
            &&& mine.send_empty_irq == (val / 4 % 2 == 1)
            &&& mine.recv_irq == (val / 0x400 % 2 == 1)
            &&& mine.enable == (val / 0x8000 == 1)
            &&& mine.error == (s.side(side).error && val / 0x4000 % 2 == 0)
            &&& val / 8 % 2 == 1 ==> mine.outgoing.len() == 0
            &&& val / 8 % 2 == 0 ==> mine.outgoing == s.side(side).outgoing
            &&& t.side(side.peer()) == s.side(side.peer())
            &&& mine.last_popped == s.side(side).last_popped
            &&& mine.sync_send == s.side(side).sync_send
        }),
{
}

/// The FIFO interrupts: the first word into an empty FIFO rings for a receiver that
/// asked, taking the last word out for a sender that asked; enabling an interrupt
/// whose condition holds rings at once, for the writer.
pub proof fn law_fifo_interrupts(s: IpcState, side: Side, val: u16)
    ensures
        ({
            let mine = s.side(side);
            let theirs = s.side(side.peer());
            let e = s.fifocnt_effects(side, val);
            let empty = mine.outgoing.len() == 0 || val / 8 % 2 == 1;
            &&& s.send_rings(side) == (mine.enable && mine.outgoing.len() == 0 && theirs.recv_irq)
            &&& s.receive_rings(side) == (mine.enable && theirs.outgoing.len() == 1
                && theirs.send_empty_irq)
            &&& e.raise_send_empty_on_self == (val / 4 % 2 == 1 && !mine.send_empty_irq && empty)
            &&& e.raise_recv_not_empty_on_self == (val / 0x400 % 2 == 1 && !mine.recv_irq
                && theirs.outgoing.len() > 0)
        }),
{
}

/// While its FIFO is switched off a CPU neither sends nor receives.
pub proof fn law_disabled_fifo_is_inert(s: IpcState, side: Side, val: u32)
    requires
        !s.side(side).enable,
    ensures
        s.sent(side, val) == s,
        s.received(side) == s,
        s.received_word(side) == 0,
        !s.send_rings(side),
        !s.receive_rings(side),
{
}

} // verus!
