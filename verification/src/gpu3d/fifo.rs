//! GXFIFO: the command FIFO of the geometry engine.
//!
//! Sits at `0x04000400` (packed format) and `0x04000440..0x040005FF` (direct
//! ports). Both paths produce the same stream of [`GxOp`] entries.
//!
//! Packed format: one 32-bit word packs up to 4 command IDs (one byte each, the
//! lowest first). After the packed word, the parameters follow for each command
//! in declaration order: all of the first command's, then all of the second's,
//! and so on. Commands without parameters consume none, but where the last
//! command of a word takes no parameters, one dummy word follows before the
//! next packed word.
//!
//! Direct format: each address corresponds to one command. The word written
//! there is the (first) parameter; multi-parameter commands continue at the same
//! address.
//!
//! The hardware FIFO holds 256 entries and stalls the CPU when it is full. Here
//! writes beyond the capacity are kept in order.

use vstd::prelude::*;
use crate::fixed;
use std::collections::VecDeque;
use super::command;
use super::command::GxCmd;

verus! {

/// Entries the FIFO holds (packed and parameter words combined).
pub const FIFO_CAPACITY: usize = 256;

/// Half-full threshold: when the FIFO drops below this, GXFIFO DMA fires.
pub const FIFO_HALF: usize = 128;

/// One decoded command and its parameter words, ready for the dispatcher.
#[derive(Debug, Clone, PartialEq, Eq)]
pub struct GxOp {
    pub cmd: u8,
    pub params: Vec<u32>,
}

/// A decoded command as contracts speak of it.
#[verifier::ext_equal]
pub struct OpState {
    pub cmd: u8,
    pub params: Seq<u32>,
}

impl View for GxOp {
    type V = OpState;

    open spec fn view(&self) -> OpState {
        OpState { cmd: self.cmd, params: self.params@ }
    }
}

/// A command that is still owed parameters.
#[derive(Debug, Clone)]
pub struct PackedCmd {
    pub cmd: u8,
    pub remaining: u8,
    pub params: Vec<u32>,
}

/// A command that is owed parameters: `needed` in all, `params` so far.
#[verifier::ext_equal]
pub struct PendingState {
    pub cmd: u8,
    pub needed: u8,
    pub params: Seq<u32>,
}

impl View for PackedCmd {
    type V = PendingState;

    open spec fn view(&self) -> PendingState {
        PendingState { cmd: self.cmd, needed: self.remaining, params: self.params@ }
    }
}

/// FIFO, packed-word decoder and direct-port accumulator.
#[derive(Debug, Clone)]
pub struct GxFifo {
    /// Raw 32-bit words queued.
    pub words: VecDeque<u32>,
    /// FIFO entries occupied by decoded commands. Commands without parameters
    /// count as one entry; commands with N parameters count as N entries.
    pub entries: usize,
    /// Commands of the current packed word that are owed parameters.
    pub pending_cmds: VecDeque<PackedCmd>,
    /// The multi-parameter command being written through a direct port. It
    /// accumulates only with following writes to the same port.
    pub direct_pending: Option<PackedCmd>,
    /// Decoded ops ready for the dispatcher to consume.
    pub ready: VecDeque<GxOp>,
    /// Sticky overflow flag of the geometry buffers.
    pub overflow: bool,
    /// Set by every pop that leaves the FIFO less than half full; the bus reads it
    /// to decide whether to fire the GXFIFO DMA, which goes on while that is so.
    pub fell_below_half: bool,
    /// GXSTAT bits 30-31: 0=never, 1=less-than-half, 2=empty.
    pub irq_mode: u8,
    /// Whether the next packed word is a dummy parameter.
    pub needs_zero_param_tail_dummy: bool,
}

/// The FIFO as contracts speak of it.
#[verifier::ext_equal]
pub struct FifoState {
    pub words: Seq<u32>,
    pub entries: int,
    pub pending: Seq<PendingState>,
    pub direct: Option<PendingState>,
    pub ready: Seq<OpState>,
    pub overflow: bool,
    pub fell_below_half: bool,
    pub irq_mode: u8,
    pub dummy: bool,
}

/// The state of an optional pending command.
pub open spec fn pending_of(p: Option<PackedCmd>) -> Option<PendingState> {
    match p {
        Some(c) => Some(c@),
        None => None,
    }
}

impl View for GxFifo {
    type V = FifoState;

    open spec fn view(&self) -> FifoState {
        FifoState {
            words: self.words@,
            entries: self.entries as int,
            pending: Seq::new(self.pending_cmds@.len(), |i: int| self.pending_cmds@[i]@),
            direct: pending_of(self.direct_pending),
            ready: Seq::new(self.ready@.len(), |i: int| self.ready@[i]@),
            overflow: self.overflow,
            fell_below_half: self.fell_below_half,
            irq_mode: self.irq_mode,
            dummy: self.needs_zero_param_tail_dummy,
        }
    }
}

/// Entries that a decoded command occupies.
pub open spec fn weight(op: OpState) -> int {
    if op.params.len() == 0 { 1 } else { op.params.len() as int }
}

/// Entries that a sequence of decoded commands occupies.
pub open spec fn total_weight(ops: Seq<OpState>) -> int
    decreases ops.len(),
{
    if ops.len() == 0 {
        0
    } else {
        total_weight(ops.drop_last()) + weight(ops.last())
    }
}

/// The byte at position `k` of a packed word.
pub open spec fn byte_at(word: u32, k: int) -> u8 {
    if k == 0 {
        (word as int % 256) as u8
    } else if k == 1 {
        (word as int / 0x100 % 256) as u8
    } else if k == 2 {
        (word as int / 0x1_0000 % 256) as u8
    } else {
        (word as int / 0x100_0000) as u8
    }
}

/// The commands of a packed word from byte `k` on: a byte that is no command
/// ends the list.
pub open spec fn commands_from(word: u32, k: int) -> Seq<GxCmd>
    decreases 4 - k,
{
    if k >= 4 {
        Seq::empty()
    } else {
        match command::command_of(byte_at(word, k)) {
            Some(c) => seq![c] + commands_from(word, k + 1),
            None => Seq::empty(),
        }
    }
}

/// A command that has none of its parameters yet.
pub open spec fn fresh(c: GxCmd) -> PendingState {
    PendingState { cmd: c.code(), needed: c.params(), params: Seq::empty() }
}

impl FifoState {
    /// At most four commands are pending; only the first has parameters, and
    /// fewer than it needs. A direct command has some but not all of its
    /// parameters.
    pub open spec fn wf(self) -> bool {
        &&& 0 <= self.entries <= usize::MAX
        &&& self.pending.len() <= 4
        &&& forall|i: int|
            0 <= i < self.pending.len() ==> (#[trigger] self.pending[i]).needed <= 32
        &&& forall|i: int|
            1 <= i < self.pending.len() ==> (#[trigger] self.pending[i]).params.len() == 0
        &&& self.pending.len() > 0 ==> self.pending[0].params.len() < self.pending[0].needed
        &&& self.direct matches Some(p) ==> p.needed <= 32 && 1 <= p.params.len() < p.needed
    }

    /// A finished command moved to the ready queue.
    pub open spec fn finished(self, op: OpState) -> FifoState {
        FifoState { ready: self.ready.push(op), ..self }
    }

    /// The first pending command takes a parameter word.
    pub open spec fn with_param(self, word: u32) -> FifoState {
        let front = self.pending[0];
        let params = front.params.push(word);
        if params.len() == front.needed {
            FifoState {
                entries: self.entries + 1,
                pending: self.pending.drop_first(),
                ..self
            }.finished(OpState { cmd: front.cmd, params })
        } else {
            FifoState {
                entries: self.entries + 1,
                pending: self.pending.update(0, PendingState { params, ..front }),
                ..self
            }
        }
    }

    /// The commands of a packed word become pending.
    pub open spec fn with_commands(self, word: u32) -> FifoState {
        let commands = commands_from(word, 0);
        FifoState {
            pending: self.pending + Seq::new(commands.len(), |i: int| fresh(commands[i])),
            dummy: commands.len() > 0 && commands.last().params() == 0,
            ..self
        }
    }

    /// Pending commands at the front that need no parameters move to the ready
    /// queue.
    pub open spec fn with_empty_commands_ready(self) -> FifoState
        decreases self.pending.len(),
    {
        if self.pending.len() == 0 || self.pending[0].needed != 0 {
            self
        } else {
            FifoState {
                entries: self.entries + 1,
                pending: self.pending.drop_first(),
                ..self
            }.finished(
                OpState { cmd: self.pending[0].cmd, params: self.pending[0].params },
            ).with_empty_commands_ready()
        }
    }

    /// The state after a word is written to the packed port: it is a parameter
    /// of the first pending command, or a dummy, or a packed command word.
    pub open spec fn packed_written(self, word: u32) -> FifoState {
        let s = FifoState { words: self.words.push(word), ..self };
        let t = if s.pending.len() > 0 {
            s.with_param(word)
        } else if s.dummy {
            FifoState { dummy: false, ..s }
        } else {
            s.with_commands(word)
        };
        t.with_empty_commands_ready()
    }

    /// The state after a word is written to the direct port of a command: it
    /// continues the command that is being written there, or starts it.
    pub open spec fn direct_written(self, cmd: GxCmd, word: u32) -> FifoState {
        let s = FifoState { words: self.words.push(word), entries: self.entries + 1, ..self };
        let continued = match self.direct {
            Some(p) => p.cmd == cmd.code(),
            None => false,
        };
        if cmd.params() == 0 {
            s.finished(OpState { cmd: cmd.code(), params: Seq::empty() })
        } else if continued {
            let p = self.direct->0;
            let params = p.params.push(word);
            if params.len() == p.needed {
                FifoState { direct: None, ..s }.finished(OpState { cmd: p.cmd, params })
            } else {
                FifoState { direct: Some(PendingState { params, ..p }), ..s }
            }
        } else if cmd.params() == 1 {
            s.finished(OpState { cmd: cmd.code(), params: seq![word] })
        } else {
            FifoState {
                direct: Some(
                    PendingState { cmd: cmd.code(), needed: cmd.params(), params: seq![word] },
                ),
                ..s
            }
        }
    }

    /// The state after the first ready command is taken.
    pub open spec fn popped(self) -> FifoState
        recommends
            self.ready.len() > 0,
    {
        let n = weight(self.ready[0]);
        let entries = if self.entries >= n { self.entries - n } else { 0 };
        FifoState {
            ready: self.ready.drop_first(),
            entries,
            words: if self.words.len() >= n { self.words.skip(n) } else { Seq::empty() },
            fell_below_half: self.fell_below_half || entries < FIFO_HALF,
            ..self
        }
    }

    /// The state after draining: with nothing left to decode or dispatch, the
    /// raw words are dropped.
    pub open spec fn reconciled(self) -> FifoState {
        if self.ready.len() == 0 && self.pending.len() == 0 && self.direct is None
            && self.words.len() > 0 {
            FifoState { words: Seq::empty(), entries: 0, fell_below_half: true, ..self }
        } else {
            self
        }
    }

    /// The upper half of `GXSTAT`: entry count, below-half, empty, busy, and
    /// IRQ mode.
    pub open spec fn status(self, busy: bool) -> int {
        (if self.entries < 256 { self.entries } else { 256 }) + (if self.entries < FIFO_HALF {
            0x200int
        } else {
            0
        }) + (if self.entries == 0 {
            0x400int
        } else {
            0
        }) + (if busy {
            0x800int
        } else {
            0
        }) + self.irq_mode as int % 4 * 0x4000
    }

    /// The occupancy never counts less than what is decoded or being decoded.
    pub open spec fn accounted(self) -> bool {
        self.entries >= total_weight(self.ready) + (if self.pending.len() > 0 {
            self.pending[0].params.len() as int
        } else {
            0
        }) + (match self.direct {
            Some(p) => p.params.len() as int,
            None => 0,
        })
    }
}

/// The FIFO at power-on.
pub open spec fn empty_fifo() -> FifoState {
    FifoState {
        words: Seq::empty(),
        entries: 0,
        pending: Seq::empty(),
        direct: None,
        ready: Seq::empty(),
        overflow: false,
        fell_below_half: false,
        irq_mode: 0,
        dummy: false,
    }
}

proof fn lemma_weight_push(ops: Seq<OpState>, op: OpState)
    ensures
        total_weight(ops.push(op)) == total_weight(ops) + weight(op),
{
    assert(ops.push(op).drop_last() =~= ops);
}

proof fn lemma_weight_drop_first(ops: Seq<OpState>)
    requires
        ops.len() > 0,
    ensures
        total_weight(ops) == weight(ops[0]) + total_weight(ops.drop_first()),
    decreases ops.len(),
{
    if ops.len() == 1 {
        assert(ops.drop_last() =~= ops.drop_first());
    } else {
        lemma_weight_drop_first(ops.drop_last());
        assert(ops.drop_first().drop_last() =~= ops.drop_last().drop_first());
    }
}

proof fn lemma_weight_non_negative(ops: Seq<OpState>)
    ensures
        total_weight(ops) >= ops.len(),
    decreases ops.len(),
{
    if ops.len() > 0 {
        lemma_weight_non_negative(ops.drop_last());
    }
}

/// Readying the commands without parameters keeps the shape of the pending
/// queue, and afterwards its first command needs a parameter.
proof fn lemma_empty_commands_ready(s: FifoState)
    requires
        s.pending.len() <= 4,
        forall|i: int| 0 <= i < s.pending.len() ==> (#[trigger] s.pending[i]).needed <= 32,
        forall|i: int| 1 <= i < s.pending.len() ==> (#[trigger] s.pending[i]).params.len() == 0,
        s.pending.len() > 0 ==> s.pending[0].params.len() < s.pending[0].needed || (
        s.pending[0].params.len() == 0 && s.pending[0].needed == 0),
        s.direct matches Some(p) ==> p.needed <= 32 && 1 <= p.params.len() < p.needed,
        0 <= s.entries,
        s.entries + s.pending.len() <= usize::MAX,
    ensures
        s.with_empty_commands_ready().wf(),
        s.accounted() ==> s.with_empty_commands_ready().accounted(),
    decreases s.pending.len(),
{
    if s.pending.len() > 0 && s.pending[0].needed == 0 {
        let op = OpState { cmd: s.pending[0].cmd, params: s.pending[0].params };
        let t = FifoState {
            entries: s.entries + 1,
            pending: s.pending.drop_first(),
            ..s
        }.finished(op);
        lemma_weight_push(s.ready, op);
        lemma_empty_commands_ready(t);
    }
}

proof fn lemma_commands_len(word: u32, k: int)
    requires
        0 <= k <= 4,
    ensures
        commands_from(word, k).len() <= 4 - k,
    decreases 4 - k,
{
    if k < 4 {
        lemma_commands_len(word, k + 1);
    }
}

/// Writing to either port keeps the FIFO well-formed and its occupancy covers
/// what it holds; so do taking a command and reconciling.
pub proof fn law_operations_keep_invariant(s: FifoState, cmd: GxCmd, word: u32)
    requires
        s.wf(),
        s.entries + 5 <= usize::MAX,
    ensures
        s.packed_written(word).wf(),
        s.direct_written(cmd, word).wf(),
        s.ready.len() > 0 ==> s.popped().wf(),
        s.reconciled().wf(),
        s.accounted() ==> s.packed_written(word).accounted(),
        s.accounted() ==> s.direct_written(cmd, word).accounted(),
        s.accounted() && s.ready.len() > 0 ==> s.popped().accounted(),
        s.accounted() ==> s.reconciled().accounted(),
{
    lemma_packed_invariant(s, word);
    lemma_direct_invariant(s, cmd, word);
    if s.ready.len() > 0 {
        lemma_weight_drop_first(s.ready);
        lemma_weight_non_negative(s.ready.drop_first());
    }
}

proof fn lemma_packed_invariant(s: FifoState, word: u32)
    requires
        s.wf(),
        s.entries + 5 <= usize::MAX,
    ensures
        s.packed_written(word).wf(),
        s.accounted() ==> s.packed_written(word).accounted(),
{
    let a = FifoState { words: s.words.push(word), ..s };
    if a.pending.len() > 0 {
        let front = a.pending[0];
        let params = front.params.push(word);
        lemma_weight_push(a.ready, OpState { cmd: front.cmd, params });
        let t = a.with_param(word);
        assert(t.pending.len() > 0 ==> t.pending[0].params.len() < t.pending[0].needed || (
        t.pending[0].params.len() == 0 && t.pending[0].needed == 0));
        lemma_empty_commands_ready(t);
    } else if a.dummy {
        lemma_empty_commands_ready(FifoState { dummy: false, ..a });
    } else {
        lemma_commands_len(word, 0);
        lemma_empty_commands_ready(a.with_commands(word));
    }
}

proof fn lemma_direct_invariant(s: FifoState, cmd: GxCmd, word: u32)
    requires
        s.wf(),
        s.entries + 5 <= usize::MAX,
    ensures
        s.direct_written(cmd, word).wf(),
        s.accounted() ==> s.direct_written(cmd, word).accounted(),
{
    lemma_weight_push(s.ready, OpState { cmd: cmd.code(), params: Seq::empty() });
    lemma_weight_push(s.ready, OpState { cmd: cmd.code(), params: seq![word] });
    if let Some(p) = s.direct {
        lemma_weight_push(s.ready, OpState { cmd: p.cmd, params: p.params.push(word) });
    }
}

/// The state after a sequence of words is written to the packed port.
pub open spec fn fed(s: FifoState, ws: Seq<u32>) -> FifoState
    decreases ws.len(),
{
    if ws.len() == 0 {
        s
    } else {
        fed(s.packed_written(ws[0]), ws.drop_first())
    }
}

/// The parameters that pending commands are still owed.
pub open spec fn owed(pending: Seq<PendingState>) -> int
    decreases pending.len(),
{
    if pending.len() == 0 {
        0
    } else {
        (pending[0].needed - pending[0].params.len()) + owed(pending.drop_first())
    }
}

/// The commands that come out when pending commands get their parameters, in
/// order.
pub open spec fn completed(pending: Seq<PendingState>, params: Seq<u32>) -> Seq<OpState>
    decreases pending.len(),
{
    if pending.len() == 0 {
        Seq::empty()
    } else {
        let need = pending[0].needed - pending[0].params.len();
        seq![OpState { cmd: pending[0].cmd, params: pending[0].params + params.take(need) }]
            + completed(pending.drop_first(), params.skip(need))
    }
}

/// The shape of a pending queue in front of which nothing is finished.
spec fn queue_ok(pending: Seq<PendingState>) -> bool {
    &&& forall|i: int| 1 <= i < pending.len() ==> (#[trigger] pending[i]).params.len() == 0
    &&& pending.len() > 0 ==> pending[0].params.len() <= pending[0].needed
}

proof fn lemma_owed_non_negative(pending: Seq<PendingState>)
    requires
        queue_ok(pending),
    ensures
        owed(pending) >= 0,
    decreases pending.len(),
{
    if pending.len() > 0 {
        assert(queue_ok(pending.drop_first()));
        lemma_owed_non_negative(pending.drop_first());
    }
}

/// Readying commands without parameters moves exactly what [`completed`] puts
/// first.
proof fn lemma_ready_completed(s: FifoState, params: Seq<u32>)
    requires
        queue_ok(s.pending),
        s.pending.len() > 0 && s.pending[0].params.len() == s.pending[0].needed
            ==> s.pending[0].needed == 0,
    ensures
        ({
            let t = s.with_empty_commands_ready();
            &&& t.ready + completed(t.pending, params) == s.ready + completed(s.pending, params)
            &&& owed(t.pending) == owed(s.pending)
            &&& queue_ok(t.pending)
            &&& t.pending.len() > 0 ==> t.pending[0].params.len() < t.pending[0].needed
            &&& t.dummy == s.dummy
        }),
    decreases s.pending.len(),
{
    if s.pending.len() > 0 && s.pending[0].needed == 0 {
        let op = OpState { cmd: s.pending[0].cmd, params: s.pending[0].params };
        let t = FifoState {
            entries: s.entries + 1,
            pending: s.pending.drop_first(),
            ..s
        }.finished(op);
        assert(queue_ok(t.pending));
        lemma_ready_completed(t, params);
        assert(params.take(0) =~= Seq::<u32>::empty());
        assert(params.skip(0) =~= params);
        assert(s.pending[0].params + params.take(0) =~= s.pending[0].params);
        assert(t.ready + completed(t.pending, params) =~= s.ready + completed(s.pending, params));
    }
}

/// Feeding pending commands what they are owed completes them in order.
proof fn lemma_feed_pending(s: FifoState, params: Seq<u32>)
    requires
        queue_ok(s.pending),
        s.pending.len() > 0 ==> s.pending[0].params.len() < s.pending[0].needed,
        params.len() == owed(s.pending),
    ensures
        fed(s, params).ready == s.ready + completed(s.pending, params),
        fed(s, params).pending.len() == 0,
        fed(s, params).dummy == s.dummy,
    decreases params.len(),
{
    if s.pending.len() == 0 {
        assert(s.ready + completed(s.pending, params) =~= s.ready);
    } else {
        assert(queue_ok(s.pending.drop_first()));
        lemma_owed_non_negative(s.pending.drop_first());
        let word = params[0];
        let rest = params.drop_first();
        let a = FifoState { words: s.words.push(word), ..s };
        let b = a.with_param(word);
        let front = s.pending[0];
        let need = front.needed - front.params.len();
        if front.params.len() + 1 == front.needed {
            assert(b.pending == s.pending.drop_first());
            assert(queue_ok(b.pending));
            assert(params.take(1) =~= seq![word]);
            assert(params.skip(1) =~= rest);
            assert(front.params + params.take(1) =~= front.params.push(word));
            assert(b.ready + completed(b.pending, rest) =~= s.ready + completed(s.pending, params));
        } else {
            let front2 = b.pending[0];
            assert(b.pending.drop_first() =~= s.pending.drop_first());
            assert(queue_ok(b.pending));
            assert(front2.params + rest.take(need - 1) =~= front.params + params.take(need));
            assert(rest.skip(need - 1) =~= params.skip(need));
            assert(completed(b.pending, rest) =~= completed(s.pending, params));
        }
        lemma_ready_completed(b, rest);
        lemma_feed_pending(b.with_empty_commands_ready(), rest);
        assert(fed(s, params).ready == s.ready + completed(s.pending, params));
    }
}

/// The commands of a packed word, none of which has parameters yet.
pub open spec fn fresh_commands(word: u32) -> Seq<PendingState> {
    Seq::new(commands_from(word, 0).len(), |i: int| fresh(commands_from(word, 0)[i]))
}

/// A packed word followed by the parameters of its commands comes out as those
/// commands in order, each with its own parameters. Nothing stays pending, and
/// a dummy word is due exactly where the last command takes no parameters.
pub proof fn law_packed_stream_decodes_in_order(s: FifoState, word: u32, params: Seq<u32>)
    requires
        s.pending.len() == 0,
        !s.dummy,
        params.len() == owed(fresh_commands(word)),
    ensures
        ({
            let after = fed(s, seq![word] + params);
            let commands = commands_from(word, 0);
            &&& after.ready == s.ready + completed(fresh_commands(word), params)
            &&& after.pending.len() == 0
            &&& after.dummy == (commands.len() > 0 && commands.last().params() == 0)
        }),
{
    let ws = seq![word] + params;
    assert(ws.drop_first() =~= params);
    let a = FifoState { words: s.words.push(word), ..s };
    let b = a.with_commands(word);
    assert(b.pending =~= fresh_commands(word));
    assert(queue_ok(b.pending));
    lemma_ready_completed(b, params);
    lemma_feed_pending(b.with_empty_commands_ready(), params);
}

/// Writing a command's parameters to its direct port, with no other direct
/// write in between, comes out as that command once all are written.
pub proof fn law_direct_write_completes(s: FifoState, cmd: GxCmd, word: u32)
    requires
        s.wf(),
    ensures
        cmd.params() == 0 ==> s.direct_written(cmd, word).ready == s.ready.push(
            OpState { cmd: cmd.code(), params: Seq::empty() },
        ),
        cmd.params() == 1 && s.direct is None ==> s.direct_written(cmd, word).ready == s.ready.push(
            OpState { cmd: cmd.code(), params: seq![word] },
        ),
        s.direct matches Some(p) ==> p.cmd == cmd.code() && cmd.params() > 0 && p.params.len() + 1
            == p.needed ==> s.direct_written(cmd, word).ready == s.ready.push(
            OpState { cmd: p.cmd, params: p.params.push(word) },
        ),
        s.direct_written(cmd, word).pending == s.pending,
{
}

/// Commands leave the FIFO in the order in which they were completed.
pub proof fn law_first_in_first_out(s: FifoState, op: OpState)
    requires
        s.ready.len() > 0,
    ensures
        s.finished(op).popped().ready == s.popped().ready.push(op),
        s.finished(op).ready[0] == s.ready[0],
{
    assert(s.ready.push(op).drop_first() =~= s.ready.drop_first().push(op));
}

impl GxFifo {
    pub fn new() -> (r: Self)
        ensures
            r@ == empty_fifo(),
            r@.wf(),
    {
        let r = GxFifo {
            words: VecDeque::with_capacity(FIFO_CAPACITY),
            entries: 0,
            pending_cmds: VecDeque::new(),
            direct_pending: None,
            ready: VecDeque::new(),
            overflow: false,
            fell_below_half: false,
            irq_mode: 0,
            needs_zero_param_tail_dummy: false,
        };
        assert(r@ =~= empty_fifo());
        r
    }

    pub fn is_empty(&self) -> (r: bool)
        ensures
            r == (self@.words.len() == 0),
    {
        self.words.len() == 0
    }

    pub fn is_full(&self) -> (r: bool)
        ensures
            r == (self@.entries >= FIFO_CAPACITY),
    {
        self.entries >= FIFO_CAPACITY
    }

    pub fn len(&self) -> (r: usize)
        ensures
            r == self@.entries,
    {
        self.entries
    }

    /// Write to the packed-format port at `0x04000400`. Pushes one word into
    /// the FIFO and decodes commands as parameter words accumulate.
    pub fn write_packed(&mut self, word: u32)
        requires
            old(self)@.wf(),
            old(self)@.entries + 5 <= usize::MAX,
        ensures
            final(self)@ == old(self)@.packed_written(word),
            final(self)@.wf(),
    {
        proof {
            lemma_packed_invariant(self@, word);
            lemma_commands_len(word, 0);
        }
        let ghost start = self@;
        self.words.push_back(word);
        assert(self@ =~= (FifoState { words: start.words.push(word), ..start }));
        if self.pending_cmds.len() > 0 {
            self.consume_param(word);
        } else if self.needs_zero_param_tail_dummy {
            self.needs_zero_param_tail_dummy = false;
        } else {
            self.unpack_packed_word(word);
        }
        self.maybe_emit_zero_param_cmds();
    }

    /// Write to a direct port. `cmd` is the command the address maps to. The
    /// first write supplies parameter 1; following writes to the same command
    /// continue the parameter sequence until it is complete.
    pub fn write_direct(&mut self, cmd: GxCmd, word: u32)
        requires
            old(self)@.wf(),
            old(self)@.entries + 5 <= usize::MAX,
        ensures
            final(self)@ == old(self)@.direct_written(cmd, word),
            final(self)@.wf(),
    {
        proof {
            lemma_direct_invariant(self@, cmd, word);
        }
        let ghost start = self@;
        self.words.push_back(word);
        self.entries = self.entries + 1;
        assert(self@ =~= (FifoState {
            words: start.words.push(word),
            entries: start.entries + 1,
            ..start
        }));
        let cmd_byte: u8 = cmd.opcode();
        let needed: u8 = cmd.param_count();
        if needed == 0 {
            self.push_ready(cmd_byte, Vec::new());
            return;
        }
        let direct: Option<PackedCmd> = self.direct_pending.take();
        if let Some(mut front) = direct {
            if front.cmd == cmd_byte {
                front.params.push(word);
                if front.params.len() == front.remaining as usize {
                    self.push_ready(front.cmd, front.params);
                } else {
                    self.direct_pending = Some(front);
                }
                assert(self@ =~= start.direct_written(cmd, word));
                return;
            }
            self.direct_pending = Some(front);
        }
        assert(self@ =~= (FifoState {
            words: start.words.push(word),
            entries: start.entries + 1,
            ..start
        }));
        let mut params: Vec<u32> = Vec::new();
        params.push(word);
        assert(params@ =~= seq![word]);
        if needed == 1 {
            self.push_ready(cmd_byte, params);
        } else {
            self.direct_pending = Some(PackedCmd { cmd: cmd_byte, remaining: needed, params });
        }
        assert(self@ =~= start.direct_written(cmd, word));
    }

    fn push_ready(&mut self, cmd: u8, params: Vec<u32>)
        ensures
            final(self)@ == old(self)@.finished(OpState { cmd, params: params@ }),
            final(self).entries == old(self).entries,
            final(self).pending_cmds == old(self).pending_cmds,
            final(self).direct_pending == old(self).direct_pending,
    {
        let ghost start = self@;
        self.ready.push_back(GxOp { cmd, params });
        assert(self@ =~= start.finished(OpState { cmd, params: params@ }));
    }

    fn unpack_packed_word(&mut self, word: u32)
        requires
            old(self)@.pending.len() == 0,
        ensures
            final(self)@ == old(self)@.with_commands(word),
    {
        let ghost start = self@;
        let ghost commands = commands_from(word, 0);
        let mut saw_command: bool = false;
        let mut last_remaining: u8 = 0;
        let mut k: u32 = 0;
        let mut more: bool = true;
        assert(self@.pending =~= Seq::new(0, |i: int| fresh(commands[i])));
        proof {
            lemma_commands_len(word, 0);
        }
        while k < 4 && more
            invariant
                0 <= k <= 4,
                commands == commands_from(word, 0),
                self@ == (FifoState { pending: self@.pending, ..start }),
                start.pending.len() == 0,
                self@.pending.len() <= commands.len(),
                self@.pending == Seq::new(self@.pending.len(), |i: int| fresh(commands[i])),
                more ==> self@.pending.len() == k && commands.skip(k as int) == commands_from(
                    word,
                    k as int,
                ),
                !more ==> self@.pending.len() == commands.len(),
                saw_command == (self@.pending.len() > 0),
                saw_command ==> last_remaining == commands[self@.pending.len() - 1].params(),
            decreases 4 - k,
        {
            let id: u8 = match k {
                0 => (word % 256) as u8,
                1 => ((word / 0x100) % 256) as u8,
                2 => ((word / 0x1_0000) % 256) as u8,
                _ => (word / 0x100_0000) as u8,
            };
            let ghost tail = commands_from(word, k as int);
            // Bytes that are no commands, 0 among them, end the list.
            match GxCmd::from_u8(id) {
                None => {
                    more = false;
                    assert(commands.skip(k as int).len() == commands.len() - k);
                },
                Some(cmd) => {
                    let needed: u8 = cmd.param_count();
                    saw_command = true;
                    last_remaining = needed;
                    let ghost before = self@;
                    proof {
                        command::law_opcode_round_trip(cmd);
                        assert(tail[0] == cmd);
                        assert(commands.skip(k as int)[0] == commands[k as int]);
                        assert(commands.skip(k + 1) =~= commands.skip(k as int).drop_first());
                        assert(tail.drop_first() =~= commands_from(word, k + 1));
                    }
                    self.pending_cmds.push_back(
                        PackedCmd { cmd: id, remaining: needed, params: Vec::new() },
                    );
                    assert(self@.pending =~= before.pending.push(fresh(cmd)));
                    assert(self@.pending =~= Seq::new(
                        self@.pending.len(),
                        |i: int| fresh(commands[i]),
                    ));
                },
            }
            k = k + 1;
        }
        self.needs_zero_param_tail_dummy = saw_command && last_remaining == 0;
        assert(commands_from(word, 4).len() == 0);
        assert(more ==> commands.skip(4).len() == commands.len() - 4);
        assert(self@.pending =~= start.pending + Seq::new(
            commands.len(),
            |i: int| fresh(commands[i]),
        ));
        assert(self@ =~= start.with_commands(word));
    }

    fn consume_param(&mut self, word: u32)
        requires
            old(self)@.pending.len() > 0,
            old(self)@.pending[0].params.len() < old(self)@.pending[0].needed,
            old(self)@.entries < usize::MAX,
        ensures
            final(self)@ == old(self)@.with_param(word),
    {
        let ghost start = self@;
        let ghost queue = self.pending_cmds@;
        self.entries = self.entries + 1;
        if let Some(mut front) = self.pending_cmds.pop_front() {
            assert(front@ == start.pending[0]);
            front.params.push(word);
            assert(front.params@ =~= start.pending[0].params.push(word));
            if front.params.len() == front.remaining as usize {
                assert(self@.pending =~= start.pending.drop_first());
                self.push_ready(front.cmd, front.params);
            } else {
                self.pending_cmds.push_front(front);
                assert(self.pending_cmds@ =~= queue.update(0, front));
            }
        }
        assert(self@ =~= start.with_param(word));
    }

    /// Emit pending commands at the front that need no parameters.
    fn maybe_emit_zero_param_cmds(&mut self)
        requires
            old(self)@.entries + old(self)@.pending.len() <= usize::MAX,
        ensures
            final(self)@ == old(self)@.with_empty_commands_ready(),
        decreases old(self)@.pending.len(),
    {
        let ghost start = self@;
        if self.pending_cmds.len() == 0 {
            return;
        }
        let ghost queue = self.pending_cmds@;
        if let Some(front) = self.pending_cmds.pop_front() {
            assert(front@ == start.pending[0]);
            if front.remaining == 0 {
                self.entries = self.entries + 1;
                assert(self@.pending =~= start.pending.drop_first());
                self.push_ready(front.cmd, front.params);
                self.maybe_emit_zero_param_cmds();
            } else {
                self.pending_cmds.push_front(front);
                assert(self.pending_cmds@ =~= queue);
                assert(self@ =~= start);
            }
        }
    }

    /// Pop one ready op for the dispatcher, and the raw words and entries that
    /// it occupied. Where the queue is then below the half-full mark, set
    /// `fell_below_half` so the caller can fire GXFIFO DMA.
    pub fn pop_op(&mut self) -> (r: Option<GxOp>)
        requires
            old(self)@.wf(),
        ensures
            final(self)@.wf(),
            match r {
                Some(op) => old(self)@.ready.len() > 0 && op@ == old(self)@.ready[0]
                    && final(self)@ == old(self)@.popped(),
                None => old(self)@.ready.len() == 0 && final(self)@ == old(self)@,
            },
    {
        let ghost start = self@;
        match self.ready.pop_front() {
            None => {
                assert(self@ =~= start);
                None
            },
            Some(op) => {
                assert(op@ == start.ready[0]);
                assert(self@.ready =~= start.ready.drop_first());
                let count: usize = op.params.len();
                let n: usize = if count > 1 {
                    count
                } else {
                    1
                };
                self.entries = if self.entries >= n {
                    self.entries - n
                } else {
                    0
                };
                let ghost mid = self@;
                let mut dropped: usize = 0;
                while dropped < n && self.words.len() > 0
                    invariant
                        dropped <= n,
                        dropped <= start.words.len(),
                        self@ == (FifoState { words: self@.words, ..mid }),
                        self@.words == start.words.skip(dropped as int),
                    decreases n - dropped,
                {
                    let ghost before = self@;
                    let _ = self.words.pop_front();
                    assert(self@.words =~= before.words.drop_first());
                    assert(self@.words =~= start.words.skip(dropped + 1));
                    assert(self@ =~= (FifoState { words: self@.words, ..mid }));
                    dropped = dropped + 1;
                }
                if self.entries < FIFO_HALF {
                    self.fell_below_half = true;
                }
                assert(self@ =~= start.popped());
                Some(op)
            },
        }
    }

    /// Take the "fell below half" edge flag and clear it.
    pub fn take_below_half_edge(&mut self) -> (r: bool)
        ensures
            r == old(self)@.fell_below_half,
            final(self)@ == (FifoState { fell_below_half: false, ..old(self)@ }),
    {
        let v: bool = self.fell_below_half;
        self.fell_below_half = false;
        v
    }

    /// After a drain that left nothing to decode, drop the raw words.
    pub fn reconcile_after_drain(&mut self)
        requires
            old(self)@.wf(),
        ensures
            final(self)@ == old(self)@.reconciled(),
            final(self)@.wf(),
    {
        let ghost start = self@;
        if self.ready.len() == 0 && self.pending_cmds.len() == 0 && self.direct_pending.is_none()
            && self.words.len() > 0 {
            self.words.clear();
            self.entries = 0;
            self.fell_below_half = true;
        }
        assert(self@ =~= start.reconciled());
    }

    /// The upper half of `GXSTAT`, without the busy bit.
    pub fn stat_high(&self) -> (r: u16)
        ensures
            r == self@.status(false),
    {
        self.gxstat_high_bits(false)
    }

    /// Set or clear the overflow flag of the geometry buffers.
    pub fn set_overflow(&mut self, overflow: bool)
        ensures
            final(self)@ == (FifoState { overflow, ..old(self)@ }),
    {
        self.overflow = overflow;
    }

    pub fn set_irq_mode(&mut self, mode: u8)
        ensures
            final(self)@ == (FifoState { irq_mode: mode % 4, ..old(self)@ }),
    {
        self.irq_mode = mode % 4;
    }

    /// Whether the FIFO interrupt condition of the IRQ mode holds.
    pub fn irq_condition(&self) -> (r: bool)
        ensures
            r == ((self@.irq_mode == 1 && self@.entries < FIFO_HALF) || (self@.irq_mode == 2
                && self@.entries == 0)),
    {
        match self.irq_mode {
            1 => self.entries < FIFO_HALF,
            2 => self.entries == 0,
            _ => false,
        }
    }

    /// The upper half of `GXSTAT`: bits 0-8 entry count, 9 below half, 10
    /// empty, 11 busy, 14-15 IRQ mode.
    pub fn gxstat_high_bits(&self, general_busy: bool) -> (r: u16)
        ensures
            r == self@.status(general_busy),
    {
        let mut v: u16 = if self.entries < 256 {
            self.entries as u16
        } else {
            256
        };
        if self.entries < FIFO_HALF {
            v = v + 0x200;
        }
        if self.entries == 0 {
            v = v + 0x400;
        }
        if general_busy {
            v = v + 0x800;
        }
        v + (self.irq_mode % 4) as u16 * 0x4000
    }
}

impl Default for GxFifo {
    fn default() -> (r: Self)
        ensures
            r@ == empty_fifo(),
            r@.wf(),
    {
        Self::new()
    }
}

/// A packed word names its commands lowest byte first.
pub proof fn law_packed_commands_in_order(a: GxCmd, b: GxCmd, c: GxCmd, d: GxCmd)
    ensures
        ({
            let word = (a.code() + 0x100 * b.code() + 0x1_0000 * c.code() + 0x100_0000
                * d.code()) as u32;
            commands_from(word, 0) == seq![a, b, c, d]
        }),
        commands_from((a.code() + 0x100 * b.code()) as u32, 0) == seq![a, b],
        commands_from(0, 0).len() == 0,
{
    let w = a.code() + 0x100 * b.code() + 0x1_0000 * c.code() + 0x100_0000 * d.code();
    let word = w as u32;
    assert(w / 0x100 == b.code() + 0x100 * c.code() + 0x1_0000 * d.code());
    assert(w / 0x1_0000 == c.code() + 0x100 * d.code());
    assert(w / 0x100_0000 == d.code());
    command::law_opcode_round_trip(a);
    command::law_opcode_round_trip(b);
    command::law_opcode_round_trip(c);
    command::law_opcode_round_trip(d);
    reveal_with_fuel(commands_from, 6);
    assert(byte_at(word, 0) == a.code() && byte_at(word, 1) == b.code());
    assert(byte_at(word, 2) == c.code() && byte_at(word, 3) == d.code());
    assert(commands_from(word, 0) =~= seq![a, b, c, d]);
    let v = a.code() + 0x100 * b.code();
    let short = v as u32;
    assert(byte_at(short, 0) == a.code() && byte_at(short, 1) == b.code());
    assert(byte_at(short, 2) == 0);
    command::lemma_zero_is_no_command();
    assert(commands_from(short, 0) =~= seq![a, b]);
    assert(byte_at(0, 0) == 0);
}

/// The upper half of `GXSTAT`: the number of entries, 256 at most, in the lowest nine
/// bits, bit 9 while less than half full, bit 10 while empty, bit 11 while busy, and
/// the interrupt mode in the two highest bits.
pub proof fn law_fifo_status_fields(s: FifoState, busy: bool)
    requires
        0 <= s.entries,
        s.irq_mode < 4,
    ensures
        ({
            let v = s.status(busy);
            &&& v % 0x200 == fixed::min(s.entries, 256)
            &&& (v / 0x200 % 2 == 1) == (s.entries < 128)
            &&& (v / 0x400 % 2 == 1) == (s.entries == 0)
            &&& (v / 0x800 % 2 == 1) == busy
            &&& v / 0x1000 % 4 == 0
            &&& v / 0x4000 == s.irq_mode
        }),
{
    let n = fixed::min(s.entries, 256);
    let h: int = if s.entries < 128 { 1 } else { 0 };
    let e: int = if s.entries == 0 { 1 } else { 0 };
    let b: int = if busy { 1 } else { 0 };
    let m = s.irq_mode as int;
    let v = s.status(busy);
    let v3 = b + 8 * m;
    let v2 = e + 2 * v3;
    let v1 = h + 2 * v2;
    assert(v == n + 0x200 * v1);
    fixed::lemma_low_field(v, n, v1, 0x200);
    fixed::lemma_low_field(v1, h, v2, 2);
    fixed::lemma_low_field(v2, e, v3, 2);
    fixed::lemma_low_field(v3, b, m, 8);
    fixed::lemma_low_field(v3, b, 4 * m, 2);
    fixed::lemma_low_field(4 * m, 0, m, 4);
    vstd::arithmetic::div_mod::lemma_div_denominator(v, 0x200, 2);
    vstd::arithmetic::div_mod::lemma_div_denominator(v, 0x400, 2);
    vstd::arithmetic::div_mod::lemma_div_denominator(v, 0x800, 2);
    vstd::arithmetic::div_mod::lemma_div_denominator(v, 0x1000, 4);
}

/// Taking a command frees as many entries as it has parameters, one where it has none;
/// falling below half is noted and stays noted.
pub proof fn law_taking_frees_entries(s: FifoState)
    requires
        s.ready.len() > 0,
        s.entries >= 32,
        s.ready[0].params.len() <= 32,
    ensures
        s.ready[0].params.len() == 0 ==> s.popped().entries == s.entries - 1,
        s.ready[0].params.len() > 0 ==> s.popped().entries == s.entries - s.ready[0].params.len(),
        s.popped().fell_below_half == (s.fell_below_half || s.popped().entries < 128),
        s.popped().ready == s.ready.subrange(1, s.ready.len() as int),
{
    assert(s.ready.drop_first() =~= s.ready.subrange(1, s.ready.len() as int));
}

/// A write to a direct port takes one entry. The first of several parameters waits for
/// the others at its port; a write to another port begins anew.
pub proof fn law_direct_write_begins(s: FifoState, cmd: GxCmd, word: u32)
    requires
        cmd.params() > 1,
        s.direct matches Some(p) ==> p.cmd != cmd.code(),
    ensures
        ({
            let after = s.direct_written(cmd, word);
            &&& after.entries == s.entries + 1
            &&& after.ready == s.ready
            &&& after.direct matches Some(p) && p.cmd == cmd.code() && p.needed == cmd.params()
                && p.params == seq![word]
        }),
{
}

/// A parameter word of a packed command goes to the first command that waits, which is
/// ready with its last one.
pub proof fn law_packed_parameter(s: FifoState, word: u32)
    requires
        s.wf(),
        s.pending.len() == 1,
    ensures
        ({
            let p = s.pending[0];
            let after = s.packed_written(word);
            &&& p.params.len() + 1 < p.needed ==> {
                &&& after.ready == s.ready
                &&& after.pending == seq![(PendingState { params: p.params.push(word), ..p })]
                &&& after.entries == s.entries + 1
            }
            &&& p.params.len() + 1 == p.needed ==> {
                &&& after.ready == s.ready.push(OpState { cmd: p.cmd, params: p.params.push(word) })
                &&& after.pending.len() == 0
                &&& after.entries == s.entries + 1
            }
        }),
{
    let p = s.pending[0];
    let t = FifoState { words: s.words.push(word), ..s };
    assert(t.pending.update(0, PendingState { params: p.params.push(word), ..p }) =~= seq![
        (PendingState { params: p.params.push(word), ..p }),
    ]);
}

} // verus!
