//! VRAM banks A-I with VRAMCNT routing.
//!
//! Each bank is a fixed byte buffer plus a `VRAMCNT_x` register. The mode and
//! offset fields of that register decide where the bank shows up: in the flat
//! LCDC view, in a background or object window of one of the 2D engines, in
//! the ARM7 window, or as texture image, texture palette or extended palette.
//!
//! Every access goes through the router: a read gives the byte of the first
//! bank that maps the address, a write reaches every bank that maps it.

use vstd::prelude::*;
use crate::fixed;

verus! {

pub const A_SIZE: usize = 0x2_0000;
pub const B_SIZE: usize = 0x2_0000;
pub const C_SIZE: usize = 0x2_0000;
pub const D_SIZE: usize = 0x2_0000;
pub const E_SIZE: usize = 0x1_0000;
pub const F_SIZE: usize = 0x4000;
pub const G_SIZE: usize = 0x4000;
pub const H_SIZE: usize = 0x8000;
pub const I_SIZE: usize = 0x4000;

#[derive(Debug, Clone, Copy, PartialEq, Eq, Structural)]
pub enum BankId {
    A,
    B,
    C,
    D,
    E,
    F,
    G,
    H,
    I,
}

impl BankId {
    pub const ALL: [BankId; 9] = [
        BankId::A, BankId::B, BankId::C, BankId::D, BankId::E, BankId::F, BankId::G, BankId::H,
        BankId::I,
    ];

    /// Position of the bank in the router, and of its register.
    pub open spec fn index(self) -> int {
        match self {
            BankId::A => 0,
            BankId::B => 1,
            BankId::C => 2,
            BankId::D => 3,
            BankId::E => 4,
            BankId::F => 5,
            BankId::G => 6,
            BankId::H => 7,
            BankId::I => 8,
        }
    }

    /// Bytes in the bank.
    pub open spec fn bytes(self) -> int {
        match self {
            BankId::A | BankId::B | BankId::C | BankId::D => 0x2_0000,
            BankId::E => 0x1_0000,
            BankId::F | BankId::G | BankId::I => 0x4000,
            BankId::H => 0x8000,
        }
    }

    /// Position of the bank in the router.
    pub fn position(self) -> (r: usize)
        ensures
            r == self.index(),
            r < 9,
    {
        match self {
            BankId::A => 0,
            BankId::B => 1,
            BankId::C => 2,
            BankId::D => 3,
            BankId::E => 4,
            BankId::F => 5,
            BankId::G => 6,
            BankId::H => 7,
            BankId::I => 8,
        }
    }

    /// Bytes in the bank.
    pub fn size(self) -> (r: usize)
        ensures
            r == self.bytes(),
    {
        match self {
            BankId::A => A_SIZE,
            BankId::B => B_SIZE,
            BankId::C => C_SIZE,
            BankId::D => D_SIZE,
            BankId::E => E_SIZE,
            BankId::F => F_SIZE,
            BankId::G => G_SIZE,
            BankId::H => H_SIZE,
            BankId::I => I_SIZE,
        }
    }
}

/// Logical region a bank can be exposed in, plus the (target-relative) base
/// offset it occupies. The bank's whole size is mapped contiguously from this
/// base.
#[derive(Debug, Clone, Copy, PartialEq, Eq, Structural)]
pub enum VramTarget {
    /// Bank not in use anywhere.
    Disabled,
    /// LCDC mirror at 0x06800000+offset (where offset is bank-specific).
    Lcdc { lcdc_offset: u32 },
    /// Engine A BG at 0x06000000+base.
    EngineABg { base: u32 },
    /// Engine A OBJ at 0x06400000+base.
    EngineAObj { base: u32 },
    /// Engine B BG at 0x06200000+base.
    EngineBBg { base: u32 },
    /// Engine B OBJ at 0x06600000+base.
    EngineBObj { base: u32 },
    /// ARM7 mirror at 0x06000000+base (ARM7 view).
    Arm7 { base: u32 },
    /// 3D texture image, slot 0..3 of 128 KB.
    TextureImage { slot: u8 },
    /// 3D texture palette, slot 0..5 of 16 KB.
    TexturePalette { slot: u8 },
    /// Engine A BG extended palette, slot 0..3 of 8 KB.
    BgExtPalA { slot: u8 },
    /// Engine A OBJ extended palette, 8 KB.
    ObjExtPalA,
    /// Engine B BG extended palette, slot 0..3 of 8 KB.
    BgExtPalB { slot: u8 },
    /// Engine B OBJ extended palette, 8 KB.
    ObjExtPalB,
}

/// Where banks F and G start in an engine window: offset bit 0 adds 0x4000,
/// bit 1 adds 0x10000.
pub open spec fn f_g_base(offset: int) -> int {
    (offset % 2) * 0x4000 + (offset / 2 % 2) * 0x1_0000
}

/// The same place as a slot of texture palettes, 16 KB each: bit 0 adds one slot,
/// bit 1 adds four.
pub open spec fn f_g_slot(offset: int) -> int {
    f_g_base(offset) / 0x4000
}

/// The region that register value `cnt` gives a bank: bit 7 enables the bank,
/// bits 2..0 select the mode, bits 4..3 the offset. Unsupported combinations
/// leave the bank disabled.
pub open spec fn target_of(bank: BankId, cnt: u8) -> VramTarget {
    let mst = cnt as int % 8;
    let offset = cnt as int / 8 % 4;
    if cnt < 0x80 {
        VramTarget::Disabled
    } else {
        match bank {
            BankId::A | BankId::B => if mst == 0 {
                VramTarget::Lcdc { lcdc_offset: if bank == BankId::A { 0 } else { 0x2_0000 } }
            } else if mst == 1 {
                VramTarget::EngineABg { base: (offset * 0x2_0000) as u32 }
            } else if mst == 2 {
                VramTarget::EngineAObj { base: (offset % 2 * 0x2_0000) as u32 }
            } else if mst == 3 {
                VramTarget::TextureImage { slot: offset as u8 }
            } else {
                VramTarget::Disabled
            },
            BankId::C | BankId::D => if mst == 0 {
                VramTarget::Lcdc { lcdc_offset: if bank == BankId::C { 0x4_0000 } else { 0x6_0000 } }
            } else if mst == 1 {
                VramTarget::EngineABg { base: (offset * 0x2_0000) as u32 }
            } else if mst == 2 {
                VramTarget::Arm7 { base: (offset % 2 * 0x2_0000) as u32 }
            } else if mst == 3 {
                VramTarget::TextureImage { slot: offset as u8 }
            } else if mst == 4 {
                if bank == BankId::C {
                    VramTarget::EngineBBg { base: 0 }
                } else {
                    VramTarget::EngineBObj { base: 0 }
                }
            } else {
                VramTarget::Disabled
            },
            BankId::E => if mst == 0 {
                VramTarget::Lcdc { lcdc_offset: 0x8_0000 }
            } else if mst == 1 {
                VramTarget::EngineABg { base: 0 }
            } else if mst == 2 {
                VramTarget::EngineAObj { base: 0 }
            } else if mst == 3 {
                VramTarget::TexturePalette { slot: 0 }
            } else if mst == 4 {
                VramTarget::BgExtPalA { slot: 0 }
            } else {
                VramTarget::Disabled
            },
            BankId::F | BankId::G => if mst == 0 {
                VramTarget::Lcdc { lcdc_offset: if bank == BankId::F { 0x9_0000 } else { 0x9_4000 } }
            } else if mst == 1 {
                VramTarget::EngineABg { base: f_g_base(offset) as u32 }
            } else if mst == 2 {
                VramTarget::EngineAObj { base: f_g_base(offset) as u32 }
            } else if mst == 3 {
                VramTarget::TexturePalette { slot: f_g_slot(offset) as u8 }
            } else if mst == 4 {
                VramTarget::BgExtPalA { slot: (offset % 2) as u8 }
            } else if mst == 5 {
                VramTarget::ObjExtPalA
            } else {
                VramTarget::Disabled
            },
            BankId::H => if mst == 0 {
                VramTarget::Lcdc { lcdc_offset: 0x9_8000 }
            } else if mst == 1 {
                VramTarget::EngineBBg { base: 0 }
            } else if mst == 2 {
                VramTarget::BgExtPalB { slot: 0 }
            } else {
                VramTarget::Disabled
            },
            BankId::I => if mst == 0 {
                VramTarget::Lcdc { lcdc_offset: 0xA_0000 }
            } else if mst == 1 {
                VramTarget::EngineBBg { base: 0x8000 }
            } else if mst == 2 {
                VramTarget::EngineBObj { base: 0 }
            } else if mst == 3 {
                VramTarget::ObjExtPalB
            } else {
                VramTarget::Disabled
            },
        }
    }
}

/// The address spaces from which VRAM can be read.
#[derive(Debug, Clone, Copy, PartialEq, Eq, Structural)]
pub enum Window {
    /// ARM9 addresses 0x06000000..0x06FFFFFF.
    Arm9,
    /// ARM7 addresses 0x06000000..0x06FFFFFF, in 4 MB mirrors.
    Arm7,
    EngineABg,
    EngineAObj,
    EngineBBg,
    EngineBObj,
    /// 512 KB of texture images.
    TextureImage,
    /// 128 KB of texture palettes.
    TexturePalette,
}

/// The offset of `at` in a region of `span` bytes that starts at `base`.
pub open spec fn inside(base: int, span: int, at: int) -> Option<int> {
    if base <= at < base + span {
        Some(at - base)
    } else {
        None
    }
}

/// The offset in a bank of `span` bytes, exposed as `target`, to which address
/// `addr` of a window leads; `None` where the bank does not map it.
pub open spec fn offset_in(target: VramTarget, span: int, window: Window, addr: u32) -> Option<int> {
    let win = addr as int % 0x100_0000;
    match (window, target) {
        (Window::Arm9, VramTarget::EngineABg { base }) => if win < 0x20_0000 {
            inside(base as int, span, win % 0x8_0000)
        } else {
            None
        },
        (Window::Arm9, VramTarget::EngineBBg { base }) => if 0x20_0000 <= win < 0x40_0000 {
            inside(base as int, span, (win - 0x20_0000) % 0x2_0000)
        } else {
            None
        },
        (Window::Arm9, VramTarget::EngineAObj { base }) => if 0x40_0000 <= win < 0x60_0000 {
            inside(base as int, span, (win - 0x40_0000) % 0x4_0000)
        } else {
            None
        },
        (Window::Arm9, VramTarget::EngineBObj { base }) => if 0x60_0000 <= win < 0x80_0000 {
            inside(base as int, span, (win - 0x60_0000) % 0x2_0000)
        } else {
            None
        },
        (Window::Arm9, VramTarget::Lcdc { lcdc_offset }) => if 0x80_0000 <= win < 0x8A_4000 {
            inside(lcdc_offset as int, span, win - 0x80_0000)
        } else {
            None
        },
        (Window::Arm7, VramTarget::Arm7 { base }) => inside(
            base as int,
            span,
            addr as int % 0x40_0000,
        ),
        (Window::EngineABg, VramTarget::EngineABg { base }) => inside(
            base as int,
            span,
            addr as int,
        ),
        (Window::EngineAObj, VramTarget::EngineAObj { base }) => inside(
            base as int,
            span,
            addr as int,
        ),
        (Window::EngineBBg, VramTarget::EngineBBg { base }) => inside(
            base as int,
            span,
            addr as int,
        ),
        (Window::EngineBObj, VramTarget::EngineBObj { base }) => inside(
            base as int,
            span,
            addr as int,
        ),
        (Window::TextureImage, VramTarget::TextureImage { slot }) => inside(
            slot as int * 0x2_0000,
            span,
            addr as int % 0x8_0000,
        ),
        (Window::TexturePalette, VramTarget::TexturePalette { slot }) => inside(
            slot as int * 0x4000,
            span,
            addr as int % 0x2_0000,
        ),
        _ => None,
    }
}

/// One bank as contracts speak of it.
#[verifier::ext_equal]
pub struct BankState {
    pub id: BankId,
    pub cnt: u8,
    pub data: Seq<u8>,
}

impl BankState {
    /// The region the bank is exposed in.
    pub open spec fn target(self) -> VramTarget {
        target_of(self.id, self.cnt)
    }

    /// Where in the bank address `addr` of a window leads.
    pub open spec fn offset(self, window: Window, addr: u32) -> Option<int> {
        offset_in(self.target(), self.id.bytes(), window, addr)
    }

    /// The bank after writing `val` to address `addr` of a window.
    pub open spec fn written(self, window: Window, addr: u32, val: u8) -> BankState {
        match self.offset(window, addr) {
            Some(off) => BankState { data: self.data.update(off, val), ..self },
            None => self,
        }
    }
}

/// Nine banks in order, each with its size.
pub open spec fn banks_ok(banks: Seq<BankState>) -> bool {
    &&& banks.len() == 9
    &&& forall|i: int|
        0 <= i < 9 ==> (#[trigger] banks[i]).id.index() == i && banks[i].data.len()
            == banks[i].id.bytes()
}

/// Nine banks, disabled and zero.
pub open spec fn blank(banks: Seq<BankState>) -> bool {
    &&& banks.len() == 9
    &&& forall|i: int|
        0 <= i < 9 ==> (#[trigger] banks[i]).cnt == 0 && banks[i].data == Seq::new(
            banks[i].id.bytes() as nat,
            |k: int| 0u8,
        )
}

/// The byte of the first bank from position `i` on that maps the address; 0
/// where none does.
pub open spec fn read_from(banks: Seq<BankState>, window: Window, addr: u32, i: int) -> u8
    decreases banks.len() - i,
{
    if i < 0 || i >= banks.len() {
        0
    } else {
        match banks[i].offset(window, addr) {
            Some(off) => banks[i].data[off],
            None => read_from(banks, window, addr, i + 1),
        }
    }
}

/// The byte that a window shows at `addr`.
pub open spec fn read(banks: Seq<BankState>, window: Window, addr: u32) -> u8 {
    read_from(banks, window, addr, 0)
}

/// The little-endian halfword that a window shows at the even address below
/// `addr`.
pub open spec fn read_u16(banks: Seq<BankState>, window: Window, addr: u32) -> u16 {
    let a = (addr - addr % 2) as u32;
    (read(banks, window, a) + 256 * read(banks, window, (a + 1) as u32)) as u16
}

/// All banks after writing `val` to address `addr` of a window.
pub open spec fn write(banks: Seq<BankState>, window: Window, addr: u32, val: u8) -> Seq<BankState> {
    Seq::new(banks.len(), |i: int| banks[i].written(window, addr, val))
}

/// A bank never maps an address outside its bytes.
pub proof fn lemma_offset_in_bank(bank: BankState, window: Window, addr: u32)
    ensures
        bank.offset(window, addr) matches Some(off) ==> 0 <= off < bank.id.bytes(),
{
}

/// A disabled bank maps no address of any window.
pub proof fn law_disabled_bank_maps_nothing(bank: BankState, window: Window, addr: u32)
    requires
        bank.cnt < 0x80,
    ensures
        bank.offset(window, addr) is None,
{
}

/// What a write put at an address is what a read of the same window gives
/// back, wherever some bank maps the address.
pub proof fn law_read_gives_back_write(banks: Seq<BankState>, window: Window, addr: u32, val: u8)
    requires
        banks_ok(banks),
        exists|i: int| 0 <= i < banks.len() && (#[trigger] banks[i]).offset(window, addr) is Some,
    ensures
        read(write(banks, window, addr, val), window, addr) == val,
{
    let k = choose|i: int| 0 <= i < banks.len() && (#[trigger] banks[i]).offset(window, addr) is Some;
    lemma_write_read_from(banks, window, addr, val, 0, k);
}

proof fn lemma_write_read_from(
    banks: Seq<BankState>,
    window: Window,
    addr: u32,
    val: u8,
    i: int,
    k: int,
)
    requires
        banks_ok(banks),
        0 <= i <= k < banks.len(),
        banks[k].offset(window, addr) is Some,
    ensures
        read_from(write(banks, window, addr, val), window, addr, i) == val,
    decreases k - i,
{
    let after = write(banks, window, addr, val);
    assert(after[i] == banks[i].written(window, addr, val));
    lemma_offset_in_bank(banks[i], window, addr);
    if banks[i].offset(window, addr) is None {
        lemma_write_read_from(banks, window, addr, val, i + 1, k);
    }
}

/// An address that no bank maps reads as zero.
pub proof fn law_unmapped_reads_zero(banks: Seq<BankState>, window: Window, addr: u32)
    requires
        forall|i: int| 0 <= i < banks.len() ==> (#[trigger] banks[i]).offset(window, addr) is None,
    ensures
        read(banks, window, addr) == 0,
{
    lemma_unmapped_from(banks, window, addr, 0);
}

proof fn lemma_unmapped_from(banks: Seq<BankState>, window: Window, addr: u32, i: int)
    requires
        0 <= i <= banks.len(),
        forall|k: int| 0 <= k < banks.len() ==> (#[trigger] banks[k]).offset(window, addr) is None,
    ensures
        read_from(banks, window, addr, i) == 0,
    decreases banks.len() - i,
{
    if i < banks.len() {
        lemma_unmapped_from(banks, window, addr, i + 1);
    }
}

/// A write keeps the shape of the banks: identity, registers and sizes.
pub proof fn law_write_keeps_banks(banks: Seq<BankState>, window: Window, addr: u32, val: u8)
    requires
        banks_ok(banks),
    ensures
        banks_ok(write(banks, window, addr, val)),
        forall|i: int|
            0 <= i < 9 ==> (#[trigger] write(banks, window, addr, val)[i]).cnt == banks[i].cnt,
{
    assert forall|i: int| 0 <= i < 9 implies (#[trigger] write(banks, window, addr, val)[i]).cnt
        == banks[i].cnt && write(banks, window, addr, val)[i].id == banks[i].id && write(
        banks,
        window,
        addr,
        val,
    )[i].data.len() == banks[i].data.len() by {
        lemma_offset_in_bank(banks[i], window, addr);
    }
}

/// One VRAM bank.
#[derive(Debug, Clone)]
pub struct VramBank {
    pub id: BankId,
    /// `VRAMCNT_x` register byte: bit 7 enables, bits 4..3 hold the offset,
    /// bits 2..0 the mode.
    pub cnt: u8,
    pub data: Vec<u8>,
    /// Decoded target, recomputed whenever `cnt` is written.
    pub target: VramTarget,
}

impl View for VramBank {
    type V = BankState;

    open spec fn view(&self) -> BankState {
        BankState { id: self.id, cnt: self.cnt, data: self.data@ }
    }
}

impl VramBank {
    /// The buffer has the bank's size and the target is the decoded register.
    pub open spec fn wf(&self) -> bool {
        &&& self.data@.len() == self.id.bytes()
        &&& self.target == target_of(self.id, self.cnt)
    }

    /// A disabled bank of zero bytes.
    pub fn new(id: BankId) -> (r: Self)
        ensures
            r.wf(),
            r@ == (BankState { id, cnt: 0, data: Seq::new(id.bytes() as nat, |i: int| 0u8) }),
    {
        let r = VramBank { id, cnt: 0, data: vec![0u8; id.size()], target: VramTarget::Disabled };
        assert(r.data@ =~= Seq::new(id.bytes() as nat, |i: int| 0u8));
        r
    }

    /// Set VRAMCNT_x, recomputing the decoded target.
    pub fn write_cnt(&mut self, val: u8)
        requires
            old(self).wf(),
        ensures
            final(self).wf(),
            final(self)@ == (BankState { cnt: val, ..old(self)@ }),
    {
        self.cnt = val;
        self.target = decode_target(self.id, val);
    }

    /// Where in the bank address `addr` of a window leads.
    pub fn locate(&self, window: Window, addr: u32) -> (r: Option<usize>)
        requires
            self.wf(),
        ensures
            match r {
                Some(off) => self@.offset(window, addr) == Some(off as int) && off < self.data@.len(),
                None => self@.offset(window, addr) is None,
            },
    {
        let span: u32 = self.id.size() as u32;
        let win: u32 = addr % 0x100_0000;
        match (window, self.target) {
            (Window::Arm9, VramTarget::EngineABg { base }) => if win < 0x20_0000 {
                locate_inside(base, span, win % 0x8_0000)
            } else {
                None
            },
            (Window::Arm9, VramTarget::EngineBBg { base }) => if win >= 0x20_0000 && win
                < 0x40_0000 {
                locate_inside(base, span, (win - 0x20_0000) % 0x2_0000)
            } else {
                None
            },
            (Window::Arm9, VramTarget::EngineAObj { base }) => if win >= 0x40_0000 && win
                < 0x60_0000 {
                locate_inside(base, span, (win - 0x40_0000) % 0x4_0000)
            } else {
                None
            },
            (Window::Arm9, VramTarget::EngineBObj { base }) => if win >= 0x60_0000 && win
                < 0x80_0000 {
                locate_inside(base, span, (win - 0x60_0000) % 0x2_0000)
            } else {
                None
            },
            (Window::Arm9, VramTarget::Lcdc { lcdc_offset }) => if win >= 0x80_0000 && win
                < 0x8A_4000 {
                locate_inside(lcdc_offset, span, win - 0x80_0000)
            } else {
                None
            },
            (Window::Arm7, VramTarget::Arm7 { base }) => locate_inside(
                base,
                span,
                addr % 0x40_0000,
            ),
            (Window::EngineABg, VramTarget::EngineABg { base }) => locate_inside(base, span, addr),
            (Window::EngineAObj, VramTarget::EngineAObj { base }) => locate_inside(
                base,
                span,
                addr,
            ),
            (Window::EngineBBg, VramTarget::EngineBBg { base }) => locate_inside(base, span, addr),
            (Window::EngineBObj, VramTarget::EngineBObj { base }) => locate_inside(
                base,
                span,
                addr,
            ),
            (Window::TextureImage, VramTarget::TextureImage { slot }) => locate_inside(
                slot as u32 * 0x2_0000,
                span,
                addr % 0x8_0000,
            ),
            (Window::TexturePalette, VramTarget::TexturePalette { slot }) => locate_inside(
                slot as u32 * 0x4000,
                span,
                addr % 0x2_0000,
            ),
            _ => None,
        }
    }
}

/// The offset of `at` in a region of `span` bytes that starts at `base`.
fn locate_inside(base: u32, span: u32, at: u32) -> (r: Option<usize>)
    requires
        base + span <= u32::MAX,
    ensures
        match r {
            Some(off) => inside(base as int, span as int, at as int) == Some(off as int),
            None => inside(base as int, span as int, at as int) is None,
        },
{
    if at >= base && at < base + span {
        Some((at - base) as usize)
    } else {
        None
    }
}

/// Decode `VRAMCNT_x` for a given bank. Unsupported combinations of mode and
/// offset leave the bank disabled.
pub fn decode_target(bank: BankId, cnt: u8) -> (r: VramTarget)
    ensures
        r == target_of(bank, cnt),
{
    if cnt < 0x80 {
        return VramTarget::Disabled;
    }
    let mst: u8 = cnt % 8;
    let offset: u8 = (cnt / 8) % 4;

    match (bank, mst) {
        // Bank A (128 KB)
        (BankId::A, 0) => VramTarget::Lcdc { lcdc_offset: 0x0_0000 },
        (BankId::A, 1) => VramTarget::EngineABg { base: offset as u32 * 0x2_0000 },
        (BankId::A, 2) => VramTarget::EngineAObj { base: (offset % 2) as u32 * 0x2_0000 },
        (BankId::A, 3) => VramTarget::TextureImage { slot: offset },
        // Bank B (128 KB)
        (BankId::B, 0) => VramTarget::Lcdc { lcdc_offset: 0x2_0000 },
        (BankId::B, 1) => VramTarget::EngineABg { base: offset as u32 * 0x2_0000 },
        (BankId::B, 2) => VramTarget::EngineAObj { base: (offset % 2) as u32 * 0x2_0000 },
        (BankId::B, 3) => VramTarget::TextureImage { slot: offset },
        // Bank C (128 KB)
        (BankId::C, 0) => VramTarget::Lcdc { lcdc_offset: 0x4_0000 },
        (BankId::C, 1) => VramTarget::EngineABg { base: offset as u32 * 0x2_0000 },
        (BankId::C, 2) => VramTarget::Arm7 { base: (offset % 2) as u32 * 0x2_0000 },
        (BankId::C, 3) => VramTarget::TextureImage { slot: offset },
        (BankId::C, 4) => VramTarget::EngineBBg { base: 0 },
        // Bank D (128 KB)
        (BankId::D, 0) => VramTarget::Lcdc { lcdc_offset: 0x6_0000 },
        (BankId::D, 1) => VramTarget::EngineABg { base: offset as u32 * 0x2_0000 },
        (BankId::D, 2) => VramTarget::Arm7 { base: (offset % 2) as u32 * 0x2_0000 },
        (BankId::D, 3) => VramTarget::TextureImage { slot: offset },
        (BankId::D, 4) => VramTarget::EngineBObj { base: 0 },
        // Bank E (64 KB)
        (BankId::E, 0) => VramTarget::Lcdc { lcdc_offset: 0x8_0000 },
        (BankId::E, 1) => VramTarget::EngineABg { base: 0 },
        (BankId::E, 2) => VramTarget::EngineAObj { base: 0 },
        (BankId::E, 3) => VramTarget::TexturePalette { slot: 0 },
        (BankId::E, 4) => VramTarget::BgExtPalA { slot: 0 },
        // Bank F (16 KB)
        (BankId::F, 0) => VramTarget::Lcdc { lcdc_offset: 0x9_0000 },
        (BankId::F, 1) => VramTarget::EngineABg { base: f_g_bg_offset(offset) },
        (BankId::F, 2) => VramTarget::EngineAObj { base: f_g_bg_offset(offset) },
        (BankId::F, 3) => VramTarget::TexturePalette { slot: f_g_texpal_slot(offset) },
        (BankId::F, 4) => VramTarget::BgExtPalA { slot: offset % 2 },
        (BankId::F, 5) => VramTarget::ObjExtPalA,
        // Bank G (16 KB)
        (BankId::G, 0) => VramTarget::Lcdc { lcdc_offset: 0x9_4000 },
        (BankId::G, 1) => VramTarget::EngineABg { base: f_g_bg_offset(offset) },
        (BankId::G, 2) => VramTarget::EngineAObj { base: f_g_bg_offset(offset) },
        (BankId::G, 3) => VramTarget::TexturePalette { slot: f_g_texpal_slot(offset) },
        (BankId::G, 4) => VramTarget::BgExtPalA { slot: offset % 2 },
        (BankId::G, 5) => VramTarget::ObjExtPalA,
        // Bank H (32 KB)
        (BankId::H, 0) => VramTarget::Lcdc { lcdc_offset: 0x9_8000 },
        (BankId::H, 1) => VramTarget::EngineBBg { base: 0 },
        (BankId::H, 2) => VramTarget::BgExtPalB { slot: 0 },
        // Bank I (16 KB)
        (BankId::I, 0) => VramTarget::Lcdc { lcdc_offset: 0xA_0000 },
        (BankId::I, 1) => VramTarget::EngineBBg { base: 0x8000 },
        (BankId::I, 2) => VramTarget::EngineBObj { base: 0 },
        (BankId::I, 3) => VramTarget::ObjExtPalB,
        _ => VramTarget::Disabled,
    }
}

/// Start of banks F and G in an engine window.
fn f_g_bg_offset(offset: u8) -> (r: u32)
    requires
        offset < 4,
    ensures
        r == f_g_base(offset as int),
{
    (offset % 2) as u32 * 0x4000 + ((offset / 2) % 2) as u32 * 0x1_0000
}

fn f_g_texpal_slot(offset: u8) -> (r: u8)
    requires
        offset < 4,
    ensures
        r == f_g_slot(offset as int),
{
    offset % 2 + 4 * (offset / 2)
}

/// VRAM router: all 9 banks and the CPU and engine accesses to them.
#[derive(Debug, Clone)]
pub struct VramRouter {
    pub banks: [VramBank; 9],
}

impl View for VramRouter {
    type V = Seq<BankState>;

    open spec fn view(&self) -> Seq<BankState> {
        Seq::new(9, |i: int| self.banks[i]@)
    }
}

impl VramRouter {
    /// Every bank stands at its place and is well-formed.
    pub open spec fn wf(&self) -> bool {
        forall|i: int|
            0 <= i < 9 ==> (#[trigger] self.banks[i]).wf() && self.banks[i].id.index() == i
    }

    /// The banks of a well-formed router have their places and sizes.
    pub proof fn law_banks_in_place(&self)
        requires
            self.wf(),
        ensures
            banks_ok(self@),
    {
        assert forall|i: int| 0 <= i < 9 implies (#[trigger] self@[i]).id.index() == i
            && self@[i].data.len() == self@[i].id.bytes() by {
            assert(self.banks[i].wf());
        }
    }

    /// All banks disabled and zero.
    pub fn new() -> (r: Self)
        ensures
            r.wf(),
            blank(r@),
    {
        VramRouter {
            banks: [
                VramBank::new(BankId::A),
                VramBank::new(BankId::B),
                VramBank::new(BankId::C),
                VramBank::new(BankId::D),
                VramBank::new(BankId::E),
                VramBank::new(BankId::F),
                VramBank::new(BankId::G),
                VramBank::new(BankId::H),
                VramBank::new(BankId::I),
            ],
        }
    }

    /// Set VRAMCNT_x by bank id.
    pub fn write_cnt(&mut self, bank: BankId, val: u8)
        requires
            old(self).wf(),
        ensures
            final(self).wf(),
            final(self)@ == old(self)@.update(
                bank.index(),
                (BankState { cnt: val, ..old(self)@[bank.index()] }),
            ),
    {
        let i: usize = bank.position();
        assert(self.banks[i as int].wf());
        self.banks[i].write_cnt(val);
        assert(self@ =~= old(self)@.update(
            bank.index(),
            (BankState { cnt: val, ..old(self)@[bank.index()] }),
        ));
    }

    pub fn read_cnt(&self, bank: BankId) -> (r: u8)
        ensures
            r == self@[bank.index()].cnt,
    {
        self.banks[bank.position()].cnt
    }

    /// The byte that a window shows at `addr`: that of the first bank that
    /// maps it, 0 where none does.
    pub fn read_window(&self, window: Window, addr: u32) -> (r: u8)
        requires
            self.wf(),
        ensures
            r == read(self@, window, addr),
    {
        for i in 0..9usize
            invariant
                self.wf(),
                read(self@, window, addr) == read_from(self@, window, addr, i as int),
        {
            assert(self.banks[i as int].wf());
            assert(self@[i as int] == self.banks[i as int]@);
            if let Some(off) = self.banks[i].locate(window, addr) {
                return self.banks[i].data[off];
            }
        }
        0
    }

    /// Write a byte to every bank that maps `addr` in a window.
    fn write_window(&mut self, window: Window, addr: u32, val: u8)
        requires
            old(self).wf(),
        ensures
            final(self).wf(),
            final(self)@ == write(old(self)@, window, addr, val),
    {
        let ghost before = *self;
        for i in 0..9usize
            invariant
                before.wf(),
                self.wf(),
                forall|k: int|
                    0 <= k < i ==> (#[trigger] self.banks[k])@ == before@[k].written(
                        window,
                        addr,
                        val,
                    ),
                forall|k: int| i <= k < 9 ==> (#[trigger] self.banks[k])@ == before@[k],
        {
            assert(self.banks[i as int].wf());
            assert(self.banks[i as int]@ == before@[i as int]);
            let ghost step = *self;
            if let Some(off) = self.banks[i].locate(window, addr) {
                self.banks[i].data[off] = val;
            }
            assert(self.banks[i as int]@ =~= before@[i as int].written(window, addr, val));
            assert forall|k: int| 0 <= k < 9 implies (#[trigger] self.banks[k]).wf()
                && self.banks[k].id.index() == k by {
                assert(step.banks[k].wf());
            }
            assert forall|k: int| 0 <= k < 9 && k != i implies (#[trigger] self.banks[k])@
                == step.banks[k]@ by {}
        }
        assert(self@ =~= write(before@, window, addr, val));
    }

    /// CPU read at an ARM9-side address `0x06xxxxxx`. Returns the byte from
    /// the first bank that maps the address; returns 0 if no bank does.
    pub fn cpu_read_arm9(&self, addr: u32) -> (r: u8)
        requires
            self.wf(),
        ensures
            r == read(self@, Window::Arm9, addr),
    {
        self.read_window(Window::Arm9, addr)
    }

    /// CPU write at an ARM9-side address. Writes to every bank that maps this
    /// address: overlapping mappings are stored in all participating banks.
    pub fn cpu_write_arm9(&mut self, addr: u32, val: u8)
        requires
            old(self).wf(),
        ensures
            final(self).wf(),
            final(self)@ == write(old(self)@, Window::Arm9, addr, val),
    {
        self.write_window(Window::Arm9, addr, val);
    }

    /// CPU read on the ARM7-side at `0x06xxxxxx`. Only banks routed to the
    /// ARM7 participate.
    pub fn cpu_read_arm7(&self, addr: u32) -> (r: u8)
        requires
            self.wf(),
        ensures
            r == read(self@, Window::Arm7, addr),
    {
        self.read_window(Window::Arm7, addr)
    }

    /// CPU write on the ARM7-side, to every bank that maps the address.
    pub fn cpu_write_arm7(&mut self, addr: u32, val: u8)
        requires
            old(self).wf(),
        ensures
            final(self).wf(),
            final(self)@ == write(old(self)@, Window::Arm7, addr, val),
    {
        self.write_window(Window::Arm7, addr, val);
    }

    /// Read a byte from the Engine A BG window at `bg_addr`.
    pub fn read_engine_a_bg(&self, bg_addr: u32) -> (r: u8)
        requires
            self.wf(),
        ensures
            r == read(self@, Window::EngineABg, bg_addr),
    {
        self.read_window(Window::EngineABg, bg_addr)
    }

    /// Read a byte from the Engine A OBJ window.
    pub fn read_engine_a_obj(&self, addr: u32) -> (r: u8)
        requires
            self.wf(),
        ensures
            r == read(self@, Window::EngineAObj, addr),
    {
        self.read_window(Window::EngineAObj, addr)
    }

    /// Read a byte from the Engine B BG window.
    pub fn read_engine_b_bg(&self, addr: u32) -> (r: u8)
        requires
            self.wf(),
        ensures
            r == read(self@, Window::EngineBBg, addr),
    {
        self.read_window(Window::EngineBBg, addr)
    }

    /// Read a byte from the Engine B OBJ window.
    pub fn read_engine_b_obj(&self, addr: u32) -> (r: u8)
        requires
            self.wf(),
        ensures
            r == read(self@, Window::EngineBObj, addr),
    {
        self.read_window(Window::EngineBObj, addr)
    }

    /// The little-endian halfword at the even address below `addr`.
    fn read_window_u16(&self, window: Window, addr: u32) -> (r: u16)
        requires
            self.wf(),
        ensures
            r == read_u16(self@, window, addr),
    {
        let a: u32 = addr - addr % 2;
        let lo: u16 = self.read_window(window, a) as u16;
        let hi: u16 = self.read_window(window, a + 1) as u16;
        lo + 256 * hi
    }

    /// The halfword at an offset of the LCDC region.
    pub fn read_lcdc_u16(&self, offset: u32) -> (r: u16)
        requires
            self.wf(),
            offset < 0x80_0000,
        ensures
            r == read_u16(self@, Window::Arm9, (0x0680_0000 + offset) as u32),
    {
        self.read_window_u16(Window::Arm9, 0x0680_0000 + offset)
    }

    /// Read the halfword of Engine A BG at the even address below `addr`.
    pub fn read_engine_a_bg_u16(&self, addr: u32) -> (r: u16)
        requires
            self.wf(),
        ensures
            r == read_u16(self@, Window::EngineABg, addr),
    {
        self.read_window_u16(Window::EngineABg, addr)
    }

    /// Read the halfword of Engine B BG at the even address below `addr`.
    pub fn read_engine_b_bg_u16(&self, addr: u32) -> (r: u16)
        requires
            self.wf(),
        ensures
            r == read_u16(self@, Window::EngineBBg, addr),
    {
        self.read_window_u16(Window::EngineBBg, addr)
    }

    /// Read the halfword of Engine A OBJ at the even address below `addr`.
    pub fn read_engine_a_obj_u16(&self, addr: u32) -> (r: u16)
        requires
            self.wf(),
        ensures
            r == read_u16(self@, Window::EngineAObj, addr),
    {
        self.read_window_u16(Window::EngineAObj, addr)
    }

    /// Read the halfword of Engine B OBJ at the even address below `addr`.
    pub fn read_engine_b_obj_u16(&self, addr: u32) -> (r: u16)
        requires
            self.wf(),
        ensures
            r == read_u16(self@, Window::EngineBObj, addr),
    {
        self.read_window_u16(Window::EngineBObj, addr)
    }

    /// Read one byte from the 512 KB texture image target. Banks A-D can each
    /// back a 128 KB slot.
    pub fn read_texture_image(&self, addr: u32) -> (r: u8)
        requires
            self.wf(),
        ensures
            r == read(self@, Window::TextureImage, addr),
    {
        self.read_window(Window::TextureImage, addr)
    }

    /// Read one byte from the 128 KB texture palette target. Slots are 16 KB
    /// each; bank E covers slots 0..3, F and G one slot each.
    pub fn read_texture_palette(&self, addr: u32) -> (r: u8)
        requires
            self.wf(),
        ensures
            r == read(self@, Window::TexturePalette, addr),
    {
        self.read_window(Window::TexturePalette, addr)
    }

    /// Read the halfword of the texture palettes at the even address below `addr`.
    pub fn read_texture_palette_u16(&self, addr: u32) -> (r: u16)
        requires
            self.wf(),
        ensures
            r == read_u16(self@, Window::TexturePalette, addr),
    {
        self.read_window_u16(Window::TexturePalette, addr)
    }
}

impl Default for VramRouter {
    fn default() -> (r: Self)
        ensures
            r.wf(),
            blank(r@),
    {
        Self::new()
    }
}

/// Bytes in the banks before the bank at position `i`.
pub open spec fn bytes_before(banks: Seq<BankState>, i: int) -> int
    decreases i,
{
    if i <= 0 {
        0
    } else {
        bytes_before(banks, i - 1) + banks[i - 1].data.len()
    }
}

proof fn lemma_bytes_before(banks: Seq<BankState>)
    requires
        banks_ok(banks),
    ensures
        bytes_before(banks, 0) == 0,
        bytes_before(banks, 1) == 0x2_0000,
        bytes_before(banks, 2) == 0x4_0000,
        bytes_before(banks, 3) == 0x6_0000,
        bytes_before(banks, 4) == 0x8_0000,
        bytes_before(banks, 5) == 0x9_0000,
        bytes_before(banks, 6) == 0x9_4000,
        bytes_before(banks, 7) == 0x9_8000,
        bytes_before(banks, 8) == 0xA_0000,
        bytes_before(banks, 9) == 0xA_4000,
{
    reveal_with_fuel(bytes_before, 10);
    assert(banks[0].id == BankId::A);
    assert(banks[1].id == BankId::B);
    assert(banks[2].id == BankId::C);
    assert(banks[3].id == BankId::D);
    assert(banks[4].id == BankId::E);
    assert(banks[5].id == BankId::F);
    assert(banks[6].id == BankId::G);
    assert(banks[7].id == BankId::H);
    assert(banks[8].id == BankId::I);
}

/// In mode 0 the banks lie one behind the other from 0x06800000 on, without a gap,
/// and together they have 656 KB.
pub proof fn law_flat_view_has_no_gaps(banks: Seq<BankState>, i: int, k: int)
    requires
        banks_ok(banks),
        0 <= i < 9,
        banks[i].cnt >= 0x80,
        banks[i].cnt % 8 == 0,
        0 <= k < banks[i].data.len(),
    ensures
        banks[i].offset(Window::Arm9, (0x0680_0000 + bytes_before(banks, i) + k) as u32) == Some(k),
        bytes_before(banks, 9) == 656 * 1024,
{
    lemma_bytes_before(banks);
    let addr = 0x0680_0000 + bytes_before(banks, i) + k;
    assert(addr % 0x100_0000 == 0x80_0000 + bytes_before(banks, i) + k);
}

/// An engine shows what the ARM9 has at the window's own addresses.
#[verifier::spinoff_prover]
#[verifier::rlimit(60)]
pub proof fn law_engines_show_cpu_memory(banks: Seq<BankState>, k: int)
    requires
        0 <= k,
    ensures
        k < 0x8_0000 ==> read(banks, Window::Arm9, (0x0600_0000 + k) as u32) == read(
            banks,
            Window::EngineABg,
            k as u32,
        ),
        k < 0x2_0000 ==> read(banks, Window::Arm9, (0x0620_0000 + k) as u32) == read(
            banks,
            Window::EngineBBg,
            k as u32,
        ),
        k < 0x4_0000 ==> read(banks, Window::Arm9, (0x0640_0000 + k) as u32) == read(
            banks,
            Window::EngineAObj,
            k as u32,
        ),
        k < 0x2_0000 ==> read(banks, Window::Arm9, (0x0660_0000 + k) as u32) == read(
            banks,
            Window::EngineBObj,
            k as u32,
        ),
{
    if k < 0x8_0000 {
        let a = (0x0600_0000 + k) as u32;
        assert forall|i: int| 0 <= i < banks.len() implies (#[trigger] banks[i]).offset(
            Window::Arm9,
            a,
        ) == banks[i].offset(Window::EngineABg, k as u32) by {
            lemma_engine_a_bg(banks[i].target(), banks[i].id.bytes(), k);
        }
        lemma_same_view(banks, Window::Arm9, a, Window::EngineABg, k as u32, 0);
    }
    if k < 0x2_0000 {
        let a = (0x0620_0000 + k) as u32;
        let b = (0x0660_0000 + k) as u32;
        assert forall|i: int| 0 <= i < banks.len() implies (#[trigger] banks[i]).offset(
            Window::Arm9,
            a,
        ) == banks[i].offset(Window::EngineBBg, k as u32) && banks[i].offset(Window::Arm9, b)
            == banks[i].offset(Window::EngineBObj, k as u32) by {
            lemma_engine_b(banks[i].target(), banks[i].id.bytes(), k);
        }
        lemma_same_view(banks, Window::Arm9, a, Window::EngineBBg, k as u32, 0);
        lemma_same_view(banks, Window::Arm9, b, Window::EngineBObj, k as u32, 0);
    }
    if k < 0x4_0000 {
        let a = (0x0640_0000 + k) as u32;
        assert forall|i: int| 0 <= i < banks.len() implies (#[trigger] banks[i]).offset(
            Window::Arm9,
            a,
        ) == banks[i].offset(Window::EngineAObj, k as u32) by {
            lemma_engine_a_obj(banks[i].target(), banks[i].id.bytes(), k);
        }
        lemma_same_view(banks, Window::Arm9, a, Window::EngineAObj, k as u32, 0);
    }
}

proof fn lemma_engine_a_bg(t: VramTarget, span: int, k: int)
    requires
        0 <= k < 0x8_0000,
    ensures
        offset_in(t, span, Window::Arm9, (0x0600_0000 + k) as u32) == offset_in(
            t,
            span,
            Window::EngineABg,
            k as u32,
        ),
{
    assert((0x0600_0000 + k) % 0x100_0000 == k);
    assert(k % 0x8_0000 == k);
}

proof fn lemma_engine_a_obj(t: VramTarget, span: int, k: int)
    requires
        0 <= k < 0x4_0000,
    ensures
        offset_in(t, span, Window::Arm9, (0x0640_0000 + k) as u32) == offset_in(
            t,
            span,
            Window::EngineAObj,
            k as u32,
        ),
{
    assert((0x0640_0000 + k) % 0x100_0000 == 0x40_0000 + k);
    assert(k % 0x4_0000 == k);
}

proof fn lemma_engine_b(t: VramTarget, span: int, k: int)
    requires
        0 <= k < 0x2_0000,
    ensures
        offset_in(t, span, Window::Arm9, (0x0620_0000 + k) as u32) == offset_in(
            t,
            span,
            Window::EngineBBg,
            k as u32,
        ),
        offset_in(t, span, Window::Arm9, (0x0660_0000 + k) as u32) == offset_in(
            t,
            span,
            Window::EngineBObj,
            k as u32,
        ),
{
    assert((0x0620_0000 + k) % 0x100_0000 == 0x20_0000 + k);
    assert((0x0660_0000 + k) % 0x100_0000 == 0x60_0000 + k);
    assert(k % 0x2_0000 == k);
}

proof fn lemma_same_view(
    banks: Seq<BankState>,
    one: Window,
    a: u32,
    other: Window,
    b: u32,
    i: int,
)
    requires
        0 <= i,
        forall|k: int|
            0 <= k < banks.len() ==> (#[trigger] banks[k]).offset(one, a) == banks[k].offset(
                other,
                b,
            ),
    ensures
        read_from(banks, one, a, i) == read_from(banks, other, b, i),
    decreases banks.len() - i,
{
    if i < banks.len() {
        lemma_same_view(banks, one, a, other, b, i + 1);
    }
}

/// The windows of the ARM9 repeat: 512 KB for engine A's backgrounds, 256 KB for its
/// objects, 128 KB for engine B's; the ARM7's repeats after 4 MB, and the upper
/// eight bits of an address never matter.
#[verifier::spinoff_prover]
#[verifier::rlimit(60)]
pub proof fn law_windows_repeat(bank: BankState, addr: u32)
    ensures
        addr as int % 0x100_0000 < 0x18_0000 ==> bank.offset(Window::Arm9, addr) == bank.offset(
            Window::Arm9,
            (addr as int % 0x100_0000 + 0x8_0000) as u32,
        ),
        0x20_0000 <= addr as int % 0x100_0000 < 0x3E_0000 ==> bank.offset(Window::Arm9, addr)
            == bank.offset(Window::Arm9, (addr as int % 0x100_0000 + 0x2_0000) as u32),
        0x40_0000 <= addr as int % 0x100_0000 < 0x5C_0000 ==> bank.offset(Window::Arm9, addr)
            == bank.offset(Window::Arm9, (addr as int % 0x100_0000 + 0x4_0000) as u32),
        0x60_0000 <= addr as int % 0x100_0000 < 0x7E_0000 ==> bank.offset(Window::Arm9, addr)
            == bank.offset(Window::Arm9, (addr as int % 0x100_0000 + 0x2_0000) as u32),
        bank.offset(Window::Arm7, addr) == bank.offset(
            Window::Arm7,
            (addr as int % 0x40_0000) as u32,
        ),
        0x8A_4000 <= addr as int % 0x100_0000 ==> bank.offset(Window::Arm9, addr) is None,
{
    let win = addr as int % 0x100_0000;
    let t = bank.target();
    let span = bank.id.bytes();
    assert(win % 0x100_0000 == win);
    if win < 0x18_0000 {
        lemma_repeat(win, 0x8_0000);
        assert(offset_in(t, span, Window::Arm9, addr) == offset_in(
            t,
            span,
            Window::Arm9,
            (win + 0x8_0000) as u32,
        ));
    }
    if 0x20_0000 <= win < 0x3E_0000 {
        lemma_repeat(win - 0x20_0000, 0x2_0000);
        assert(offset_in(t, span, Window::Arm9, addr) == offset_in(
            t,
            span,
            Window::Arm9,
            (win + 0x2_0000) as u32,
        ));
    }
    if 0x40_0000 <= win < 0x5C_0000 {
        lemma_repeat(win - 0x40_0000, 0x4_0000);
        assert(offset_in(t, span, Window::Arm9, addr) == offset_in(
            t,
            span,
            Window::Arm9,
            (win + 0x4_0000) as u32,
        ));
    }
    if 0x60_0000 <= win < 0x7E_0000 {
        lemma_repeat(win - 0x60_0000, 0x2_0000);
        assert(offset_in(t, span, Window::Arm9, addr) == offset_in(
            t,
            span,
            Window::Arm9,
            (win + 0x2_0000) as u32,
        ));
    }
    lemma_repeat(addr as int % 0x40_0000, 0x40_0000);
    assert(offset_in(t, span, Window::Arm7, addr) == offset_in(
        t,
        span,
        Window::Arm7,
        (addr as int % 0x40_0000) as u32,
    ));
}

proof fn lemma_repeat(x: int, m: int)
    requires
        m > 0,
    ensures
        (x + m) % m == x % m,
        0 <= x < m ==> x % m == x,
{
    vstd::arithmetic::div_mod::lemma_mod_add_multiples_vanish(x, m);
    if 0 <= x < m {
        vstd::arithmetic::div_mod::lemma_small_mod(x as nat, m as nat);
    }
}

/// Whether a bank is one of the four large ones.
pub open spec fn is_large(id: BankId) -> bool {
    id == BankId::A || id == BankId::B || id == BankId::C || id == BankId::D
}

/// Where an enabled bank in mode `m` with offset `o` shows up for engine A, for the
/// ARM7 and for textures: the four large banks have 128 KB slots; A and B also
/// serve objects, C and D the ARM7.
pub proof fn law_large_bank_places(bank: BankState, k: int)
    requires
        bank.cnt >= 0x80,
        is_large(bank.id),
        0 <= k < 0x2_0000,
    ensures
        ({
            let m = bank.cnt as int % 8;
            let o = bank.cnt as int / 8 % 4;
            let at = (o * 0x2_0000 + k) as u32;
            let half = (o % 2 * 0x2_0000 + k) as u32;
            let ab = bank.id == BankId::A || bank.id == BankId::B;
            &&& bank.offset(Window::EngineABg, at) == if m == 1 { Some(k) } else { None }
            &&& bank.offset(Window::TextureImage, at) == if m == 3 { Some(k) } else { None }
            &&& bank.offset(Window::EngineAObj, half) == if m == 2 && ab { Some(k) } else { None }
            &&& bank.offset(Window::Arm7, half) == if m == 2 && !ab { Some(k) } else { None }
            &&& bank.offset(Window::EngineBBg, k as u32) == if m == 4 && bank.id == BankId::C {
                Some(k)
            } else {
                None
            }
            &&& bank.offset(Window::EngineBObj, k as u32) == if m == 4 && bank.id == BankId::D {
                Some(k)
            } else {
                None
            }
            &&& bank.offset(Window::TexturePalette, k as u32) is None
        }),
{
}

/// Where the small banks show up. F and G move by 16 KB with offset bit 0 and by
/// 64 KB with bit 1, as texture palettes too; the others have fixed places.
#[verifier::spinoff_prover]
#[verifier::rlimit(60)]
pub proof fn law_small_bank_places(bank: BankState, k: int)
    requires
        bank.cnt >= 0x80,
        !is_large(bank.id),
        0 <= k < bank.id.bytes(),
    ensures
        ({
            let m = bank.cnt as int % 8;
            let o = bank.cnt as int / 8 % 4;
            let fg = bank.id == BankId::F || bank.id == BankId::G;
            let e = bank.id == BankId::E;
            let moved = if fg {
                (if o % 2 == 1 { 0x4000int } else { 0 }) + (if o >= 2 { 0x1_0000int } else { 0 })
            } else {
                0
            };
            let at = (moved + k) as u32;
            &&& bank.offset(Window::EngineABg, at) == if m == 1 && (e || fg) {
                Some(k)
            } else {
                None
            }
            &&& bank.offset(Window::EngineAObj, at) == if m == 2 && (e || fg) {
                Some(k)
            } else {
                None
            }
            &&& bank.offset(Window::TexturePalette, at) == if m == 3 && (e || fg) {
                Some(k)
            } else {
                None
            }
            &&& bank.id == BankId::H ==> bank.offset(Window::EngineBBg, k as u32) == if m == 1 {
                Some(k)
            } else {
                None
            }
            &&& bank.id == BankId::I ==> bank.offset(Window::EngineBBg, (0x8000 + k) as u32)
                == if m == 1 {
                Some(k)
            } else {
                None
            }
            &&& bank.offset(Window::EngineBObj, k as u32) == if m == 2 && bank.id == BankId::I {
                Some(k)
            } else {
                None
            }
            &&& bank.offset(Window::Arm7, k as u32) is None
            &&& bank.offset(Window::TextureImage, k as u32) is None
        }),
{
}

/// A write leaves what a read finds at another address, where no bank maps both
/// addresses to one byte.
pub proof fn law_write_keeps_other_addresses(
    banks: Seq<BankState>,
    window: Window,
    addr: u32,
    val: u8,
    other: u32,
)
    requires
        banks_ok(banks),
        forall|i: int|
            0 <= i < banks.len() ==> (#[trigger] banks[i]).offset(window, other) is None
                || banks[i].offset(window, other) != banks[i].offset(window, addr),
    ensures
        read(write(banks, window, addr, val), window, other) == read(banks, window, other),
{
    lemma_write_apart(banks, window, addr, val, other, 0);
}

#[verifier::spinoff_prover]
#[verifier::rlimit(60)]
proof fn lemma_write_apart(
    banks: Seq<BankState>,
    window: Window,
    addr: u32,
    val: u8,
    other: u32,
    i: int,
)
    requires
        0 <= i,
        banks_ok(banks),
        forall|k: int|
            0 <= k < banks.len() ==> (#[trigger] banks[k]).offset(window, other) is None
                || banks[k].offset(window, other) != banks[k].offset(window, addr),
    ensures
        read_from(write(banks, window, addr, val), window, other, i) == read_from(
            banks,
            window,
            other,
            i,
        ),
    decreases banks.len() - i,
{
    if i < banks.len() {
        let after = write(banks, window, addr, val);
        assert(after[i] == banks[i].written(window, addr, val));
        lemma_written_keeps_place(banks[i], window, addr, val, other);
        lemma_write_apart(banks, window, addr, val, other, i + 1);
    }
}

proof fn lemma_written_keeps_place(
    bank: BankState,
    window: Window,
    addr: u32,
    val: u8,
    other: u32,
)
    requires
        bank.data.len() == bank.id.bytes(),
    ensures
        bank.written(window, addr, val).offset(window, other) == bank.offset(window, other),
        bank.offset(window, other) matches Some(off) ==> bank.offset(window, addr) != Some(off)
            ==> bank.written(window, addr, val).data[off] == bank.data[off],
{
    lemma_offset_in_bank(bank, window, addr);
    lemma_offset_in_bank(bank, window, other);
    assert(bank.written(window, addr, val).target() == bank.target());
    assert(bank.written(window, addr, val).id == bank.id);
}

/// Where two banks show up at one address, a read gives the first one's byte.
pub proof fn law_first_bank_wins(banks: Seq<BankState>, window: Window, addr: u32, i: int, off: int)
    requires
        0 <= i < banks.len(),
        banks[i].offset(window, addr) == Some(off),
        forall|k: int| 0 <= k < i ==> (#[trigger] banks[k]).offset(window, addr) is None,
    ensures
        read(banks, window, addr) == banks[i].data[off],
{
    lemma_first_from(banks, window, addr, i, off, 0);
}

proof fn lemma_first_from(
    banks: Seq<BankState>,
    window: Window,
    addr: u32,
    i: int,
    off: int,
    k: int,
)
    requires
        0 <= k <= i < banks.len(),
        banks[i].offset(window, addr) == Some(off),
        forall|j: int| 0 <= j < i ==> (#[trigger] banks[j]).offset(window, addr) is None,
    ensures
        read_from(banks, window, addr, k) == banks[i].data[off],
    decreases i - k,
{
    if k < i {
        lemma_first_from(banks, window, addr, i, off, k + 1);
    }
}

/// A write reaches every bank that maps the address, at the byte it maps it to, and no
/// other byte of any bank.
pub proof fn law_write_reaches_every_bank(
    banks: Seq<BankState>,
    window: Window,
    addr: u32,
    val: u8,
    i: int,
    k: int,
)
    requires
        banks_ok(banks),
        0 <= i < 9,
        0 <= k < banks[i].data.len(),
    ensures
        write(banks, window, addr, val)[i].data[k] == if banks[i].offset(window, addr) == Some(k) {
            val
        } else {
            banks[i].data[k]
        },
{
    lemma_offset_in_bank(banks[i], window, addr);
    assert(write(banks, window, addr, val)[i] == banks[i].written(window, addr, val));
}

/// A halfword has its low byte at the even address and its high byte above it.
pub proof fn law_halfword_bytes(banks: Seq<BankState>, window: Window, addr: u32)
    requires
        addr < 0xFFFF_FFFE,
    ensures
        ({
            let even = (addr / 2 * 2) as u32;
            let v = read_u16(banks, window, addr);
            &&& v % 0x100 == read(banks, window, even)
            &&& v / 0x100 == read(banks, window, (even + 1) as u32)
        }),
{
    let a = (addr - addr % 2) as u32;
    assert(a == addr / 2 * 2);
    let lo = read(banks, window, a);
    let hi = read(banks, window, (a + 1) as u32);
    fixed::lemma_low_field(lo + 256 * hi, lo as int, hi as int, 256);
}

} // verus!
