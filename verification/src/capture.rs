//! Display capture: a frame of engine A's picture or of the 3D scene, a frame
//! from memory, or a mix of both is written to video memory, line by line.
//!
//! ```text
//! DISPCAPCNT:
//!   [4:0]   EVA, weight of source A (at most 16)
//!   [12:8]  EVB, weight of source B (at most 16)
//!   [17:16] destination block
//!   [19:18] destination offset, in 0x8000 bytes
//!   [21:20] size: 128x128, 256x64, 256x128, 256x192
//!   [24]    source A: engine A (0) or 3D (1)
//!   [25]    source B: video memory (0) or main-memory FIFO (1)
//!   [27:26] source B offset, in 0x8000 bytes
//!   [30:29] source: A, B, or both mixed
//!   [31]    enable / busy
//! ```

use vstd::prelude::*;
use std::collections::VecDeque;
use crate::bgr555;
use crate::fixed;
use crate::gpu3d::engine::Engine3d;
use crate::shared;
use crate::shared::{SharedState, SharedView};
use crate::vram;
use crate::vram::{BankState, VramRouter, Window};

verus! {

/// Pixels of a screen.
pub const SCREEN_PIXELS: usize = 0xC000;

/// Width of a capture.
pub open spec fn width(cnt: int) -> int {
    if cnt / 0x10_0000 % 4 == 0 { 128 } else { 256 }
}

/// Height of a capture.
pub open spec fn height(cnt: int) -> int {
    if cnt / 0x10_0000 % 4 == 0 {
        128
    } else if cnt / 0x10_0000 % 4 == 1 {
        64
    } else if cnt / 0x10_0000 % 4 == 2 {
        128
    } else {
        192
    }
}

/// A byte position in a 128 KB block, from an offset, with wrap-around.
pub open spec fn block_addr(block: int, offset: int, byte_pos: int) -> int {
    block * 0x2_0000 + (offset + byte_pos) % 0x2_0000
}

/// Where a captured pixel goes, in bytes: rows follow each other without a gap.
pub open spec fn output_pos(width: int, line: int, x: int) -> int {
    (line * (if width == 128 { 128int } else { 256 }) + x) * 2
}

/// A weight is at most 16.
pub open spec fn weight(field: int) -> int {
    if field > 16 { 16 } else { field }
}

/// One channel of a mix; a transparent source adds nothing.
pub open spec fn mixed_channel(a: int, a_on: bool, b: int, b_on: bool, eva: int, evb: int) -> int {
    fixed::min(((if a_on { a * eva } else { 0 }) + (if b_on { b * evb } else { 0 })) / 16, 31)
}

/// Two pixels mixed; the result is opaque where an opaque source has weight.
pub open spec fn mixed(a: u16, a_on: bool, b: u16, b_on: bool, eva: int, evb: int) -> int {
    bgr555::pack(
        mixed_channel(bgr555::red(a), a_on, bgr555::red(b), b_on, eva, evb),
        mixed_channel(bgr555::green(a), a_on, bgr555::green(b), b_on, eva, evb),
        mixed_channel(bgr555::blue(a), a_on, bgr555::blue(b), b_on, eva, evb),
    ) + if (a_on && eva > 0) || (b_on && evb > 0) { 0x8000int } else { 0 }
}

/// The inputs of one captured line, the video memory apart.
pub struct CaptureLine {
    pub cnt: int,
    pub dispcnt: int,
    pub line: int,
    /// Engine A's picture.
    pub screen: Seq<u16>,
    /// The 3D scene.
    pub scene: Seq<u16>,
    /// The main-memory FIFO.
    pub fifo: Seq<u32>,
}

impl CaptureLine {
    pub open spec fn from_3d(self) -> bool {
        fixed::bit(self.cnt, 0x100_0000)
    }

    pub open spec fn from_fifo(self) -> bool {
        fixed::bit(self.cnt, 0x200_0000)
    }

    /// Source A's pixel.
    pub open spec fn source_a(self, x: int) -> u16 {
        if self.from_3d() {
            self.scene[self.line * 256 + x]
        } else {
            self.screen[self.line * 256 + x]
        }
    }

    /// A pixel of engine A is always opaque, one of the 3D scene where it was
    /// drawn.
    pub open spec fn opaque_a(self, x: int) -> bool {
        self.from_3d() ==> bgr555::written(self.source_a(x))
    }

    /// The address in video memory from which source B reads. The offset has
    /// no effect while engine A shows video memory.
    pub open spec fn read_addr(self, x: int) -> u32 {
        let offset = if self.dispcnt / 0x1_0000 % 4 == 2 {
            0
        } else {
            self.cnt / 0x400_0000 % 4 * 0x8000
        };
        (0x0680_0000 + block_addr(
            self.dispcnt / 0x4_0000 % 4,
            offset,
            (self.line * 256 + x) * 2,
        )) as u32
    }

    /// Source B's pixel: two per word of the FIFO, low half first, black once
    /// the FIFO is empty; or video memory.
    pub open spec fn source_b(self, banks: Seq<BankState>, x: int) -> u16 {
        if self.from_fifo() {
            let word = if x / 2 < self.fifo.len() { self.fifo[x / 2] } else { 0 };
            if x % 2 == 0 {
                (word % 0x8000) as u16
            } else {
                (word / 0x1_0000 % 0x8000) as u16
            }
        } else {
            vram::read_u16(banks, Window::Arm9, self.read_addr(x))
        }
    }

    /// A pixel of the FIFO is always opaque, one of video memory where bit 15
    /// is set.
    pub open spec fn opaque_b(self, banks: Seq<BankState>, x: int) -> bool {
        !self.from_fifo() ==> bgr555::written(self.source_b(banks, x))
    }

    /// The captured pixel.
    pub open spec fn pixel(self, banks: Seq<BankState>, x: int) -> int {
        let a = self.source_a(x);
        let b = self.source_b(banks, x);
        let source = self.cnt / 0x2000_0000 % 4;
        if source == 0 {
            bgr555::rgb(a) + if self.opaque_a(x) { 0x8000int } else { 0 }
        } else if source == 1 {
            bgr555::rgb(b) + if self.opaque_b(banks, x) { 0x8000int } else { 0 }
        } else {
            mixed(
                a,
                self.opaque_a(x),
                b,
                self.opaque_b(banks, x),
                weight(self.cnt % 32),
                weight(self.cnt / 0x100 % 32),
            )
        }
    }

    /// Where the captured pixel is written.
    pub open spec fn write_addr(self, x: int) -> u32 {
        (0x0680_0000 + block_addr(
            self.cnt / 0x1_0000 % 4,
            self.cnt / 0x4_0000 % 4 * 0x8000,
            output_pos(width(self.cnt), self.line, x),
        )) as u32
    }

    /// The video memory with a pixel captured.
    pub open spec fn captured(self, banks: Seq<BankState>, x: int) -> Seq<BankState> {
        let v = self.pixel(banks, x);
        vram::write(
            vram::write(banks, Window::Arm9, self.write_addr(x), (v % 0x100) as u8),
            Window::Arm9,
            (self.write_addr(x) + 1) as u32,
            (v / 0x100 % 0x100) as u8,
        )
    }

    /// The video memory with the first `n` pixels captured. Each pixel is read
    /// after those before it were written.
    pub open spec fn banks_after(self, banks: Seq<BankState>, n: int) -> Seq<BankState>
        decreases n,
    {
        if n <= 0 {
            banks
        } else {
            self.captured(self.banks_after(banks, n - 1), n - 1)
        }
    }

    /// The FIFO with the words of `n` pixels taken.
    pub open spec fn fifo_after(self, n: int) -> Seq<u32> {
        let taken = (n + 1) / 2;
        if !self.from_fifo() {
            self.fifo
        } else if taken <= self.fifo.len() {
            self.fifo.skip(taken)
        } else {
            Seq::empty()
        }
    }
}

impl SharedView {
    /// The capture that a line of engine A's picture feeds.
    pub open spec fn capture_line(self, line: int, screen: Seq<u16>) -> CaptureLine {
        CaptureLine {
            cnt: self.dispcapcnt as int,
            dispcnt: self.engine_a.dispcnt as int,
            line,
            screen,
            scene: self.gpu3d.rasterizer.framebuffer,
            fifo: self.disp_mmem_fifo,
        }
    }

    pub open spec fn capture_enabled(self) -> bool {
        self.dispcapcnt >= 0x8000_0000
    }

    /// A capture that was asked for starts with the first line.
    pub open spec fn capture_started(self, line: int) -> SharedView {
        if line == 0 && self.dispcap_pending && self.capture_enabled() {
            SharedView { dispcap_pending: false, dispcap_active: true, ..self }
        } else {
            self
        }
    }

    /// A capture ends with the last visible line, whatever its height.
    pub open spec fn capture_finished(self, line: int) -> SharedView {
        if line == 191 {
            SharedView {
                dispcapcnt: self.dispcapcnt % 0x8000_0000,
                dispcap_active: false,
                dispcap_pending: false,
                ..self
            }
        } else {
            self
        }
    }

    /// The shared state with a line captured, where the line is part of the
    /// capture.
    pub open spec fn line_captured(self, line: int, screen: Seq<u16>) -> SharedView {
        if line < height(self.dispcapcnt as int) {
            let c = self.capture_line(line, screen);
            let n = width(self.dispcapcnt as int);
            SharedView {
                vram: c.banks_after(self.vram, n),
                disp_mmem_fifo: c.fifo_after(n),
                ..self
            }
        } else {
            self
        }
    }

    /// The shared state after a line was shown, with display capture.
    pub open spec fn scanline_captured(self, line: int, screen: Seq<u16>) -> SharedView {
        let s = self.capture_started(line);
        if s.dispcap_active && s.capture_enabled() {
            s.line_captured(line, screen).capture_finished(line)
        } else {
            s
        }
    }

    /// Whether the capture of a line will read the main-memory FIFO.
    pub open spec fn capture_wants_fifo(self, line: int) -> bool {
        &&& self.capture_enabled()
        &&& fixed::bit(self.dispcapcnt as int, 0x200_0000)
        &&& self.dispcapcnt as int / 0x2000_0000 % 4 != 0
        &&& self.dispcap_active || (line == 0 && self.dispcap_pending)
        &&& line < height(self.dispcapcnt as int)
    }
}

proof fn lemma_mixed_channel(a: int, a_on: bool, b: int, b_on: bool, eva: int, evb: int)
    requires
        0 <= a <= 31,
        0 <= b <= 31,
        0 <= eva <= 0xFFFF,
        0 <= evb <= 0xFFFF,
    ensures
        0 <= a * eva <= 0x1F_FFE0,
        0 <= b * evb <= 0x1F_FFE0,
        0 <= mixed_channel(a, a_on, b, b_on, eva, evb) <= 31,
{
    assert(0 <= a * eva <= 31 * 0xFFFF) by (nonlinear_arith)
        requires
            0 <= a <= 31,
            0 <= eva <= 0xFFFF,
    ;
    assert(0 <= b * evb <= 31 * 0xFFFF) by (nonlinear_arith)
        requires
            0 <= b <= 31,
            0 <= evb <= 0xFFFF,
    ;
}

/// A source with full weight, the other one with none, is captured as it is.
pub proof fn law_full_weight_keeps_pixel(a: u16, b: u16, b_on: bool)
    ensures
        mixed(a, true, b, b_on, 16, 0) == bgr555::mark(a),
        mixed(b, b_on, a, true, 0, 16) == bgr555::mark(a),
{
    bgr555::law_channels_pack(a);
    assert(bgr555::red(b) * 0 == 0 && bgr555::green(b) * 0 == 0 && bgr555::blue(b) * 0 == 0);
}

/// A capture writes to its own block of video memory alone.
pub proof fn law_capture_stays_in_block(c: CaptureLine, x: int)
    requires
        0 <= c.cnt,
        0 <= c.line < 192,
        0 <= x < 256,
    ensures
        ({
            let block = c.cnt / 0x1_0000 % 4;
            &&& 0x0680_0000 + block * 0x2_0000 <= c.write_addr(x)
            &&& c.write_addr(x) + 1 < 0x0680_0000 + (block + 1) * 0x2_0000
            &&& c.write_addr(x) % 2 == 0
        }),
{
    lemma_even_pos(c.cnt / 0x4_0000 % 4 * 0x8000, output_pos(width(c.cnt), c.line, x));
}

proof fn lemma_even_pos(offset: int, pos: int)
    requires
        offset % 2 == 0,
        pos % 2 == 0,
    ensures
        (offset + pos) % 0x2_0000 % 2 == 0,
{
}

/// Capturing keeps the banks' places, sizes and settings.
pub proof fn law_capture_keeps_banks(c: CaptureLine, banks: Seq<BankState>, n: int)
    requires
        vram::banks_ok(banks),
    ensures
        vram::banks_ok(c.banks_after(banks, n)),
        forall|i: int|
            0 <= i < 9 ==> (#[trigger] c.banks_after(banks, n)[i]).cnt == banks[i].cnt,
    decreases n,
{
    if n > 0 {
        law_capture_keeps_banks(c, banks, n - 1);
        let before = c.banks_after(banks, n - 1);
        let v = c.pixel(before, n - 1);
        let low = (v % 0x100) as u8;
        let high = (v / 0x100 % 0x100) as u8;
        let at = c.write_addr(n - 1);
        vram::law_write_keeps_banks(before, Window::Arm9, at, low);
        let half = vram::write(before, Window::Arm9, at, low);
        vram::law_write_keeps_banks(half, Window::Arm9, (at + 1) as u32, high);
    }
}

/// A capture is over after the last visible line, and the register shows it as
/// no longer busy; before that, it stays busy even where its height is reached.
pub proof fn law_capture_ends_with_frame(s: SharedView, line: int, screen: Seq<u16>)
    requires
        0 <= line < 192,
        s.dispcap_active,
        s.capture_enabled(),
    ensures
        s.scanline_captured(line, screen).capture_enabled() == (line != 191),
        s.scanline_captured(line, screen).dispcap_active == (line != 191),
{
}

/// Width and height of a capture.
pub fn capture_size(dispcapcnt: u32) -> (r: (usize, usize))
    ensures
        r.0 == width(dispcapcnt as int),
        r.1 == height(dispcapcnt as int),
{
    match dispcapcnt / 0x10_0000 % 4 {
        0 => (128, 128),
        1 => (256, 64),
        2 => (256, 128),
        _ => (256, 192),
    }
}

/// A byte position in a block.
pub fn capture_vram_addr(block: u32, offset: u32, byte_pos: u32) -> (r: u32)
    requires
        block <= 0x7FFF,
        offset + byte_pos <= u32::MAX,
    ensures
        r == block_addr(block as int, offset as int, byte_pos as int),
{
    block * 0x2_0000 + (offset + byte_pos) % 0x2_0000
}

/// Byte position of a captured pixel.
pub fn capture_output_byte_pos(width: usize, line: u16, x: usize) -> (r: u32)
    requires
        x < 0x4000_0000,
    ensures
        r == output_pos(width as int, line as int, x as int),
{
    if width == 128 {
        (line as u32 * 128 + x as u32) * 2
    } else {
        (line as u32 * 256 + x as u32) * 2
    }
}

/// One channel of a mix.
fn mix_channel(a: u32, a_on: bool, b: u32, b_on: bool, eva: u32, evb: u32) -> (r: u32)
    requires
        a <= 31,
        b <= 31,
        eva <= 0xFFFF,
        evb <= 0xFFFF,
    ensures
        r == mixed_channel(a as int, a_on, b as int, b_on, eva as int, evb as int),
        r <= 31,
{
    proof {
        lemma_mixed_channel(a as int, a_on, b as int, b_on, eva as int, evb as int);
    }
    let part_a: u32 = if a_on {
        a * eva
    } else {
        0
    };
    let part_b: u32 = if b_on {
        b * evb
    } else {
        0
    };
    let sum: u32 = (part_a + part_b) / 16;
    if sum > 31 {
        31
    } else {
        sum
    }
}

/// Mix two pixels.
pub fn blend_capture_pixels(
    src_a: u16,
    src_a_alpha: bool,
    src_b: u16,
    src_b_alpha: bool,
    eva: u16,
    evb: u16,
) -> (r: u16)
    ensures
        r == mixed(src_a, src_a_alpha, src_b, src_b_alpha, eva as int, evb as int),
{
    let (ar, ag, ab): (u32, u32, u32) = bgr555::channels(src_a);
    let (br, bg, bb): (u32, u32, u32) = bgr555::channels(src_b);
    let e: u32 = eva as u32;
    let f: u32 = evb as u32;
    let red: u32 = mix_channel(ar, src_a_alpha, br, src_b_alpha, e, f);
    let green: u32 = mix_channel(ag, src_a_alpha, bg, src_b_alpha, e, f);
    let blue: u32 = mix_channel(ab, src_a_alpha, bb, src_b_alpha, e, f);
    let color: u16 = bgr555::make(red, green, blue);
    if (src_a_alpha && eva > 0) || (src_b_alpha && evb > 0) {
        color + 0x8000
    } else {
        color
    }
}

/// A color with the opaque mark set or cleared.
fn with_alpha(color: u16, alpha: bool) -> (r: u16)
    ensures
        r == bgr555::rgb(color) + if alpha { 0x8000int } else { 0 },
{
    if alpha {
        color % 0x8000 + 0x8000
    } else {
        color % 0x8000
    }
}

/// A weight field of the control register.
fn weight_of(field: u32) -> (r: u16)
    requires
        field < 32,
    ensures
        r == weight(field as int),
        r <= 16,
{
    if field > 16 {
        16
    } else {
        field as u16
    }
}

/// The address that source B reads in video memory.
fn source_b_addr(cnt: u32, dispcnt: u32, line: u16, x: usize, c: Ghost<CaptureLine>) -> (r: u32)
    requires
        line < 192,
        x < 256,
        c@.cnt == cnt,
        c@.dispcnt == dispcnt,
        c@.line == line,
    ensures
        0x0680_0000 + r == c@.read_addr(x as int),
        r < 0x80_0000,
{
    let offset: u32 = if dispcnt / 0x1_0000 % 4 == 2 {
        0
    } else {
        cnt / 0x400_0000 % 4 * 0x8000
    };
    capture_vram_addr(dispcnt / 0x4_0000 % 4, offset, (line as u32 * 256 + x as u32) * 2)
}

/// The captured pixel from its two sources.
fn capture_pixel(
    cnt: u32,
    a: u16,
    a_on: bool,
    b: u16,
    b_on: bool,
    x: usize,
    c: Ghost<CaptureLine>,
    banks: Ghost<Seq<BankState>>,
) -> (r: u16)
    requires
        c@.cnt == cnt,
        a == c@.source_a(x as int),
        a_on == c@.opaque_a(x as int),
        b == c@.source_b(banks@, x as int),
        b_on == c@.opaque_b(banks@, x as int),
    ensures
        r == c@.pixel(banks@, x as int),
{
    let source: u32 = cnt / 0x2000_0000 % 4;
    if source == 0 {
        with_alpha(a, a_on)
    } else if source == 1 {
        with_alpha(b, b_on)
    } else {
        blend_capture_pixels(a, a_on, b, b_on, weight_of(cnt % 32), weight_of(cnt / 0x100 % 32))
    }
}

/// Write a captured pixel to video memory.
fn store_pixel(
    vram: &mut VramRouter,
    cnt: u32,
    line: u16,
    x: usize,
    value: u16,
    c: Ghost<CaptureLine>,
)
    requires
        old(vram).wf(),
        line < 192,
        x < 256,
        c@.cnt == cnt,
        c@.line == line,
        value == c@.pixel(old(vram)@, x as int),
    ensures
        final(vram).wf(),
        final(vram)@ == c@.captured(old(vram)@, x as int),
{
    let (w, h): (usize, usize) = capture_size(cnt);
    let at: u32 = 0x0680_0000 + capture_vram_addr(
        cnt / 0x1_0000 % 4,
        cnt / 0x4_0000 % 4 * 0x8000,
        capture_output_byte_pos(w, line, x),
    );
    assert(at == c@.write_addr(x as int));
    assert(value as int / 0x100 % 0x100 == value as int / 0x100);
    vram.cpu_write_arm9(at, (value % 0x100) as u8);
    vram.cpu_write_arm9(at + 1, (value / 0x100) as u8);
}

/// Capture the pixels of a line.
fn capture_pixels(
    vram: &mut VramRouter,
    fifo: &mut VecDeque<u32>,
    cnt: u32,
    dispcnt: u32,
    line: u16,
    screen: &[u16],
    scene: &Vec<u16>,
    c: Ghost<CaptureLine>,
)
    requires
        old(vram).wf(),
        line < 192,
        screen@.len() == SCREEN_PIXELS,
        scene@.len() == SCREEN_PIXELS,
        c@ == (CaptureLine {
            cnt: cnt as int,
            dispcnt: dispcnt as int,
            line: line as int,
            screen: screen@,
            scene: scene@,
            fifo: old(fifo)@,
        }),
    ensures
        final(vram).wf(),
        final(vram)@ == c@.banks_after(old(vram)@, width(cnt as int)),
        final(fifo)@ == c@.fifo_after(width(cnt as int)),
{
    let (w, h): (usize, usize) = capture_size(cnt);
    let from_3d: bool = fixed::has_bit(cnt, 0x100_0000);
    let from_fifo: bool = fixed::has_bit(cnt, 0x200_0000);
    let base: usize = line as usize * 256;
    let mut word: u32 = 0;
    assert(fifo@ =~= c@.fifo_after(0));
    for x in 0..w
        invariant
            w == width(cnt as int),
            w <= 256,
            line < 192,
            base == line * 256,
            screen@.len() == SCREEN_PIXELS,
            scene@.len() == SCREEN_PIXELS,
            c@.cnt == cnt,
            c@.dispcnt == dispcnt,
            c@.line == line,
            c@.screen == screen@,
            c@.scene == scene@,
            c@.fifo == old(fifo)@,
            from_3d == c@.from_3d(),
            from_fifo == c@.from_fifo(),
            vram.wf(),
            vram@ == c@.banks_after(old(vram)@, x as int),
            fifo@ == c@.fifo_after(x as int),
            x % 2 == 1 ==> from_fifo ==> word == if x / 2 < c@.fifo.len() {
                c@.fifo[x as int / 2]
            } else {
                0
            },
    {
        let a: u16 = if from_3d {
            scene[base + x]
        } else {
            screen[base + x]
        };
        let a_on: bool = !from_3d || a >= 0x8000;
        let b: u16 = if from_fifo {
            if x % 2 == 0 {
                word = match fifo.pop_front() {
                    Some(v) => v,
                    None => 0,
                };
                (word % 0x8000) as u16
            } else {
                (word / 0x1_0000 % 0x8000) as u16
            }
        } else {
            vram.read_lcdc_u16(source_b_addr(cnt, dispcnt, line, x, c))
        };
        assert(fifo@ =~= c@.fifo_after(x + 1));
        let b_on: bool = from_fifo || b >= 0x8000;
        let value: u16 = capture_pixel(cnt, a, a_on, b, b_on, x, c, Ghost(vram@));
        store_pixel(vram, cnt, line, x, value, c);
    }
}

/// The 3D scene fills a screen.
proof fn lemma_scene_size(engine: Engine3d)
    requires
        shared::scene_ok(shared::scene(engine)),
    ensures
        engine.rasterizer.framebuffer@.len() == SCREEN_PIXELS,
        shared::scene(engine).rasterizer.framebuffer == engine.rasterizer.framebuffer@,
{
    reveal(shared::scene);
    reveal(shared::scene_ok);
}

/// Capture a line, if it is part of the capture.
fn capture_line_pixels(shared: &mut SharedState, line: u16, engine_a_framebuffer: &[u16])
    requires
        old(shared).wf(),
        line < 192,
        engine_a_framebuffer@.len() == SCREEN_PIXELS,
    ensures
        final(shared).wf(),
        final(shared)@ == old(shared)@.line_captured(line as int, engine_a_framebuffer@),
{
    proof {
        reveal(shared::registers);
        reveal(SharedState::wf);
    }
    let ghost start = shared@;
    let cnt: u32 = shared.dispcapcnt;
    let (w, h): (usize, usize) = capture_size(cnt);
    if (line as usize) < h {
        proof {
            reveal(shared::memory_ok);
            lemma_scene_size(shared.gpu3d);
        }
        capture_pixels(
            &mut shared.vram,
            &mut shared.disp_mmem_fifo,
            cnt,
            shared.engine_a.dispcnt,
            line,
            engine_a_framebuffer,
            &shared.gpu3d.rasterizer.framebuffer,
            Ghost(start.capture_line(line as int, engine_a_framebuffer@)),
        );
    }
}

/// Start a capture that was asked for with the first line.
fn start_capture(shared: &mut SharedState, line: u16)
    ensures
        final(shared)@ == old(shared)@.capture_started(line as int),
        old(shared).wf() ==> final(shared).wf(),
{
    proof {
        reveal(shared::registers);
        reveal(SharedState::wf);
    }
    if line == 0 && shared.dispcap_pending && shared.dispcapcnt >= 0x8000_0000 {
        shared.dispcap_pending = false;
        shared.dispcap_active = true;
    }
}

/// Capture a line that was just shown. `engine_a_framebuffer` is the screen
/// that shows engine A.
pub fn capture_display_scanline(shared: &mut SharedState, line: u16, engine_a_framebuffer: &[u16])
    requires
        old(shared).wf(),
        line < 192,
        engine_a_framebuffer@.len() == SCREEN_PIXELS,
    ensures
        final(shared).wf(),
        final(shared)@ == old(shared)@.scanline_captured(line as int, engine_a_framebuffer@),
{
    proof {
        reveal(shared::registers);
        reveal(SharedState::wf);
    }
    start_capture(shared, line);
    if !shared.dispcap_active || shared.dispcapcnt < 0x8000_0000 {
        return ;
    }
    capture_line_pixels(shared, line, engine_a_framebuffer);
    finish_display_capture_if_last_visible_line(shared, line);
}

/// End a capture with the last visible line.
pub fn finish_display_capture_if_last_visible_line(shared: &mut SharedState, line: u16)
    ensures
        final(shared)@ == old(shared)@.capture_finished(line as int),
        old(shared).wf() ==> final(shared).wf(),
{
    proof {
        reveal(shared::registers);
        reveal(SharedState::wf);
    }
    if line == 191 {
        shared.dispcapcnt = shared.dispcapcnt % 0x8000_0000;
        shared.dispcap_active = false;
        shared.dispcap_pending = false;
    }
}

/// Whether the capture of a line will read the main-memory FIFO.
pub fn capture_needs_main_mem_fifo(shared: &SharedState, line: u16) -> (r: bool)
    ensures
        r == shared@.capture_wants_fifo(line as int),
{
    proof {
        reveal(shared::registers);
        reveal(SharedState::wf);
    }
    let cnt: u32 = shared.dispcapcnt;
    if cnt < 0x8000_0000 || !fixed::has_bit(cnt, 0x200_0000) {
        return false;
    }
    if cnt / 0x2000_0000 % 4 == 0 {
        return false;
    }
    if !(shared.dispcap_active || (line == 0 && shared.dispcap_pending)) {
        return false;
    }
    let (w, h): (usize, usize) = capture_size(cnt);
    (line as usize) < h
}

/// Of which memory a capture takes its two sources: bit 24 of the register selects
/// engine A's picture or the 3D scene for source A, bit 25 video memory or the FIFO
/// for source B. Engine A's picture and the FIFO are opaque throughout.
#[verifier::spinoff_prover]
#[verifier::rlimit(60)]
pub proof fn law_sources_of_capture(c: CaptureLine, banks: Seq<BankState>, x: int)
    requires
        0 <= c.cnt,
        0 <= c.dispcnt,
        0 <= c.line < 192,
        0 <= x < 256,
        c.screen.len() == SCREEN_PIXELS,
        c.scene.len() == SCREEN_PIXELS,
    ensures
        ({
            let at = c.line * 256 + x;
            let source = c.cnt / 0x2000_0000 % 4;
            let three_d = c.cnt / 0x100_0000 % 2 == 1;
            let fifo = c.cnt / 0x200_0000 % 2 == 1;
            let shown = c.dispcnt / 0x1_0000 % 4 == 2;
            let start = if shown { 0 } else { c.cnt / 0x400_0000 % 4 * 0x8000 };
            let from = (0x0680_0000 + c.dispcnt / 0x4_0000 % 4 * 0x2_0000 + (start + 2 * at)
                % 0x2_0000) as u32;
            let memory = vram::read_u16(banks, Window::Arm9, from);
            &&& source == 0 && !three_d ==> c.pixel(banks, x) == c.screen[at] % 0x8000 + 0x8000
            &&& source == 0 && three_d && c.scene[at] >= 0x8000 ==> c.pixel(banks, x) == c.scene[at]
            &&& source == 0 && three_d && c.scene[at] < 0x8000 ==> c.pixel(banks, x) == c.scene[at]
            &&& source == 1 && !fifo ==> c.pixel(banks, x) == memory
            &&& source == 1 && fifo && x / 2 >= c.fifo.len() ==> c.pixel(banks, x) == 0x8000
            &&& source == 1 && fifo && x / 2 < c.fifo.len() && x % 2 == 0 ==> c.pixel(banks, x)
                == c.fifo[x / 2] % 0x8000 + 0x8000
            &&& source == 1 && fifo && x / 2 < c.fifo.len() && x % 2 == 1 ==> c.pixel(banks, x)
                == c.fifo[x / 2] / 0x1_0000 % 0x8000 + 0x8000
        }),
{
    let at = c.line * 256 + x;
    assert(at * 2 == 2 * at);
    let start = if c.dispcnt / 0x1_0000 % 4 == 2 { 0 } else { c.cnt / 0x400_0000 % 4 * 0x8000 };
    let from = (0x0680_0000 + c.dispcnt / 0x4_0000 % 4 * 0x2_0000 + (start + 2 * at)
        % 0x2_0000) as u32;
    assert(c.read_addr(x) == from);
    let memory = vram::read_u16(banks, Window::Arm9, from);
    lemma_halfword_parts(memory);
    lemma_halfword_parts(c.scene[at]);
    if 0 <= x / 2 < c.fifo.len() {
        lemma_word_parts(c.fifo[x / 2]);
    }
}

proof fn lemma_halfword_parts(p: u16)
    ensures
        bgr555::rgb(p) + (if bgr555::written(p) { 0x8000int } else { 0 }) == p,
{
}

proof fn lemma_word_parts(w: u32)
    ensures
        bgr555::rgb((w % 0x8000) as u16) == w % 0x8000,
        bgr555::rgb((w / 0x1_0000 % 0x8000) as u16) == w / 0x1_0000 % 0x8000,
{
}

/// One register but for the source selection.
pub open spec fn selecting(c: CaptureLine, source: int) -> CaptureLine {
    let chosen = c.cnt / 0x2000_0000 % 4;
    CaptureLine { cnt: c.cnt + (source - chosen) * 0x2000_0000, ..c }
}

proof fn lemma_selecting(c: CaptureLine, source: int)
    requires
        0 <= c.cnt,
        0 <= source < 4,
    ensures
        ({
            let d = selecting(c, source);
            &&& d.cnt / 0x2000_0000 % 4 == source
            &&& d.cnt % 0x2000_0000 == c.cnt % 0x2000_0000
            &&& d.from_3d() == c.from_3d()
            &&& d.from_fifo() == c.from_fifo()
            &&& d.cnt / 0x400_0000 % 4 == c.cnt / 0x400_0000 % 4
            &&& d.cnt >= 0
        }),
{
    let low = c.cnt % 0x2000_0000;
    let d = selecting(c, source);
    let q = c.cnt / 0x2000_0000;
    assert(c.cnt == q * 0x2000_0000 + low);
    assert(d.cnt == (q + source - q % 4) * 0x2000_0000 + low);
    lemma_field(c.cnt, q, low);
    lemma_field(d.cnt, q + source - q % 4, low);
}

proof fn lemma_field(x: int, q: int, low: int)
    requires
        0 <= low < 0x2000_0000,
        x == q * 0x2000_0000 + low,
    ensures
        x / 0x2000_0000 == q,
        x % 0x2000_0000 == low,
        x / 0x100_0000 % 2 == low / 0x100_0000 % 2,
        x / 0x200_0000 % 2 == low / 0x200_0000 % 2,
        x / 0x400_0000 % 4 == low / 0x400_0000 % 4,
{
    assert(x / 0x100_0000 == q * 32 + low / 0x100_0000);
    assert(x / 0x200_0000 == q * 16 + low / 0x200_0000);
    assert(x / 0x400_0000 == q * 8 + low / 0x400_0000);
}

/// A mixed capture with EVA 16 and EVB 0 writes what a capture of source A alone
/// writes, one with EVA 0 and EVB 16 what a capture of source B alone writes; a
/// transparent pixel comes out as 0.
pub proof fn law_mix_at_the_ends(c: CaptureLine, banks: Seq<BankState>, x: int)
    requires
        0 <= c.cnt,
        c.cnt / 0x2000_0000 % 4 >= 2,
    ensures
        c.cnt % 32 == 16 && c.cnt / 0x100 % 32 == 0 ==> c.pixel(banks, x) == {
            let p = selecting(c, 0).pixel(banks, x);
            if p >= 0x8000 { p } else { 0 }
        },
        c.cnt % 32 == 0 && c.cnt / 0x100 % 32 == 16 ==> c.pixel(banks, x) == {
            let p = selecting(c, 1).pixel(banks, x);
            if p >= 0x8000 { p } else { 0 }
        },
{
    let a = c.source_a(x);
    let b = c.source_b(banks, x);
    lemma_selecting(c, 0);
    lemma_selecting(c, 1);
    bgr555::law_channels_pack(a);
    bgr555::law_channels_pack(b);
    assert(selecting(c, 1).read_addr(x) == c.read_addr(x));
    assert(selecting(c, 1).source_b(banks, x) == b);
    assert(bgr555::red(b) * 0 == 0 && bgr555::green(b) * 0 == 0 && bgr555::blue(b) * 0 == 0);
    assert(bgr555::red(a) * 0 == 0 && bgr555::green(a) * 0 == 0 && bgr555::blue(a) * 0 == 0);
    assert(bgr555::pack(0, 0, 0) == 0);
}

/// Of a mixed capture each channel is the sum of EVA sixteenths of source A's and
/// EVB sixteenths of source B's, weights above 16 counting as 16, transparent
/// pixels as nothing, and the sum as 31 at most.
pub proof fn law_mix_weighs_sources(c: CaptureLine, banks: Seq<BankState>, x: int)
    requires
        0 <= c.cnt,
        c.cnt / 0x2000_0000 % 4 >= 2,
    ensures
        ({
            let eva = fixed::min(c.cnt % 32, 16);
            let evb = fixed::min(c.cnt / 0x100 % 32, 16);
            let a = selecting(c, 0).pixel(banks, x);
            let b = selecting(c, 1).pixel(banks, x);
            let pa = if a >= 0x8000 { eva } else { 0 };
            let pb = if b >= 0x8000 { evb } else { 0 };
            let p = c.pixel(banks, x);
            &&& sixteenths(p % 32, (a % 32) * pa + (b % 32) * pb)
            &&& sixteenths(p / 32 % 32, (a / 32 % 32) * pa + (b / 32 % 32) * pb)
            &&& sixteenths(p / 1024 % 32, (a / 1024 % 32) * pa + (b / 1024 % 32) * pb)
            &&& p / 0x8000 == if pa + pb > 0 { 1int } else { 0 }
        }),
{
    let a = c.source_a(x);
    let b = c.source_b(banks, x);
    let (a_on, b_on) = (c.opaque_a(x), c.opaque_b(banks, x));
    let eva = weight(c.cnt % 32);
    let evb = weight(c.cnt / 0x100 % 32);
    lemma_selecting(c, 0);
    lemma_selecting(c, 1);
    assert(selecting(c, 1).read_addr(x) == c.read_addr(x));
    assert(selecting(c, 1).source_b(banks, x) == b);
    lemma_marked(a, a_on);
    lemma_marked(b, b_on);
    lemma_mixed_channel(bgr555::red(a), a_on, bgr555::red(b), b_on, eva, evb);
    lemma_mixed_channel(bgr555::green(a), a_on, bgr555::green(b), b_on, eva, evb);
    lemma_mixed_channel(bgr555::blue(a), a_on, bgr555::blue(b), b_on, eva, evb);
    let r = mixed_channel(bgr555::red(a), a_on, bgr555::red(b), b_on, eva, evb);
    let g = mixed_channel(bgr555::green(a), a_on, bgr555::green(b), b_on, eva, evb);
    let l = mixed_channel(bgr555::blue(a), a_on, bgr555::blue(b), b_on, eva, evb);
    bgr555::law_pack_channels(r, g, l);
    lemma_marked(bgr555::pack(r, g, l), (a_on && eva > 0) || (b_on && evb > 0));
}

/// Whether `level` is a sixteenth of `sum`, rounded down, and 31 at most.
pub open spec fn sixteenths(level: int, sum: int) -> bool {
    16 * level <= sum && level <= 31 && (level == 31 || sum < 16 * (level + 1))
}

/// A color with or without the mark has the same channels.
proof fn lemma_marked(color: u16, on: bool)
    ensures
        ({
            let p = bgr555::rgb(color) + if on { 0x8000int } else { 0 };
            &&& p % 32 == bgr555::red(color)
            &&& p / 32 % 32 == bgr555::green(color)
            &&& p / 1024 % 32 == bgr555::blue(color)
            &&& p / 0x8000 == if on { 1int } else { 0 }
            &&& (p >= 0x8000) == on
        }),
{
    let x = color as int;
    let m = x % 0x8000;
    lemma_above_15(m, x / 0x8000);
    lemma_above_15(m, if on { 1 } else { 0 });
}

proof fn lemma_above_15(m: int, q: int)
    requires
        0 <= m < 0x8000,
    ensures
        ({
            let x = m + 0x8000 * q;
            &&& x % 32 == m % 32
            &&& x / 32 % 32 == m / 32 % 32
            &&& x / 1024 % 32 == m / 1024 % 32
            &&& x / 0x8000 == q
        }),
{
    let x = m + 0x8000 * q;
    assert(x / 32 == m / 32 + 1024 * q);
    assert(x / 1024 == m / 1024 + 32 * q);
}

/// A captured line lies in its block of 128 KB, from the offset on, two bytes to a
/// pixel and line behind line: the next pixel follows 2 bytes later, the next line
/// 256 or 512 bytes later, and what runs over the end goes on at the start.
pub proof fn law_capture_layout(c: CaptureLine, x: int)
    requires
        0 <= c.cnt,
        0 <= c.line < 192,
        0 <= x < 256,
    ensures
        ({
            let row = if c.cnt / 0x10_0000 % 4 == 0 { 256int } else { 512 };
            let place = c.cnt / 0x4_0000 % 4 * 0x8000 + c.line * row + 2 * x;
            c.write_addr(x) == 0x0680_0000 + c.cnt / 0x1_0000 % 4 * 0x2_0000 + place % 0x2_0000
        }),
{
}

/// A captured pixel can be read back where it was written, if a bank is there.
#[verifier::spinoff_prover]
#[verifier::rlimit(60)]
pub proof fn law_captured_pixel_reads_back(c: CaptureLine, banks: Seq<BankState>, x: int)
    requires
        vram::banks_ok(banks),
        0 <= c.cnt,
        0 <= c.line < 192,
        0 <= x < 256,
        exists|i: int|
            0 <= i < 9 && (#[trigger] banks[i]).offset(Window::Arm9, c.write_addr(x)) is Some,
        exists|i: int|
            0 <= i < 9 && (#[trigger] banks[i]).offset(
                Window::Arm9,
                (c.write_addr(x) + 1) as u32,
            ) is Some,
    ensures
        vram::read_u16(c.captured(banks, x), Window::Arm9, c.write_addr(x)) == c.pixel(banks, x),
{
    law_capture_stays_in_block(c, x);
    let v = c.pixel(banks, x);
    lemma_pixel_is_halfword(c, banks, x);
    let at = c.write_addr(x);
    let next = (at + 1) as u32;
    let low = (v % 0x100) as u8;
    let high = (v / 0x100 % 0x100) as u8;
    let half = vram::write(banks, Window::Arm9, at, low);
    vram::law_read_gives_back_write(banks, Window::Arm9, at, low);
    vram::law_write_keeps_banks(banks, Window::Arm9, at, low);
    assert forall|i: int| 0 <= i < 9 implies (#[trigger] half[i]).offset(Window::Arm9, at)
        == banks[i].offset(Window::Arm9, at) && half[i].offset(Window::Arm9, next)
        == banks[i].offset(Window::Arm9, next) && (half[i].offset(Window::Arm9, at) is None
        || half[i].offset(Window::Arm9, at) != half[i].offset(Window::Arm9, next)) by {
        lemma_next_byte(banks[i], at);
    }
    let k = choose|i: int|
        0 <= i < 9 && (#[trigger] banks[i]).offset(Window::Arm9, next) is Some;
    assert(half[k].offset(Window::Arm9, next) is Some);
    vram::law_read_gives_back_write(half, Window::Arm9, next, high);
    vram::law_write_keeps_other_addresses(half, Window::Arm9, next, high, at);
    assert(at % 2 == 0);
    assert((at - at % 2) as u32 == at);
}

proof fn lemma_next_byte(bank: BankState, at: u32)
    requires
        0x0680_0000 <= at,
        at + 1 < 0x0688_0000,
    ensures
        bank.offset(Window::Arm9, at) is None || bank.offset(Window::Arm9, at) != bank.offset(
            Window::Arm9,
            (at + 1) as u32,
        ),
{
}

proof fn lemma_pixel_is_halfword(c: CaptureLine, banks: Seq<BankState>, x: int)
    ensures
        0 <= c.pixel(banks, x) <= 0xFFFF,
{
    let a = c.source_a(x);
    let b = c.source_b(banks, x);
    let (a_on, b_on) = (c.opaque_a(x), c.opaque_b(banks, x));
    let eva = weight(c.cnt % 32);
    let evb = weight(c.cnt / 0x100 % 32);
    lemma_mixed_channel(bgr555::red(a), a_on, bgr555::red(b), b_on, eva, evb);
    lemma_mixed_channel(bgr555::green(a), a_on, bgr555::green(b), b_on, eva, evb);
    lemma_mixed_channel(bgr555::blue(a), a_on, bgr555::blue(b), b_on, eva, evb);
    let r = mixed_channel(bgr555::red(a), a_on, bgr555::red(b), b_on, eva, evb);
    let g = mixed_channel(bgr555::green(a), a_on, bgr555::green(b), b_on, eva, evb);
    let l = mixed_channel(bgr555::blue(a), a_on, bgr555::blue(b), b_on, eva, evb);
    bgr555::law_pack_channels(r, g, l);
}

/// A capture covers 128 lines of 128 pixels, or 64, 128 or 192 lines of 256: a line
/// beyond leaves video memory and FIFO alone, and a line of the capture takes one
/// word of the FIFO for two pixels.
pub proof fn law_capture_extent(s: SharedView, line: int, screen: Seq<u16>)
    requires
        0 <= line < 192,
        s.dispcap_active,
        s.dispcapcnt >= 0x8000_0000,
    ensures
        ({
            let size = s.dispcapcnt as int / 0x10_0000 % 4;
            let lines = if size == 1 {
                64int
            } else if size == 3 {
                192
            } else {
                128
            };
            let words = if size == 0 { 64int } else { 128 };
            let after = s.scanline_captured(line, screen);
            &&& line >= lines ==> after.vram == s.vram && after.disp_mmem_fifo == s.disp_mmem_fifo
            &&& line < lines && s.dispcapcnt as int / 0x200_0000 % 2 == 0 ==> after.disp_mmem_fifo
                == s.disp_mmem_fifo
            &&& line < lines && s.dispcapcnt as int / 0x200_0000 % 2 == 1
                && s.disp_mmem_fifo.len() >= words ==> after.disp_mmem_fifo
                == s.disp_mmem_fifo.subrange(words, s.disp_mmem_fifo.len() as int)
            &&& line < lines && s.dispcapcnt as int / 0x200_0000 % 2 == 1
                && s.disp_mmem_fifo.len() < words ==> after.disp_mmem_fifo.len() == 0
        }),
{
}

/// Nothing is captured while no capture is under way: one starts with line 0 where
/// it was asked for and the register still enables it, and with no other line.
pub proof fn law_capture_starts_at_top(s: SharedView, line: int, screen: Seq<u16>)
    requires
        !s.dispcap_active,
    ensures
        line != 0 || !s.dispcap_pending || s.dispcapcnt < 0x8000_0000 ==> s.scanline_captured(
            line,
            screen,
        ) == s,
        line == 0 && s.dispcap_pending && s.dispcapcnt >= 0x8000_0000 ==> {
            &&& s.scanline_captured(0, screen).dispcap_active
            &&& !s.scanline_captured(0, screen).dispcap_pending
        },
{
}

/// The FIFO is needed by a capture that is under way, or starts with this line, takes
/// source B alone or mixed, has the FIFO as source B, and reaches to this line.
pub proof fn law_capture_needs_fifo(s: SharedView, line: int)
    ensures
        ({
            let cnt = s.dispcapcnt as int;
            let size = cnt / 0x10_0000 % 4;
            let lines: int = if size == 1 {
                64
            } else if size == 3 {
                192
            } else {
                128
            };
            s.capture_wants_fifo(line) == (cnt >= 0x8000_0000 && cnt / 0x200_0000 % 2 == 1 && cnt
                / 0x2000_0000 % 4 > 0 && line < lines && (s.dispcap_active || (line == 0
                && s.dispcap_pending)))
        }),
{
}

/// A mixed capture with EVA 16 and EVB 0 writes source A's pixel, one with EVA 0 and EVB
/// 16 source B's: a pixel of engine A's picture or of the FIFO marked as opaque, one of
/// the 3D scene or of video memory as it stands where it is opaque, and 0 where it is
/// not.
pub proof fn law_full_weight_is_source(c: CaptureLine, banks: Seq<BankState>, x: int)
    requires
        0 <= c.cnt,
        0 <= c.dispcnt,
        0 <= c.line < 192,
        0 <= x < 256,
        c.screen.len() == SCREEN_PIXELS,
        c.scene.len() == SCREEN_PIXELS,
        c.cnt / 0x2000_0000 % 4 >= 2,
    ensures
        ({
            let at = c.line * 256 + x;
            let only_a = c.cnt % 32 == 16 && c.cnt / 0x100 % 32 == 0;
            let only_b = c.cnt % 32 == 0 && c.cnt / 0x100 % 32 == 16;
            let three_d = c.cnt / 0x100_0000 % 2 == 1;
            let fifo = c.cnt / 0x200_0000 % 2 == 1;
            let start = if c.dispcnt / 0x1_0000 % 4 == 2 {
                0
            } else {
                c.cnt / 0x400_0000 % 4 * 0x8000
            };
            let from = (0x0680_0000 + c.dispcnt / 0x4_0000 % 4 * 0x2_0000 + (start + 2 * at)
                % 0x2_0000) as u32;
            let memory = vram::read_u16(banks, Window::Arm9, from);
            let p = c.pixel(banks, x);
            &&& only_a && !three_d ==> p == c.screen[at] % 0x8000 + 0x8000
            &&& only_a && three_d ==> p == if c.scene[at] >= 0x8000 { c.scene[at] as int } else { 0 }
            &&& only_b && !fifo ==> p == if memory >= 0x8000 { memory as int } else { 0 }
            &&& only_b && fifo && x / 2 < c.fifo.len() && x % 2 == 0 ==> p == c.fifo[x / 2] % 0x8000
                + 0x8000
            &&& only_b && fifo && x / 2 < c.fifo.len() && x % 2 == 1 ==> p == c.fifo[x / 2]
                / 0x1_0000 % 0x8000 + 0x8000
        }),
{
    lemma_selecting(c, 0);
    lemma_selecting(c, 1);
    law_mix_at_the_ends(c, banks, x);
    law_sources_of_capture(selecting(c, 0), banks, x);
    law_sources_of_capture(selecting(c, 1), banks, x);
}

} // verus!
