//! Touchscreen controller, device 2 of the SPI bus.
//!
//! Each conversion is three bytes. The first is a control word:
//!
//! ```text
//! [7]   start
//! [6:4] channel: 001 = Y, 010 = battery, 011 = Z1, 100 = Z2, 101 = X,
//!       110 = auxiliary, 111 = temperature
//! [3]   12-bit (0) or 8-bit (1) result
//! [2]   reference
//! [1:0] power-down mode
//! ```
//!
//! The second returns the high 7 bits of the 12-bit result, the third the low
//! 5 bits, shifted left by 3.
//!
//! Screen coordinates are converted to the readings that the default firmware
//! calibration turns back into the same pixels.

use vstd::prelude::*;
use crate::fixed;

verus! {

/// Reading for screen X = 0.
pub const ADC_X1: u16 = 0x0200;

/// Reading for screen X = 255.
pub const ADC_X2: u16 = 0x0E00;

/// Reading for screen Y = 0.
pub const ADC_Y1: u16 = 0x0200;

/// Reading for screen Y = 191.
pub const ADC_Y2: u16 = 0x0E00;

#[derive(Debug, Clone, Copy, PartialEq, Eq, Structural)]
pub enum Phase {
    /// Waiting for a control byte.
    Idle,
    /// The 12-bit value is latched; the high byte is next.
    HighByte { value12: u16, channel: u8, eight_bit: bool },
    /// The low byte is next.
    LowByte { value12: u16, eight_bit: bool },
}

#[derive(Debug, Clone, Copy, PartialEq, Eq, Structural)]
pub struct Tsc {
    /// Screen coordinates of the pen, at most (255, 191).
    pub screen_x: u16,
    pub screen_y: u16,
    pub pen_down: bool,
    pub phase: Phase,
}

/// The reading between two end points that stands for a pixel.
pub open spec fn reading(first: int, last: int, pixel: int, largest: int) -> int {
    first + pixel * (last - first) / largest
}

proof fn lemma_scaled(pixel: int)
    ensures
        pixel * (ADC_X2 - ADC_X1) == pixel * 0xC00,
        pixel * (ADC_Y2 - ADC_Y1) == pixel * 0xC00,
{
    let span = ADC_X2 - ADC_X1;
    assert(span == 0xC00);
    assert(pixel * span == pixel * 0xC00) by (nonlinear_arith)
        requires
            span == 0xC00,
    ;
}

impl Tsc {
    /// The pen is on the screen.
    pub open spec fn wf(self) -> bool {
        self.screen_x <= 255 && self.screen_y <= 191
    }

    /// The 12-bit value of a channel.
    pub open spec fn sample(self, channel: int) -> int {
        if channel == 1 {
            reading(ADC_Y1 as int, ADC_Y2 as int, self.screen_y as int, 191)
        } else if channel == 2 {
            0x0CCC
        } else if channel == 3 || channel == 4 {
            if self.pen_down { 0x0800 } else { 0 }
        } else if channel == 5 {
            reading(ADC_X1 as int, ADC_X2 as int, self.screen_x as int, 255)
        } else {
            0
        }
    }

    /// The device after a byte is exchanged.
    pub open spec fn exchanged(self, byte_in: u8) -> Tsc {
        match self.phase {
            Phase::Idle => if byte_in < 0x80 {
                self
            } else {
                Tsc {
                    phase: Phase::HighByte {
                        value12: self.sample(byte_in as int / 16 % 8) as u16,
                        channel: (byte_in / 16 % 8) as u8,
                        eight_bit: fixed::bit(byte_in as int, 8),
                    },
                    ..self
                }
            },
            Phase::HighByte { value12, channel, eight_bit } => Tsc {
                phase: Phase::LowByte { value12, eight_bit },
                ..self
            },
            Phase::LowByte { value12, eight_bit } => Tsc { phase: Phase::Idle, ..self },
        }
    }

    /// The byte that the device sends back.
    pub open spec fn reply(self) -> int {
        match self.phase {
            Phase::Idle => 0,
            Phase::HighByte { value12, channel, eight_bit } => if eight_bit {
                value12 as int / 16 % 256
            } else {
                value12 as int / 32 % 128
            },
            Phase::LowByte { value12, eight_bit } => if eight_bit {
                0
            } else {
                value12 as int % 32 * 8
            },
        }
    }

    /// The device with the pen at a place, kept on the screen.
    pub open spec fn touched(self, x: u16, y: u16, down: bool) -> Tsc {
        Tsc {
            screen_x: if x > 255 { 255 } else { x },
            screen_y: if y > 191 { 191 } else { y },
            pen_down: down,
            ..self
        }
    }

    /// The device after chip select is released.
    pub open spec fn released(self) -> Tsc {
        Tsc { phase: Phase::Idle, ..self }
    }

    pub fn new() -> (r: Self)
        ensures
            r == (Tsc { screen_x: 0, screen_y: 0, pen_down: false, phase: Phase::Idle }),
            r.wf(),
    {
        Tsc { screen_x: 0, screen_y: 0, pen_down: false, phase: Phase::Idle }
    }

    pub fn reset(&mut self)
        ensures
            *final(self) == old(self).released(),
    {
        self.phase = Phase::Idle;
    }

    /// Update the pen from the frontend.
    pub fn set_touch(&mut self, x: u16, y: u16, down: bool)
        ensures
            *final(self) == old(self).touched(x, y, down),
            final(self).wf(),
    {
        self.screen_x = if x > 255 {
            255
        } else {
            x
        };
        self.screen_y = if y > 191 {
            191
        } else {
            y
        };
        self.pen_down = down;
    }

    /// The reading for the pen's X.
    pub fn adc_x(&self) -> (r: u16)
        requires
            self.wf(),
        ensures
            r == reading(ADC_X1 as int, ADC_X2 as int, self.screen_x as int, 255),
            ADC_X1 <= r <= ADC_X2,
    {
        let span: u16 = ADC_X2 - ADC_X1;
        proof {
            lemma_scaled(self.screen_x as int);
        }
        ADC_X1 + (self.screen_x as u32 * span as u32 / 255) as u16
    }

    /// The reading for the pen's Y.
    pub fn adc_y(&self) -> (r: u16)
        requires
            self.wf(),
        ensures
            r == reading(ADC_Y1 as int, ADC_Y2 as int, self.screen_y as int, 191),
            ADC_Y1 <= r <= ADC_Y2,
    {
        let span: u16 = ADC_Y2 - ADC_Y1;
        proof {
            lemma_scaled(self.screen_y as int);
        }
        ADC_Y1 + (self.screen_y as u32 * span as u32 / 191) as u16
    }

    /// Pressure: nonzero while the pen is down.
    pub fn adc_z(&self) -> (r: u16)
        ensures
            r == if self.pen_down { 0x0800u16 } else { 0u16 },
    {
        if self.pen_down {
            0x0800
        } else {
            0
        }
    }

    pub fn xfer(&mut self, byte_in: u8, _hold: bool) -> (r: u8)
        requires
            old(self).wf(),
        ensures
            *final(self) == old(self).exchanged(byte_in),
            r == old(self).reply(),
            final(self).wf(),
    {
        match self.phase {
            Phase::Idle => {
                if byte_in < 0x80 {
                    // Not a start bit.
                    return 0;
                }
                let channel: u8 = byte_in / 16 % 8;
                let eight_bit: bool = fixed::has_bit(byte_in as u32, 8);
                let value12: u16 = match channel {
                    1 => self.adc_y(),
                    2 => 0x0CCC,
                    3 | 4 => self.adc_z(),
                    5 => self.adc_x(),
                    _ => 0,
                };
                self.phase = Phase::HighByte { value12, channel, eight_bit };
                0
            },
            Phase::HighByte { value12, channel: _, eight_bit } => {
                self.phase = Phase::LowByte { value12, eight_bit };
                if eight_bit {
                    (value12 / 16 % 256) as u8
                } else {
                    (value12 / 32 % 128) as u8
                }
            },
            Phase::LowByte { value12, eight_bit } => {
                self.phase = Phase::Idle;
                if eight_bit {
                    0
                } else {
                    (value12 % 32 * 8) as u8
                }
            },
        }
    }
}

impl Default for Tsc {
    fn default() -> (r: Self)
        ensures
            r == (Tsc { screen_x: 0, screen_y: 0, pen_down: false, phase: Phase::Idle }),
            r.wf(),
    {
        Self::new()
    }
}

/// A reading converted back by the calibration, to the nearest pixel, is the
/// pixel that was touched.
pub proof fn law_pixels_round_trip(x: int, y: int)
    requires
        0 <= x <= 255,
        0 <= y <= 191,
    ensures
        ({
            let rx = reading(ADC_X1 as int, ADC_X2 as int, x, 255);
            let span = ADC_X2 - ADC_X1;
            (2 * (rx - ADC_X1) * 255 + span) / (2 * span) == x
        }),
        ({
            let ry = reading(ADC_Y1 as int, ADC_Y2 as int, y, 191);
            let span = ADC_Y2 - ADC_Y1;
            (2 * (ry - ADC_Y1) * 191 + span) / (2 * span) == y
        }),
{
    lemma_scaled(x);
    lemma_scaled(y);
    let span = ADC_X2 - ADC_X1;
    let dx = x * 0xC00 / 255;
    let dy = y * 0xC00 / 191;
    assert((2 * dx * 255 + span) / (2 * span) == x) by (nonlinear_arith)
        requires
            span == 0xC00,
            (2 * dx * 255 + 0xC00) / 0x1800 == x,
    ;
    assert((2 * dy * 191 + span) / (2 * span) == y) by (nonlinear_arith)
        requires
            span == 0xC00,
            (2 * dy * 191 + 0xC00) / 0x1800 == y,
    ;
}

/// A conversion takes three bytes: the two replies after a control byte hold the
/// sample, and the device is idle again.
pub proof fn law_conversion_delivers_sample(t: Tsc, control: u8, second: u8, third: u8)
    requires
        t.wf(),
        t.phase == Phase::Idle,
        control >= 0x80,
    ensures
        ({
            let latched = t.exchanged(control);
            let half = latched.exchanged(second);
            let sample = t.sample(control as int / 16 % 8);
            &&& t.reply() == 0
            &&& fixed::bit(control as int, 8) ==> latched.reply() == sample / 16 && half.reply() == 0
            &&& !fixed::bit(control as int, 8) ==> latched.reply() * 32 + half.reply() / 8 == sample
            &&& half.exchanged(third) == t
        }),
{
    lemma_scaled(t.screen_x as int);
    lemma_scaled(t.screen_y as int);
    assert(0 <= t.sample(control as int / 16 % 8) <= 0xFFF);
}

/// Channel 5 reads the pen's column, from 0x200 on the left to 0xE00 on the right, and
/// channel 1 its row, from 0x200 at the top to 0xE00 at the bottom; channels 3 and 4
/// tell whether the pen is down. A reading depends on nothing else.
pub proof fn law_channels(t: Tsc, u: Tsc)
    requires
        t.wf(),
        u.wf(),
    ensures
        t.screen_x == 0 ==> t.sample(5) == 0x200,
        t.screen_x == 255 ==> t.sample(5) == 0xE00,
        t.screen_y == 0 ==> t.sample(1) == 0x200,
        t.screen_y == 191 ==> t.sample(1) == 0xE00,
        t.screen_x <= u.screen_x ==> t.sample(5) <= u.sample(5),
        t.screen_y <= u.screen_y ==> t.sample(1) <= u.sample(1),
        t.sample(5) * 255 <= 0x200 * 255 + t.screen_x * 0xC00 < (t.sample(5) + 1) * 255,
        t.sample(1) * 191 <= 0x200 * 191 + t.screen_y * 0xC00 < (t.sample(1) + 1) * 191,
        t.sample(3) == (if t.pen_down { 0x800int } else { 0 }),
        t.sample(4) == t.sample(3),
        t.sample(2) == 0xCCC,
        t.sample(0) == 0 && t.sample(6) == 0 && t.sample(7) == 0,
{
    lemma_scaled(t.screen_x as int);
    lemma_scaled(t.screen_y as int);
    lemma_scaled(u.screen_x as int);
    lemma_scaled(u.screen_y as int);
}

/// A byte without the start bit begins nothing; releasing the device forgets a
/// conversion but not the pen.
pub proof fn law_no_start_no_conversion(t: Tsc, byte: u8)
    requires
        t.phase == Phase::Idle,
        byte < 0x80,
    ensures
        t.exchanged(byte) == t,
        t.reply() == 0,
{
}

/// The pen stays on the screen: beyond its edges it counts as on them.
pub proof fn law_pen_kept_on_screen(t: Tsc, x: u16, y: u16, down: bool)
    ensures
        t.touched(x, y, down).pen_down == down,
        t.touched(x, y, down).phase == t.phase,
        x <= 255 ==> t.touched(x, y, down).screen_x == x,
        x > 255 ==> t.touched(x, y, down).screen_x == 255,
        y <= 191 ==> t.touched(x, y, down).screen_y == y,
        y > 191 ==> t.touched(x, y, down).screen_y == 191,
{
}

} // verus!
