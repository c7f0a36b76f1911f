//! Main SPI bus, seen by ARM7 alone.
//!
//! Three devices share the bus: the power management IC (0), the firmware flash
//! (1) and the touchscreen controller (2).
//!
//! ```text
//! SPICNT:
//!   [1:0]   baud rate (no effect: transfers are instantaneous)
//!   [7]     busy (always reads 0)
//!   [9:8]   device select (3 is reserved)
//!   [10]    transfer size (bytes either way)
//!   [11]    chip select hold: more bytes follow
//!   [14]    transfer-complete IRQ enable
//!   [15]    bus enable
//! SPIDATA:
//!   write: the byte to send; starts a transfer
//!   read:  the byte that the device sent back
//! ```

use vstd::prelude::*;
use crate::fixed;

pub mod firmware;
pub mod pmic;
pub mod tsc;

pub use firmware::Firmware;
pub use pmic::Pmic;
pub use tsc::Tsc;

verus! {

#[derive(Debug, Clone, Copy, PartialEq, Eq, Structural)]
pub enum Device {
    Pmic,
    Firmware,
    Tsc,
    Reserved,
}

/// The device that `SPICNT` selects.
pub open spec fn selected(cnt: int) -> Device {
    if cnt / 0x100 % 4 == 0 {
        Device::Pmic
    } else if cnt / 0x100 % 4 == 1 {
        Device::Firmware
    } else if cnt / 0x100 % 4 == 2 {
        Device::Tsc
    } else {
        Device::Reserved
    }
}

impl Device {
    pub fn from_bits(bits: u16) -> (r: Self)
        ensures
            r == selected(bits as int),
    {
        match bits / 0x100 % 4 {
            0 => Device::Pmic,
            1 => Device::Firmware,
            2 => Device::Tsc,
            _ => Device::Reserved,
        }
    }
}

#[derive(Debug, Clone)]
pub struct SpiBus {
    /// `SPICNT`.
    pub cnt: u16,
    /// The byte that the device returned on the most recent transfer.
    pub data: u8,
    /// Set between the bytes of a transfer.
    pub cs_held: bool,
    /// The device of the most recent transfer.
    pub current_device: Device,
    pub firmware: Firmware,
    pub tsc: Tsc,
    pub pmic: Pmic,
}

/// The bus as contracts speak of it.
#[verifier::ext_equal]
pub struct SpiState {
    pub cnt: u16,
    pub data: u8,
    pub cs_held: bool,
    pub current_device: Device,
    pub firmware: firmware::FirmwareState,
    pub tsc: Tsc,
    pub pmic: Pmic,
}

impl View for SpiBus {
    type V = SpiState;

    open spec fn view(&self) -> SpiState {
        SpiState {
            cnt: self.cnt,
            data: self.data,
            cs_held: self.cs_held,
            current_device: self.current_device,
            firmware: self.firmware@,
            tsc: self.tsc,
            pmic: self.pmic,
        }
    }
}

/// The bus at power-on: nothing selected, pen up, both backlights and sound on.
pub open spec fn power_on(s: SpiState) -> bool {
    &&& s.cnt == 0 && s.data == 0 && !s.cs_held
    &&& s.current_device == Device::Pmic
    &&& s.firmware == firmware::initial()
    &&& s.tsc == (Tsc { screen_x: 0, screen_y: 0, pen_down: false, phase: tsc::Phase::Idle })
    &&& s.pmic.regs@ == seq![0x31u8, 0, 0, 0, 0, 0, 0, 0]
    &&& s.pmic.phase == pmic::Phase::Idle
}

impl SpiState {
    pub open spec fn wf(self) -> bool {
        self.firmware.wf() && self.tsc.wf()
    }

    pub open spec fn is_enabled(self) -> bool {
        fixed::bit(self.cnt as int, 0x8000)
    }

    /// Whether chip select stays asserted after the next byte.
    pub open spec fn holds(self) -> bool {
        fixed::bit(self.cnt as int, 0x800)
    }

    /// The bus with a device deselected.
    pub open spec fn released(self, dev: Device) -> SpiState {
        match dev {
            Device::Pmic => SpiState { pmic: self.pmic.released(), ..self },
            Device::Firmware => SpiState { firmware: self.firmware.released(), ..self },
            Device::Tsc => SpiState { tsc: self.tsc.released(), ..self },
            Device::Reserved => self,
        }
    }

    /// The bus with a byte exchanged with a device, its reply latched.
    pub open spec fn exchanged(self, dev: Device, byte: u8) -> SpiState {
        let s = SpiState { current_device: dev, ..self };
        match dev {
            Device::Pmic => SpiState {
                pmic: self.pmic.exchanged(byte),
                data: self.pmic.reply(),
                ..s
            },
            Device::Firmware => SpiState {
                firmware: self.firmware.exchanged(byte),
                data: self.firmware.reply(byte),
                ..s
            },
            Device::Tsc => SpiState {
                tsc: self.tsc.exchanged(byte),
                data: self.tsc.reply() as u8,
                ..s
            },
            Device::Reserved => SpiState { data: 0xFF, ..s },
        }
    }

    /// The bus before a byte goes to a device: one that was selected earlier
    /// and is not held is deselected.
    pub open spec fn turned(self, dev: Device) -> SpiState {
        if !self.cs_held && self.current_device != dev {
            self.released(self.current_device)
        } else {
            self
        }
    }

    /// After the CPU writes `SPIDATA`.
    pub open spec fn written(self, byte: u8) -> SpiState {
        let dev = selected(self.cnt as int);
        if !self.is_enabled() {
            SpiState { data: byte, ..self }
        } else {
            let s = SpiState { cs_held: self.holds(), ..self.turned(dev).exchanged(dev, byte) };
            if self.holds() {
                s
            } else {
                s.released(dev)
            }
        }
    }
}

/// Without hold, a transfer leaves its device idle, so the next byte starts a new
/// command.
pub proof fn law_release_ends_transfer(s: SpiState, byte: u8)
    requires
        s.is_enabled(),
        !s.holds(),
    ensures
        ({
            let t = s.written(byte);
            &&& t.current_device == Device::Pmic ==> t.pmic.phase == pmic::Phase::Idle
            &&& t.current_device == Device::Firmware ==> t.firmware.phase == firmware::Phase::Idle
            &&& t.current_device == Device::Tsc ==> t.tsc.phase == tsc::Phase::Idle
        }),
{
}

/// A transfer reaches the selected device alone: the memory of the flash, the
/// registers of the power chip and the pen change in no other way, and while the
/// bus is disabled no device sees anything.
pub proof fn law_transfer_reaches_selected_device(s: SpiState, byte: u8)
    ensures
        !s.is_enabled() ==> s.written(byte) == (SpiState { data: byte, ..s }),
        selected(s.cnt as int) != Device::Firmware ==> s.written(byte).firmware.data
            == s.firmware.data && s.written(byte).firmware.status == s.firmware.status,
        selected(s.cnt as int) != Device::Pmic ==> s.written(byte).pmic.regs == s.pmic.regs,
        s.written(byte).tsc.screen_x == s.tsc.screen_x,
        s.written(byte).tsc.screen_y == s.tsc.screen_y,
        s.written(byte).tsc.pen_down == s.tsc.pen_down,
        s.written(byte).cnt == s.cnt,
{
}

impl SpiBus {
    pub fn new() -> (r: Self)
        ensures
            r@.wf(),
            power_on(r@),
    {
        SpiBus {
            cnt: 0,
            data: 0,
            cs_held: false,
            current_device: Device::Pmic,
            firmware: Firmware::new(),
            tsc: Tsc::new(),
            pmic: Pmic::new(),
        }
    }

    /// Whether the bus is switched on.
    pub fn enabled(&self) -> (r: bool)
        ensures
            r == self@.is_enabled(),
    {
        fixed::has_bit(self.cnt as u32, 0x8000)
    }

    /// `SPICNT` as the CPU reads it: never busy.
    pub fn read_cnt(&self) -> (r: u16)
        ensures
            r == if fixed::bit(self.cnt as int, 0x80) { self.cnt - 0x80 } else { self.cnt as int },
    {
        if fixed::has_bit(self.cnt as u32, 0x80) {
            self.cnt - 0x80
        } else {
            self.cnt
        }
    }

    /// The register is latched even while the bus is disabled.
    pub fn write_cnt(&mut self, val: u16)
        ensures
            final(self)@ == (SpiState { cnt: val, ..old(self)@ }),
    {
        self.cnt = val;
    }

    pub fn read_data(&self) -> (r: u8)
        ensures
            r == self@.data,
    {
        self.data
    }

    /// The CPU writes `SPIDATA`: exchange a byte. Returns true if the caller
    /// should raise `Irq::Spi` on ARM7.
    pub fn write_data(&mut self, byte_in: u8) -> (irq: bool)
        requires
            old(self)@.wf(),
        ensures
            final(self)@ == old(self)@.written(byte_in),
            final(self)@.wf(),
            irq == (old(self)@.is_enabled() && fixed::bit(old(self)@.cnt as int, 0x4000)),
    {
        if !self.enabled() {
            // The write is dropped, but the register mirrors it.
            self.data = byte_in;
            return false;
        }
        let device: Device = Device::from_bits(self.cnt);
        let hold: bool = fixed::has_bit(self.cnt as u32, 0x800);
        if !self.cs_held && self.current_device != device {
            self.reset_device(self.current_device);
        }
        let byte_out: u8 = match device {
            Device::Pmic => self.pmic.xfer(byte_in, hold),
            Device::Firmware => self.firmware.xfer(byte_in, hold),
            Device::Tsc => self.tsc.xfer(byte_in, hold),
            Device::Reserved => 0xFF,
        };
        self.data = byte_out;
        self.current_device = device;
        self.cs_held = hold;
        if !hold {
            self.reset_device(device);
        }
        fixed::has_bit(self.cnt as u32, 0x4000)
    }

    fn reset_device(&mut self, dev: Device)
        ensures
            final(self)@ == old(self)@.released(dev),
    {
        match dev {
            Device::Pmic => self.pmic.reset(),
            Device::Firmware => self.firmware.reset(),
            Device::Tsc => self.tsc.reset(),
            Device::Reserved => {},
        }
    }
}

impl Default for SpiBus {
    fn default() -> (r: Self)
        ensures
            r@.wf(),
            r@.cnt == 0,
            r@.data == 0,
            !r@.cs_held,
            r@.current_device == Device::Pmic,
            r@.firmware == firmware::initial(),
            r@.tsc == (Tsc {
                screen_x: 0,
                screen_y: 0,
                pen_down: false,
                phase: tsc::Phase::Idle,
            }),
            r@.pmic.regs@ == seq![0x31u8, 0, 0, 0, 0, 0, 0, 0],
            r@.pmic.phase == pmic::Phase::Idle,
    {
        Self::new()
    }
}

/// Bits 8 and 9 of `SPICNT` select power chip, flash, touchscreen or nothing; while bit
/// 15 is set, a written byte goes to the selected device and its reply can be read.
/// Bit 11 keeps the device selected for the next byte.
pub proof fn law_byte_exchange(s: SpiState, byte: u8)
    requires
        s.cnt / 0x8000 == 1,
        s.current_device == selected(s.cnt as int),
    ensures
        ({
            let after = s.written(byte);
            let dev = s.cnt as int / 0x100 % 4;
            let keep = s.cnt as int / 0x800 % 2 == 1;
            &&& after.cs_held == keep
            &&& dev == 0 ==> after.data == s.pmic.reply() && after.pmic == if keep {
                s.pmic.exchanged(byte)
            } else {
                s.pmic.exchanged(byte).released()
            }
            &&& dev == 1 ==> after.data == s.firmware.reply(byte) && after.firmware == if keep {
                s.firmware.exchanged(byte)
            } else {
                s.firmware.exchanged(byte).released()
            }
            &&& dev == 2 ==> after.data == s.tsc.reply() as u8 && after.tsc == if keep {
                s.tsc.exchanged(byte)
            } else {
                s.tsc.exchanged(byte).released()
            }
            &&& dev == 3 ==> after.data == 0xFF
            &&& dev != 0 ==> after.pmic == s.pmic
            &&& dev != 1 ==> after.firmware == s.firmware
            &&& dev != 2 ==> after.tsc == s.tsc
        }),
{
}

} // verus!
