//! Power management IC, device 0 of the SPI bus.
//!
//! Register writes are kept and read back, but for the read-only register 4;
//! nothing else depends on them.
//!
//! Each transaction is two bytes: byte 0 selects a register (bits 0-6) and
//! reads it where bit 7 is set or writes it where bit 7 is clear; byte 1 is the
//! data.
//!
//! Registers: 0 control (bit 0 sound, bit 4 top backlight, bit 5 bottom
//! backlight), 1 battery, 2 amplifier gain, 3 amplifier enable, 4 low
//! battery (read-only: 0, the battery is good).

use vstd::prelude::*;

verus! {

#[derive(Debug, Clone, Copy, PartialEq, Eq, Structural)]
pub enum Phase {
    /// Waiting for the register select.
    Idle,
    /// Register selected; waiting for data.
    Address { reg: u8, write: bool },
}

#[derive(Debug, Clone, Copy)]
pub struct Pmic {
    pub regs: [u8; 8],
    pub phase: Phase,
}

/// The low-battery register, which cannot be written and reads 0.
pub const LOW_BATTERY: u8 = 4;

impl Pmic {
    /// The device after a byte is exchanged.
    pub open spec fn exchanged(self, byte_in: u8) -> Pmic {
        match self.phase {
            Phase::Idle => Pmic {
                phase: Phase::Address { reg: (byte_in % 0x80) as u8, write: byte_in < 0x80 },
                ..self
            },
            Phase::Address { reg, write } => if write && reg % 8 != LOW_BATTERY {
                Pmic { regs: vstd::array::spec_array_update(self.regs, reg as int % 8, byte_in), ..self }
            } else {
                self
            },
        }
    }

    /// The byte that the device sends back.
    pub open spec fn reply(self) -> u8 {
        match self.phase {
            Phase::Idle => 0,
            Phase::Address { reg, write } => if reg % 8 == LOW_BATTERY {
                0
            } else {
                self.regs[reg as int % 8]
            },
        }
    }

    /// The device after chip select is released: registers stay.
    pub open spec fn released(self) -> Pmic {
        Pmic { phase: Phase::Idle, ..self }
    }

    pub fn new() -> (r: Self)
        ensures
            r.regs@ == seq![0x31u8, 0, 0, 0, 0, 0, 0, 0],
            r.phase == Phase::Idle,
    {
        // Both backlights on, sound enabled.
        let regs: [u8; 8] = [0x31, 0, 0, 0, 0, 0, 0, 0];
        Pmic { regs, phase: Phase::Idle }
    }

    pub fn reset(&mut self)
        ensures
            *final(self) == old(self).released(),
    {
        self.phase = Phase::Idle;
    }

    pub fn xfer(&mut self, byte_in: u8, _hold: bool) -> (r: u8)
        ensures
            *final(self) == old(self).exchanged(byte_in),
            r == old(self).reply(),
    {
        match self.phase {
            Phase::Idle => {
                self.phase = Phase::Address { reg: byte_in % 0x80, write: byte_in < 0x80 };
                0
            },
            Phase::Address { reg, write } => {
                if reg % 8 == LOW_BATTERY {
                    return 0;
                }
                let idx: usize = (reg % 8) as usize;
                let response: u8 = self.regs[idx];
                if write {
                    self.regs[idx] = byte_in;
                }
                response
            },
        }
    }
}

/// A register written in one transaction is read back in the next, and no other
/// register changes. The low-battery register takes no write and reads 0.
pub proof fn law_register_reads_back(p: Pmic, reg: u8, other: u8, value: u8, dummy: u8)
    requires
        reg < 8,
        other < 8,
    ensures
        ({
            let written = p.released().exchanged(reg).exchanged(value).released();
            let asked = written.exchanged((0x80 + other) as u8);
            &&& other != LOW_BATTERY ==> asked.reply() == if other == reg {
                value
            } else {
                p.regs[other as int]
            }
            &&& other == LOW_BATTERY ==> asked.reply() == 0
            &&& reg == LOW_BATTERY ==> written.regs == p.regs
            &&& asked.exchanged(dummy).regs == written.regs
        }),
{
}

impl Default for Pmic {
    fn default() -> (r: Self)
        ensures
            r.regs@ == seq![0x31u8, 0, 0, 0, 0, 0, 0, 0],
            r.phase == Phase::Idle,
    {
        Self::new()
    }
}

} // verus!
