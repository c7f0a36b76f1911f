//! Firmware flash (256 KB), device 1 of the SPI bus.
//!
//! It stores the user settings (nickname, language, birthday, touchscreen
//! calibration) twice, at 0x3FE00 and 0x3FF00; the block with the higher update
//! counter counts.
//!
//! | Op   | Name          |
//! |------|---------------|
//! | 0x03 | READ          |
//! | 0x04 | WRITE_DISABLE |
//! | 0x05 | READ_STATUS   |
//! | 0x06 | WRITE_ENABLE  |
//! | 0x0A | PAGE_PROGRAM  |
//! | 0x9F | READ_JEDEC_ID |
//! | 0xD8 | SECTOR_ERASE  |
//!
//! Any other op returns 0xFF and does nothing.

use vstd::prelude::*;
use crate::crc;
use crate::fixed;
use crate::spi::tsc;

verus! {

pub const FIRMWARE_SIZE: usize = 0x4_0000;

pub const USER_SETTINGS_OFFSET_1: usize = 0x3FE00;

pub const USER_SETTINGS_OFFSET_2: usize = 0x3FF00;

pub const USER_SETTINGS_SIZE: usize = 0x100;

#[derive(Debug, Clone, Copy, PartialEq, Eq, Structural)]
pub enum Phase {
    /// Waiting for a command byte.
    Idle,
    /// Reading the 3-byte address that follows some commands.
    AddressBytes { cmd: u8, remaining: u8, addr: u32 },
    /// Streaming bytes.
    Data { cmd: u8, addr: u32 },
}

#[derive(Debug, Clone)]
pub struct Firmware {
    pub data: Vec<u8>,
    /// Status register. Bit 1 is the write enable latch.
    pub status: u8,
    pub phase: Phase,
}

/// The device as contracts speak of it.
#[verifier::ext_equal]
pub struct FirmwareState {
    pub data: Seq<u8>,
    pub status: u8,
    pub phase: Phase,
}

impl View for Firmware {
    type V = FirmwareState;

    open spec fn view(&self) -> FirmwareState {
        FirmwareState { data: self.data@, status: self.status, phase: self.phase }
    }
}

/// The default settings without counter and checksum: version 5, favourite
/// colour 4, birthday January 1st, nickname "NDS", the touchscreen calibration
/// and English as language.
pub open spec fn default_setting(i: int) -> u8 {
    if i == 0x00 {
        5
    } else if i == 0x02 {
        4
    } else if i == 0x03 || i == 0x04 {
        1
    } else if i == 0x06 {
        0x4E
    } else if i == 0x08 {
        0x44
    } else if i == 0x0A {
        0x53
    } else if i == 0x1A {
        3
    } else if i == 0x58 {
        (tsc::ADC_X1 % 256) as u8
    } else if i == 0x59 {
        (tsc::ADC_X1 / 256) as u8
    } else if i == 0x5A {
        (tsc::ADC_Y1 % 256) as u8
    } else if i == 0x5B {
        (tsc::ADC_Y1 / 256) as u8
    } else if i == 0x5E {
        (tsc::ADC_X2 % 256) as u8
    } else if i == 0x5F {
        (tsc::ADC_X2 / 256) as u8
    } else if i == 0x60 {
        (tsc::ADC_Y2 % 256) as u8
    } else if i == 0x61 {
        (tsc::ADC_Y2 / 256) as u8
    } else if i == 0x62 {
        255
    } else if i == 0x63 {
        191
    } else if i == 0x64 {
        1
    } else {
        0
    }
}

/// The checksum of the default settings.
pub open spec fn default_checksum() -> u16 {
    crc::checksum(Seq::new(0x70, |i: int| default_setting(i)))
}

/// A default settings block with an update counter.
pub open spec fn default_settings(counter: u8) -> Seq<u8> {
    Seq::new(
        USER_SETTINGS_SIZE as nat,
        |i: int|
            if i == 0x70 {
                counter
            } else if i == 0x72 {
                (default_checksum() % 256) as u8
            } else if i == 0x73 {
                (default_checksum() / 256) as u8
            } else {
                default_setting(i)
            },
    )
}

/// The flash as it is synthesized: the two settings blocks in blank memory.
pub open spec fn default_image() -> Seq<u8> {
    Seq::new(
        FIRMWARE_SIZE as nat,
        |i: int|
            if i < USER_SETTINGS_OFFSET_1 {
                0
            } else if i < USER_SETTINGS_OFFSET_2 {
                default_settings(1)[i - USER_SETTINGS_OFFSET_1]
            } else {
                default_settings(0)[i - USER_SETTINGS_OFFSET_2]
            },
    )
}

/// Memory with the 256-byte sector around an address erased.
pub open spec fn erased(data: Seq<u8>, addr: int) -> Seq<u8> {
    Seq::new(data.len(), |i: int| if i / 256 == addr / 256 { 0xFF } else { data[i] })
}

/// The three bytes of the JEDEC ID.
pub open spec fn jedec_id(i: int) -> u8 {
    if i % 3 == 0 {
        0xC2
    } else if i % 3 == 1 {
        0x22
    } else {
        0x14
    }
}

impl FirmwareState {
    pub open spec fn wf(self) -> bool {
        self.data.len() == FIRMWARE_SIZE
    }

    /// Whether writes are enabled.
    pub open spec fn write_enabled(self) -> bool {
        fixed::bit(self.status as int, 2)
    }

    /// The state with the write enable latch set or cleared.
    pub open spec fn latched(self, enable: bool) -> FirmwareState {
        FirmwareState {
            status: if enable == self.write_enabled() {
                self.status
            } else if enable {
                (self.status + 2) as u8
            } else {
                (self.status - 2) as u8
            },
            ..self
        }
    }

    /// After a command byte.
    pub open spec fn commanded(self, cmd: u8) -> FirmwareState {
        if cmd == 0x03 || cmd == 0x0A || cmd == 0xD8 {
            FirmwareState { phase: Phase::AddressBytes { cmd, remaining: 3, addr: 0 }, ..self }
        } else if cmd == 0x05 || cmd == 0x9F {
            FirmwareState { phase: Phase::Data { cmd, addr: 0 }, ..self }
        } else if cmd == 0x06 || cmd == 0x04 {
            FirmwareState { phase: Phase::Idle, ..self.latched(cmd == 0x06) }
        } else {
            self
        }
    }

    /// The reply to a command byte.
    pub open spec fn command_reply(self, cmd: u8) -> u8 {
        if cmd == 0x03 || cmd == 0x04 || cmd == 0x05 || cmd == 0x06 || cmd == 0x0A || cmd == 0x9F
            || cmd == 0xD8 {
            0
        } else {
            0xFF
        }
    }

    /// The state with the sector around an address erased, where writes are
    /// enabled.
    pub open spec fn sector_erased(self, addr: int) -> FirmwareState {
        FirmwareState {
            data: if self.write_enabled() { erased(self.data, addr) } else { self.data },
            phase: Phase::Idle,
            ..self
        }
    }

    /// After an address byte.
    pub open spec fn addressed(self, cmd: u8, remaining: u8, addr: u32, byte: u8) -> FirmwareState {
        let next = (addr * 256 + byte) % 0x1_0000_0000;
        if remaining > 1 {
            FirmwareState {
                phase: Phase::AddressBytes {
                    cmd,
                    remaining: (remaining - 1) as u8,
                    addr: next as u32,
                },
                ..self
            }
        } else if cmd == 0xD8 {
            self.sector_erased(next % 0x4_0000).latched(false)
        } else {
            FirmwareState { phase: Phase::Data { cmd, addr: (next % 0x4_0000) as u32 }, ..self }
        }
    }

    /// After a data byte.
    pub open spec fn streamed(self, cmd: u8, addr: u32, byte: u8) -> FirmwareState {
        let next = Phase::Data { cmd, addr: ((addr + 1) % 0x1_0000_0000) as u32 };
        if cmd == 0x03 || cmd == 0x9F {
            FirmwareState { phase: next, ..self }
        } else if cmd == 0x05 {
            FirmwareState { phase: Phase::Data { cmd, addr: 0 }, ..self }
        } else if cmd == 0x0A {
            if self.write_enabled() {
                FirmwareState {
                    data: self.data.update(addr as int % 0x4_0000, byte),
                    phase: next,
                    ..self
                }
            } else {
                self
            }
        } else if cmd == 0xD8 {
            self.sector_erased(addr as int % 0x4_0000)
        } else {
            self
        }
    }

    /// The reply to a data byte.
    pub open spec fn stream_reply(self, cmd: u8, addr: u32) -> u8 {
        if cmd == 0x03 {
            self.data[addr as int % 0x4_0000]
        } else if cmd == 0x05 {
            self.status
        } else if cmd == 0x9F {
            jedec_id(addr as int)
        } else if cmd == 0x0A || cmd == 0xD8 {
            0
        } else {
            0xFF
        }
    }

    /// The device after a byte is exchanged.
    pub open spec fn exchanged(self, byte: u8) -> FirmwareState {
        match self.phase {
            Phase::Idle => self.commanded(byte),
            Phase::AddressBytes { cmd, remaining, addr } => self.addressed(
                cmd,
                remaining,
                addr,
                byte,
            ),
            Phase::Data { cmd, addr } => self.streamed(cmd, addr, byte),
        }
    }

    /// The byte that the device sends back.
    pub open spec fn reply(self, byte: u8) -> u8 {
        match self.phase {
            Phase::Idle => self.command_reply(byte),
            Phase::AddressBytes { cmd, remaining, addr } => 0,
            Phase::Data { cmd, addr } => self.stream_reply(cmd, addr),
        }
    }

    /// After chip select is released.
    pub open spec fn released(self) -> FirmwareState {
        FirmwareState { phase: Phase::Idle, ..self }
    }

    /// After a command with a 24-bit address.
    #[verifier::opaque]
    pub open spec fn sent_address(self, cmd: u8, addr: int) -> FirmwareState {
        self.exchanged(cmd).exchanged((addr / 0x1_0000 % 256) as u8).exchanged(
            (addr / 256 % 256) as u8,
        ).exchanged((addr % 256) as u8)
    }

    /// After some bytes are sent, one after the other.
    pub open spec fn sent(self, bytes: Seq<u8>) -> FirmwareState
        decreases bytes.len(),
    {
        if bytes.len() == 0 {
            self
        } else {
            self.sent(bytes.drop_last()).exchanged(bytes.last())
        }
    }
}

/// The device at power-on.
pub open spec fn initial() -> FirmwareState {
    FirmwareState { data: default_image(), status: 0, phase: Phase::Idle }
}

/// An address byte that is not the last.
proof fn lemma_address_byte(s: FirmwareState, cmd: u8, remaining: u8, addr: u32, byte: u8)
    requires
        s.phase == (Phase::AddressBytes { cmd, remaining, addr }),
        remaining > 1,
        addr < 0x100_0000,
    ensures
        s.exchanged(byte) == (FirmwareState {
            phase: Phase::AddressBytes {
                cmd,
                remaining: (remaining - 1) as u8,
                addr: (addr * 256 + byte) as u32,
            },
            ..s
        }),
{
}

/// Before the last address byte.
proof fn lemma_address_start(s: FirmwareState, cmd: u8, addr: int)
    requires
        s.phase == Phase::Idle,
        cmd == 0x03 || cmd == 0x0A || cmd == 0xD8,
        0 <= addr < 0x4_0000,
    ensures
        s.sent_address(cmd, addr) == (FirmwareState {
            phase: Phase::AddressBytes { cmd, remaining: 1, addr: (addr / 256) as u32 },
            ..s
        }).addressed(cmd, 1, (addr / 256) as u32, (addr % 256) as u8),
{
    reveal(FirmwareState::sent_address);
    let high = (addr / 0x1_0000 % 256) as u8;
    let middle = (addr / 256 % 256) as u8;
    let s1 = s.exchanged(cmd);
    assert(s1 == (FirmwareState { phase: Phase::AddressBytes { cmd, remaining: 3, addr: 0 }, ..s }));
    lemma_address_byte(s1, cmd, 3, 0, high);
    let s2 = s1.exchanged(high);
    assert(high == addr / 0x1_0000);
    lemma_address_byte(s2, cmd, 2, (addr / 0x1_0000) as u32, middle);
    let s3 = s2.exchanged(middle);
    assert(addr / 0x1_0000 * 256 + middle == addr / 256);
    assert(s3.exchanged((addr % 256) as u8) == s3.addressed(
        cmd,
        1,
        (addr / 256) as u32,
        (addr % 256) as u8,
    ));
}

proof fn lemma_address(s: FirmwareState, cmd: u8, addr: int)
    requires
        s.phase == Phase::Idle,
        cmd == 0x03 || cmd == 0x0A,
        0 <= addr < 0x4_0000,
    ensures
        s.sent_address(cmd, addr) == (FirmwareState {
            phase: Phase::Data { cmd, addr: addr as u32 },
            ..s
        }),
{
    lemma_address_start(s, cmd, addr);
}

proof fn lemma_programmed(s: FirmwareState, addr: int, bytes: Seq<u8>)
    requires
        s.wf(),
        s.write_enabled(),
        s.phase == (Phase::Data { cmd: 0x0A, addr: addr as u32 }),
        0 <= addr,
        addr + bytes.len() <= 0x4_0000,
    ensures
        s.sent(bytes).phase == (Phase::Data { cmd: 0x0A, addr: (addr + bytes.len()) as u32 }),
        s.sent(bytes).status == s.status,
        s.sent(bytes).wf(),
        forall|i: int|
            0 <= i < 0x4_0000 ==> (#[trigger] s.sent(bytes).data[i]) == if addr <= i < addr
                + bytes.len() {
                bytes[i - addr]
            } else {
                s.data[i]
            },
    decreases bytes.len(),
{
    if bytes.len() > 0 {
        lemma_programmed(s, addr, bytes.drop_last());
    }
}

proof fn lemma_streams(s: FirmwareState, addr: int, dummies: Seq<u8>)
    requires
        s.phase == (Phase::Data { cmd: 0x03, addr: addr as u32 }),
        0 <= addr,
        addr + dummies.len() <= 0x4_0000,
    ensures
        s.sent(dummies) == (FirmwareState {
            phase: Phase::Data { cmd: 0x03, addr: (addr + dummies.len()) as u32 },
            ..s
        }),
    decreases dummies.len(),
{
    if dummies.len() > 0 {
        lemma_streams(s, addr, dummies.drop_last());
    }
}

/// What is programmed with writes enabled is read back, byte for byte, in later
/// transactions, and no other byte changes.
pub proof fn law_program_reads_back(
    s: FirmwareState,
    addr: int,
    bytes: Seq<u8>,
    dummies: Seq<u8>,
    byte: u8,
)
    requires
        s.wf(),
        0 <= addr,
        addr + bytes.len() <= 0x4_0000,
        dummies.len() < bytes.len(),
    ensures
        ({
            let enabled = s.released().exchanged(0x06).released();
            let programmed = enabled.sent_address(0x0A, addr).sent(bytes).released();
            let read = programmed.sent_address(0x03, addr).sent(dummies);
            &&& programmed.wf()
            &&& read.reply(byte) == bytes[dummies.len() as int]
            &&& forall|i: int|
                0 <= i < 0x4_0000 && !(addr <= i < addr + bytes.len()) ==> (
                #[trigger] programmed.data[i]) == s.data[i]
        }),
{
    let enabled = s.released().exchanged(0x06).released();
    lemma_address(enabled, 0x0A, addr);
    lemma_programmed(enabled.sent_address(0x0A, addr), addr, bytes);
    let programmed = enabled.sent_address(0x0A, addr).sent(bytes).released();
    lemma_address(programmed, 0x03, addr);
    lemma_streams(programmed.sent_address(0x03, addr), addr, dummies);
    let at = addr + dummies.len();
    assert(enabled.sent_address(0x0A, addr).sent(bytes).data[at] == bytes[dummies.len() as int]);
}

/// With writes disabled no byte of the memory changes, whatever is sent except
/// the command that enables them.
pub proof fn law_write_protected(s: FirmwareState, byte: u8)
    requires
        s.wf(),
        !s.write_enabled(),
        s.phase == Phase::Idle ==> byte != 0x06,
    ensures
        s.exchanged(byte).data == s.data,
        !s.exchanged(byte).write_enabled(),
{
}

/// Erasing a sector with writes enabled fills exactly that sector with 0xFF and
/// disables writes again.
pub proof fn law_erase_fills_sector(s: FirmwareState, addr: int, i: int)
    requires
        s.wf(),
        s.phase == Phase::Idle,
        s.write_enabled(),
        0 <= addr < 0x4_0000,
        0 <= i < 0x4_0000,
    ensures
        ({
            let t = s.sent_address(0xD8, addr);
            &&& t.wf()
            &&& t.data[i] == if i / 256 == addr / 256 { 0xFF } else { s.data[i] }
            &&& !t.write_enabled()
            &&& t.phase == Phase::Idle
        }),
{
    lemma_address_start(s, 0xD8, addr);
}

/// Both synthesized settings blocks carry the checksum of their settings, and
/// the first has the higher update counter.
pub proof fn law_default_settings_valid(counter: u8)
    ensures
        ({
            let block = default_settings(counter);
            block[0x72] + 256 * block[0x73] == crc::checksum(block.take(0x70))
        }),
        default_image().subrange(USER_SETTINGS_OFFSET_1 as int, USER_SETTINGS_OFFSET_2 as int)
            == default_settings(1),
        default_image().subrange(USER_SETTINGS_OFFSET_2 as int, FIRMWARE_SIZE as int)
            == default_settings(0),
        default_settings(1)[0x70] > default_settings(0)[0x70],
{
    let block = default_settings(counter);
    assert(block.take(0x70) =~= Seq::new(0x70, |i: int| default_setting(i)));
    assert(default_image().subrange(USER_SETTINGS_OFFSET_1 as int, USER_SETTINGS_OFFSET_2 as int)
        =~= default_settings(1));
    assert(default_image().subrange(USER_SETTINGS_OFFSET_2 as int, FIRMWARE_SIZE as int)
        =~= default_settings(0));
}

/// The default settings, with block 1's counter.
fn build_settings() -> (r: [u8; 256])
    ensures
        r@ == default_settings(1),
{
    let mut settings: [u8; 256] = [0; 256];
    // Version 5.
    settings[0x00] = 5;
    // Favourite colour.
    settings[0x02] = 4;
    // Birthday: month, day.
    settings[0x03] = 1;
    settings[0x04] = 1;
    // Nickname "NDS", UTF-16LE, and its length.
    settings[0x06] = 0x4E;
    settings[0x08] = 0x44;
    settings[0x0A] = 0x53;
    settings[0x1A] = 3;
    // Calibration: raw and screen coordinates of the top left and of the
    // bottom right.
    settings[0x58] = (tsc::ADC_X1 % 256) as u8;
    settings[0x59] = (tsc::ADC_X1 / 256) as u8;
    settings[0x5A] = (tsc::ADC_Y1 % 256) as u8;
    settings[0x5B] = (tsc::ADC_Y1 / 256) as u8;
    settings[0x5E] = (tsc::ADC_X2 % 256) as u8;
    settings[0x5F] = (tsc::ADC_X2 / 256) as u8;
    settings[0x60] = (tsc::ADC_Y2 % 256) as u8;
    settings[0x61] = (tsc::ADC_Y2 / 256) as u8;
    settings[0x62] = 255;
    settings[0x63] = 191;
    // Language: English.
    settings[0x64] = 1;
    let ghost fields = settings@;
    assert(forall|i: int| 0 <= i < 256 ==> fields[i] == default_setting(i));
    let mut head: Vec<u8> = Vec::new();
    for i in 0..0x70usize
        invariant
            settings@ == fields,
            forall|i: int| 0 <= i < 256 ==> fields[i] == default_setting(i),
            head@ == Seq::new(i as nat, |k: int| default_setting(k)),
    {
        head.push(settings[i]);
        assert(head@ =~= Seq::new((i + 1) as nat, |k: int| default_setting(k)));
    }
    let crc: u16 = crc::crc16_modbus(head.as_slice());
    settings[0x70] = 1;
    settings[0x72] = (crc % 256) as u8;
    settings[0x73] = (crc / 256) as u8;
    assert(settings@ =~= default_settings(1));
    settings
}

impl Firmware {
    /// A firmware image with synthesized user settings.
    pub fn new() -> (r: Self)
        ensures
            r@ == initial(),
            r@.wf(),
    {
        let settings: [u8; 256] = build_settings();
        let mut data: Vec<u8> = Vec::with_capacity(FIRMWARE_SIZE);
        for i in 0..FIRMWARE_SIZE
            invariant
                settings@ == default_settings(1),
                data@.len() == i,
                forall|k: int| 0 <= k < i ==> (#[trigger] data@[k]) == default_image()[k],
        {
            let byte: u8 = if i < USER_SETTINGS_OFFSET_1 {
                0
            } else if i < USER_SETTINGS_OFFSET_2 {
                settings[i - USER_SETTINGS_OFFSET_1]
            } else if i == USER_SETTINGS_OFFSET_2 + 0x70 {
                // Update counter of the second block.
                0
            } else {
                settings[i - USER_SETTINGS_OFFSET_2]
            };
            data.push(byte);
        }
        assert(data@ =~= default_image());
        Firmware { data, status: 0, phase: Phase::Idle }
    }

    /// Replace the start of the firmware image with a dump.
    pub fn load_dump(&mut self, dump: &[u8])
        requires
            old(self)@.wf(),
        ensures
            final(self)@.wf(),
            final(self)@ == (FirmwareState {
                data: Seq::new(
                    FIRMWARE_SIZE as nat,
                    |i: int| if i < dump@.len() { dump@[i] } else { old(self)@.data[i] },
                ),
                ..old(self)@
            }),
    {
        let len: usize = if dump.len() < FIRMWARE_SIZE {
            dump.len()
        } else {
            FIRMWARE_SIZE
        };
        let ghost start = self@;
        for i in 0..len
            invariant
                start.wf(),
                self@.wf(),
                len <= dump@.len(),
                len <= FIRMWARE_SIZE,
                self@.status == start.status,
                self@.phase == start.phase,
                forall|k: int|
                    0 <= k < FIRMWARE_SIZE ==> (#[trigger] self@.data[k]) == if k < i {
                        dump@[k]
                    } else {
                        start.data[k]
                    },
        {
            self.data[i] = dump[i];
        }
    }

    pub fn reset(&mut self)
        ensures
            final(self)@ == old(self)@.released(),
    {
        self.phase = Phase::Idle;
    }

    pub fn xfer(&mut self, byte_in: u8, _hold: bool) -> (r: u8)
        requires
            old(self)@.wf(),
        ensures
            final(self)@ == old(self)@.exchanged(byte_in),
            r == old(self)@.reply(byte_in),
            final(self)@.wf(),
    {
        match self.phase {
            Phase::Idle => self.handle_command(byte_in),
            Phase::AddressBytes { cmd, remaining, addr } => {
                let next: u32 = ((addr as u64 * 256 + byte_in as u64) % 0x1_0000_0000) as u32;
                if remaining > 1 {
                    self.phase = Phase::AddressBytes { cmd, remaining: remaining - 1, addr: next };
                    return 0;
                }
                let full: u32 = next % 0x4_0000;
                if cmd == 0xD8 {
                    // An erase has no data: it is done with the last address
                    // byte, and uses up the write enable latch.
                    self.erase_sector(full);
                    self.set_write_enable(false);
                } else {
                    self.phase = Phase::Data { cmd, addr: full };
                }
                0
            },
            Phase::Data { cmd, addr } => self.handle_data(cmd, addr, byte_in),
        }
    }

    fn set_write_enable(&mut self, enable: bool)
        ensures
            final(self)@ == old(self)@.latched(enable),
    {
        let enabled: bool = fixed::has_bit(self.status as u32, 2);
        if enable && !enabled {
            self.status = self.status + 2;
        } else if !enable && enabled {
            self.status = self.status - 2;
        }
    }

    fn erase_sector(&mut self, addr: u32)
        requires
            old(self)@.wf(),
            addr < 0x4_0000,
        ensures
            final(self)@ == old(self)@.sector_erased(addr as int),
    {
        let ghost start = self@;
        if fixed::has_bit(self.status as u32, 2) {
            let base: usize = (addr - addr % 256) as usize;
            for i in 0..256usize
                invariant
                    start.wf(),
                    self@.wf(),
                    base == addr - addr % 256,
                    addr < 0x4_0000,
                    self@.status == start.status,
                    self@.phase == start.phase,
                    forall|k: int|
                        0 <= k < FIRMWARE_SIZE ==> (#[trigger] self@.data[k]) == if base <= k < base
                            + i {
                            0xFF
                        } else {
                            start.data[k]
                        },
            {
                self.data[base + i] = 0xFF;
            }
            assert(self@.data =~= erased(start.data, addr as int));
        }
        self.phase = Phase::Idle;
    }

    fn handle_command(&mut self, cmd: u8) -> (r: u8)
        ensures
            final(self)@ == old(self)@.commanded(cmd),
            r == old(self)@.command_reply(cmd),
    {
        match cmd {
            // READ, PAGE_PROGRAM, SECTOR_ERASE
            0x03 | 0x0A | 0xD8 => {
                self.phase = Phase::AddressBytes { cmd, remaining: 3, addr: 0 };
                0
            },
            // READ_STATUS, READ_JEDEC_ID
            0x05 | 0x9F => {
                self.phase = Phase::Data { cmd, addr: 0 };
                0
            },
            // WRITE_ENABLE
            0x06 => {
                self.set_write_enable(true);
                self.phase = Phase::Idle;
                0
            },
            // WRITE_DISABLE
            0x04 => {
                self.set_write_enable(false);
                self.phase = Phase::Idle;
                0
            },
            _ => 0xFF,
        }
    }

    fn handle_data(&mut self, cmd: u8, addr: u32, byte_in: u8) -> (r: u8)
        requires
            old(self)@.wf(),
        ensures
            final(self)@ == old(self)@.streamed(cmd, addr, byte_in),
            r == old(self)@.stream_reply(cmd, addr),
    {
        match cmd {
            0x03 => {
                let byte: u8 = self.data[addr as usize % FIRMWARE_SIZE];
                self.phase = Phase::Data { cmd, addr: addr.wrapping_add(1) };
                byte
            },
            0x05 => {
                self.phase = Phase::Data { cmd, addr: 0 };
                self.status
            },
            0x9F => {
                self.phase = Phase::Data { cmd, addr: addr.wrapping_add(1) };
                match addr % 3 {
                    0 => 0xC2,
                    1 => 0x22,
                    _ => 0x14,
                }
            },
            0x0A => {
                if fixed::has_bit(self.status as u32, 2) {
                    self.data[addr as usize % FIRMWARE_SIZE] = byte_in;
                    self.phase = Phase::Data { cmd, addr: addr.wrapping_add(1) };
                }
                0
            },
            0xD8 => {
                self.erase_sector(addr % 0x4_0000);
                0
            },
            _ => 0xFF,
        }
    }
}

impl Default for Firmware {
    fn default() -> (r: Self)
        ensures
            r@ == initial(),
            r@.wf(),
    {
        Self::new()
    }
}

/// Command 5 reads the status, again and again, of which bit 1 shows whether writes are
/// enabled: command 6 enables them and command 4 disables them.
pub proof fn law_status_shows_write_enable(s: FirmwareState, any: u8)
    requires
        s.phase == Phase::Idle,
    ensures
        ({
            let on = s.exchanged(0x06);
            let off = s.exchanged(0x04);
            let asked = s.exchanged(0x05);
            &&& asked.reply(any) == s.status
            &&& asked.exchanged(any).reply(any) == s.status
            &&& on.status / 2 % 2 == 1
            &&& off.status / 2 % 2 == 0
            &&& on.data == s.data && off.data == s.data
            &&& on.phase == Phase::Idle && off.phase == Phase::Idle
        }),
{
}

/// Command 0x9F reads the three bytes C2, 22, 14 in turn.
pub proof fn law_identification(s: FirmwareState, any: u8)
    requires
        s.phase == Phase::Idle,
    ensures
        ({
            let a = s.exchanged(0x9F);
            let b = a.exchanged(any);
            let c = b.exchanged(any);
            let d = c.exchanged(any);
            &&& a.reply(any) == 0xC2
            &&& b.reply(any) == 0x22
            &&& c.reply(any) == 0x14
            &&& d.reply(any) == 0xC2
        }),
{
}

/// The settings name the user "NDS" in 16-bit characters, with the length, and hold the
/// two calibration points: readings in two bytes each, low byte first, and the pixels
/// they stand for.
pub proof fn law_default_settings_fields(counter: u8)
    ensures
        ({
            let b = default_settings(counter);
            &&& b.len() == 0x100
            &&& b[0] == 5
            &&& b[2] == 4 && b[3] == 1 && b[4] == 1
            &&& b[0x06] == 0x4E && b[0x07] == 0 && b[0x08] == 0x44 && b[0x09] == 0
            &&& b[0x0A] == 0x53 && b[0x0B] == 0
            &&& b[0x1A] + 256 * b[0x1B] == 3
            &&& b[0x58] + 256 * b[0x59] == tsc::ADC_X1
            &&& b[0x5A] + 256 * b[0x5B] == tsc::ADC_Y1
            &&& b[0x5C] == 0 && b[0x5D] == 0
            &&& b[0x5E] + 256 * b[0x5F] == tsc::ADC_X2
            &&& b[0x60] + 256 * b[0x61] == tsc::ADC_Y2
            &&& b[0x62] == 255 && b[0x63] == 191
            &&& b[0x64] == 1
            &&& b[0x70] == counter
        }),
{
}

} // verus!
