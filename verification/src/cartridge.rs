//! Cartridges: ROM banks, external RAM and the memory bank controllers (MBC1, MBC3).
use vstd::prelude::*;

verus! {

/// A cartridge: its ROM image and external RAM, and the bank controller state.
pub struct Cartridge {
    pub rom: Vec<u8>,
    pub rom_size: usize,
    pub ram: Vec<u8>,
    pub ram_size: usize,
    pub mbc_type: u8,
    pub current_rom_bank: usize,
    pub current_ram_bank: usize,
    pub ram_enabled: bool,
    /// MBC1: the 5-bit ROM bank register.
    pub mbc1_rom_bank_low: u8,
    /// MBC1: the 2-bit register that holds ROM bank bits 5-6 or the RAM bank.
    pub mbc1_rom_bank_high: u8,
    /// MBC1: false in ROM banking mode, true in RAM banking mode.
    pub mbc1_banking_mode: bool,
    /// The ROM bank number is masked with this, after the ROM's size.
    pub rom_bank_mask: usize,
}

/// The state of a cartridge, with its ROM and RAM as sequences.
pub struct CartridgeView {
    pub rom: Seq<u8>,
    pub rom_size: usize,
    pub ram: Seq<u8>,
    pub ram_size: usize,
    pub mbc_type: u8,
    pub current_rom_bank: usize,
    pub current_ram_bank: usize,
    pub ram_enabled: bool,
    pub mbc1_rom_bank_low: u8,
    pub mbc1_rom_bank_high: u8,
    pub mbc1_banking_mode: bool,
    pub rom_bank_mask: usize,
}

impl View for Cartridge {
    type V = CartridgeView;

    open spec fn view(&self) -> CartridgeView {
        CartridgeView {
            rom: self.rom@,
            rom_size: self.rom_size,
            ram: self.ram@,
            ram_size: self.ram_size,
            mbc_type: self.mbc_type,
            current_rom_bank: self.current_rom_bank,
            current_ram_bank: self.current_ram_bank,
            ram_enabled: self.ram_enabled,
            mbc1_rom_bank_low: self.mbc1_rom_bank_low,
            mbc1_rom_bank_high: self.mbc1_rom_bank_high,
            mbc1_banking_mode: self.mbc1_banking_mode,
            rom_bank_mask: self.rom_bank_mask,
        }
    }
}

/// External RAM size, in bytes, for the header's RAM size code (0x0149).
pub open spec fn ram_size_for_code(code: u8) -> usize {
    if code == 0x00 {
        0
    } else if code == 0x01 {
        0x800
    } else if code == 0x02 {
        0x2000
    } else if code == 0x03 {
        0x8000
    } else if code == 0x04 {
        0x20000
    } else if code == 0x05 {
        0x10000
    } else {
        0x2000
    }
}

/// The ROM bank mask for a ROM image of `size` bytes: one less than its number of
/// 16 KiB banks for the sizes that MBC1 knows, 127 otherwise.
pub open spec fn bank_mask_for_size(size: usize) -> usize {
    if size == 0x8000 {
        1
    } else if size == 0x10000 {
        3
    } else if size == 0x20000 {
        7
    } else if size == 0x40000 {
        15
    } else if size == 0x80000 {
        31
    } else if size == 0x100000 {
        63
    } else {
        127
    }
}

/// The byte at `index` of `s`, or 0xFF past its end.
pub open spec fn byte_or_ff(s: Seq<u8>, index: int) -> u8 {
    if index < s.len() {
        s[index]
    } else {
        0xFF
    }
}

impl CartridgeView {
    /// A cartridge just loaded from `rom`: the controller type comes from header
    /// byte 0x0147 (for images of at least 32 KiB), the RAM size from 0x0149; bank
    /// 1 is selected, RAM is zeroed and disabled, MBC1 is in ROM banking mode.
    pub open spec fn loaded(rom: Seq<u8>) -> CartridgeView {
        let ram_size: usize = if rom.len() > 0x0149 {
            ram_size_for_code(rom[0x0149])
        } else {
            0
        };
        CartridgeView {
            rom,
            rom_size: rom.len() as usize,
            ram: Seq::new(ram_size as nat, |i: int| 0u8),
            ram_size,
            mbc_type: if rom.len() >= 0x8000 {
                rom[0x0147]
            } else {
                0
            },
            current_rom_bank: 1,
            current_ram_bank: 0,
            ram_enabled: false,
            mbc1_rom_bank_low: 1,
            mbc1_rom_bank_high: 0,
            mbc1_banking_mode: false,
            rom_bank_mask: bank_mask_for_size(rom.len() as usize),
        }
    }

    pub open spec fn is_mbc1(self) -> bool {
        0x01 <= self.mbc_type <= 0x03
    }

    pub open spec fn is_mbc3(self) -> bool {
        0x0F <= self.mbc_type <= 0x13
    }

    /// The bank that 0x0000-0x3FFF shows: bank 0, except for MBC1 in RAM banking
    /// mode, where the high bank bits select it (masked by the ROM size).
    pub open spec fn low_area_bank(self) -> usize {
        if self.is_mbc1() && self.mbc1_banking_mode {
            ((self.mbc1_rom_bank_high as usize) << 5usize) & self.rom_bank_mask
        } else {
            0
        }
    }

    /// What a read of ROM address `address` gives.
    pub open spec fn rom_byte(self, address: u16) -> u8 {
        if address <= 0x3FFF {
            byte_or_ff(self.rom, self.low_area_bank() * 0x4000 + address)
        } else if address <= 0x7FFF {
            byte_or_ff(self.rom, self.current_rom_bank * 0x4000 + (address - 0x4000))
        } else {
            0xFF
        }
    }

    /// No panic: the switchable-bank offset of a ROM read at `address` fits a usize.
    pub open spec fn rom_read_fits(self, address: u16) -> bool {
        0x4000 <= address <= 0x7FFF ==> self.current_rom_bank * 0x4000 + (address - 0x4000)
            <= usize::MAX
    }

    /// No panic: the RAM offset of an access at `address` fits a usize (only
    /// computed while RAM is enabled).
    pub open spec fn ram_access_fits(self, address: u16) -> bool {
        self.ram_enabled ==> self.current_ram_bank * 0x2000 + address <= usize::MAX
    }

    /// Every ROM and RAM access through the bus (RAM offsets below 0x2000) fits.
    pub open spec fn banks_fit(self) -> bool {
        &&& self.current_rom_bank * 0x4000 + 0x3FFF <= usize::MAX
        &&& self.current_ram_bank * 0x2000 + 0x1FFF <= usize::MAX
    }

    /// What a read of external RAM offset `address` gives: 0xFF while RAM is disabled
    /// or past its end.
    pub open spec fn ram_byte(self, address: u16) -> u8 {
        if !self.ram_enabled {
            0xFF
        } else {
            byte_or_ff(self.ram, self.current_ram_bank * 0x2000 + address)
        }
    }

    /// The cartridge after a write of `value` to external RAM offset `address`.
    pub open spec fn after_ram_write(self, address: u16, value: u8) -> CartridgeView {
        let i = self.current_ram_bank * 0x2000 + address;
        if self.ram_enabled && i < self.ram.len() {
            CartridgeView { ram: self.ram.update(i, value), ..self }
        } else {
            self
        }
    }

    /// The MBC1 ROM bank after its registers change: the low five bits, with the
    /// two high bits above them in ROM banking mode, masked by the ROM size; bank
    /// 0 selects bank 1.
    pub open spec fn mbc1_bank(self) -> usize {
        let low = self.mbc1_rom_bank_low as usize;
        let bank = if !self.mbc1_banking_mode {
            low | ((self.mbc1_rom_bank_high as usize) << 5usize)
        } else {
            low
        };
        let masked = bank & self.rom_bank_mask;
        if masked == 0 {
            1
        } else {
            masked
        }
    }

    /// The cartridge after a write of `value` to ROM address `address`, which
    /// programs the bank controller.
    #[verifier::opaque]
    pub open spec fn after_rom_write(self, address: u16, value: u8) -> CartridgeView {
        if self.is_mbc1() {
            if address <= 0x1FFF {
                CartridgeView { ram_enabled: value & 0x0F == 0x0A, ..self }
            } else if address <= 0x3FFF {
                let s = CartridgeView { mbc1_rom_bank_low: value & 0x1F, ..self };
                CartridgeView { current_rom_bank: s.mbc1_bank(), ..s }
            } else if address <= 0x5FFF {
                let s = CartridgeView {
                    mbc1_rom_bank_high: value & 0x03,
                    current_ram_bank: if self.mbc1_banking_mode {
                        (value & 0x03) as usize
                    } else {
                        self.current_ram_bank
                    },
                    ..self
                };
                CartridgeView { current_rom_bank: s.mbc1_bank(), ..s }
            } else if address <= 0x7FFF {
                let mode = value & 0x01 != 0;
                let s = CartridgeView {
                    mbc1_banking_mode: mode,
                    current_ram_bank: if mode {
                        self.mbc1_rom_bank_high as usize
                    } else {
                        0
                    },
                    ..self
                };
                CartridgeView { current_rom_bank: s.mbc1_bank(), ..s }
            } else {
                self
            }
        } else if self.is_mbc3() {
            if address <= 0x1FFF {
                CartridgeView { ram_enabled: value & 0x0F == 0x0A, ..self }
            } else if address <= 0x3FFF {
                let bank = (value & 0x7F) as usize;
                CartridgeView { current_rom_bank: if bank == 0 { 1 } else { bank }, ..self }
            } else if address <= 0x5FFF {
                if value <= 0x03 {
                    CartridgeView { current_ram_bank: value as usize, ..self }
                } else {
                    self
                }
            } else {
                self
            }
        } else {
            self
        }
    }
}

impl Cartridge {
    /// Loads a ROM image.
    pub fn new(rom_data: Vec<u8>) -> (c: Cartridge)
        ensures
            c@ == CartridgeView::loaded(rom_data@),
    {
        let rom_size = rom_data.len();
        let mbc_type = if rom_size >= 0x8000 {
            rom_data[0x0147]
        } else {
            0
        };
        let ram_size: usize = if rom_size > 0x0149 {
            match rom_data[0x0149] {
                0x00 => 0,
                0x01 => 0x800,
                0x02 => 0x2000,
                0x03 => 0x8000,
                0x04 => 0x20000,
                0x05 => 0x10000,
                _ => 0x2000,
            }
        } else {
            0
        };
        let rom_bank_mask: usize = match rom_size {
            0x8000 => 1,
            0x10000 => 3,
            0x20000 => 7,
            0x40000 => 15,
            0x80000 => 31,
            0x100000 => 63,
            0x200000 => 127,
            _ => 127,
        };
        let ram = vec![0u8; ram_size];
        proof {
            assert(ram@ =~= Seq::new(ram_size as nat, |i: int| 0u8));
        }
        Cartridge {
            rom: rom_data,
            rom_size,
            ram,
            ram_size,
            mbc_type,
            current_rom_bank: 1,
            current_ram_bank: 0,
            ram_enabled: false,
            mbc1_rom_bank_low: 1,
            mbc1_rom_bank_high: 0,
            mbc1_banking_mode: false,
            rom_bank_mask,
        }
    }

    /// Reads ROM: 0x0000-0x3FFF from the low-area bank, 0x4000-0x7FFF from the
    /// selected bank; 0xFF past the image's end or above 0x7FFF.
    pub fn read_rom(&self, address: u16) -> (r: u8)
        requires
            self@.rom_read_fits(address),
        ensures
            r == self@.rom_byte(address),
    {
        if address <= 0x3FFF {
            let bank: usize = if self.mbc_type >= 0x01 && self.mbc_type <= 0x03 {
                if self.mbc1_banking_mode {
                    ((self.mbc1_rom_bank_high as usize) << 5) & self.rom_bank_mask
                } else {
                    0
                }
            } else {
                0
            };
            proof {
                let h = self.mbc1_rom_bank_high as usize;
                let m = self.rom_bank_mask;
                assert((h << 5usize) & m <= 0x1FE0) by (bit_vector)
                    requires
                        h <= 0xFF,
                ;
            }
            let rom_address = bank * 0x4000 + (address as usize);
            if rom_address < self.rom.len() {
                self.rom[rom_address]
            } else {
                0xFF
            }
        } else if address <= 0x7FFF {
            let bank_offset = self.current_rom_bank * 0x4000;
            let rom_address = bank_offset + ((address - 0x4000) as usize);
            if rom_address < self.rom.len() {
                self.rom[rom_address]
            } else {
                0xFF
            }
        } else {
            0xFF
        }
    }

    /// Programs the bank controller: for MBC1, 0x0000-0x1FFF enables RAM (low
    /// nibble 0xA), 0x2000-0x3FFF sets the low bank bits, 0x4000-0x5FFF the high
    /// bits (and the RAM bank in RAM banking mode), 0x6000-0x7FFF the banking mode;
    /// for MBC3, RAM enable, a 7-bit ROM bank (0 selects 1) and RAM banks 0-3.
    pub fn write_rom(&mut self, address: u16, value: u8)
        ensures
            final(self)@ == old(self)@.after_rom_write(address, value),
    {
        reveal(CartridgeView::after_rom_write);
        if self.mbc_type >= 0x01 && self.mbc_type <= 0x03 {
            if address <= 0x1FFF {
                self.ram_enabled = (value & 0x0F) == 0x0A;
            } else if address <= 0x3FFF {
                self.mbc1_rom_bank_low = value & 0x1F;
                self.update_mbc1_rom_bank();
            } else if address <= 0x5FFF {
                self.mbc1_rom_bank_high = value & 0x03;
                if self.mbc1_banking_mode {
                    self.current_ram_bank = (value & 0x03) as usize;
                }
                self.update_mbc1_rom_bank();
            } else if address <= 0x7FFF {
                self.mbc1_banking_mode = (value & 0x01) != 0;
                if !self.mbc1_banking_mode {
                    self.current_ram_bank = 0;
                } else {
                    self.current_ram_bank = self.mbc1_rom_bank_high as usize;
                }
                self.update_mbc1_rom_bank();
            }
        } else if self.mbc_type >= 0x0F && self.mbc_type <= 0x13 {
            if address <= 0x1FFF {
                self.ram_enabled = (value & 0x0F) == 0x0A;
            } else if address <= 0x3FFF {
                let bank = (value & 0x7F) as usize;
                self.current_rom_bank = if bank == 0 {
                    1
                } else {
                    bank
                };
            } else if address <= 0x5FFF {
                if value <= 0x03 {
                    self.current_ram_bank = value as usize;
                }
            }
        }
    }

    /// Reads external RAM at offset `address` of the selected RAM bank.
    pub fn read_ram(&self, address: u16) -> (r: u8)
        requires
            self@.ram_access_fits(address),
        ensures
            r == self@.ram_byte(address),
    {
        if !self.ram_enabled {
            return 0xFF;
        }
        let ram_address = (self.current_ram_bank * 0x2000) + (address as usize);
        if ram_address < self.ram.len() {
            self.ram[ram_address]
        } else {
            0xFF
        }
    }

    /// Writes external RAM at offset `address` of the selected bank; ignored while
    /// RAM is disabled or past its end.
    pub fn write_ram(&mut self, address: u16, value: u8)
        requires
            old(self)@.ram_access_fits(address),
        ensures
            final(self)@ == old(self)@.after_ram_write(address, value),
    {
        if !self.ram_enabled {
            return;
        }
        let ram_address = (self.current_ram_bank * 0x2000) + (address as usize);
        if ram_address < self.ram.len() {
            self.ram[ram_address] = value;
        }
    }

    fn update_mbc1_rom_bank(&mut self)
        ensures
            final(self)@ == (CartridgeView { current_rom_bank: old(self)@.mbc1_bank(), ..old(self)@ }),
    {
        let mut bank = self.mbc1_rom_bank_low as usize;
        if !self.mbc1_banking_mode {
            bank = bank | ((self.mbc1_rom_bank_high as usize) << 5);
        }
        bank = bank & self.rom_bank_mask;
        if bank == 0 {
            bank = 1;
        }
        self.current_rom_bank = bank;
    }
}

/// The MBC1 bank number is at most 0x1FFF.
proof fn lemma_mbc1_bank_bound(c: CartridgeView)
    ensures
        c.mbc1_bank() <= 0x1FFF,
{
    let low = c.mbc1_rom_bank_low as usize;
    let high = c.mbc1_rom_bank_high as usize;
    let m = c.rom_bank_mask;
    assert((low | (high << 5usize)) & m <= 0x1FFF && low & m <= 0x1FFF) by (bit_vector)
        requires
            low <= 0xFF,
            high <= 0xFF,
    ;
}

/// A write to the bank controller keeps every bus access within a usize.
pub broadcast proof fn lemma_rom_write_keeps_fit(c: CartridgeView, address: u16, value: u8)
    requires
        c.banks_fit(),
    ensures
        #[trigger] c.after_rom_write(address, value).banks_fit(),
{
    reveal(CartridgeView::after_rom_write);
    lemma_mbc1_bank_bound(c);
    lemma_mbc1_bank_bound(CartridgeView { mbc1_rom_bank_low: value & 0x1F, ..c });
    lemma_mbc1_bank_bound(
        CartridgeView {
            mbc1_rom_bank_high: value & 0x03,
            current_ram_bank: if c.mbc1_banking_mode {
                (value & 0x03) as usize
            } else {
                c.current_ram_bank
            },
            ..c
        },
    );
    let mode = value & 0x01 != 0;
    lemma_mbc1_bank_bound(
        CartridgeView {
            mbc1_banking_mode: mode,
            current_ram_bank: if mode {
                c.mbc1_rom_bank_high as usize
            } else {
                0
            },
            ..c
        },
    );
}

/// On an MBC1 cartridge a bank-register write never selects bank 0 for the
/// switchable area: the bank is at least 1 and within the ROM's bank mask (which
/// is at least 1 for every loaded cartridge).
pub proof fn lemma_mbc1_bank_nonzero(c: CartridgeView, address: u16, value: u8)
    requires
        c.is_mbc1(),
        c.rom_bank_mask >= 1,
        0x2000 <= address <= 0x7FFF,
    ensures
        c.after_rom_write(address, value).current_rom_bank != 0,
        c.after_rom_write(address, value).current_rom_bank <= c.rom_bank_mask,
{
    reveal(CartridgeView::after_rom_write);
    let d = c.after_rom_write(address, value);
    let low = d.mbc1_rom_bank_low as usize;
    let bank = if !d.mbc1_banking_mode {
        low | ((d.mbc1_rom_bank_high as usize) << 5usize)
    } else {
        low
    };
    let mask = c.rom_bank_mask;
    assert(bank & mask <= mask) by (bit_vector);
}

/// With external RAM enabled, a byte written inside the RAM reads back.
pub proof fn lemma_ram_round_trip(c: CartridgeView, address: u16, value: u8)
    requires
        c.ram_enabled,
        c.current_ram_bank * 0x2000 + address < c.ram.len(),
    ensures
        c.after_ram_write(address, value).ram_byte(address) == value,
{
}

/// The external RAM size in KiB that the header's RAM size code (0x0149) names,
/// as the ROM information shows it (0 for unknown codes).
pub fn ram_size_kb(code: u8) -> (r: u32)
    ensures
        r == (if code == 1 {
            2u32
        } else if code == 2 {
            8
        } else if code == 3 {
            32
        } else if code == 4 {
            128
        } else if code == 5 {
            64
        } else {
            0
        }),
{
    match code {
        0 => 0,
        1 => 2,
        2 => 8,
        3 => 32,
        4 => 128,
        5 => 64,
        _ => 0,
    }
}

/// On an MBC3 cartridge a write of 0-3 to 0x4000-0x5FFF selects that RAM bank,
/// and the banks are separate memories: a byte written in one bank reads back
/// there and leaves the same offset of every other bank as it was.
pub proof fn lemma_mbc3_ram_banks(
    c: CartridgeView,
    address: u16,
    b1: u8,
    b2: u8,
    offset: u16,
    value: u8,
)
    requires
        c.is_mbc3(),
        c.ram_enabled,
        c.ram.len() == 0x8000,
        0x4000 <= address <= 0x5FFF,
        b1 <= 3,
        b2 <= 3,
        b1 != b2,
        offset < 0x2000,
    ensures
        c.after_rom_write(address, b1).current_ram_bank == b1,
        c.after_rom_write(address, b1).after_ram_write(offset, value).ram_byte(offset) == value,
        c.after_rom_write(address, b1).after_ram_write(offset, value).after_rom_write(
            address,
            b2,
        ).ram_byte(offset) == c.after_rom_write(address, b2).ram_byte(offset),
{
    reveal(CartridgeView::after_rom_write);
}

/// On a bank-switching cartridge (MBC1 or MBC3) a write to 0x0000-0x1FFF enables
/// external RAM exactly when the value's low nibble is 0xA; while RAM is
/// disabled it reads as 0xFF and writes to it change nothing.
pub proof fn lemma_ram_enable(c: CartridgeView, address: u16, value: u8, offset: u16, byte: u8)
    requires
        c.is_mbc1() || c.is_mbc3(),
        address <= 0x1FFF,
    ensures
        c.after_rom_write(address, value).ram_enabled == (value & 0x0F == 0x0A),
        c.after_rom_write(address, value).ram == c.ram,
        value & 0x0F != 0x0A ==> c.after_rom_write(address, value).ram_byte(offset) == 0xFF,
        value & 0x0F != 0x0A ==> c.after_rom_write(address, value).after_ram_write(offset, byte)
            == c.after_rom_write(address, value),
{
    reveal(CartridgeView::after_rom_write);
}

/// On an MBC3 cartridge a write of `value` to 0x2000-0x3FFF maps ROM bank
/// `value & 0x7F` (bank 1 for 0) at 0x4000-0x7FFF, and 0x0000-0x3FFF keeps
/// showing bank 0.
pub proof fn lemma_mbc3_rom_bank(c: CartridgeView, address: u16, value: u8, offset: u16)
    requires
        c.is_mbc3(),
        0x2000 <= address <= 0x3FFF,
        offset < 0x4000,
    ensures
        ({
            let bank: int = if value & 0x7F == 0 { 1 } else { (value & 0x7F) as int };
            let d = c.after_rom_write(address, value);
            &&& d.current_rom_bank == bank
            &&& d.rom_byte((0x4000 + offset) as u16) == byte_or_ff(c.rom, bank * 0x4000 + offset)
            &&& d.rom_byte(offset) == byte_or_ff(c.rom, offset as int)
        }),
{
    reveal(CartridgeView::after_rom_write);
}

/// On an MBC1 cartridge in RAM banking mode (1 written to 0x6000-0x7FFF) a write
/// of `value` to 0x4000-0x5FFF selects RAM bank `value & 3`; in ROM banking mode
/// RAM bank 0 stays selected.
pub proof fn lemma_mbc1_ram_bank(c: CartridgeView, mode_address: u16, address: u16, value: u8)
    requires
        c.is_mbc1(),
        0x6000 <= mode_address <= 0x7FFF,
        0x4000 <= address <= 0x5FFF,
    ensures
        c.after_rom_write(mode_address, 1).after_rom_write(address, value).current_ram_bank == (
        value & 3) as usize,
        c.after_rom_write(mode_address, 0).after_rom_write(address, value).current_ram_bank == 0,
{
    reveal(CartridgeView::after_rom_write);
    assert(1u8 & 0x01 != 0 && 0u8 & 0x01 == 0) by (bit_vector);
}

} // verus!
