//! The memory bus: the 64 KiB address space and what each region maps to.
use vstd::prelude::*;
use crate::cartridge::{Cartridge, CartridgeView};
use crate::joypad::{Joypad, JoypadButton, JoypadState};
use crate::ppu::{PPU, PPUView};
use crate::timer::Timer;

verus! {

/// The DMG boot ROM as shipped (256 bytes, mapped at 0x0000-0x00FF at power-on).
pub const DMG_BOOT_ROM: [u8; 256] = [
    0x31, 0xFE, 0xFF, 0xAF, 0x21, 0xFF, 0x9F, 0x32, 0xCB, 0x7C, 0x20, 0xFB, 0x21, 0x26, 0xFF, 0x0E,
    0x11, 0x3E, 0x80, 0x32, 0xE2, 0x0C, 0x3E, 0xF3, 0xE2, 0x32, 0x3E, 0x77, 0x77, 0x3E, 0xFC, 0xE0,
    0x47, 0x11, 0x04, 0x01, 0x21, 0x10, 0x80, 0x1A, 0xCD, 0x95, 0x00, 0xCD, 0x96, 0x00, 0x13, 0x7B,
    0xFE, 0x34, 0x20, 0xF3, 0x11, 0xD8, 0x00, 0x06, 0x08, 0x1A, 0x13, 0x22, 0x23, 0x05, 0x20, 0xF9,
    0x3E, 0x19, 0xEA, 0x10, 0x99, 0x21, 0x2F, 0x99, 0x0E, 0x0C, 0x3D, 0x28, 0x08, 0x32, 0x0D, 0x20,
    0xF9, 0x2E, 0x0F, 0x18, 0xF3, 0x67, 0x3E, 0x64, 0x57, 0xE0, 0x42, 0x3E, 0x91, 0xE0, 0x40, 0x04,
    0x1E, 0x02, 0x0E, 0x0C, 0xF0, 0x44, 0xFE, 0x90, 0x20, 0xFA, 0x0D, 0x20, 0xF7, 0x1D, 0x20, 0xF2,
    0x0E, 0x13, 0x24, 0x7C, 0x1E, 0x83, 0xFE, 0x62, 0x28, 0x06, 0x1E, 0xC1, 0xFE, 0x64, 0x20, 0x06,
    0x7B, 0xE2, 0x0C, 0x3E, 0x87, 0xE2, 0xF0, 0x42, 0x90, 0xE0, 0x42, 0x15, 0x20, 0xD2, 0x05, 0x20,
    0x4F, 0x16, 0x20, 0x18, 0xCB, 0x4F, 0x06, 0x04, 0xC5, 0xCB, 0x11, 0x17, 0xC1, 0xCB, 0x11, 0x17,
    0x05, 0x20, 0xF5, 0x22, 0x23, 0x22, 0x23, 0xC9, 0xCE, 0xED, 0x66, 0x66, 0xCC, 0x0D, 0x00, 0x0B,
    0x03, 0x73, 0x00, 0x83, 0x00, 0x0C, 0x00, 0x0D, 0x00, 0x08, 0x11, 0x1F, 0x88, 0x89, 0x00, 0x0E,
    0xDC, 0xCC, 0x6E, 0xE6, 0xDD, 0xDD, 0xD9, 0x99, 0xBB, 0xBB, 0x67, 0x63, 0x6E, 0x0E, 0xEC, 0xCC,
    0xDD, 0xDC, 0x99, 0x9F, 0xBB, 0xB9, 0x33, 0x3E, 0x3C, 0x42, 0xB9, 0xA5, 0xB9, 0xA5, 0x42, 0x3C,
    0x21, 0x04, 0x01, 0x11, 0xA8, 0x00, 0x1A, 0x13, 0xBE, 0x00, 0x00, 0x23, 0x7D, 0xFE, 0x34, 0x20,
    0xF5, 0x06, 0x19, 0x78, 0x86, 0x23, 0x05, 0x20, 0xFB, 0x86, 0x20, 0xFE, 0x3E, 0x01, 0xE0, 0x50,
];

/// The Nintendo logo as twelve 2bpp tiles of 16 bytes each, in tile order.
pub const NINTENDO_LOGO_TILES: [u8; 192] = [
    0xCE, 0x00, 0xED, 0x00, 0x66, 0x00, 0x66, 0x00, 0xCC, 0x00, 0x0D, 0x00, 0x00, 0x00, 0x0B, 0x00,
    0x03, 0x00, 0x73, 0x00, 0x00, 0x00, 0x83, 0x00, 0x00, 0x00, 0x0C, 0x00, 0x00, 0x00, 0x0D, 0x00,
    0x00, 0x00, 0x08, 0x00, 0x11, 0x00, 0x1F, 0x00, 0x88, 0x00, 0x89, 0x00, 0x00, 0x00, 0x0E, 0x00,
    0xDC, 0x00, 0xCC, 0x00, 0x6E, 0x00, 0xE6, 0x00, 0xDD, 0x00, 0xDD, 0x00, 0xD9, 0x00, 0x99, 0x00,
    0xBB, 0x00, 0xBB, 0x00, 0x67, 0x00, 0x63, 0x00, 0x6E, 0x00, 0x0E, 0x00, 0xEC, 0x00, 0xCC, 0x00,
    0xDD, 0x00, 0xDC, 0x00, 0x99, 0x00, 0x9F, 0x00, 0xBB, 0x00, 0xB9, 0x00, 0x33, 0x00, 0x3E, 0x00,
    0x3C, 0x00, 0x42, 0x00, 0xB9, 0x00, 0xA5, 0x00, 0xB9, 0x00, 0xA5, 0x00, 0x42, 0x00, 0x3C, 0x00,
    0x21, 0x00, 0x04, 0x00, 0x01, 0x00, 0x11, 0x00, 0xA8, 0x00, 0x00, 0x00, 0x1A, 0x00, 0x13, 0x00,
    0xBE, 0x00, 0x00, 0x00, 0x00, 0x00, 0x23, 0x00, 0x7D, 0x00, 0xFE, 0x00, 0x34, 0x00, 0x20, 0x00,
    0xF5, 0x00, 0x06, 0x00, 0x19, 0x00, 0x78, 0x00, 0x86, 0x00, 0x23, 0x00, 0x05, 0x00, 0x20, 0x00,
    0xFB, 0x00, 0x86, 0x00, 0x20, 0x00, 0xFE, 0x00, 0x3E, 0x00, 0x01, 0x00, 0xE0, 0x00, 0x50, 0x00,
    0x00, 0x00, 0x00, 0x00, 0x00, 0x00, 0x00, 0x00, 0x00, 0x00, 0x00, 0x00, 0x00, 0x00, 0x00, 0x00,
];

/// The boot ROM that is mapped: the shipped one with its two waits on the logo
/// check (the `JR NZ, -2` at 0x00E9 and 0x00FA) replaced by NOPs.
pub open spec fn boot_rom_image() -> Seq<u8> {
    DMG_BOOT_ROM@.update(0xE9, 0).update(0xEA, 0).update(0xFA, 0).update(0xFB, 0)
}

/// The tile-map entry that the logo puts at VRAM offset `i`: tiles 0-11 in a
/// 4x3 grid whose top-left corner is at map position (6, 2) of the map at 0x9800.
pub open spec fn logo_map_entry(i: int) -> Option<u8> {
    let off = i - 0x1800;
    if 0 <= off < 0x400 && 2 <= off / 32 < 5 && 6 <= off % 32 < 10 {
        Some(((off / 32 - 2) * 4 + (off % 32 - 6)) as u8)
    } else {
        None
    }
}

/// VRAM at power-on: the logo tiles from 0x8000 and their map entries.
pub open spec fn power_on_vram() -> Seq<u8> {
    Seq::new(
        0x2000,
        |i: int|
            if i < 192 {
                NINTENDO_LOGO_TILES@[i]
            } else {
                match logo_map_entry(i) {
                    Some(t) => t,
                    None => 0,
                }
            },
    )
}

/// The memory bus and the devices behind it.
pub struct MemoryBus {
    pub memory: [u8; 0x10000],
    pub cartridge: Option<Cartridge>,
    pub ppu: PPU,
    pub timer: Timer,
    pub joypad: Joypad,
    pub boot_rom_enabled: bool,
    pub ie_register: u8,
    pub if_register: u8,
}

/// The state of the bus, with its memories as sequences.
pub struct BusView {
    pub memory: Seq<u8>,
    pub cartridge: Option<CartridgeView>,
    pub ppu: PPUView,
    pub timer: Timer,
    pub joypad: Joypad,
    pub boot_rom_enabled: bool,
    pub ie_register: u8,
    pub if_register: u8,
}

impl View for MemoryBus {
    type V = BusView;

    open spec fn view(&self) -> BusView {
        BusView {
            memory: self.memory@,
            cartridge: match self.cartridge {
                Some(c) => Some(c@),
                None => None,
            },
            ppu: self.ppu@,
            timer: self.timer,
            joypad: self.joypad,
            boot_rom_enabled: self.boot_rom_enabled,
            ie_register: self.ie_register,
            if_register: self.if_register,
        }
    }
}

impl BusView {
    /// The bus at power-on: boot ROM mapped and copied to 0x0000-0x00FF, the rest
    /// of memory zero, the logo in VRAM, no cartridge, no interrupt enabled or
    /// requested.
    pub open spec fn power_on() -> BusView {
        BusView {
            memory: Seq::new(0x10000, |i: int| if i < 256 { boot_rom_image()[i] } else { 0u8 }),
            cartridge: None,
            ppu: PPUView { vram: power_on_vram(), ..PPUView::power_on() },
            timer: Timer {
                div_counter: 0,
                div_register: 0,
                tima: 0,
                tma: 0,
                tac: 0,
                timer_counter: 0,
                timer_overflow: false,
            },
            joypad: Joypad {
                state: JoypadState::released(),
                select_buttons: true,
                select_dpad: true,
                interrupt_requested: false,
            },
            boot_rom_enabled: true,
            ie_register: 0,
            if_register: 0,
        }
    }

    /// No panic in a read of `address`: the cartridge offset it computes fits.
    pub open spec fn read_fits(self, address: u16) -> bool {
        match self.cartridge {
            None => true,
            Some(c) => {
                &&& (address <= 0x7FFF && !(address <= 0xFF && self.boot_rom_enabled))
                    ==> c.rom_read_fits(address)
                &&& (0xA000 <= address <= 0xBFFF) ==> c.ram_access_fits((address - 0xA000) as u16)
            },
        }
    }

    /// No panic in a write to `address`: the cartridge RAM offset it computes fits.
    pub open spec fn write_fits(self, address: u16) -> bool {
        match self.cartridge {
            None => true,
            Some(c) => (0xA000 <= address <= 0xBFFF) ==> c.ram_access_fits(
                (address - 0xA000) as u16,
            ),
        }
    }

    /// Every cartridge access through the bus fits a usize.
    pub open spec fn cart_fits(self) -> bool {
        match self.cartridge {
            None => true,
            Some(c) => c.banks_fit(),
        }
    }

    /// What a read of `address` gives. The boot ROM shadows 0x0000-0x00FF while
    /// it is mapped; without a cartridge the ROM area reads the bus's own memory
    /// and external RAM reads 0xFF; 0xFEA0-0xFEFF reads 0; IF reads with its top
    /// three bits set; 0xFF50 reads 0xFF.
    #[verifier::opaque]
    pub open spec fn read(self, address: u16) -> u8 {
        if address <= 0x7FFF {
            if address <= 0x00FF && self.boot_rom_enabled {
                self.memory[address as int]
            } else {
                match self.cartridge {
                    Some(c) => c.rom_byte(address),
                    None => self.memory[address as int],
                }
            }
        } else if address <= 0x9FFF {
            self.ppu.vram[address - 0x8000]
        } else if address <= 0xBFFF {
            match self.cartridge {
                Some(c) => c.ram_byte((address - 0xA000) as u16),
                None => 0xFF,
            }
        } else if address <= 0xFDFF {
            self.memory[address as int]
        } else if address <= 0xFE9F {
            self.ppu.oam[address - 0xFE00]
        } else if address <= 0xFEFF {
            0
        } else if address == 0xFF00 {
            self.joypad.register_value()
        } else if 0xFF04 <= address <= 0xFF07 {
            self.timer.register_value(address)
        } else if address == 0xFF0F {
            self.if_register | 0xE0
        } else if 0xFF40 <= address <= 0xFF4B {
            self.ppu.register_value(address)
        } else if address == 0xFF50 {
            0xFF
        } else if address <= 0xFFFE {
            self.memory[address as int]
        } else {
            self.ie_register
        }
    }

    /// The bus after a write of `value` to `address`. Writes to ROM program the
    /// cartridge's bank controller; IF keeps the low five bits; a non-zero write to
    /// 0xFF50 unmaps the boot ROM for good.
    #[verifier::opaque]
    pub open spec fn write(self, address: u16, value: u8) -> BusView {
        if address <= 0x7FFF {
            match self.cartridge {
                Some(c) => BusView { cartridge: Some(c.after_rom_write(address, value)), ..self },
                None => self,
            }
        } else if address <= 0x9FFF {
            BusView {
                ppu: PPUView { vram: self.ppu.vram.update(address - 0x8000, value), ..self.ppu },
                ..self
            }
        } else if address <= 0xBFFF {
            match self.cartridge {
                Some(c) => BusView {
                    cartridge: Some(c.after_ram_write((address - 0xA000) as u16, value)),
                    ..self
                },
                None => self,
            }
        } else if address <= 0xFDFF {
            BusView { memory: self.memory.update(address as int, value), ..self }
        } else if address <= 0xFE9F {
            BusView {
                ppu: PPUView { oam: self.ppu.oam.update(address - 0xFE00, value), ..self.ppu },
                ..self
            }
        } else if address <= 0xFEFF {
            self
        } else if address == 0xFF00 {
            BusView { joypad: self.joypad.after_write(value), ..self }
        } else if 0xFF04 <= address <= 0xFF07 {
            BusView { timer: self.timer.after_write(address, value), ..self }
        } else if address == 0xFF0F {
            BusView { if_register: value & 0x1F, ..self }
        } else if 0xFF40 <= address <= 0xFF4B {
            BusView { ppu: self.ppu.after_register_write(address, value), ..self }
        } else if address == 0xFF50 {
            BusView { boot_rom_enabled: self.boot_rom_enabled && value == 0, ..self }
        } else if address <= 0xFFFE {
            BusView { memory: self.memory.update(address as int, value), ..self }
        } else {
            BusView { ie_register: value, ..self }
        }
    }

    /// The bus after its devices run for `cycles` cycles: the PPU and timer step,
    /// the joypad's pending press and the PPU's interrupt requests are taken.
    pub open spec fn stepped(self, cycles: u32) -> BusView {
        BusView {
            ppu: PPUView {
                vblank_interrupt: false,
                stat_interrupt: false,
                ..self.ppu.stepped(cycles)
            },
            timer: self.timer.stepped(cycles),
            joypad: self.joypad.cleared(),
            ..self
        }
    }

    /// The interrupts that a step of `cycles` reports: V-blank, STAT, timer and
    /// joypad, each true when requested.
    pub open spec fn step_interrupts(self, cycles: u32) -> (bool, bool, bool, bool) {
        let p = self.ppu.stepped(cycles);
        (
            p.vblank_interrupt,
            p.stat_interrupt,
            self.timer.step_interrupt(cycles),
            self.joypad.interrupt_requested,
        )
    }
}

impl MemoryBus {
    /// A bus at power-on, with the boot ROM and the logo loaded.
    pub fn new() -> (bus: MemoryBus)
        ensures
            bus@ == BusView::power_on(),
    {
        let mut bus = MemoryBus {
            memory: [0u8; 0x10000],
            cartridge: None,
            ppu: PPU::new(),
            timer: Timer::new(),
            joypad: Joypad::new(),
            boot_rom_enabled: true,
            ie_register: 0x00,
            if_register: 0x00,
        };
        proof {
            assert(bus.memory@ =~= Seq::new(0x10000, |i: int| 0u8));
        }
        bus.load_boot_rom();
        bus
    }

    fn load_boot_rom(&mut self)
        requires
            old(self).memory@ == Seq::new(0x10000, |i: int| 0u8),
            old(self).ppu@ == PPUView::power_on(),
        ensures
            final(self)@ == (BusView {
                memory: Seq::new(
                    0x10000,
                    |i: int| if i < 256 { boot_rom_image()[i] } else { 0u8 },
                ),
                ppu: PPUView { vram: power_on_vram(), ..old(self)@.ppu },
                ..old(self)@
            }),
    {
        let ghost v0 = self@;
        let mut boot_rom: [u8; 256] = DMG_BOOT_ROM;
        boot_rom[0xE9] = 0x00;
        boot_rom[0xEA] = 0x00;
        boot_rom[0xFA] = 0x00;
        boot_rom[0xFB] = 0x00;
        assert(boot_rom@ =~= boot_rom_image());
        let mut i: usize = 0;
        while i < 256
            invariant
                i <= 256,
                boot_rom@ == boot_rom_image(),
                self@ == (BusView { memory: self@.memory, ..v0 }),
                self@.memory.len() == 0x10000,
                forall|j: int|
                    0 <= j < 0x10000 ==> #[trigger] self@.memory[j] == if j < i {
                        boot_rom_image()[j]
                    } else {
                        0u8
                    },
                v0.memory == Seq::new(0x10000, |i: int| 0u8),
            decreases 256 - i,
        {
            self.memory[i] = boot_rom[i];
            i = i + 1;
        }
        assert(self@.memory =~= Seq::new(
            0x10000,
            |i: int| if i < 256 { boot_rom_image()[i] } else { 0u8 },
        ));
        self.load_nintendo_logo_tiles();
        assert(self@ =~= (BusView {
            memory: Seq::new(0x10000, |i: int| if i < 256 { boot_rom_image()[i] } else { 0u8 }),
            ppu: PPUView { vram: power_on_vram(), ..v0.ppu },
            ..v0
        }));
    }

    fn load_nintendo_logo_tiles(&mut self)
        requires
            old(self).ppu@.vram == Seq::new(0x2000, |i: int| 0u8),
        ensures
            final(self)@ == (BusView {
                ppu: PPUView { vram: power_on_vram(), ..old(self)@.ppu },
                ..old(self)@
            }),
    {
        let ghost v0 = self@;
        let mut i: usize = 0;
        while i < 192
            invariant
                i <= 192,
                self@ == (BusView { ppu: PPUView { vram: self@.ppu.vram, ..v0.ppu }, ..v0 }),
                self@.ppu.vram.len() == 0x2000,
                forall|j: int|
                    0 <= j < 0x2000 ==> #[trigger] self@.ppu.vram[j] == if j < i {
                        NINTENDO_LOGO_TILES@[j]
                    } else {
                        0u8
                    },
            decreases 192 - i,
        {
            self.ppu.vram[i] = NINTENDO_LOGO_TILES[i];
            i = i + 1;
        }
        let mut row: usize = 0;
        while row < 3
            invariant
                row <= 3,
                self@ == (BusView { ppu: PPUView { vram: self@.ppu.vram, ..v0.ppu }, ..v0 }),
                self@.ppu.vram.len() == 0x2000,
                forall|j: int|
                    0 <= j < 0x2000 ==> #[trigger] self@.ppu.vram[j] == if j < 192 {
                        NINTENDO_LOGO_TILES@[j]
                    } else if j < 0x1800 + (2 + row) * 32 {
                        match logo_map_entry(j) {
                            Some(t) => t,
                            None => 0u8,
                        }
                    } else {
                        0u8
                    },
            decreases 3 - row,
        {
            let mut col: usize = 0;
            while col < 4
                invariant
                    row < 3,
                    col <= 4,
                    self@ == (BusView { ppu: PPUView { vram: self@.ppu.vram, ..v0.ppu }, ..v0 }),
                    self@.ppu.vram.len() == 0x2000,
                    forall|j: int|
                        0 <= j < 0x2000 ==> #[trigger] self@.ppu.vram[j] == if j < 192 {
                            NINTENDO_LOGO_TILES@[j]
                        } else if j < 0x1800 + (2 + row) * 32 + 6 + col {
                            match logo_map_entry(j) {
                                Some(t) => t,
                                None => 0u8,
                            }
                        } else {
                            0u8
                        },
                decreases 4 - col,
            {
                let tile_id = (row * 4 + col) as u8;
                let tile_map_address = 0x1800 + ((2 + row) * 32) + (6 + col);
                proof {
                    assert(logo_map_entry(tile_map_address as int) == Some(tile_id));
                }
                self.ppu.vram[tile_map_address] = tile_id;
                col = col + 1;
            }
            row = row + 1;
        }
        assert(self@.ppu.vram =~= power_on_vram());
        assert(self@ =~= (BusView { ppu: PPUView { vram: power_on_vram(), ..v0.ppu }, ..v0 }));
    }

    /// Inserts a cartridge; the boot ROM stays mapped until it unmaps itself.
    pub fn load_cartridge(&mut self, rom_data: Vec<u8>)
        ensures
            final(self)@ == (BusView {
                cartridge: Some(CartridgeView::loaded(rom_data@)),
                ..old(self)@
            }),
    {
        let cartridge = Cartridge::new(rom_data);
        self.cartridge = Some(cartridge);
    }

    /// Reads the byte at `address`.
    pub fn read_byte(&self, address: u16) -> (r: u8)
        requires
            self@.read_fits(address),
        ensures
            r == self@.read(address),
    {
        reveal(BusView::read);
        if address <= 0x7FFF {
            if address <= 0x00FF && self.boot_rom_enabled {
                self.memory[address as usize]
            } else {
                match &self.cartridge {
                    Some(cartridge) => cartridge.read_rom(address),
                    None => self.memory[address as usize],
                }
            }
        } else if address <= 0x9FFF {
            self.ppu.vram[(address - 0x8000) as usize]
        } else if address <= 0xBFFF {
            match &self.cartridge {
                Some(cartridge) => cartridge.read_ram(address - 0xA000),
                None => 0xFF,
            }
        } else if address <= 0xFDFF {
            self.memory[address as usize]
        } else if address <= 0xFE9F {
            self.ppu.oam[(address - 0xFE00) as usize]
        } else if address <= 0xFEFF {
            0x00
        } else if address == 0xFF00 {
            self.joypad.read_register()
        } else if 0xFF04 <= address && address <= 0xFF07 {
            self.timer.read_register(address)
        } else if address == 0xFF0F {
            self.if_register | 0xE0
        } else if 0xFF40 <= address && address <= 0xFF4B {
            self.ppu.read_register(address)
        } else if address == 0xFF50 {
            0xFF
        } else if address <= 0xFFFE {
            self.memory[address as usize]
        } else {
            self.ie_register
        }
    }

    /// Writes `value` to `address`.
    pub fn write_byte(&mut self, address: u16, value: u8)
        requires
            old(self)@.write_fits(address),
        ensures
            final(self)@ == old(self)@.write(address, value),
    {
        if address <= 0x7FFF {
            self.write_cartridge_rom(address, value);
        } else if address <= 0x9FFF {
            self.write_vram(address, value);
        } else if address <= 0xBFFF {
            self.write_cartridge_ram(address, value);
        } else if address <= 0xFDFF {
            self.write_memory(address, value);
        } else if address <= 0xFE9F {
            self.write_oam(address, value);
        } else if address <= 0xFEFF {
            self.write_unusable(address, value);
        } else if address == 0xFF00 {
            self.write_joypad(address, value);
        } else if 0xFF04 <= address && address <= 0xFF07 {
            self.write_timer(address, value);
        } else if address == 0xFF0F {
            self.write_interrupt_flags(address, value);
        } else if 0xFF40 <= address && address <= 0xFF4B {
            self.write_video_register(address, value);
        } else if address == 0xFF50 {
            self.write_boot_rom_disable(address, value);
        } else if address <= 0xFFFE {
            self.write_memory(address, value);
        } else {
            self.write_interrupt_enable(address, value);
        }
    }

    /// Programs the cartridge bank controller.
    fn write_cartridge_rom(&mut self, address: u16, value: u8)
        requires
            address <= 0x7FFF,
        ensures
            final(self)@ == old(self)@.write(address, value),
    {
        reveal(BusView::write);
        match &mut self.cartridge {
            Some(cartridge) => cartridge.write_rom(address, value),
            None => {},
        }
    }

    /// Writes video RAM.
    fn write_vram(&mut self, address: u16, value: u8)
        requires
            0x8000 <= address <= 0x9FFF,
        ensures
            final(self)@ == old(self)@.write(address, value),
    {
        reveal(BusView::write);
        self.ppu.vram[(address - 0x8000) as usize] = value;
    }

    /// Writes cartridge RAM.
    fn write_cartridge_ram(&mut self, address: u16, value: u8)
        requires
            0xA000 <= address <= 0xBFFF,
            old(self)@.write_fits(address),
        ensures
            final(self)@ == old(self)@.write(address, value),
    {
        reveal(BusView::write);
        match &mut self.cartridge {
            Some(cartridge) => cartridge.write_ram(address - 0xA000, value),
            None => {},
        }
    }

    /// Writes work RAM, unmapped I/O space or high RAM.
    fn write_memory(&mut self, address: u16, value: u8)
        requires
            (0xC000 <= address <= 0xFDFF) || (0xFF01 <= address <= 0xFFFE && !(0xFF04 <= address <= 0xFF07) && address != 0xFF0F && !(0xFF40 <= address <= 0xFF4B) && address != 0xFF50),
        ensures
            final(self)@ == old(self)@.write(address, value),
    {
        reveal(BusView::write);
        self.memory[address as usize] = value;
    }

    /// Writes object attribute memory.
    fn write_oam(&mut self, address: u16, value: u8)
        requires
            0xFE00 <= address <= 0xFE9F,
        ensures
            final(self)@ == old(self)@.write(address, value),
    {
        reveal(BusView::write);
        self.ppu.oam[(address - 0xFE00) as usize] = value;
    }

    /// Ignores a write to 0xFEA0-0xFEFF.
    fn write_unusable(&mut self, address: u16, value: u8)
        requires
            0xFEA0 <= address <= 0xFEFF,
        ensures
            final(self)@ == old(self)@.write(address, value),
    {
        reveal(BusView::write);
        
    }

    /// Writes the joypad register.
    fn write_joypad(&mut self, address: u16, value: u8)
        requires
            address == 0xFF00,
        ensures
            final(self)@ == old(self)@.write(address, value),
    {
        reveal(BusView::write);
        self.joypad.write_register(value);
    }

    /// Writes a timer register.
    fn write_timer(&mut self, address: u16, value: u8)
        requires
            0xFF04 <= address <= 0xFF07,
        ensures
            final(self)@ == old(self)@.write(address, value),
    {
        reveal(BusView::write);
        self.timer.write_register(address, value);
    }

    /// Writes IF.
    fn write_interrupt_flags(&mut self, address: u16, value: u8)
        requires
            address == 0xFF0F,
        ensures
            final(self)@ == old(self)@.write(address, value),
    {
        reveal(BusView::write);
        self.if_register = value & 0x1F;
    }

    /// Writes a video register.
    fn write_video_register(&mut self, address: u16, value: u8)
        requires
            0xFF40 <= address <= 0xFF4B,
        ensures
            final(self)@ == old(self)@.write(address, value),
    {
        reveal(BusView::write);
        self.ppu.write_register(address, value);
    }

    /// Unmaps the boot ROM on a non-zero write.
    fn write_boot_rom_disable(&mut self, address: u16, value: u8)
        requires
            address == 0xFF50,
        ensures
            final(self)@ == old(self)@.write(address, value),
    {
        reveal(BusView::write);
        if value != 0 && self.boot_rom_enabled {
            self.boot_rom_enabled = false;
        }
    }

    /// Writes IE.
    fn write_interrupt_enable(&mut self, address: u16, value: u8)
        requires
            address == 0xFFFF,
        ensures
            final(self)@ == old(self)@.write(address, value),
    {
        reveal(BusView::write);
        self.ie_register = value;
    }

    /// Runs the PPU and the timer for `cycles` cycles and collects the interrupt
    /// requests: (V-blank, STAT, timer, joypad).
    pub fn step(&mut self, cycles: u32) -> (r: (bool, bool, bool, bool))
        requires
            old(self)@.ppu.step_ok(cycles),
        ensures
            final(self)@ == old(self)@.stepped(cycles),
            r == old(self)@.step_interrupts(cycles),
    {
        let ghost v0 = self@;
        self.ppu.step(cycles);
        let timer_interrupt = self.timer.step(cycles);
        let joypad_interrupt = self.joypad.check_and_clear_interrupt();
        let vblank_interrupt = self.ppu.vblank_interrupt;
        let stat_interrupt = self.ppu.stat_interrupt;
        self.ppu.clear_interrupts();
        assert(self@ =~= v0.stepped(cycles));
        (vblank_interrupt, stat_interrupt, timer_interrupt, joypad_interrupt)
    }

    /// Holds `button` down.
    pub fn press_button(&mut self, button: JoypadButton)
        ensures
            final(self)@ == (BusView { joypad: old(self)@.joypad.after_button(button, true), ..old(self)@ }),
    {
        self.joypad.update_button(button, true);
    }

    /// Lets `button` go.
    pub fn release_button(&mut self, button: JoypadButton)
        ensures
            final(self)@ == (BusView { joypad: old(self)@.joypad.after_button(button, false), ..old(self)@ }),
    {
        self.joypad.update_button(button, false);
    }

    /// Which buttons are held.
    pub fn get_joypad_state(&self) -> (r: JoypadState)
        ensures
            r == self.joypad.state,
    {
        self.joypad.state
    }
}

/// With the cartridge's banks in range, every read and write fits.
pub broadcast proof fn lemma_fits(b: BusView, address: u16)
    requires
        b.cart_fits(),
    ensures
        #[trigger] b.read_fits(address),
        b.write_fits(address),
{
}

/// A write keeps the cartridge's banks in range and the PPU's timing unchanged.
pub broadcast proof fn lemma_write_keeps(b: BusView, address: u16, value: u8)
    ensures
        b.cart_fits() ==> (#[trigger] b.write(address, value)).cart_fits(),
        b.write(address, value).ppu.ly == b.ppu.ly,
        b.write(address, value).ppu.stat.mode == b.ppu.stat.mode,
        b.write(address, value).ppu.mode_clock == b.ppu.mode_clock,
{
    reveal(BusView::write);
    match b.cartridge {
        Some(c) => {
            if b.cart_fits() {
                crate::cartridge::lemma_rom_write_keeps_fit(c, address, value);
            }
        },
        None => {},
    }
    crate::ppu::lemma_register_write_timing(b.ppu, address, value);
}

/// Whether `address` is plain memory on the bus: video RAM, work RAM (with its
/// echo), OAM or high RAM.
pub open spec fn is_ram(address: u16) -> bool {
    ||| 0x8000 <= address <= 0x9FFF
    ||| 0xC000 <= address <= 0xFDFF
    ||| 0xFE00 <= address <= 0xFE9F
    ||| 0xFF80 <= address <= 0xFFFE
}

/// A byte written to plain memory reads back, and a write leaves every other
/// plain-memory address as it was.
pub proof fn lemma_read_after_write(b: BusView, address: u16, value: u8, other: u16)
    requires
        b.memory.len() == 0x10000,
        b.ppu.vram.len() == 0x2000,
        b.ppu.oam.len() == 0xA0,
        is_ram(address),
    ensures
        b.write(address, value).read(address) == value,
        is_ram(other) && other != address ==> b.write(address, value).read(other) == b.read(other),
{
    reveal(BusView::read);
    reveal(BusView::write);
}

/// IE (0xFFFF) reads back what was written to it.
pub proof fn lemma_ie_round_trip(b: BusView, value: u8)
    ensures
        b.write(0xFFFF, value).read(0xFFFF) == value,
{
    reveal(BusView::read);
    reveal(BusView::write);
}

} // verus!
