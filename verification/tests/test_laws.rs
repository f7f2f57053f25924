use dmg_01::cartridge::{ram_size_kb, Cartridge};
use dmg_01::cpu::CPU;
use dmg_01::gameboy::GameBoy;
use dmg_01::instructions::{
    ArithmeticTarget, BitTarget, IncDecTarget, Instruction, JumpCondition, LDHTarget, LoadTarget,
    StackTarget, WideTarget,
};
use dmg_01::joypad::{Joypad, JoypadButton};
use dmg_01::memory::MemoryBus;
use dmg_01::ppu::{framebuffer_rgba, Color, Palette, PPUMode, PPU};
use dmg_01::registers::{FlagsRegister, Registers};
use dmg_01::timer::Timer;

#[test]
fn test_register_pairs_round_trip() {
    let mut r = Registers::new();
    for v in [0x0000u16, 0x0001, 0x1234, 0xABCD, 0xFFFF] {
        r.set_bc(v);
        assert_eq!(r.get_bc(), v);
        r.set_de(v);
        assert_eq!(r.get_de(), v);
        r.set_hl(v);
        assert_eq!(r.get_hl(), v);
        r.set_af(v);
        assert_eq!(r.get_af(), v & 0xFFF0);
    }
}

#[test]
fn test_flags_byte_round_trip() {
    for b in 0..=255u8 {
        assert_eq!(u8::from(FlagsRegister::from(b)), b & 0xF0);
    }
    let f = FlagsRegister { zero: false, subtract: true, half_carry: false, carry: true };
    let back = FlagsRegister::from(u8::from(f));
    assert!(!back.zero && back.subtract && !back.half_carry && back.carry);
}

#[test]
fn test_memory_read_after_write_regions() {
    let mut bus = MemoryBus::new();
    for (addr, v) in [(0x8000u16, 0x11u8), (0x9FFF, 0x22), (0xC123, 0x33), (0xFDFF, 0x44),
        (0xFE00, 0x55), (0xFE9F, 0x66), (0xFF80, 0x77), (0xFFFE, 0x88)] {
        bus.write_byte(addr, v);
        assert_eq!(bus.read_byte(addr), v);
    }
    // Other addresses keep their values.
    assert_eq!(bus.read_byte(0x8000), 0x11);
    assert_eq!(bus.read_byte(0xC123), 0x33);
    bus.write_byte(0xFFFF, 0x1F);
    assert_eq!(bus.read_byte(0xFFFF), 0x1F);
}

#[test]
fn test_memory_special_reads() {
    let mut bus = MemoryBus::new();
    assert_eq!(bus.read_byte(0xFEA0), 0x00);
    assert_eq!(bus.read_byte(0xFF50), 0xFF);
    bus.write_byte(0xFF0F, 0xFF);
    assert_eq!(bus.read_byte(0xFF0F), 0xFF);
    bus.write_byte(0xFF0F, 0x01);
    assert_eq!(bus.read_byte(0xFF0F), 0xE1);
    // No cartridge: external RAM reads 0xFF, the ROM area reads the bus memory.
    assert_eq!(bus.read_byte(0xA000), 0xFF);
    bus.memory[0x0200] = 0x5A;
    assert_eq!(bus.read_byte(0x0200), 0x5A);
}

#[test]
fn test_boot_rom_unmapped_for_good() {
    let mut bus = MemoryBus::new();
    let mut rom = vec![0u8; 0x8000];
    rom[0x0000] = 0xAB;
    bus.load_cartridge(rom);
    assert_eq!(bus.read_byte(0x0000), 0x31);
    bus.write_byte(0xFF50, 0x01);
    assert_eq!(bus.read_byte(0x0000), 0xAB);
    bus.write_byte(0xFF50, 0x00);
    assert_eq!(bus.read_byte(0x0000), 0xAB);
}

#[test]
fn test_push_pop_round_trip() {
    let mut cpu = CPU::new();
    cpu.sp = 0xD000;
    cpu.registers.set_de(0xBEEF);
    cpu.push(StackTarget::DE);
    assert_eq!(cpu.sp, 0xCFFE);
    cpu.registers.set_de(0);
    cpu.pop(StackTarget::DE);
    assert_eq!(cpu.sp, 0xD000);
    assert_eq!(cpu.registers.get_de(), 0xBEEF);
    // POP AF keeps only the high nibble of F.
    cpu.registers.set_hl(0x12FF);
    cpu.push(StackTarget::HL);
    cpu.pop(StackTarget::AF);
    assert_eq!(cpu.registers.get_af(), 0x12F0);
}

#[test]
fn test_call_and_ret() {
    let mut cpu = CPU::new();
    cpu.sp = 0xFFFE;
    cpu.bus.memory[0x0100] = 0x34;
    cpu.bus.memory[0x0101] = 0x12;
    cpu.pc = 0x0100;
    cpu.execute(Instruction::CALL(JumpCondition::Always));
    assert_eq!(cpu.pc, 0x1234);
    assert_eq!(cpu.sp, 0xFFFC);
    assert_eq!(cpu.bus.read_byte(0xFFFC), 0x02);
    assert_eq!(cpu.bus.read_byte(0xFFFD), 0x01);
    cpu.execute(Instruction::RET(JumpCondition::Always));
    assert_eq!(cpu.pc, 0x0102);
    assert_eq!(cpu.sp, 0xFFFE);
    // A condition that fails skips the address.
    cpu.registers.f.zero = false;
    cpu.execute(Instruction::JP(JumpCondition::Zero));
    assert_eq!(cpu.pc, 0x0104);
}

#[test]
fn test_relative_jump_backwards() {
    let mut cpu = CPU::new();
    cpu.bus.memory[0x0100] = 0xFE; // -2
    cpu.pc = 0x0100;
    cpu.execute(Instruction::JR(JumpCondition::Always));
    assert_eq!(cpu.pc, 0x00FF);
}

#[test]
fn test_adc_sbc_and_cp() {
    let mut cpu = CPU::new();
    cpu.registers.a = 0xFF;
    cpu.registers.b = 0x00;
    cpu.registers.f.carry = true;
    cpu.execute(Instruction::ADC(ArithmeticTarget::B));
    assert_eq!(cpu.registers.a, 0x00);
    assert!(cpu.registers.f.zero && cpu.registers.f.carry && cpu.registers.f.half_carry);

    cpu.registers.a = 0x10;
    cpu.registers.c = 0x0F;
    cpu.registers.f.carry = true;
    cpu.execute(Instruction::SBC(ArithmeticTarget::C));
    assert_eq!(cpu.registers.a, 0x00);
    assert!(cpu.registers.f.zero && cpu.registers.f.subtract && cpu.registers.f.half_carry);
    assert!(!cpu.registers.f.carry);

    cpu.registers.a = 0x42;
    cpu.registers.d = 0x42;
    cpu.execute(Instruction::CP(ArithmeticTarget::D));
    assert_eq!(cpu.registers.a, 0x42);
    assert!(cpu.registers.f.zero && cpu.registers.f.subtract);
}

#[test]
fn test_daa_after_bcd_addition() {
    let mut cpu = CPU::new();
    cpu.registers.a = 0x45;
    cpu.registers.b = 0x38;
    cpu.execute(Instruction::ADD(ArithmeticTarget::B));
    assert_eq!(cpu.registers.a, 0x7D);
    cpu.execute(Instruction::DAA);
    assert_eq!(cpu.registers.a, 0x83);
    assert!(!cpu.registers.f.carry);

    cpu.registers.a = 0x99;
    cpu.registers.b = 0x01;
    cpu.execute(Instruction::ADD(ArithmeticTarget::B));
    cpu.execute(Instruction::DAA);
    assert_eq!(cpu.registers.a, 0x00);
    assert!(cpu.registers.f.zero && cpu.registers.f.carry);
}

#[test]
fn test_cb_operations() {
    let mut cpu = CPU::new();
    cpu.registers.h = 0x80;
    cpu.execute(Instruction::BIT(7, BitTarget::H));
    assert!(!cpu.registers.f.zero && cpu.registers.f.half_carry);
    cpu.execute(Instruction::RES(7, BitTarget::H));
    assert_eq!(cpu.registers.h, 0x00);
    cpu.execute(Instruction::SET(0, BitTarget::H));
    assert_eq!(cpu.registers.h, 0x01);
    cpu.registers.a = 0xF1;
    cpu.execute(Instruction::SWAP(BitTarget::A));
    assert_eq!(cpu.registers.a, 0x1F);
    cpu.registers.b = 0x81;
    cpu.execute(Instruction::RLC(BitTarget::B));
    assert_eq!(cpu.registers.b, 0x03);
    assert!(cpu.registers.f.carry);
    cpu.registers.c = 0x81;
    cpu.execute(Instruction::SRA(BitTarget::C));
    assert_eq!(cpu.registers.c, 0xC0);
    assert!(cpu.registers.f.carry);
    // RL rotates every operand left through carry.
    cpu.registers.d = 0x55;
    cpu.registers.f.carry = true;
    cpu.execute(Instruction::RL(BitTarget::D));
    assert_eq!(cpu.registers.d, 0xAB);
    assert!(!cpu.registers.f.carry && !cpu.registers.f.zero);
    cpu.registers.e = 0x80;
    cpu.registers.f.carry = false;
    cpu.execute(Instruction::RL(BitTarget::E));
    assert_eq!(cpu.registers.e, 0x00);
    assert!(cpu.registers.f.carry && cpu.registers.f.zero);
}

#[test]
fn test_loads_and_ldh() {
    let mut cpu = CPU::new();
    cpu.registers.set_hl(0xC010);
    cpu.registers.a = 0x77;
    cpu.execute(Instruction::LD(LoadTarget::HLIndirectFromAInc));
    assert_eq!(cpu.bus.read_byte(0xC010), 0x77);
    assert_eq!(cpu.registers.get_hl(), 0xC011);
    cpu.execute(Instruction::LD(LoadTarget::HLIndirectFromADec));
    assert_eq!(cpu.registers.get_hl(), 0xC010);
    cpu.registers.a = 0x99;
    cpu.registers.c = 0x80;
    cpu.execute(Instruction::LDH(LDHTarget::CFromA));
    assert_eq!(cpu.bus.read_byte(0xFF80), 0x99);
    cpu.registers.b = 0x00;
    cpu.execute(Instruction::LD(LoadTarget::BFromA));
    assert_eq!(cpu.registers.b, 0x99);
    cpu.registers.set_de(0xFFFF);
    cpu.execute(Instruction::INC(IncDecTarget::DE));
    assert_eq!(cpu.registers.get_de(), 0x0000);
}

#[test]
fn test_fetch_decode_prefixed_and_blocks() {
    let mut cpu = CPU::new();
    cpu.pc = 0x0200;
    cpu.bus.memory[0x0200] = 0xCB;
    cpu.bus.memory[0x0201] = 0x7C; // BIT 7, H
    cpu.bus.memory[0x0202] = 0x41; // LD B, C
    cpu.bus.memory[0x0203] = 0xA8; // XOR B
    cpu.bus.memory[0x0204] = 0xD3; // not an instruction: NOP
    match cpu.fetch_decode() {
        Instruction::BIT(7, BitTarget::H) => {}
        _ => panic!("Expected BIT 7, H"),
    }
    assert_eq!(cpu.pc, 0x0202);
    match cpu.fetch_decode() {
        Instruction::LD(LoadTarget::BFromC) => {}
        _ => panic!("Expected LD B, C"),
    }
    match cpu.fetch_decode() {
        Instruction::XOR(ArithmeticTarget::B) => {}
        _ => panic!("Expected XOR B"),
    }
    match cpu.fetch_decode() {
        Instruction::NOP => {}
        _ => panic!("Expected NOP"),
    }
    assert_eq!(cpu.pc, 0x0205);
}

#[test]
fn test_interrupt_dispatch() {
    let mut cpu = CPU::new();
    cpu.sp = 0xFFFE;
    cpu.pc = 0x0150;
    cpu.ime = true;
    cpu.write_ie_register(0x05);
    cpu.write_if_register(0x04 | 0x01);
    cpu.step();
    // V-blank (bit 0) has priority over the timer (bit 2).
    assert_eq!(cpu.pc, 0x0040);
    assert!(!cpu.ime);
    assert_eq!(cpu.read_if_register(), 0xE4);
    assert_eq!(cpu.sp, 0xFFFC);
    assert_eq!(cpu.bus.read_byte(0xFFFC), 0x50);
    assert_eq!(cpu.bus.read_byte(0xFFFD), 0x01);
}

#[test]
fn test_halt_wakes_without_ime() {
    let mut cpu = CPU::new();
    cpu.halted = true;
    cpu.ime = false;
    cpu.write_ie_register(0x04);
    cpu.write_if_register(0x04);
    cpu.bus.memory[0x0100] = 0x00;
    cpu.step();
    assert!(!cpu.halted);
    assert_eq!(cpu.pc, 0x0101);
    assert_eq!(cpu.read_if_register() & 0x04, 0x04);
}

#[test]
fn test_ei_takes_effect_one_step_late() {
    let mut cpu = CPU::new();
    cpu.bus.memory[0x0100] = 0xFB; // EI
    cpu.bus.memory[0x0101] = 0x00; // NOP
    cpu.step();
    assert!(!cpu.ime);
    assert!(cpu.ei_delay);
    cpu.step();
    assert!(cpu.ime);
    assert!(!cpu.ei_delay);
}

#[test]
fn test_if_register_masks() {
    let mut cpu = CPU::new();
    cpu.write_if_register(0xFF);
    assert_eq!(cpu.if_register, 0x1F);
    assert_eq!(cpu.read_if_register(), 0xFF);
    cpu.write_if_register(0x00);
    assert_eq!(cpu.read_if_register(), 0xE0);
    cpu.write_ie_register(0xAB);
    assert_eq!(cpu.read_ie_register(), 0xAB);
}

#[test]
fn test_steps_keep_the_invariant() {
    let mut gameboy = GameBoy::new();
    assert!(gameboy.cpu.invariant_holds());
    let mut rom = vec![0u8; 0x8000];
    rom[0x0100] = 0x18; // JR -2: loops forever
    rom[0x0101] = 0xFE;
    gameboy.load_cartridge(rom);
    assert!(gameboy.cpu.invariant_holds());
    for _ in 0..50000 {
        gameboy.step();
        assert!(gameboy.cpu.invariant_holds());
    }
    assert_eq!(gameboy.cpu.pc, 0x0100);
    assert!(gameboy.cpu.bus.ppu.ly <= 153);
}

#[test]
fn test_invariant_fails_on_bad_ppu_timing() {
    let mut gameboy = GameBoy::new();
    gameboy.cpu.bus.ppu.mode_clock = 456;
    assert!(!gameboy.cpu.invariant_holds());
    gameboy.cpu.bus.ppu.mode_clock = 0;
    gameboy.cpu.bus.ppu.ly = 150;
    gameboy.cpu.bus.ppu.stat.mode = PPUMode::HBlank;
    assert!(!gameboy.cpu.invariant_holds());
    gameboy.cpu.bus.ppu.stat.mode = PPUMode::VBlank;
    assert!(gameboy.cpu.invariant_holds());
}

#[test]
fn test_ppu_registers_round_trip() {
    let mut ppu = PPU::new();
    for (addr, v) in [(0xFF40u16, 0x00u8), (0xFF40, 0xFF), (0xFF45, 0x33), (0xFF46, 0xC0),
        (0xFF47, 0x1B), (0xFF48, 0xE4), (0xFF49, 0x27), (0xFF4A, 0x40), (0xFF4B, 0x07)] {
        ppu.write_register(addr, v);
        assert_eq!(ppu.read_register(addr), v);
    }
    // STAT: only the interrupt-select bits are writable; bit 7 reads 0.
    let before = ppu.read_register(0xFF41);
    ppu.write_register(0xFF41, 0xFF);
    assert_eq!(ppu.read_register(0xFF41), 0x78 | (before & 0x07));
    assert_eq!(ppu.read_register(0xFF30), 0xFF);
}

#[test]
fn test_ppu_lyc_and_disabled_lcd() {
    let mut ppu = PPU::new();
    ppu.write_register(0xFF45, 1);
    ppu.write_register(0xFF41, 0x40);
    ppu.step(80);
    ppu.step(172);
    ppu.step(204);
    assert_eq!(ppu.ly, 1);
    assert!(ppu.stat_interrupt);
    assert_eq!(ppu.read_register(0xFF41) & 0x04, 0x04);

    let mut off = PPU::new();
    off.write_register(0xFF40, 0x00);
    off.step(1000);
    assert_eq!(off.ly, 0);
    assert_eq!(off.mode_clock, 0);
}

#[test]
fn test_palette_get_color_and_bits() {
    let p = Palette::from_byte(0b00_01_10_11);
    assert_eq!(p.get_color(0), Color::Black);
    assert_eq!(p.get_color(1), Color::DarkGray);
    assert_eq!(p.get_color(2), Color::LightGray);
    assert_eq!(p.get_color(3), Color::White);
    assert_eq!(Color::from_bits(0), Color::White);
    assert_eq!(Color::from_bits(3), Color::Black);
    assert_eq!(Color::from_bits(7), Color::Black);
}

#[test]
fn test_framebuffer_rgba_and_rgb() {
    let gameboy = GameBoy::new();
    let rgba = framebuffer_rgba(gameboy.get_framebuffer());
    assert_eq!(rgba.len(), 4 * 23040);
    assert_eq!(&rgba[0..4], &[255, 255, 255, 255]);
    assert_eq!(rgba[4 * 23039 + 3], 255);
    let rgb = gameboy.get_framebuffer_rgb();
    assert_eq!(rgb.len(), 23040);
    assert_eq!(rgb[100], (255, 255, 255));
}

#[test]
fn test_timer_counts_and_overflows() {
    let mut t = Timer::new();
    assert!(!t.step(255));
    assert_eq!(t.read_register(0xFF04), 0);
    t.step(1);
    assert_eq!(t.read_register(0xFF04), 1);
    t.write_register(0xFF04, 0x99);
    assert_eq!(t.read_register(0xFF04), 0);

    t.write_register(0xFF06, 0xF0);
    t.write_register(0xFF05, 0xFE);
    t.write_register(0xFF07, 0x05); // enabled, 16 cycles per tick
    assert_eq!(t.read_register(0xFF07), 0xFD);
    assert!(!t.step(16));
    assert_eq!(t.read_register(0xFF05), 0xFF);
    assert!(t.step(16));
    assert_eq!(t.read_register(0xFF05), 0xF0);
    assert!(t.check_and_clear_overflow());
    assert!(!t.check_and_clear_overflow());
}

#[test]
fn test_mbc1_bank_zero_and_ram() {
    let mut rom = vec![0u8; 0x40000];
    rom[0x0147] = 0x03;
    rom[0x0149] = 0x03;
    for bank in 0..16 {
        rom[bank * 0x4000] = bank as u8;
    }
    let mut c = Cartridge::new(rom);
    c.write_rom(0x2000, 0x00);
    assert_eq!(c.current_rom_bank, 1);
    c.write_rom(0x2000, 0x1F);
    assert_eq!(c.current_rom_bank, 15);
    assert_eq!(c.read_rom(0x4000), 15);
    // RAM reads 0xFF while disabled and ignores writes.
    c.write_ram(0x0010, 0x42);
    assert_eq!(c.read_ram(0x0010), 0xFF);
    c.write_rom(0x0000, 0x0A);
    c.write_ram(0x0010, 0x42);
    assert_eq!(c.read_ram(0x0010), 0x42);
    c.write_rom(0x0000, 0x00);
    assert_eq!(c.read_ram(0x0010), 0xFF);
}

#[test]
fn test_ram_size_codes() {
    assert_eq!(ram_size_kb(0), 0);
    assert_eq!(ram_size_kb(1), 2);
    assert_eq!(ram_size_kb(2), 8);
    assert_eq!(ram_size_kb(3), 32);
    assert_eq!(ram_size_kb(4), 128);
    assert_eq!(ram_size_kb(5), 64);
    assert_eq!(ram_size_kb(9), 0);
}

#[test]
fn test_joypad_register_groups() {
    let mut j = Joypad::new();
    j.write_register(0x10); // action buttons selected (bit 5 clear)
    j.update_button(JoypadButton::B, true);
    assert_eq!(j.read_register(), 0xC0 | 0x10 | 0x0D);
    j.write_register(0x20); // directions selected
    j.update_button(JoypadButton::Left, true);
    assert_eq!(j.read_register(), 0xC0 | 0x20 | 0x0D);
    assert!(j.check_and_clear_interrupt());
    assert!(!j.check_and_clear_interrupt());
    // Holding a button that is already held raises no new interrupt.
    j.update_button(JoypadButton::Left, true);
    assert!(!j.check_and_clear_interrupt());
}

#[test]
fn test_decode_sixteen_bit_and_stop_opcodes() {
    let mut cpu = CPU::new();
    cpu.pc = 0x0300;
    let program = [0x08u8, 0x34, 0x12, 0x09, 0x19, 0x29, 0x39, 0xE8, 0x05, 0xE9, 0xF2, 0xF8, 0x01,
        0xF9, 0x10];
    for (k, b) in program.iter().enumerate() {
        cpu.bus.memory[0x0300 + k] = *b;
    }
    match cpu.fetch_decode() {
        Instruction::LD(LoadTarget::A16FromSP) => {}
        _ => panic!("Expected LD (a16), SP"),
    }
    cpu.pc = 0x0303;
    match cpu.fetch_decode() {
        Instruction::ADDHL(WideTarget::BC) => {}
        _ => panic!("Expected ADD HL, BC"),
    }
    match cpu.fetch_decode() {
        Instruction::ADDHL(WideTarget::DE) => {}
        _ => panic!("Expected ADD HL, DE"),
    }
    match cpu.fetch_decode() {
        Instruction::ADDHL(WideTarget::HL) => {}
        _ => panic!("Expected ADD HL, HL"),
    }
    match cpu.fetch_decode() {
        Instruction::ADDHL(WideTarget::SP) => {}
        _ => panic!("Expected ADD HL, SP"),
    }
    match cpu.fetch_decode() {
        Instruction::ADDSP => {}
        _ => panic!("Expected ADD SP, r8"),
    }
    cpu.pc = 0x0309;
    match cpu.fetch_decode() {
        Instruction::JPHL => {}
        _ => panic!("Expected JP (HL)"),
    }
    match cpu.fetch_decode() {
        Instruction::LDH(LDHTarget::AFromC) => {}
        _ => panic!("Expected LD A, (C)"),
    }
    match cpu.fetch_decode() {
        Instruction::LD(LoadTarget::HLFromSPOffset) => {}
        _ => panic!("Expected LD HL, SP+r8"),
    }
    cpu.pc = 0x030D;
    match cpu.fetch_decode() {
        Instruction::LD(LoadTarget::SPFromHL) => {}
        _ => panic!("Expected LD SP, HL"),
    }
    match cpu.fetch_decode() {
        Instruction::STOP => {}
        _ => panic!("Expected STOP"),
    }
}

#[test]
fn test_sixteen_bit_arithmetic_and_loads() {
    let mut cpu = CPU::new();
    cpu.registers.set_hl(0x0FFF);
    cpu.registers.set_bc(0x0001);
    cpu.registers.f.zero = true;
    cpu.execute(Instruction::ADDHL(WideTarget::BC));
    assert_eq!(cpu.registers.get_hl(), 0x1000);
    assert!(cpu.registers.f.half_carry && !cpu.registers.f.carry);
    assert!(cpu.registers.f.zero && !cpu.registers.f.subtract);
    cpu.registers.set_hl(0x8000);
    cpu.execute(Instruction::ADDHL(WideTarget::HL));
    assert_eq!(cpu.registers.get_hl(), 0x0000);
    assert!(cpu.registers.f.carry);

    // ADD SP, -1 and LD HL, SP+2.
    cpu.sp = 0xFFF8;
    cpu.pc = 0x0400;
    cpu.bus.memory[0x0400] = 0xFF;
    cpu.execute(Instruction::ADDSP);
    assert_eq!(cpu.sp, 0xFFF7);
    assert_eq!(cpu.pc, 0x0401);
    assert!(!cpu.registers.f.zero && cpu.registers.f.half_carry && cpu.registers.f.carry);
    cpu.bus.memory[0x0401] = 0x02;
    cpu.execute(Instruction::LD(LoadTarget::HLFromSPOffset));
    assert_eq!(cpu.registers.get_hl(), 0xFFF9);
    assert_eq!(cpu.sp, 0xFFF7);

    // LD SP, HL and LD (a16), SP.
    cpu.registers.set_hl(0xC123);
    cpu.execute(Instruction::LD(LoadTarget::SPFromHL));
    assert_eq!(cpu.sp, 0xC123);
    cpu.pc = 0x0500;
    cpu.bus.memory[0x0500] = 0x00;
    cpu.bus.memory[0x0501] = 0xC0;
    cpu.execute(Instruction::LD(LoadTarget::A16FromSP));
    assert_eq!(cpu.bus.read_byte(0xC000), 0x23);
    assert_eq!(cpu.bus.read_byte(0xC001), 0xC1);
    assert_eq!(cpu.pc, 0x0502);

    // JP (HL) and LD A, (C).
    cpu.registers.set_hl(0x4321);
    cpu.execute(Instruction::JPHL);
    assert_eq!(cpu.pc, 0x4321);
    cpu.bus.write_byte(0xFF85, 0x5C);
    cpu.registers.c = 0x85;
    cpu.execute(Instruction::LDH(LDHTarget::AFromC));
    assert_eq!(cpu.registers.a, 0x5C);
}

#[test]
fn test_stop_halts_until_interrupt() {
    let mut cpu = CPU::new();
    cpu.bus.memory[0x0100] = 0x10;
    cpu.bus.memory[0x0101] = 0x00;
    cpu.step();
    assert!(cpu.halted);
    assert_eq!(cpu.pc, 0x0102);
    cpu.write_ie_register(0x10);
    cpu.write_if_register(0x10);
    cpu.step();
    assert!(!cpu.halted);
}

#[test]
fn test_ei_runs_next_instruction_before_dispatch() {
    let mut cpu = CPU::new();
    cpu.sp = 0xFFFE;
    cpu.bus.memory[0x0100] = 0xFB; // EI
    cpu.bus.memory[0x0101] = 0x00; // NOP
    cpu.write_ie_register(0x04);
    cpu.write_if_register(0x04);
    cpu.step();
    assert!(cpu.ei_delay && !cpu.ime);
    cpu.step();
    // The NOP ran first; interrupts are on now and none was serviced yet.
    assert_eq!(cpu.pc, 0x0102);
    assert_eq!(cpu.sp, 0xFFFE);
    assert!(cpu.ime);
    cpu.step();
    assert_eq!(cpu.pc, 0x0050);
    assert_eq!(cpu.sp, 0xFFFC);

    // EI then DI leaves interrupts off.
    let mut cpu = CPU::new();
    cpu.bus.memory[0x0100] = 0xFB;
    cpu.bus.memory[0x0101] = 0xF3;
    cpu.step();
    cpu.step();
    assert!(!cpu.ime && !cpu.ei_delay);
}

#[test]
fn test_run_until_halted() {
    let mut gameboy = GameBoy::new();
    let mut rom = vec![0u8; 0x8000];
    rom[0x0100] = 0x3C; // INC A
    rom[0x0101] = 0x3C; // INC A
    rom[0x0102] = 0x76; // HALT
    gameboy.load_cartridge(rom);
    assert!(!gameboy.run_until_halted(1));
    assert_eq!(gameboy.cpu.registers.a, 1);
    assert!(gameboy.run_until_halted(100));
    assert_eq!(gameboy.cpu.registers.a, 2);
    assert_eq!(gameboy.cpu.pc, 0x0103);
}

#[test]
fn test_inc_then_dec_restores() {
    let mut cpu = CPU::new();
    cpu.registers.a = 0xFF;
    cpu.registers.f.carry = true;
    cpu.inc(IncDecTarget::A);
    cpu.dec(IncDecTarget::A);
    assert_eq!(cpu.registers.a, 0xFF);
    assert!(cpu.registers.f.carry && cpu.registers.f.subtract && !cpu.registers.f.zero);
    cpu.registers.set_hl(0xC200);
    cpu.bus.write_byte(0xC200, 0x00);
    cpu.inc(IncDecTarget::HLIndirect);
    cpu.dec(IncDecTarget::HLIndirect);
    assert_eq!(cpu.bus.read_byte(0xC200), 0x00);
    assert!(cpu.registers.f.zero);
    cpu.sp = 0xFFFF;
    cpu.inc(IncDecTarget::SP);
    cpu.dec(IncDecTarget::SP);
    assert_eq!(cpu.sp, 0xFFFF);
}

#[test]
fn test_timer_write_elsewhere_and_tac() {
    let mut t = Timer::new();
    t.write_register(0xFF08, 0x12);
    assert_eq!(t.read_register(0xFF05), 0);
    t.write_register(0xFF07, 0xFF);
    assert_eq!(t.tac, 0x07);
    assert_eq!(t.timer_counter, 0);
}

#[test]
fn test_joypad_write_keeps_buttons() {
    let mut j = Joypad::new();
    j.update_button(JoypadButton::Start, true);
    j.write_register(0x20);
    assert_eq!(j.read_register() & 0x30, 0x20);
    assert!(j.state.start);
    assert!(j.check_and_clear_interrupt());
}
