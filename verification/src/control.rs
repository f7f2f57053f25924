//! Fetching and decoding instructions, interrupt dispatch, and the step that
//! runs the CPU and the devices on its bus.
use vstd::prelude::*;
use crate::cpu::{
    CPU, CpuView, arith_code, ld_imm, bit_code, cb_decoded, decode_other, decoded, ld_rr, lemma_decode,
    alu_add, alu_adc, alu_and, alu_daa, alu_or, alu_sbc, alu_sub, alu_xor, incdec_code, shift_result, is_alu, is_cb, is_data, is_flow, lemma_wrap16, lemma_wrap8, lowest_interrupt, raised,
    signed8, well_formed, wrap16, wrap8,
};
use crate::joypad::{JoypadButton, JoypadState};
use crate::ppu::PPUMode;
use crate::registers::{FlagsRegister, Registers, lemma_pair_round_trip, pair};
use crate::memory::{BusView, is_ram, lemma_read_after_write};
use crate::instructions::{
    ArithmeticTarget, BitTarget, IncDecTarget, Instruction, JumpCondition, LDHTarget, LoadTarget,
    StackTarget, WideTarget,
};

verus! {

broadcast use crate::memory::lemma_fits, crate::memory::lemma_write_keeps;

/// The instruction of an opcode outside the regular blocks.
fn decode_other_opcode(opcode: u8) -> (r: Instruction)
    ensures
        r == decode_other(opcode),
{
        match opcode {
            0x00 => Instruction::NOP,
            0x01 => Instruction::LD(LoadTarget::BCFromD16),
            0x02 => Instruction::LD(LoadTarget::BCIndirectFromA),
            0x03 => Instruction::INC(IncDecTarget::BC),
            0x04 => Instruction::INC(IncDecTarget::B),
            0x05 => Instruction::DEC(IncDecTarget::B),
            0x06 => Instruction::LD(LoadTarget::BFromD8),
            0x07 => Instruction::RLC(BitTarget::A),
            0x08 => Instruction::LD(LoadTarget::A16FromSP),
            0x09 => Instruction::ADDHL(WideTarget::BC),
            0x0A => Instruction::LD(LoadTarget::AFromBCIndirect),
            0x0B => Instruction::DEC(IncDecTarget::BC),
            0x0C => Instruction::INC(IncDecTarget::C),
            0x0D => Instruction::DEC(IncDecTarget::C),
            0x0E => Instruction::LD(LoadTarget::CFromD8),
            0x0F => Instruction::RRC(BitTarget::A),
            0x10 => Instruction::STOP,
            0x11 => Instruction::LD(LoadTarget::DEFromD16),
            0x12 => Instruction::LD(LoadTarget::DEIndirectFromA),
            0x13 => Instruction::INC(IncDecTarget::DE),
            0x14 => Instruction::INC(IncDecTarget::D),
            0x15 => Instruction::DEC(IncDecTarget::D),
            0x16 => Instruction::LD(LoadTarget::DFromD8),
            0x17 => Instruction::RL(BitTarget::A),
            0x18 => Instruction::JR(JumpCondition::Always),
            0x19 => Instruction::ADDHL(WideTarget::DE),
            0x1A => Instruction::LD(LoadTarget::AFromDEIndirect),
            0x1B => Instruction::DEC(IncDecTarget::DE),
            0x1C => Instruction::INC(IncDecTarget::E),
            0x1D => Instruction::DEC(IncDecTarget::E),
            0x1E => Instruction::LD(LoadTarget::EFromD8),
            0x1F => Instruction::RR(BitTarget::A),
            0x20 => Instruction::JR(JumpCondition::NotZero),
            0x21 => Instruction::LD(LoadTarget::HLFromD16),
            0x22 => Instruction::LD(LoadTarget::HLIndirectFromAInc),
            0x23 => Instruction::INC(IncDecTarget::HL),
            0x24 => Instruction::INC(IncDecTarget::H),
            0x25 => Instruction::DEC(IncDecTarget::H),
            0x26 => Instruction::LD(LoadTarget::HFromD8),
            0x27 => Instruction::DAA,
            0x28 => Instruction::JR(JumpCondition::Zero),
            0x29 => Instruction::ADDHL(WideTarget::HL),
            0x2A => Instruction::LD(LoadTarget::AFromHLIndirectInc),
            0x2B => Instruction::DEC(IncDecTarget::HL),
            0x2C => Instruction::INC(IncDecTarget::L),
            0x2D => Instruction::DEC(IncDecTarget::L),
            0x2E => Instruction::LD(LoadTarget::LFromD8),
            0x2F => Instruction::CPL,
            0x30 => Instruction::JR(JumpCondition::NotCarry),
            0x31 => Instruction::LD(LoadTarget::SPFromD16),
            0x32 => Instruction::LD(LoadTarget::HLIndirectFromADec),
            0x33 => Instruction::INC(IncDecTarget::SP),
            0x34 => Instruction::INC(IncDecTarget::HLIndirect),
            0x35 => Instruction::DEC(IncDecTarget::HLIndirect),
            0x36 => Instruction::LD(LoadTarget::HLIndirectFromD8),
            0x37 => Instruction::SCF,
            0x38 => Instruction::JR(JumpCondition::Carry),
            0x39 => Instruction::ADDHL(WideTarget::SP),
            0x3A => Instruction::LD(LoadTarget::AFromHLIndirectDec),
            0x3B => Instruction::DEC(IncDecTarget::SP),
            0x3C => Instruction::INC(IncDecTarget::A),
            0x3D => Instruction::DEC(IncDecTarget::A),
            0x3E => Instruction::LD(LoadTarget::AFromD8),
            0x3F => Instruction::CCF,
            0x76 => Instruction::HALT,
            0xC0 => Instruction::RET(JumpCondition::NotZero),
            0xC1 => Instruction::POP(StackTarget::BC),
            0xC2 => Instruction::JP(JumpCondition::NotZero),
            0xC3 => Instruction::JP(JumpCondition::Always),
            0xC4 => Instruction::CALL(JumpCondition::NotZero),
            0xC5 => Instruction::PUSH(StackTarget::BC),
            0xC6 => Instruction::ADD(ArithmeticTarget::D8),
            0xC7 => Instruction::RST(0x00),
            0xC8 => Instruction::RET(JumpCondition::Zero),
            0xC9 => Instruction::RET(JumpCondition::Always),
            0xCA => Instruction::JP(JumpCondition::Zero),
            0xCC => Instruction::CALL(JumpCondition::Zero),
            0xCD => Instruction::CALL(JumpCondition::Always),
            0xCE => Instruction::ADC(ArithmeticTarget::D8),
            0xCF => Instruction::RST(0x08),
            0xD0 => Instruction::RET(JumpCondition::NotCarry),
            0xD1 => Instruction::POP(StackTarget::DE),
            0xD2 => Instruction::JP(JumpCondition::NotCarry),
            0xD4 => Instruction::CALL(JumpCondition::NotCarry),
            0xD5 => Instruction::PUSH(StackTarget::DE),
            0xD6 => Instruction::SUB(ArithmeticTarget::D8),
            0xD7 => Instruction::RST(0x10),
            0xD8 => Instruction::RET(JumpCondition::Carry),
            0xD9 => Instruction::RETI,
            0xDA => Instruction::JP(JumpCondition::Carry),
            0xDC => Instruction::CALL(JumpCondition::Carry),
            0xDE => Instruction::SBC(ArithmeticTarget::D8),
            0xDF => Instruction::RST(0x18),
            0xE0 => Instruction::LDH(LDHTarget::A8FromA),
            0xE1 => Instruction::POP(StackTarget::HL),
            0xE2 => Instruction::LDH(LDHTarget::CFromA),
            0xE5 => Instruction::PUSH(StackTarget::HL),
            0xE6 => Instruction::AND(ArithmeticTarget::D8),
            0xE7 => Instruction::RST(0x20),
            0xE8 => Instruction::ADDSP,
            0xE9 => Instruction::JPHL,
            0xEA => Instruction::LD(LoadTarget::A16FromA),
            0xEE => Instruction::XOR(ArithmeticTarget::D8),
            0xEF => Instruction::RST(0x28),
            0xF0 => Instruction::LDH(LDHTarget::AFromA8),
            0xF1 => Instruction::POP(StackTarget::AF),
            0xF2 => Instruction::LDH(LDHTarget::AFromC),
            0xF3 => Instruction::DI,
            0xF5 => Instruction::PUSH(StackTarget::AF),
            0xF6 => Instruction::OR(ArithmeticTarget::D8),
            0xF7 => Instruction::RST(0x30),
            0xF8 => Instruction::LD(LoadTarget::HLFromSPOffset),
            0xF9 => Instruction::LD(LoadTarget::SPFromHL),
            0xFA => Instruction::LD(LoadTarget::AFromA16),
            0xFB => Instruction::EI,
            0xFE => Instruction::CP(ArithmeticTarget::D8),
            0xFF => Instruction::RST(0x38),
            _ => Instruction::NOP,
        }
}

/// The register-to-register load from register code `src` to `dst`.
fn load_target(dst: u8, src: u8) -> (r: LoadTarget)
    requires
        dst < 8,
        src < 8,
        !(dst == 6 && src == 6),
    ensures
        ld_rr(r) == Some((dst as int, src as int)),
{
    match (dst, src) {
        (0, 0) => LoadTarget::BFromB,
        (0, 1) => LoadTarget::BFromC,
        (0, 2) => LoadTarget::BFromD,
        (0, 3) => LoadTarget::BFromE,
        (0, 4) => LoadTarget::BFromH,
        (0, 5) => LoadTarget::BFromL,
        (0, 6) => LoadTarget::BFromHLIndirect,
        (0, 7) => LoadTarget::BFromA,
        (1, 0) => LoadTarget::CFromB,
        (1, 1) => LoadTarget::CFromC,
        (1, 2) => LoadTarget::CFromD,
        (1, 3) => LoadTarget::CFromE,
        (1, 4) => LoadTarget::CFromH,
        (1, 5) => LoadTarget::CFromL,
        (1, 6) => LoadTarget::CFromHLIndirect,
        (1, 7) => LoadTarget::CFromA,
        (2, 0) => LoadTarget::DFromB,
        (2, 1) => LoadTarget::DFromC,
        (2, 2) => LoadTarget::DFromD,
        (2, 3) => LoadTarget::DFromE,
        (2, 4) => LoadTarget::DFromH,
        (2, 5) => LoadTarget::DFromL,
        (2, 6) => LoadTarget::DFromHLIndirect,
        (2, 7) => LoadTarget::DFromA,
        (3, 0) => LoadTarget::EFromB,
        (3, 1) => LoadTarget::EFromC,
        (3, 2) => LoadTarget::EFromD,
        (3, 3) => LoadTarget::EFromE,
        (3, 4) => LoadTarget::EFromH,
        (3, 5) => LoadTarget::EFromL,
        (3, 6) => LoadTarget::EFromHLIndirect,
        (3, 7) => LoadTarget::EFromA,
        (4, 0) => LoadTarget::HFromB,
        (4, 1) => LoadTarget::HFromC,
        (4, 2) => LoadTarget::HFromD,
        (4, 3) => LoadTarget::HFromE,
        (4, 4) => LoadTarget::HFromH,
        (4, 5) => LoadTarget::HFromL,
        (4, 6) => LoadTarget::HFromHLIndirect,
        (4, 7) => LoadTarget::HFromA,
        (5, 0) => LoadTarget::LFromB,
        (5, 1) => LoadTarget::LFromC,
        (5, 2) => LoadTarget::LFromD,
        (5, 3) => LoadTarget::LFromE,
        (5, 4) => LoadTarget::LFromH,
        (5, 5) => LoadTarget::LFromL,
        (5, 6) => LoadTarget::LFromHLIndirect,
        (5, 7) => LoadTarget::LFromA,
        (6, 0) => LoadTarget::HLIndirectFromB,
        (6, 1) => LoadTarget::HLIndirectFromC,
        (6, 2) => LoadTarget::HLIndirectFromD,
        (6, 3) => LoadTarget::HLIndirectFromE,
        (6, 4) => LoadTarget::HLIndirectFromH,
        (6, 5) => LoadTarget::HLIndirectFromL,
        (6, 7) => LoadTarget::HLIndirectFromA,
        (7, 0) => LoadTarget::AFromB,
        (7, 1) => LoadTarget::AFromC,
        (7, 2) => LoadTarget::AFromD,
        (7, 3) => LoadTarget::AFromE,
        (7, 4) => LoadTarget::AFromH,
        (7, 5) => LoadTarget::AFromL,
        (7, 6) => LoadTarget::AFromHLIndirect,
        (7, 7) => LoadTarget::AFromA,
        _ => LoadTarget::AFromA,
    }
}

/// The arithmetic operand with register code `code`.
fn arith_target(code: u8) -> (r: ArithmeticTarget)
    requires
        code < 8,
    ensures
        arith_code(r) == Some(code as int),
{
    match code {
        0 => ArithmeticTarget::B,
        1 => ArithmeticTarget::C,
        2 => ArithmeticTarget::D,
        3 => ArithmeticTarget::E,
        4 => ArithmeticTarget::H,
        5 => ArithmeticTarget::L,
        6 => ArithmeticTarget::HLIndirect,
        7 => ArithmeticTarget::A,
        _ => ArithmeticTarget::A,
    }
}

/// Whether `t` keeps what the invariant needs of `s`: the cartridge's banks in
/// range, and the PPU's line, mode and mode clock.
pub open spec fn keeps_timing(s: CpuView, t: CpuView) -> bool {
    &&& s.bus.cart_fits() ==> t.bus.cart_fits()
    &&& t.ppu_timing() == s.ppu_timing()
}

/// Setting an 8-bit operand keeps the cartridge's banks and the PPU's timing.
broadcast proof fn lemma_set_r8_keeps(s: CpuView, code: int, v: u8)
    ensures
        keeps_timing(s, #[trigger] s.set_r8(code, v)),
{
    reveal(CpuView::set_r8);
}

proof fn lemma_alu_keeps(s: CpuView, op: int, t: ArithmeticTarget)
    ensures
        keeps_timing(s, s.alu_spec(op, t)),
{
    broadcast use lemma_set_r8_keeps;

    reveal(CpuView::alu_spec);
}

proof fn lemma_inc_keeps(s: CpuView, t: IncDecTarget)
    ensures
        keeps_timing(s, s.inc_spec(t)),
{
    broadcast use lemma_set_r8_keeps;

    reveal(CpuView::inc_spec);
}

proof fn lemma_dec_keeps(s: CpuView, t: IncDecTarget)
    ensures
        keeps_timing(s, s.dec_spec(t)),
{
    broadcast use lemma_set_r8_keeps;

    reveal(CpuView::dec_spec);
}

proof fn lemma_load_plain_keeps(s: CpuView, t: LoadTarget)
    ensures
        keeps_timing(s, s.load_plain_spec(t)),
{
    broadcast use lemma_set_r8_keeps;

    reveal(CpuView::load_plain_spec);
}

proof fn lemma_load_keeps(s: CpuView, t: LoadTarget)
    ensures
        keeps_timing(s, s.load_spec(t)),
{
    reveal(CpuView::load_spec);
    lemma_load_plain_keeps(s, t);
}

proof fn lemma_ldh_keeps(s: CpuView, t: LDHTarget)
    ensures
        keeps_timing(s, s.ldh_spec(t)),
{
    broadcast use lemma_set_r8_keeps;

    reveal(CpuView::ldh_spec);
}

proof fn lemma_push_keeps(s: CpuView, t: StackTarget)
    ensures
        keeps_timing(s, s.push_spec(t)),
{
    broadcast use lemma_set_r8_keeps;

    reveal(CpuView::push_spec);
}

proof fn lemma_pop_keeps(s: CpuView, t: StackTarget)
    ensures
        keeps_timing(s, s.pop_spec(t)),
{
    broadcast use lemma_set_r8_keeps;

    reveal(CpuView::pop_spec);
}

proof fn lemma_jp_keeps(s: CpuView, c: JumpCondition)
    ensures
        keeps_timing(s, s.jp_spec(c)),
{
    broadcast use lemma_set_r8_keeps;

    reveal(CpuView::jp_spec);
}

proof fn lemma_jr_keeps(s: CpuView, c: JumpCondition)
    ensures
        keeps_timing(s, s.jr_spec(c)),
{
    broadcast use lemma_set_r8_keeps;

    reveal(CpuView::jr_spec);
}

proof fn lemma_call_keeps(s: CpuView, c: JumpCondition)
    ensures
        keeps_timing(s, s.call_spec(c)),
{
    broadcast use lemma_set_r8_keeps;

    reveal(CpuView::call_spec);
}

proof fn lemma_ret_keeps(s: CpuView, c: JumpCondition)
    ensures
        keeps_timing(s, s.ret_spec(c)),
{
    broadcast use lemma_set_r8_keeps;

    reveal(CpuView::ret_spec);
}

proof fn lemma_reti_keeps(s: CpuView)
    ensures
        keeps_timing(s, s.reti_spec()),
{
    broadcast use lemma_set_r8_keeps;

    reveal(CpuView::reti_spec);
}

proof fn lemma_rst_keeps(s: CpuView, a: u8)
    ensures
        keeps_timing(s, s.rst_spec(a)),
{
    broadcast use lemma_set_r8_keeps;

    reveal(CpuView::rst_spec);
}

proof fn lemma_bit_keeps(s: CpuView, b: u8, code: int)
    ensures
        keeps_timing(s, s.bit_spec(b, code)),
{
    broadcast use lemma_set_r8_keeps;

    reveal(CpuView::bit_spec);
}

proof fn lemma_change_bit_keeps(s: CpuView, b: u8, code: int, set: bool)
    ensures
        keeps_timing(s, s.change_bit_spec(b, code, set)),
{
    broadcast use lemma_set_r8_keeps;

    reveal(CpuView::change_bit_spec);
}

proof fn lemma_shift_keeps(s: CpuView, kind: int, code: int)
    ensures
        keeps_timing(s, s.shift_spec(kind, code)),
{
    broadcast use lemma_set_r8_keeps;

    reveal(CpuView::shift_spec);
}

/// The arithmetic and logic group keeps the invariant's parts.
proof fn lemma_alu_group_keeps(s: CpuView, i: Instruction)
    ensures
        keeps_timing(s, s.alu_group_spec(i)),
{
    reveal(CpuView::alu_group_spec);
    match i {
        Instruction::ADD(t) => lemma_alu_keeps(s, 0, t),
        Instruction::ADC(t) => lemma_alu_keeps(s, 1, t),
        Instruction::SUB(t) => lemma_alu_keeps(s, 2, t),
        Instruction::SBC(t) => lemma_alu_keeps(s, 3, t),
        Instruction::AND(t) => lemma_alu_keeps(s, 4, t),
        Instruction::XOR(t) => lemma_alu_keeps(s, 5, t),
        Instruction::OR(t) => lemma_alu_keeps(s, 6, t),
        Instruction::CP(t) => lemma_alu_keeps(s, 7, t),
        _ => {},
    }
}

/// The CB-prefixed group keeps the invariant's parts.
proof fn lemma_cb_group_keeps(s: CpuView, i: Instruction)
    ensures
        keeps_timing(s, s.cb_group_spec(i)),
{
    reveal(CpuView::cb_group_spec);
    match i {
        Instruction::BIT(b, t) => lemma_bit_keeps(s, b, bit_code(t)),
        Instruction::RES(b, t) => lemma_change_bit_keeps(s, b, bit_code(t), false),
        Instruction::SET(b, t) => lemma_change_bit_keeps(s, b, bit_code(t), true),
        Instruction::RLC(t) => lemma_shift_keeps(s, 0, bit_code(t)),
        Instruction::RRC(t) => lemma_shift_keeps(s, 1, bit_code(t)),
        Instruction::RL(t) => lemma_shift_keeps(s, 2, bit_code(t)),
        Instruction::RR(t) => lemma_shift_keeps(s, 3, bit_code(t)),
        Instruction::SLA(t) => lemma_shift_keeps(s, 4, bit_code(t)),
        Instruction::SRA(t) => lemma_shift_keeps(s, 5, bit_code(t)),
        Instruction::SWAP(t) => lemma_shift_keeps(s, 6, bit_code(t)),
        Instruction::SRL(t) => lemma_shift_keeps(s, 7, bit_code(t)),
        _ => {},
    }
}

/// The jump group keeps the invariant's parts.
proof fn lemma_flow_group_keeps(s: CpuView, i: Instruction)
    ensures
        keeps_timing(s, s.flow_group_spec(i)),
{
    reveal(CpuView::flow_group_spec);
    match i {
        Instruction::JP(c) => lemma_jp_keeps(s, c),
        Instruction::JR(c) => lemma_jr_keeps(s, c),
        Instruction::CALL(c) => lemma_call_keeps(s, c),
        Instruction::RET(c) => lemma_ret_keeps(s, c),
        Instruction::RETI => lemma_reti_keeps(s),
        Instruction::RST(a) => lemma_rst_keeps(s, a),
        _ => {},
    }
}

/// The load and stack group keeps the invariant's parts.
proof fn lemma_data_group_keeps(s: CpuView, i: Instruction)
    ensures
        keeps_timing(s, s.data_group_spec(i)),
{
    reveal(CpuView::data_group_spec);
    match i {
        Instruction::INC(t) => lemma_inc_keeps(s, t),
        Instruction::DEC(t) => lemma_dec_keeps(s, t),
        Instruction::LD(t) => lemma_load_keeps(s, t),
        Instruction::LDH(t) => lemma_ldh_keeps(s, t),
        Instruction::PUSH(t) => lemma_push_keeps(s, t),
        Instruction::POP(t) => lemma_pop_keeps(s, t),
        _ => {},
    }
}

/// Executing any instruction keeps the cartridge's banks in range and the PPU's
/// line, mode and mode clock unchanged.
pub proof fn lemma_execute_keeps(s: CpuView, i: Instruction)
    ensures
        keeps_timing(s, s.execute_spec(i)),
{
    reveal(CpuView::execute_spec);
    if is_alu(i) {
        lemma_alu_group_keeps(s, i);
    } else if is_cb(i) {
        lemma_cb_group_keeps(s, i);
    } else if is_flow(i) {
        lemma_flow_group_keeps(s, i);
    } else if is_data(i) {
        lemma_data_group_keeps(s, i);
    } else {
        reveal(CpuView::plain_group_spec);
    }
}

/// Servicing an interrupt keeps the cartridge's banks and the PPU's timing.
proof fn lemma_interrupt_keeps(s: CpuView)
    ensures
        keeps_timing(s, s.interrupt_spec().1),
{
}

/// Every step keeps the invariant (cartridge banks in range, PPU timing
/// consistent), and from a state that satisfies it a step runs without panic.
pub proof fn lemma_step_preserves_inv(s: CpuView)
    requires
        s.inv(),
    ensures
        s.step_ok(),
        s.step_spec().inv(),
{
    lemma_interrupt_keeps(s);
    let s1 = s.interrupt_spec().1;
    let (i, s2) = s1.fetched();
    lemma_execute_keeps(s2, i);
    match s.before_devices() {
        None => {},
        Some(d) => {
            crate::ppu::lemma_step_keeps_inv(d.bus.ppu, d.step_cycles());
        },
    }
}

/// The power-on state satisfies the invariant.
pub proof fn lemma_power_on_inv()
    ensures
        CpuView::power_on().inv(),
{
}

/// A word pushed onto a stack in plain memory is the word on top of it, and a pop
/// then gives the stack pointer back.
pub proof fn lemma_push_pop(s: CpuView, value: u16)
    requires
        s.bus.memory.len() == 0x10000,
        s.bus.ppu.vram.len() == 0x2000,
        s.bus.ppu.oam.len() == 0xA0,
        is_ram(wrap16(s.sp - 1)),
        is_ram(wrap16(s.sp - 2)),
    ensures
        s.pushed(value).top_of_stack() == value,
        s.pushed(value).popped().sp == s.sp,
{
    let sp1 = wrap16(s.sp - 1);
    let sp2 = wrap16(s.sp - 2);
    let high = (value / 256) as u8;
    let low = (value % 256) as u8;
    let b1 = s.bus.write(sp1, high);
    lemma_wrap16(s.sp - 1);
    lemma_wrap16(s.sp - 2);
    lemma_wrap16(sp2 + 1);
    lemma_wrap16(sp2 + 2);
    lemma_read_after_write(s.bus, sp1, high, sp1);
    assert(b1.memory.len() == 0x10000 && b1.ppu.vram.len() == 0x2000 && b1.ppu.oam.len() == 0xA0)
        by {
        reveal(BusView::write);
    }
    lemma_read_after_write(b1, sp2, low, sp1);
    assert(wrap16(sp2 + 1) == sp1);
}

/// A register pushed, then popped (whatever the registers became in between),
/// gets its value back, and SP is where it was; for AF that is A and the four
/// flags.
pub proof fn lemma_push_pop_register(s: CpuView, t: StackTarget, between: Registers)
    requires
        s.bus.memory.len() == 0x10000,
        s.bus.ppu.vram.len() == 0x2000,
        s.bus.ppu.oam.len() == 0xA0,
        is_ram(wrap16(s.sp - 1)),
        is_ram(wrap16(s.sp - 2)),
    ensures
        ({
            let u = s.pushed(s.stack_value(t)).with_registers(between);
            let w = u.popped().with_stack_value(t, u.top_of_stack());
            w.stack_value(t) == s.stack_value(t) && w.sp == s.sp
        }),
{
    let v = s.stack_value(t);
    lemma_push_pop(s, v);
    lemma_pair_round_trip(between, v);
    lemma_pair_round_trip(s.registers, v);
}

/// INC then DEC on a 16-bit register leaves the state as it was.
proof fn lemma_inc_dec_wide(s: CpuView, t: IncDecTarget)
    requires
        incdec_code(t) is None,
    ensures
        s.inc_spec(t).dec_spec(t) == s,
{
    match t {
        IncDecTarget::BC => lemma_inc_dec_bc(s),
        IncDecTarget::DE => lemma_inc_dec_de(s),
        IncDecTarget::HL => lemma_inc_dec_hl(s),
        _ => {
            reveal(CpuView::inc_spec);
            reveal(CpuView::dec_spec);
            lemma_wrap16(s.sp + 1);
            lemma_wrap16(wrap16(s.sp + 1) - 1);
        },
    }
}

/// Stepping BC up by one and back down gives the registers back.
proof fn lemma_bc_up_down(r: Registers)
    ensures
        r.with_bc(wrap16(r.with_bc(wrap16(r.bc() + 1)).bc() - 1)) == r,
{
    let v = wrap16(r.bc() + 1);
    lemma_wrap16(r.bc() + 1);
    lemma_wrap16(v - 1);
    lemma_pair_round_trip(r, v);
    let r1 = r.with_bc(v);
    assert(wrap16(r1.bc() - 1) == r.bc());
    lemma_split_pair(r.bc());
    assert(r1.with_bc(r.bc()) == r);
}

#[verifier::spinoff_prover]
proof fn lemma_inc_dec_bc(s: CpuView)
    ensures
        s.inc_spec(IncDecTarget::BC).dec_spec(IncDecTarget::BC) == s,
{
    reveal(CpuView::inc_spec);
    reveal(CpuView::dec_spec);
    let r = s.registers;
    lemma_bc_up_down(r);
    let r1 = r.with_bc(wrap16(r.bc() + 1));
    assert(s.with_registers(r1).with_registers(r1.with_bc(wrap16(r1.bc() - 1))) == s);
}

/// Stepping DE up by one and back down gives the registers back.
proof fn lemma_de_up_down(r: Registers)
    ensures
        r.with_de(wrap16(r.with_de(wrap16(r.de() + 1)).de() - 1)) == r,
{
    let v = wrap16(r.de() + 1);
    lemma_wrap16(r.de() + 1);
    lemma_wrap16(v - 1);
    lemma_pair_round_trip(r, v);
    let r1 = r.with_de(v);
    assert(wrap16(r1.de() - 1) == r.de());
    lemma_split_pair(r.de());
    assert(r1.with_de(r.de()) == r);
}

#[verifier::spinoff_prover]
proof fn lemma_inc_dec_de(s: CpuView)
    ensures
        s.inc_spec(IncDecTarget::DE).dec_spec(IncDecTarget::DE) == s,
{
    reveal(CpuView::inc_spec);
    reveal(CpuView::dec_spec);
    let r = s.registers;
    lemma_de_up_down(r);
    let r1 = r.with_de(wrap16(r.de() + 1));
    assert(s.with_registers(r1).with_registers(r1.with_de(wrap16(r1.de() - 1))) == s);
}

/// Stepping HL up by one and back down gives the registers back.
proof fn lemma_hl_up_down(r: Registers)
    ensures
        r.with_hl(wrap16(r.with_hl(wrap16(r.hl() + 1)).hl() - 1)) == r,
{
    let v = wrap16(r.hl() + 1);
    lemma_wrap16(r.hl() + 1);
    lemma_wrap16(v - 1);
    lemma_pair_round_trip(r, v);
    let r1 = r.with_hl(v);
    assert(wrap16(r1.hl() - 1) == r.hl());
    lemma_split_pair(r.hl());
    assert(r1.with_hl(r.hl()) == r);
}

#[verifier::spinoff_prover]
proof fn lemma_inc_dec_hl(s: CpuView)
    ensures
        s.inc_spec(IncDecTarget::HL).dec_spec(IncDecTarget::HL) == s,
{
    reveal(CpuView::inc_spec);
    reveal(CpuView::dec_spec);
    let r = s.registers;
    lemma_hl_up_down(r);
    let r1 = r.with_hl(wrap16(r.hl() + 1));
    assert(s.with_registers(r1).with_registers(r1.with_hl(wrap16(r1.hl() - 1))) == s);
}

/// A 16-bit value splits into its high and low bytes.
proof fn lemma_split_pair(v: u16)
    ensures
        ((v / 256) as u8) as int == v / 256,
        ((v % 256) as u8) as int == v % 256,
{
}

/// INC then DEC on an 8-bit operand gives it back and keeps the carry flag.
#[verifier::rlimit(40)]
proof fn lemma_inc_dec_byte(s: CpuView, t: IncDecTarget)
    requires
        incdec_code(t) is Some,
        s.bus.memory.len() == 0x10000,
        s.bus.ppu.vram.len() == 0x2000,
        s.bus.ppu.oam.len() == 0xA0,
        t is HLIndirect ==> is_ram(s.registers.hl()),
    ensures
        ({
            let u = s.inc_spec(t).dec_spec(t);
            let code = incdec_code(t)->0;
            &&& u.registers.f.carry == s.registers.f.carry
            &&& u.get_r8(code) == s.get_r8(code)
            &&& u.registers.f.subtract
            &&& u.registers.f.zero == (s.get_r8(code) == 0)
        }),
{
    reveal(CpuView::inc_spec);
    reveal(CpuView::dec_spec);
    reveal(CpuView::get_r8);
    reveal(CpuView::set_r8);
    let code = incdec_code(t)->0;
    let x = s.get_r8(code);
    lemma_wrap8(x + 1);
    lemma_wrap8(wrap8(x + 1) - 1);
    if code == 6 {
        let a = s.registers.hl();
        lemma_read_after_write(s.bus, a, wrap8(x + 1), a);
        let b1 = s.bus.write(a, wrap8(x + 1));
        assert(b1.memory.len() == 0x10000 && b1.ppu.vram.len() == 0x2000 && b1.ppu.oam.len()
            == 0xA0) by {
            reveal(BusView::write);
        }
        lemma_read_after_write(b1, a, x, a);
    }
}

/// INC then DEC gives the operand back and keeps the carry flag; DEC sets N,
/// and Z when the operand is zero. On a 16-bit register the state is as it was.
pub proof fn lemma_inc_dec(s: CpuView, t: IncDecTarget)
    requires
        s.bus.memory.len() == 0x10000,
        s.bus.ppu.vram.len() == 0x2000,
        s.bus.ppu.oam.len() == 0xA0,
        t is HLIndirect ==> is_ram(s.registers.hl()),
    ensures
        ({
            let u = s.inc_spec(t).dec_spec(t);
            &&& u.registers.f.carry == s.registers.f.carry
            &&& incdec_code(t) is Some ==> {
                let code = incdec_code(t)->0;
                &&& u.get_r8(code) == s.get_r8(code)
                &&& u.registers.f.subtract
                &&& u.registers.f.zero == (s.get_r8(code) == 0)
            }
            &&& incdec_code(t) is None ==> u == s
        }),
{
    if incdec_code(t) is Some {
        lemma_inc_dec_byte(s, t);
    } else {
        lemma_inc_dec_wide(s, t);
    }
}

/// IF keeps the low five bits of a write, and reads them back with the top
/// three bits set.
pub proof fn lemma_if_write_read(s: CpuView, value: u8)
    ensures
        ({
            let t = CpuView { if_register: value & 0x1F, ..s };
            &&& t.if_register == value & 0x1F
            &&& (t.if_register | 0xE0) & 0x1F == value & 0x1F
            &&& (t.if_register | 0xE0) & 0xE0 == 0xE0
        }),
{
    assert(((value & 0x1F) | 0xE0) & 0x1F == value & 0x1F && ((value & 0x1F) | 0xE0) & 0xE0 == 0xE0)
        by (bit_vector);
}

/// Whether `b` is packed BCD: two decimal digits, the tens in the high nibble.
pub open spec fn is_bcd(b: u8) -> bool {
    b % 16 <= 9 && b / 16 <= 9
}

/// The number 0-99 that a packed BCD byte stands for.
pub open spec fn bcd_value(b: u8) -> int {
    (b / 16) * 10 + b % 16
}

/// The packed BCD byte of a number 0-99.
pub open spec fn to_bcd(n: int) -> u8 {
    ((n / 10) * 16 + n % 10) as u8
}

proof fn lemma_low_nibble(b: u8)
    ensures
        b & 0x0F == b % 16,
        b & 0xF == b % 16,
{
    assert(b & 0x0F == b % 16) by (bit_vector);
}

/// The arithmetic behind `lemma_daa_after_add`, digit by digit.
proof fn daa_add_digits(x: u8, y: u8, s: u8)
    requires
        s as int == (x as int + y as int) % 256,
        (x % 16) as int <= 9,
        (x / 16) as int <= 9,
        (y % 16) as int <= 9,
        (y / 16) as int <= 9,
    ensures
        ({
            let low: bool = (x % 16) as int + (y % 16) as int > 15 || (s % 16) as int > 9;
            let high: bool = x as int + y as int > 255 || s as int > 0x99;
            let adjust: int = (if low { 6int } else { 0int }) + (if high { 0x60int } else { 0int });
            let n: int = (x / 16) as int * 10 + (x % 16) as int + (y / 16) as int * 10 + (y % 16)
                as int;
            (s as int + adjust) % 256 == ((n % 100) / 10) * 16 + (n % 100) % 10 && high == (n
                >= 100)
        }),
{
    assert(((s as int == (x as int + y as int) % 256) && (x % 16) as int <= 9 && (x / 16) as int
        <= 9 && (y % 16) as int <= 9 && (y / 16) as int <= 9) ==> ({
        let low: bool = (x % 16) as int + (y % 16) as int > 15 || (s % 16) as int > 9;
        let high: bool = x as int + y as int > 255 || s as int > 0x99;
        let adjust: int = (if low { 6int } else { 0int }) + (if high { 0x60int } else { 0int });
        let n: int = (x / 16) as int * 10 + (x % 16) as int + (y / 16) as int * 10 + (y % 16) as int;
        (s as int + adjust) % 256 == ((n % 100) / 10) * 16 + (n % 100) % 10 && high == (n >= 100)
    })) by (bit_vector);
}

/// DAA after an addition (N clear) adds 6 when the low digit overflowed and
/// 0x60 when the high one did, sets the carry for the latter, and Z from the
/// result.
proof fn daa_after_addition_form(s: u8, f: FlagsRegister)
    requires
        !f.subtract,
    ensures
        ({
            let low = f.half_carry || s % 16 > 9;
            let high = f.carry || s > 0x99;
            let adjust: int = (if low { 6int } else { 0int }) + (if high { 0x60int } else { 0int });
            let (r, g) = alu_daa(s, f);
            &&& r as int == (s as int + adjust) % 256
            &&& g.carry == high
            &&& g.zero == (r == 0)
            &&& !g.subtract
        }),
{
    reveal(alu_daa);
    lemma_low_nibble(s);
    let low = f.half_carry || s % 16 > 9;
    let high = f.carry || s > 0x99;
    let adjust: int = (if low { 6int } else { 0int }) + (if high { 0x60int } else { 0int });
    lemma_wrap8(s + adjust);
}

/// DAA after an ADD of two BCD numbers gives their BCD sum (modulo 100), with
/// the carry set exactly when the sum reaches 100.
#[verifier::rlimit(30)]
pub proof fn lemma_daa_after_add(x: u8, y: u8)
    requires
        is_bcd(x),
        is_bcd(y),
    ensures
        ({
            let (s, f) = alu_add(x, y);
            let (r, g) = alu_daa(s, f);
            &&& r == to_bcd((bcd_value(x) + bcd_value(y)) % 100)
            &&& g.carry == (bcd_value(x) + bcd_value(y) >= 100)
            &&& g.zero == (r == 0)
            &&& !g.subtract
        }),
{
    lemma_low_nibble(x);
    lemma_low_nibble(y);
    let (s, f) = alu_add(x, y);
    lemma_wrap8(x + y);
    assert(s as int == (x as int + y as int) % 256);
    assert(f.half_carry == ((x % 16) as int + (y % 16) as int > 15));
    assert(f.carry == (x as int + y as int > 255));
    daa_add_digits(x, y, s);
    daa_after_addition_form(s, f);
    let n: int = bcd_value(x) + bcd_value(y);
    assert(n == (x / 16) as int * 10 + (x % 16) as int + (y / 16) as int * 10 + (y % 16) as int);
    assert(0 <= n % 100 < 100);
    assert(to_bcd(n % 100) as int == ((n % 100) / 10) * 16 + (n % 100) % 10);
}

/// The arithmetic behind `lemma_daa_after_sub`, digit by digit.
proof fn daa_sub_digits(x: u8, y: u8, s: u8)
    requires
        s as int == (x as int - y as int + 256) % 256,
        (x % 16) as int <= 9,
        (x / 16) as int <= 9,
        (y % 16) as int <= 9,
        (y / 16) as int <= 9,
    ensures
        ({
            let low: bool = ((x % 16) as int) < ((y % 16) as int);
            let high: bool = (x as int) < (y as int);
            let adjust: int = (if low { 6int } else { 0int }) + (if high { 0x60int } else { 0int });
            let n: int = (x / 16) as int * 10 + (x % 16) as int - (y / 16) as int * 10 - (y % 16)
                as int + 100;
            (s as int - adjust + 256) % 256 == ((n % 100) / 10) * 16 + (n % 100) % 10 && high == (n
                < 100)
        }),
{
    assert(((s as int == (x as int - y as int + 256) % 256) && (x % 16) as int <= 9 && (x / 16)
        as int <= 9 && (y % 16) as int <= 9 && (y / 16) as int <= 9) ==> ({
        let low: bool = ((x % 16) as int) < ((y % 16) as int);
        let high: bool = (x as int) < (y as int);
        let adjust: int = (if low { 6int } else { 0int }) + (if high { 0x60int } else { 0int });
        let n: int = (x / 16) as int * 10 + (x % 16) as int - (y / 16) as int * 10 - (y % 16) as int
            + 100;
        (s as int - adjust + 256) % 256 == ((n % 100) / 10) * 16 + (n % 100) % 10 && high == (n
            < 100)
    })) by (bit_vector);
}

/// DAA after a subtraction (N set) subtracts 6 for a half borrow and 0x60 for
/// a borrow, keeps the carry, and sets Z from the result.
proof fn daa_after_subtraction_form(s: u8, f: FlagsRegister)
    requires
        f.subtract,
    ensures
        ({
            let adjust: int = (if f.half_carry { 6int } else { 0int }) + (if f.carry {
                0x60int
            } else {
                0int
            });
            let (r, g) = alu_daa(s, f);
            &&& r as int == (s as int - adjust + 256) % 256
            &&& g.carry == f.carry
            &&& g.zero == (r == 0)
            &&& g.subtract
        }),
{
    reveal(alu_daa);
    let adjust: int = (if f.half_carry { 6int } else { 0int }) + (if f.carry { 0x60int } else {
        0int
    });
    lemma_wrap8(s - adjust);
}

/// DAA after a SUB of two BCD numbers gives their BCD difference (modulo 100),
/// with the carry set exactly when the first is the smaller.
#[verifier::rlimit(30)]
pub proof fn lemma_daa_after_sub(x: u8, y: u8)
    requires
        is_bcd(x),
        is_bcd(y),
    ensures
        ({
            let (s, f) = alu_sub(x, y);
            let (r, g) = alu_daa(s, f);
            &&& r == to_bcd((bcd_value(x) - bcd_value(y) + 100) % 100)
            &&& g.carry == (bcd_value(x) < bcd_value(y))
            &&& g.zero == (r == 0)
            &&& g.subtract
        }),
{
    lemma_low_nibble(x);
    lemma_low_nibble(y);
    let (s, f) = alu_sub(x, y);
    lemma_wrap8(x - y);
    assert(s as int == (x as int - y as int + 256) % 256);
    assert(f.half_carry == (((x % 16) as int) < ((y % 16) as int)));
    assert(f.carry == ((x as int) < (y as int)));
    daa_sub_digits(x, y, s);
    daa_after_subtraction_form(s, f);
    let n: int = bcd_value(x) - bcd_value(y) + 100;
    assert(n == (x / 16) as int * 10 + (x % 16) as int - (y / 16) as int * 10 - (y % 16) as int
        + 100);
    assert(0 <= n % 100 < 100);
    assert(to_bcd(n % 100) as int == ((n % 100) / 10) * 16 + (n % 100) % 10);
}

/// CPL (0x2F) complements A and sets N and H; SCF (0x37) sets the carry and CCF
/// (0x3F) complements it, both clearing N and H and keeping A. Each keeps Z,
/// SP and the bus, and moves PC past the opcode.
pub proof fn lemma_flag_opcodes(s: CpuView)
    ensures
        ({
            let op = s.read(s.pc);
            let (i, t) = s.fetched();
            let u = t.execute_spec(i);
            let f = s.registers.f;
            &&& op == 0x2F ==> u.registers.a == !s.registers.a && u.registers.f.subtract
                && u.registers.f.half_carry && u.registers.f.carry == f.carry
            &&& op == 0x37 ==> u.registers.a == s.registers.a && u.registers.f.carry
                && !u.registers.f.subtract && !u.registers.f.half_carry
            &&& op == 0x3F ==> u.registers.a == s.registers.a && u.registers.f.carry == !f.carry
                && !u.registers.f.subtract && !u.registers.f.half_carry
            &&& (op == 0x2F || op == 0x37 || op == 0x3F) ==> u.registers.f.zero == f.zero && u.pc
                == wrap16(s.pc + 1) && u.sp == s.sp && u.bus == s.bus && u.registers.b
                == s.registers.b
        }),
{
    let op = s.read(s.pc);
    let next = s.read(wrap16(s.pc + 1));
    let t = s.advance(1);
    reveal(CpuView::execute_spec);
    reveal(CpuView::plain_group_spec);
    if op == 0x2F {
        lemma_decode(op, next, Instruction::CPL);
    } else if op == 0x37 {
        lemma_decode(op, next, Instruction::SCF);
    } else if op == 0x3F {
        lemma_decode(op, next, Instruction::CCF);
    }
}

/// The indirect stores of A: 0x02 and 0x12 store A at (BC) and (DE), 0x22 and
/// 0x32 at (HL) and then step HL up or down by one. Each moves PC past the
/// opcode and leaves A, SP and the flags as they were.
#[verifier::rlimit(40)]
pub proof fn lemma_indirect_store_opcodes(s: CpuView)
    ensures
        ({
            let op = s.read(s.pc);
            let (i, t) = s.fetched();
            let u = t.execute_spec(i);
            let r = s.registers;
            &&& op == 0x02 ==> u.bus == s.bus.write(r.bc(), r.a) && u.registers == r
            &&& op == 0x12 ==> u.bus == s.bus.write(r.de(), r.a) && u.registers == r
            &&& op == 0x22 ==> u.bus == s.bus.write(r.hl(), r.a) && u.registers.hl() == wrap16(
                r.hl() + 1,
            )
            &&& op == 0x32 ==> u.bus == s.bus.write(r.hl(), r.a) && u.registers.hl() == wrap16(
                r.hl() - 1,
            )
            &&& (op == 0x02 || op == 0x12 || op == 0x22 || op == 0x32) ==> u.pc == wrap16(s.pc + 1)
                && u.sp == s.sp && u.registers.f == r.f && u.registers.a == r.a
        }),
{
    let op = s.read(s.pc);
    let next = s.read(wrap16(s.pc + 1));
    let r = s.registers;
    reveal(CpuView::execute_spec);
    reveal(CpuView::data_group_spec);
    reveal(CpuView::load_spec);
    reveal(CpuView::load_plain_spec);
    if op == 0x02 {
        lemma_decode(op, next, Instruction::LD(LoadTarget::BCIndirectFromA));
    } else if op == 0x12 {
        lemma_decode(op, next, Instruction::LD(LoadTarget::DEIndirectFromA));
    } else if op == 0x22 {
        lemma_decode(op, next, Instruction::LD(LoadTarget::HLIndirectFromAInc));
        lemma_pair_round_trip(r, wrap16(r.hl() + 1));
    } else if op == 0x32 {
        lemma_decode(op, next, Instruction::LD(LoadTarget::HLIndirectFromADec));
        lemma_pair_round_trip(r, wrap16(r.hl() - 1));
    }
}

/// The indirect loads of A: 0x0A and 0x1A load A from (BC) and (DE), 0x2A and
/// 0x3A from (HL) and then step HL up or down by one. Each moves PC past the
/// opcode and leaves the bus, SP and the flags as they were.
#[verifier::rlimit(40)]
pub proof fn lemma_indirect_load_opcodes(s: CpuView)
    ensures
        ({
            let op = s.read(s.pc);
            let (i, t) = s.fetched();
            let u = t.execute_spec(i);
            let r = s.registers;
            &&& op == 0x0A ==> u.registers.a == s.read(r.bc())
            &&& op == 0x1A ==> u.registers.a == s.read(r.de())
            &&& op == 0x2A ==> u.registers.a == s.read(r.hl()) && u.registers.hl() == wrap16(
                r.hl() + 1,
            )
            &&& op == 0x3A ==> u.registers.a == s.read(r.hl()) && u.registers.hl() == wrap16(
                r.hl() - 1,
            )
            &&& (op == 0x0A || op == 0x1A || op == 0x2A || op == 0x3A) ==> u.pc == wrap16(s.pc + 1)
                && u.sp == s.sp && u.registers.f == r.f && u.bus == s.bus
        }),
{
    let op = s.read(s.pc);
    let next = s.read(wrap16(s.pc + 1));
    let r = s.registers;
    reveal(CpuView::execute_spec);
    reveal(CpuView::data_group_spec);
    reveal(CpuView::load_spec);
    reveal(CpuView::load_plain_spec);
    if op == 0x0A {
        lemma_decode(op, next, Instruction::LD(LoadTarget::AFromBCIndirect));
    } else if op == 0x1A {
        lemma_decode(op, next, Instruction::LD(LoadTarget::AFromDEIndirect));
    } else if op == 0x2A {
        lemma_decode(op, next, Instruction::LD(LoadTarget::AFromHLIndirectInc));
        lemma_pair_round_trip(Registers { a: s.read(r.hl()), ..r }, wrap16(r.hl() + 1));
    } else if op == 0x3A {
        lemma_decode(op, next, Instruction::LD(LoadTarget::AFromHLIndirectDec));
        lemma_pair_round_trip(Registers { a: s.read(r.hl()), ..r }, wrap16(r.hl() - 1));
    }
}

/// The high-page loads: 0xE0 stores A at 0xFF00 plus the byte after the opcode
/// and 0xF0 loads A from there; 0xE2 and 0xF2 do the same at 0xFF00 plus C.
/// The immediate forms move PC past two bytes, the others past one; SP and the
/// flags are kept.
#[verifier::rlimit(40)]
pub proof fn lemma_high_page_opcodes(s: CpuView)
    ensures
        ({
            let op = s.read(s.pc);
            let (i, t) = s.fetched();
            let u = t.execute_spec(i);
            let r = s.registers;
            let n = s.read(wrap16(s.pc + 1));
            &&& op == 0xE0 ==> u.bus == s.bus.write((0xFF00 + n) as u16, r.a) && u.registers == r
                && u.pc == wrap16(s.pc + 2)
            &&& op == 0xF0 ==> u.bus == s.bus && u.registers.a == s.read((0xFF00 + n) as u16)
                && u.pc == wrap16(s.pc + 2)
            &&& op == 0xE2 ==> u.bus == s.bus.write((0xFF00 + r.c) as u16, r.a) && u.registers == r
                && u.pc == wrap16(s.pc + 1)
            &&& op == 0xF2 ==> u.bus == s.bus && u.registers.a == s.read((0xFF00 + r.c) as u16)
                && u.pc == wrap16(s.pc + 1)
            &&& (op == 0xE0 || op == 0xF0 || op == 0xE2 || op == 0xF2) ==> u.sp == s.sp
                && u.registers.f == r.f
        }),
{
    let op = s.read(s.pc);
    let next = s.read(wrap16(s.pc + 1));
    reveal(CpuView::execute_spec);
    reveal(CpuView::data_group_spec);
    reveal(CpuView::ldh_spec);
    lemma_wrap16(s.pc + 1);
    lemma_wrap16(wrap16(s.pc + 1) + 1);
    lemma_wrap16(s.pc + 2);
    if op == 0xE0 {
        lemma_decode(op, next, Instruction::LDH(LDHTarget::A8FromA));
    } else if op == 0xF0 {
        lemma_decode(op, next, Instruction::LDH(LDHTarget::AFromA8));
    } else if op == 0xE2 {
        lemma_decode(op, next, Instruction::LDH(LDHTarget::CFromA));
    } else if op == 0xF2 {
        lemma_decode(op, next, Instruction::LDH(LDHTarget::AFromC));
    }
}

/// DAA (0x27) replaces A and the flags with the decimal adjustment of A after
/// the flags (see `lemma_daa_after_add` and `lemma_daa_after_sub`), and moves
/// PC past the opcode.
pub proof fn lemma_daa_opcode(s: CpuView)
    requires
        s.read(s.pc) == 0x27,
    ensures
        ({
            let (i, t) = s.fetched();
            let u = t.execute_spec(i);
            &&& (u.registers.a, u.registers.f) == alu_daa(s.registers.a, s.registers.f)
            &&& u.pc == wrap16(s.pc + 1) && u.sp == s.sp && u.bus == s.bus
            &&& u.registers.b == s.registers.b && u.registers.h == s.registers.h
        }),
{
    reveal(CpuView::execute_spec);
    reveal(CpuView::plain_group_spec);
    lemma_decode(0x27, s.read(wrap16(s.pc + 1)), Instruction::DAA);
}

/// The condition that bits 4-3 of a conditional jump, call or return select:
/// NZ, Z, NC, C.
pub open spec fn condition_code(c: JumpCondition) -> int {
    match c {
        JumpCondition::NotZero => 0,
        JumpCondition::Zero => 1,
        JumpCondition::NotCarry => 2,
        JumpCondition::Carry => 3,
        JumpCondition::Always => 4,
    }
}

/// The opcode columns that carry a register in bits 5-3: 0x04 + 8k is INC and
/// 0x05 + 8k DEC of the 8-bit operand with register code k, 0x06 + 8k loads it
/// from an immediate byte, and 0xC7 + 8k is RST to address 8k.
pub proof fn lemma_register_column_opcodes(k: u8)
    requires
        k < 8,
    ensures
        decode_other((0x04 + 8 * k) as u8) is INC,
        incdec_code(decode_other((0x04 + 8 * k) as u8)->INC_0) == Some(k as int),
        decode_other((0x05 + 8 * k) as u8) is DEC,
        incdec_code(decode_other((0x05 + 8 * k) as u8)->DEC_0) == Some(k as int),
        decode_other((0x06 + 8 * k) as u8) is LD,
        ld_imm(decode_other((0x06 + 8 * k) as u8)->LD_0) == Some(k as int),
        decode_other((0xC7 + 8 * k) as u8) == Instruction::RST((8 * k) as u8),
{
    if k == 0 {
    } else if k == 1 {
    } else if k == 2 {
    } else if k == 3 {
    } else if k == 4 {
    } else if k == 5 {
    } else if k == 6 {
    } else {
    }
}

/// The conditional opcodes select their condition with bits 4-3 (NZ, Z, NC, C):
/// 0x20 + 8c is JR, 0xC0 + 8c RET, 0xC2 + 8c JP and 0xC4 + 8c CALL on condition c.
pub proof fn lemma_condition_opcodes(c: u8)
    requires
        c < 4,
    ensures
        decode_other((0x20 + 8 * c) as u8) is JR,
        condition_code(decode_other((0x20 + 8 * c) as u8)->JR_0) == c,
        decode_other((0xC0 + 8 * c) as u8) is RET,
        condition_code(decode_other((0xC0 + 8 * c) as u8)->RET_0) == c,
        decode_other((0xC2 + 8 * c) as u8) is JP,
        condition_code(decode_other((0xC2 + 8 * c) as u8)->JP_0) == c,
        decode_other((0xC4 + 8 * c) as u8) is CALL,
        condition_code(decode_other((0xC4 + 8 * c) as u8)->CALL_0) == c,
{
    if c == 0 {
    } else if c == 1 {
    } else if c == 2 {
    } else {
    }
}

/// The 16-bit register that bits 5-4 of a 16-bit opcode select: BC, DE, HL, then
/// SP (AF for PUSH and POP).
pub open spec fn pair_code(i: Instruction) -> int {
    match i {
        Instruction::LD(LoadTarget::BCFromD16) => 0,
        Instruction::LD(LoadTarget::DEFromD16) => 1,
        Instruction::LD(LoadTarget::HLFromD16) => 2,
        Instruction::LD(LoadTarget::SPFromD16) => 3,
        Instruction::INC(IncDecTarget::BC) => 0,
        Instruction::INC(IncDecTarget::DE) => 1,
        Instruction::INC(IncDecTarget::HL) => 2,
        Instruction::INC(IncDecTarget::SP) => 3,
        Instruction::DEC(IncDecTarget::BC) => 0,
        Instruction::DEC(IncDecTarget::DE) => 1,
        Instruction::DEC(IncDecTarget::HL) => 2,
        Instruction::DEC(IncDecTarget::SP) => 3,
        Instruction::ADDHL(WideTarget::BC) => 0,
        Instruction::ADDHL(WideTarget::DE) => 1,
        Instruction::ADDHL(WideTarget::HL) => 2,
        Instruction::ADDHL(WideTarget::SP) => 3,
        Instruction::PUSH(StackTarget::BC) => 0,
        Instruction::PUSH(StackTarget::DE) => 1,
        Instruction::PUSH(StackTarget::HL) => 2,
        Instruction::PUSH(StackTarget::AF) => 3,
        Instruction::POP(StackTarget::BC) => 0,
        Instruction::POP(StackTarget::DE) => 1,
        Instruction::POP(StackTarget::HL) => 2,
        Instruction::POP(StackTarget::AF) => 3,
        _ => -1,
    }
}

/// The 16-bit opcode columns select their register with bits 5-4: 0x01 + 16p
/// loads it from an immediate word, 0x03 + 16p increments it, 0x0B + 16p
/// decrements it, 0x09 + 16p adds it to HL, 0xC1 + 16p pops and 0xC5 + 16p
/// pushes it.
pub proof fn lemma_pair_column_opcodes(p: u8)
    requires
        p < 4,
    ensures
        decode_other((0x01 + 16 * p) as u8) is LD && pair_code(decode_other((0x01 + 16 * p) as u8))
            == p,
        decode_other((0x03 + 16 * p) as u8) is INC && pair_code(decode_other((0x03 + 16 * p) as u8))
            == p,
        decode_other((0x0B + 16 * p) as u8) is DEC && pair_code(decode_other((0x0B + 16 * p) as u8))
            == p,
        decode_other((0x09 + 16 * p) as u8) is ADDHL && pair_code(
            decode_other((0x09 + 16 * p) as u8),
        ) == p,
        decode_other((0xC1 + 16 * p) as u8) is POP && pair_code(decode_other((0xC1 + 16 * p) as u8))
            == p,
        decode_other((0xC5 + 16 * p) as u8) is PUSH && pair_code(decode_other((0xC5 + 16 * p) as u8))
            == p,
{
    if p == 0 {
    } else if p == 1 {
    } else if p == 2 {
    } else {
    }
}

/// The operation number (0-7) of an 8-bit arithmetic or logic instruction: ADD,
/// ADC, SUB, SBC, AND, XOR, OR, CP.
pub open spec fn alu_op_number(i: Instruction) -> int {
    match i {
        Instruction::ADD(_) => 0,
        Instruction::ADC(_) => 1,
        Instruction::SUB(_) => 2,
        Instruction::SBC(_) => 3,
        Instruction::AND(_) => 4,
        Instruction::XOR(_) => 5,
        Instruction::OR(_) => 6,
        Instruction::CP(_) => 7,
        _ => -1,
    }
}

/// The operand of an 8-bit arithmetic or logic instruction.
pub open spec fn alu_operand(i: Instruction) -> Option<ArithmeticTarget> {
    match i {
        Instruction::ADD(t) => Some(t),
        Instruction::ADC(t) => Some(t),
        Instruction::SUB(t) => Some(t),
        Instruction::SBC(t) => Some(t),
        Instruction::AND(t) => Some(t),
        Instruction::XOR(t) => Some(t),
        Instruction::OR(t) => Some(t),
        Instruction::CP(t) => Some(t),
        _ => None,
    }
}

/// The immediate forms of the arithmetic and logic operations sit at 0xC6 + 8k,
/// k the same operation number as in the register block 0x80 + 8k (so 0xC6 is
/// ADD A,d8 and 0xFE is CP d8).
pub proof fn lemma_alu_immediate_opcodes(k: u8, next: u8, i: Instruction)
    requires
        k < 8,
        decoded((0x80 + 8 * k) as u8, next, i),
    ensures
        alu_op_number(decode_other((0xC6 + 8 * k) as u8)) == alu_op_number(i) == k,
        alu_operand(decode_other((0xC6 + 8 * k) as u8)) == Some(ArithmeticTarget::D8),
{
    if k == 0 {
    } else if k == 1 {
    } else if k == 2 {
    } else if k == 3 {
    } else if k == 4 {
    } else if k == 5 {
    } else if k == 6 {
    } else {
    }
}

/// The accumulator rotates 0x07, 0x0F, 0x17 and 0x1F (RLCA, RRCA, RLA, RRA) are
/// the rotations that the CB-prefixed opcodes 0x07, 0x0F, 0x17 and 0x1F apply to A.
pub proof fn lemma_accumulator_rotate_opcodes(k: u8)
    requires
        k < 4,
    ensures
        cb_decoded((8 * k + 7) as u8, decode_other((0x07 + 8 * k) as u8)),
{
    if k == 0 {
    } else if k == 1 {
    } else if k == 2 {
    } else {
    }
}

/// What the unconditional control opcodes do, from any state: NOP (0x00) only
/// moves PC past it; HALT (0x76) halts; JP (0xC3) jumps to the word after the
/// opcode; CALL (0xCD) jumps there with SP down by two; RET (0xC9) takes PC from
/// the top of the stack with SP up by two; DI (0xF3) clears IME; EI (0xFB)
/// schedules it and leaves IME as it is.
pub proof fn lemma_control_opcodes(s: CpuView)
    ensures
        ({
            let op = s.read(s.pc);
            let (i, t) = s.fetched();
            let u = t.execute_spec(i);
            let target = pair(s.read(wrap16(s.pc + 2)), s.read(wrap16(s.pc + 1)));
            &&& op == 0x00 ==> u == s.advance(1)
            &&& op == 0x76 ==> u.halted && u.pc == wrap16(s.pc + 1)
            &&& op == 0xC3 ==> u.pc == target && u.sp == s.sp
            &&& op == 0xCD ==> u.pc == target && u.sp == wrap16(s.sp - 2)
            &&& op == 0xC9 ==> u.pc == s.top_of_stack() && u.sp == wrap16(s.sp + 2)
            &&& op == 0xF3 ==> !u.ime && u.pc == wrap16(s.pc + 1)
            &&& op == 0xFB ==> u.ei_delay && u.ime == s.ime && u.pc == wrap16(s.pc + 1)
        }),
{
    let op = s.read(s.pc);
    let next = s.read(wrap16(s.pc + 1));
    reveal(CpuView::execute_spec);
    reveal(CpuView::plain_group_spec);
    reveal(CpuView::flow_group_spec);
    lemma_wrap16(s.pc + 1);
    lemma_wrap16(s.pc + 2);
    lemma_wrap16(s.pc + 3);
    lemma_wrap16(wrap16(s.pc + 1) + 1);
    lemma_wrap16(wrap16(s.pc + 1) + 2);
    if op == 0x00 {
        lemma_decode(op, next, Instruction::NOP);
    } else if op == 0x76 {
        lemma_decode(op, next, Instruction::HALT);
    } else if op == 0xC3 {
        lemma_decode(op, next, Instruction::JP(JumpCondition::Always));
        reveal(CpuView::jp_spec);
    } else if op == 0xCD {
        lemma_decode(op, next, Instruction::CALL(JumpCondition::Always));
        reveal(CpuView::call_spec);
    } else if op == 0xC9 {
        lemma_decode(op, next, Instruction::RET(JumpCondition::Always));
        reveal(CpuView::ret_spec);
    } else if op == 0xF3 {
        lemma_decode(op, next, Instruction::DI);
    } else if op == 0xFB {
        lemma_decode(op, next, Instruction::EI);
    }
}

/// The rotates, shifts and SWAP as bit operations on the operand `v` and the
/// incoming carry `c` (RLC, RRC, RL, RR, SLA, SRA, SWAP, SRL in that order),
/// with the bit that each shifts out as the new carry (SWAP clears it).
pub proof fn lemma_shift_bits(v: u8, c: bool)
    ensures
        shift_result(0, v, c) == ((v << 1u8) | (v >> 7u8), v & 0x80 != 0),
        shift_result(1, v, c) == ((v >> 1u8) | (v << 7u8), v & 1 != 0),
        shift_result(2, v, c) == ((v << 1u8) | (if c { 1u8 } else { 0u8 }), v & 0x80 != 0),
        shift_result(3, v, c) == ((v >> 1u8) | (if c { 0x80u8 } else { 0u8 }), v & 1 != 0),
        shift_result(4, v, c) == (v << 1u8, v & 0x80 != 0),
        shift_result(5, v, c) == ((v >> 1u8) | (v & 0x80), v & 1 != 0),
        shift_result(6, v, c) == ((v << 4u8) | (v >> 4u8), false),
        shift_result(7, v, c) == (v >> 1u8, v & 1 != 0),
{
    lemma_wrap8(2 * v);
    assert({
        &&& (2 * v as int) % 256 == (v << 1u8) as int
        &&& (v << 1u8) & 1 == 0
        &&& ((v << 1u8) | (v >> 7u8)) as int == (v << 1u8) as int + (v >> 7u8) as int
        &&& (v >> 7u8) as int == (if v >= 0x80 { 1int } else { 0int })
        &&& ((v << 1u8) | 1u8) as int == (v << 1u8) as int + 1
        &&& ((v << 1u8) | 0u8) == (v << 1u8)
        &&& (v >> 1u8) as int == v as int / 2
        &&& ((v >> 1u8) | (v << 7u8)) as int == (v >> 1u8) as int + (if v % 2 == 1 { 0x80int } else {
            0int
        })
        &&& ((v >> 1u8) | 0x80u8) as int == (v >> 1u8) as int + 0x80
        &&& ((v >> 1u8) | 0u8) == (v >> 1u8)
        &&& ((v >> 1u8) | (v & 0x80)) as int == (v >> 1u8) as int + (if v >= 0x80 { 0x80int } else {
            0int
        })
        &&& ((v << 4u8) | (v >> 4u8)) as int == (v % 16) as int * 16 + (v / 16) as int
        &&& (v & 0x80 != 0) == (v >= 0x80)
        &&& (v & 1 != 0) == (v % 2 == 1)
    }) by (bit_vector);
}

/// The 8-bit additions and subtractions as arithmetic: the result and the carry
/// (or borrow) together make the exact sum (or difference), H is the carry out
/// of (or borrow into) the low nibble, and Z tells a zero result; AND, OR and
/// XOR give the bitwise result.
pub proof fn lemma_alu_arithmetic(a: u8, v: u8, c: bool)
    ensures
        ({
            let ci: int = if c { 1 } else { 0 };
            let (r, f) = alu_add(a, v);
            &&& r + (if f.carry { 256int } else { 0 }) == a + v
            &&& f.half_carry == (a % 16 + v % 16 >= 16) && f.zero == (r == 0) && !f.subtract
        }),
        ({
            let ci: int = if c { 1 } else { 0 };
            let (r, f) = alu_adc(a, v, c);
            &&& r + (if f.carry { 256int } else { 0 }) == a + v + ci
            &&& f.half_carry == (a % 16 + v % 16 + ci >= 16) && f.zero == (r == 0) && !f.subtract
        }),
        ({
            let (r, f) = alu_sub(a, v);
            &&& r - (if f.carry { 256int } else { 0 }) == a - v
            &&& f.half_carry == (a % 16 < v % 16) && f.zero == (r == 0) && f.subtract
        }),
        ({
            let ci: int = if c { 1 } else { 0 };
            let (r, f) = alu_sbc(a, v, c);
            &&& r - (if f.carry { 256int } else { 0 }) == a - v - ci
            &&& f.half_carry == (a % 16 < v % 16 + ci) && f.zero == (r == 0) && f.subtract
        }),
        alu_and(a, v).0 == a & v && alu_and(a, v).1.half_carry && !alu_and(a, v).1.carry,
        alu_or(a, v).0 == a | v && !alu_or(a, v).1.carry,
        alu_xor(a, v).0 == a ^ v && !alu_xor(a, v).1.carry,
{
    lemma_low_nibble(a);
    lemma_low_nibble(v);
    let ci: int = if c { 1 } else { 0 };
    lemma_wrap8(a + v);
    lemma_wrap8(a + v + ci);
    lemma_wrap8(a - v);
    lemma_wrap8(a - v - ci);
}

/// The interrupt serviced is the lowest-numbered one that is both enabled and
/// requested (V-blank 0 first, joypad 4 last): its vector 0x40 + 8j is jumped
/// to, only its request is cleared, and IME goes off. One is serviced exactly
/// when IME is set and some interrupt 0-4 is enabled and requested.
pub proof fn lemma_interrupt_priority(s: CpuView)
    ensures
        ({
            let pending = s.ie_register & s.if_register;
            let (handled, u) = s.interrupt_spec();
            &&& handled == (s.ime && pending & 0x1F != 0)
            &&& handled ==> exists|j: u8|
                #![trigger (1u8 << j)]
                j < 5 && pending & (1u8 << j) != 0 && (forall|k: u8|
                    k < j ==> pending & #[trigger] (1u8 << k) == 0) && u.pc == 0x40 + 8 * j
                    && u.if_register == s.if_register & !(1u8 << j) && !u.ime
        }),
{
    lemma_interrupt_masks();
    let pending = s.ie_register & s.if_register;
    assert((pending & 0x1F != 0) == (pending & 0x01 != 0 || pending & 0x02 != 0 || pending & 0x04
        != 0 || pending & 0x08 != 0 || pending & 0x10 != 0) && (pending & 0x1F != 0 ==> pending
        != 0)) by (bit_vector);
    if s.ime && pending & 0x1F != 0 {
        let j = lowest_interrupt(pending)->0;
        assert(forall|k: u8| k < j ==> pending & #[trigger] (1u8 << k) == 0) by {
            assert forall|k: u8| k < j implies pending & #[trigger] (1u8 << k) == 0 by {
                if k == 0 {
                } else if k == 1 {
                } else if k == 2 {
                } else if k == 3 {
                }
            }
        }
        assert(pending & (1u8 << j) != 0);
        let u = s.interrupt_spec().1;
        assert(u.pc == 0x40 + 8 * j);
        assert(u.if_register == s.if_register & !(1u8 << j));
        assert(j < 5 && pending & (1u8 << j) != 0 && (forall|k: u8|
            k < j ==> pending & #[trigger] (1u8 << k) == 0) && u.pc == 0x40 + 8 * j
            && u.if_register == s.if_register & !(1u8 << j) && !u.ime);
    }
}

/// The single-bit masks of interrupts 0-4.
proof fn lemma_interrupt_masks()
    ensures
        1u8 << 0u8 == 0x01,
        1u8 << 1u8 == 0x02,
        1u8 << 2u8 == 0x04,
        1u8 << 3u8 == 0x08,
        1u8 << 4u8 == 0x10,
{
    assert(1u8 << 0u8 == 0x01 && 1u8 << 1u8 == 0x02 && 1u8 << 2u8 == 0x04 && 1u8 << 3u8 == 0x08
        && 1u8 << 4u8 == 0x10) by (bit_vector);
}

impl CPU {
    /// The CB-prefixed instruction of `cb_opcode`: bits 2-0 name the operand and
    /// the rest the operation (and, for BIT, RES and SET, the bit number).
    fn decode_cb_instruction(&self, cb_opcode: u8) -> (r: Instruction)
        ensures
            cb_decoded(cb_opcode, r),
            well_formed(r),
    {
        let code = cb_opcode & 0x07;
        proof {
            assert(cb_opcode & 0x07 == cb_opcode % 8) by (bit_vector);
        }
        let target = match code {
            0 => BitTarget::B,
            1 => BitTarget::C,
            2 => BitTarget::D,
            3 => BitTarget::E,
            4 => BitTarget::H,
            5 => BitTarget::L,
            6 => BitTarget::HLIndirect,
            _ => BitTarget::A,
        };
        assert(bit_code(target) == cb_opcode % 8);
        if cb_opcode <= 0x07 {
            Instruction::RLC(target)
        } else if cb_opcode <= 0x0F {
            Instruction::RRC(target)
        } else if cb_opcode <= 0x17 {
            Instruction::RL(target)
        } else if cb_opcode <= 0x1F {
            Instruction::RR(target)
        } else if cb_opcode <= 0x27 {
            Instruction::SLA(target)
        } else if cb_opcode <= 0x2F {
            Instruction::SRA(target)
        } else if cb_opcode <= 0x37 {
            Instruction::SWAP(target)
        } else if cb_opcode <= 0x3F {
            Instruction::SRL(target)
        } else if cb_opcode <= 0x7F {
            Instruction::BIT((cb_opcode - 0x40) / 8, target)
        } else if cb_opcode <= 0xBF {
            Instruction::RES((cb_opcode - 0x80) / 8, target)
        } else {
            Instruction::SET((cb_opcode - 0xC0) / 8, target)
        }
    }

    /// The instruction of a non-prefixed opcode.
    fn decode_opcode(opcode: u8) -> (r: Instruction)
        requires
            opcode != 0xCB,
        ensures
            decoded(opcode, 0, r),
            well_formed(r),
    {
        if 0x40 <= opcode && opcode < 0x80 && opcode != 0x76 {
            Instruction::LD(load_target((opcode - 0x40) / 8, opcode % 8))
        } else if 0x80 <= opcode && opcode < 0xC0 {
            let t = arith_target(opcode % 8);
            let k = (opcode - 0x80) / 8;
            if k == 0 {
                Instruction::ADD(t)
            } else if k == 1 {
                Instruction::ADC(t)
            } else if k == 2 {
                Instruction::SUB(t)
            } else if k == 3 {
                Instruction::SBC(t)
            } else if k == 4 {
                Instruction::AND(t)
            } else if k == 5 {
                Instruction::XOR(t)
            } else if k == 6 {
                Instruction::OR(t)
            } else {
                Instruction::CP(t)
            }
        } else {
            decode_other_opcode(opcode)
        }
    }

    /// Reads the opcode at PC (and the byte after a 0xCB prefix), moves PC past
    /// them and returns the instruction they encode.
    pub fn fetch_decode(&mut self) -> (r: Instruction)
        requires
            old(self)@.bus.cart_fits(),
        ensures
            (r, final(self)@) == old(self)@.fetched(),
            decoded(old(self)@.read(old(self).pc), old(self)@.read(wrap16(old(self).pc + 1)), r),
            well_formed(r),
    {
        let ghost s0 = self@;
        let opcode = self.bus.read_byte(self.pc);
        self.pc = self.pc.wrapping_add(1);
        let r = if opcode == 0xCB {
            let cb_opcode = self.bus.read_byte(self.pc);
            self.pc = self.pc.wrapping_add(1);
            proof {
                lemma_wrap16(s0.pc + 1);
                lemma_wrap16(s0.pc + 2);
                lemma_wrap16(wrap16(s0.pc + 1) + 1);
            }
            self.decode_cb_instruction(cb_opcode)
        } else {
            Self::decode_opcode(opcode)
        };
        proof {
            lemma_decode(opcode, s0.read(wrap16(s0.pc + 1)), r);
        }
        r
    }

    /// ADD HL,rr.
    pub(crate) fn add_hl(&mut self, t: WideTarget)
        ensures
            final(self)@ == old(self)@.add_hl_spec(t),
    {
        let hl = self.registers.get_hl();
        let v = match t {
            WideTarget::BC => self.registers.get_bc(),
            WideTarget::DE => self.registers.get_de(),
            WideTarget::HL => self.registers.get_hl(),
            WideTarget::SP => self.sp,
        };
        proof {
            assert(hl & 0x0FFF == hl % 0x1000 && v & 0x0FFF == v % 0x1000) by (bit_vector);
            lemma_wrap16(hl + v);
        }
        let half_carry = (hl & 0x0FFF) + (v & 0x0FFF) > 0x0FFF;
        let carry = (hl as u32) + (v as u32) > 0xFFFF;
        self.registers.set_hl(hl.wrapping_add(v));
        self.registers.f.subtract = false;
        self.registers.f.half_carry = half_carry;
        self.registers.f.carry = carry;
    }

    /// SP plus the signed immediate byte (which PC moves past), and the flags.
    fn sp_plus_offset(&mut self) -> (r: (u16, FlagsRegister))
        requires
            old(self)@.bus.cart_fits(),
        ensures
            r == old(self)@.sp_offset(),
            final(self)@ == old(self)@.advance(1),
    {
        let e = self.bus.read_byte(self.pc);
        self.pc = self.pc.wrapping_add(1);
        let sp = self.sp;
        let result = if e < 128 {
            sp.wrapping_add(e as u16)
        } else {
            sp.wrapping_sub(256 - e as u16)
        };
        proof {
            lemma_wrap16(sp + signed8(e));
            assert(sp & 0x0F == sp % 16 && sp & 0xFF == sp % 256 && e & 0x0F == e % 16)
                by (bit_vector);
        }
        assert(self@.sp == sp);
        let flags = FlagsRegister {
            zero: false,
            subtract: false,
            half_carry: (sp & 0x0F) + ((e & 0x0F) as u16) > 0x0F,
            carry: (sp & 0xFF) + (e as u16) > 0xFF,
        };
        (result, flags)
    }

    /// ADD SP,e.
    pub(crate) fn add_sp(&mut self)
        requires
            old(self)@.bus.cart_fits(),
        ensures
            final(self)@ == old(self)@.add_sp_spec(),
    {
        let (v, f) = self.sp_plus_offset();
        self.sp = v;
        self.registers.f = f;
    }

    /// LD HL,SP+e.
    pub(crate) fn load_hl_sp_offset(&mut self)
        requires
            old(self)@.bus.cart_fits(),
        ensures
            final(self)@ == old(self)@.hl_from_sp_spec(),
    {
        let (v, f) = self.sp_plus_offset();
        self.registers.set_hl(v);
        self.registers.f = f;
    }

    /// LD (a16),SP.
    pub(crate) fn store_sp(&mut self)
        requires
            old(self)@.bus.cart_fits(),
        ensures
            final(self)@ == old(self)@.sp_store_spec(),
            final(self)@.bus.cart_fits(),
            final(self)@.ppu_timing() == old(self)@.ppu_timing(),
    {
        let ghost s0 = self@;
        let low = self.bus.read_byte(self.pc);
        let high = self.bus.read_byte(self.pc.wrapping_add(1));
        proof {
            lemma_wrap16(s0.pc + 1);
            lemma_wrap16(s0.pc + 2);
        }
        let address = ((high as u16) << 8) | (low as u16);
        proof {
            assert(((high as u16) << 8) | (low as u16) == high * 256 + low) by (bit_vector);
        }
        self.pc = self.pc.wrapping_add(2);
        let sp = self.sp;
        proof {
            assert((sp & 0xFF) as u8 == sp % 256 && (sp >> 8) as u8 == sp / 256) by (bit_vector);
        }
        self.bus.write_byte(address, (sp & 0xFF) as u8);
        proof {
            lemma_wrap16(address + 1);
        }
        self.bus.write_byte(address.wrapping_add(1), (sp >> 8) as u8);
    }

    /// Requests interrupt `interrupt_bit` in IF.
    fn request_interrupt(&mut self, interrupt_bit: u8)
        requires
            interrupt_bit < 8,
        ensures
            final(self)@ == (CpuView {
                if_register: old(self).if_register | (1u8 << interrupt_bit),
                ..old(self)@
            }),
    {
        self.if_register = self.if_register | (1u8 << interrupt_bit);
    }

    /// Services interrupt `interrupt_bit`: IME cleared, its request cleared, PC
    /// pushed and set to the interrupt's vector.
    fn handle_interrupt(&mut self, interrupt_bit: u8)
        requires
            interrupt_bit < 5,
            old(self)@.bus.cart_fits(),
        ensures
            final(self)@ == old(self)@.serviced(interrupt_bit),
            final(self)@.bus.cart_fits(),
            final(self)@.ppu_timing() == old(self)@.ppu_timing(),
    {
        let ghost s0 = self@;
        self.ime = false;
        self.if_register = self.if_register & !(1u8 << interrupt_bit);
        let pc = self.pc;
        let high = ((pc & 0xFF00) >> 8) as u8;
        let low = (pc & 0xFF) as u8;
        proof {
            assert(high == pc / 256 && low == pc % 256) by (bit_vector)
                requires
                    high == ((pc & 0xFF00) >> 8) as u8,
                    low == (pc & 0xFF) as u8,
            ;
        }
        self.sp = self.sp.wrapping_sub(1);
        self.bus.write_byte(self.sp, high);
        self.sp = self.sp.wrapping_sub(1);
        self.bus.write_byte(self.sp, low);
        self.pc = if interrupt_bit == 0 {
            0x40
        } else if interrupt_bit == 1 {
            0x48
        } else if interrupt_bit == 2 {
            0x50
        } else if interrupt_bit == 3 {
            0x58
        } else {
            0x60
        };
        assert(self@ == s0.serviced(interrupt_bit));
    }

    /// Services the lowest-numbered interrupt that is both enabled and requested,
    /// if IME is set; any such interrupt wakes a halted CPU. Returns whether one
    /// was serviced.
    fn check_and_handle_interrupts(&mut self) -> (r: bool)
        requires
            old(self)@.bus.cart_fits(),
        ensures
            (r, final(self)@) == old(self)@.interrupt_spec(),
            final(self)@.bus.cart_fits(),
            final(self)@.ppu_timing() == old(self)@.ppu_timing(),
    {
        let pending = self.ie_register & self.if_register;
        if pending == 0 {
            return false;
        }
        if self.halted {
            self.halted = false;
            if !self.ime {
                return false;
            }
        }
        if !self.ime {
            return false;
        }
        let ghost s1 = self@;
        proof {
            lemma_interrupt_masks();
        }
        let mut i: u8 = 0;
        while i < 5
            invariant
                i <= 5,
                self@ == s1,
                s1 == (CpuView { halted: false, ..old(self)@ }),
                old(self).ime,
                pending != 0,
                s1.bus.cart_fits(),
                pending == s1.ie_register & s1.if_register,
                forall|j: u8| j < i ==> pending & (1u8 << j) == 0,
                1u8 << 0u8 == 0x01,
                1u8 << 1u8 == 0x02,
                1u8 << 2u8 == 0x04,
                1u8 << 3u8 == 0x08,
                1u8 << 4u8 == 0x10,
            decreases 5 - i,
        {
            if pending & (1u8 << i) != 0 {
                assert(pending & (1u8 << 0u8) == 0 ==> i != 0);
                assert(lowest_interrupt(pending) == Some(i)) by {
                    if i > 0 {
                        assert(pending & (1u8 << 0u8) == 0);
                    }
                    if i > 1 {
                        assert(pending & (1u8 << 1u8) == 0);
                    }
                    if i > 2 {
                        assert(pending & (1u8 << 2u8) == 0);
                    }
                    if i > 3 {
                        assert(pending & (1u8 << 3u8) == 0);
                    }
                }
                self.handle_interrupt(i);
                return true;
            }
            i = i + 1;
        }
        assert(lowest_interrupt(pending) is None) by {
            assert(pending & (1u8 << 0u8) == 0);
            assert(pending & (1u8 << 1u8) == 0);
            assert(pending & (1u8 << 2u8) == 0);
            assert(pending & (1u8 << 3u8) == 0);
            assert(pending & (1u8 << 4u8) == 0);
        }
        false
    }
}

impl CPU {
    /// Runs the devices on the bus for the step's cycles (8 while the boot ROM
    /// waits for V-blank, 4 otherwise) and requests the interrupts they raise.
    /// Requests the interrupts that the devices raised.
    fn request_interrupts(&mut self, vblank: bool, stat: bool, timer: bool, joypad: bool)
        ensures
            final(self)@ == (CpuView {
                if_register: old(self).if_register | raised(vblank, stat, timer, joypad),
                ..old(self)@
            }),
    {
        proof {
            lemma_interrupt_masks();
        }
        let ghost s0 = self@;
        let ghost x = self.if_register;
        let ghost a: u8 = if vblank { 0x01 } else { 0 };
        let ghost b: u8 = if stat { 0x02 } else { 0 };
        let ghost c: u8 = if timer { 0x04 } else { 0 };
        let ghost d: u8 = if joypad { 0x10 } else { 0 };
        proof {
            assert(x | 0 == x && (x | a) | 0 == x | a && ((x | a) | b) | 0 == (x | a) | b && (((x
                | a) | b) | c) | 0 == ((x | a) | b) | c) by (bit_vector);
        }
        if vblank {
            self.request_interrupt(0);
        }
        assert(self@ == (CpuView { if_register: x | a, ..s0 }));
        if stat {
            self.request_interrupt(1);
        }
        assert(self@ == (CpuView { if_register: (x | a) | b, ..s0 }));
        if timer {
            self.request_interrupt(2);
        }
        assert(self@ == (CpuView { if_register: ((x | a) | b) | c, ..s0 }));
        if joypad {
            self.request_interrupt(4);
        }
        assert(self@ == (CpuView { if_register: (((x | a) | b) | c) | d, ..s0 }));
        proof {
            assert((((x | a) | b) | c) | d == x | (a | b | c | d)) by (bit_vector);
        }
    }

    /// Runs the devices on the bus for the step's cycles (8 while the boot ROM
    /// waits for V-blank, 4 otherwise) and requests the interrupts they raise.
    fn update_interrupt_flags(&mut self)
        requires
            old(self)@.bus.ppu.step_ok(old(self)@.step_cycles()),
        ensures
            final(self)@ == old(self)@.devices_stepped(),
    {
        let ghost s0 = self@;
        self.bus.ie_register = self.ie_register;
        self.bus.if_register = self.if_register;
        let cycles: u32 = if self.bus.boot_rom_enabled && (self.pc >= 0x0064 && self.pc <= 0x0069) {
            8
        } else {
            4
        };
        assert(cycles == s0.step_cycles());
        assert(self.bus@ == s0.synced_bus());
        let (vblank_interrupt, stat_interrupt, timer_interrupt, joypad_interrupt) = self.bus.step(
            cycles,
        );
        let ghost stepped_bus = self.bus@;
        self.request_interrupts(vblank_interrupt, stat_interrupt, timer_interrupt, joypad_interrupt);
        assert(self.bus@ == stepped_bus);
        self.bus.ie_register = self.ie_register;
        self.bus.if_register = self.if_register;
        assert(self.if_register == s0.devices_stepped().if_register);
    }

    /// One step: an interrupt is serviced (and nothing else happens), or a halted
    /// CPU waits, or one instruction runs; in the last two cases the devices then
    /// run, and an EI that ran in the step before enables interrupts at the end.
    pub fn step(&mut self)
        requires
            old(self)@.step_ok(),
        ensures
            final(self)@ == old(self)@.step_spec(),
    {
        let ghost s0 = self@;
        let enable_pending = self.ei_delay;
        if self.check_and_handle_interrupts() {
            self.ei_delay = false;
            return;
        }
        if self.halted {
            self.update_interrupt_flags();
        } else {
            let ghost s1 = self@;
            let instruction = self.fetch_decode();
            self.execute(instruction);
            proof {
                assert(s0.before_devices() == Some(self@)) by {
                    assert(s0.interrupt_spec().1 == s1);
                }
            }
            self.update_interrupt_flags();
        }
        if enable_pending && self.ei_delay {
            self.ime = true;
            self.ei_delay = false;
        }
    }

    /// Whether the state satisfies the invariant under which every step runs
    /// without panic: the cartridge's banks in range and the PPU's timing
    /// consistent.
    pub fn invariant_holds(&self) -> (r: bool)
        ensures
            r == self@.inv(),
    {
        let banks_fit = match &self.bus.cartridge {
            Some(c) => c.current_rom_bank <= (usize::MAX - 0x3FFF) / 0x4000
                && c.current_ram_bank <= (usize::MAX - 0x1FFF) / 0x2000,
            None => true,
        };
        let ppu = &self.bus.ppu;
        let timing = ppu.mode_clock < 456 && ppu.ly <= 153 && (ppu.stat.mode == PPUMode::VBlank
            || ppu.ly < 144);
        proof {
            let m = usize::MAX as int;
            match self@.bus.cartridge {
                Some(c) => {
                    let rb = c.current_rom_bank as int;
                    let ab = c.current_ram_bank as int;
                    assert(rb <= (m - 0x3FFF) / 0x4000 <==> rb * 0x4000 + 0x3FFF <= m)
                        by (nonlinear_arith)
                        requires m >= 0x3FFF, rb >= 0;
                    assert(ab <= (m - 0x1FFF) / 0x2000 <==> ab * 0x2000 + 0x1FFF <= m)
                        by (nonlinear_arith)
                        requires m >= 0x1FFF, ab >= 0;
                },
                None => {},
            }
        }
        banks_fit && timing
    }

    /// IE, the interrupt enable register.
    pub fn read_ie_register(&self) -> (r: u8)
        ensures
            r == self.ie_register,
    {
        self.ie_register
    }

    /// Sets IE.
    pub fn write_ie_register(&mut self, value: u8)
        ensures
            final(self)@ == (CpuView { ie_register: value, ..old(self)@ }),
    {
        self.ie_register = value;
    }

    /// IF, with its three unused top bits reading as 1.
    pub fn read_if_register(&self) -> (r: u8)
        ensures
            r == self.if_register | 0xE0,
    {
        self.if_register | 0xE0
    }

    /// Sets IF; only the low five bits are kept.
    pub fn write_if_register(&mut self, value: u8)
        ensures
            final(self)@ == (CpuView { if_register: value & 0x1F, ..old(self)@ }),
    {
        self.if_register = value & 0x1F;
    }

    /// Holds `button` down.
    pub fn press_button(&mut self, button: JoypadButton)
        ensures
            final(self)@ == (CpuView {
                bus: BusView { joypad: old(self)@.bus.joypad.after_button(button, true), ..old(self)@.bus },
                ..old(self)@
            }),
    {
        self.bus.press_button(button);
    }

    /// Lets `button` go.
    pub fn release_button(&mut self, button: JoypadButton)
        ensures
            final(self)@ == (CpuView {
                bus: BusView {
                    joypad: old(self)@.bus.joypad.after_button(button, false),
                    ..old(self)@.bus
                },
                ..old(self)@
            }),
    {
        self.bus.release_button(button);
    }

    /// Which buttons are held.
    pub fn get_joypad_state(&self) -> (r: JoypadState)
        ensures
            r == self.bus.joypad.state,
    {
        self.bus.get_joypad_state()
    }
}

} // verus!
