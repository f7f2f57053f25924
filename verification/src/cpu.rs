//! The Sharp LR35902 CPU: instruction decoding and execution, interrupts, and the
//! step that ties the CPU to the devices on the bus.
use vstd::prelude::*;
use crate::instructions::{
    ArithmeticTarget, BitTarget, IncDecTarget, Instruction, JumpCondition, LDHTarget, LoadTarget,
    StackTarget, WideTarget,
};
use crate::joypad::{JoypadButton, JoypadState};
use crate::memory::{BusView, MemoryBus};
use crate::ppu::PPUMode;
use crate::registers::{FlagsRegister, Registers, flags_of_byte, pair};

verus! {

broadcast use crate::memory::lemma_fits, crate::memory::lemma_write_keeps;

/// The CPU with the bus it drives.
pub struct CPU {
    pub registers: Registers,
    pub pc: u16,
    pub sp: u16,
    pub bus: MemoryBus,
    pub halted: bool,
    /// The interrupt master enable flag.
    pub ime: bool,
    /// Interrupt enable (IE): which interrupts may be serviced.
    pub ie_register: u8,
    /// Interrupt flags (IF): which interrupts are requested.
    pub if_register: u8,
    /// EI takes effect one instruction late; this records that it is pending.
    pub ei_delay: bool,
}

/// The state of the CPU and its bus.
pub struct CpuView {
    pub registers: Registers,
    pub pc: u16,
    pub sp: u16,
    pub bus: BusView,
    pub halted: bool,
    pub ime: bool,
    pub ie_register: u8,
    pub if_register: u8,
    pub ei_delay: bool,
}

impl View for CPU {
    type V = CpuView;

    open spec fn view(&self) -> CpuView {
        CpuView {
            registers: self.registers,
            pc: self.pc,
            sp: self.sp,
            bus: self.bus@,
            halted: self.halted,
            ime: self.ime,
            ie_register: self.ie_register,
            if_register: self.if_register,
            ei_delay: self.ei_delay,
        }
    }
}

/// `x` taken modulo 2^8.
pub open spec fn wrap8(x: int) -> u8 {
    (x % 256) as u8
}

/// `x` taken modulo 2^16.
pub open spec fn wrap16(x: int) -> u16 {
    (x % 0x10000) as u16
}

/// The flags with Z set after `r`, N, H and C as given.
pub open spec fn flags(r: u8, subtract: bool, half_carry: bool, carry: bool) -> FlagsRegister {
    FlagsRegister { zero: r == 0, subtract, half_carry, carry }
}

/// A + v: carry out of bit 7 and out of bit 3.
pub open spec fn alu_add(a: u8, v: u8) -> (u8, FlagsRegister) {
    let r = wrap8(a + v);
    (r, flags(r, false, (a & 0xF) + (v & 0xF) > 0xF, a + v > 0xFF))
}

/// A + v + carry.
pub open spec fn alu_adc(a: u8, v: u8, c: bool) -> (u8, FlagsRegister) {
    let ci: int = if c { 1 } else { 0 };
    let r = wrap8(a + v + ci);
    (r, flags(r, false, (a & 0xF) + (v & 0xF) + ci > 0xF, a + v + ci > 0xFF))
}

/// A - v: borrow out of bit 7 and out of bit 4.
pub open spec fn alu_sub(a: u8, v: u8) -> (u8, FlagsRegister) {
    let r = wrap8(a - v);
    (r, flags(r, true, (a & 0xF) < (v & 0xF), a < v))
}

/// A - v - carry.
pub open spec fn alu_sbc(a: u8, v: u8, c: bool) -> (u8, FlagsRegister) {
    let ci: int = if c { 1 } else { 0 };
    let r = wrap8(a - v - ci);
    (r, flags(r, true, (a & 0xF) < (v & 0xF) + ci, a < v + ci))
}

pub open spec fn alu_and(a: u8, v: u8) -> (u8, FlagsRegister) {
    (a & v, flags(a & v, false, true, false))
}

pub open spec fn alu_or(a: u8, v: u8) -> (u8, FlagsRegister) {
    (a | v, flags(a | v, false, false, false))
}

pub open spec fn alu_xor(a: u8, v: u8) -> (u8, FlagsRegister) {
    (a ^ v, flags(a ^ v, false, false, false))
}

/// INC of an 8-bit value: the carry flag is kept.
pub open spec fn alu_inc(v: u8, f: FlagsRegister) -> (u8, FlagsRegister) {
    let r = wrap8(v + 1);
    (r, flags(r, false, v & 0xF == 0xF, f.carry))
}

/// DEC of an 8-bit value: the carry flag is kept.
pub open spec fn alu_dec(v: u8, f: FlagsRegister) -> (u8, FlagsRegister) {
    let r = wrap8(v - 1);
    (r, flags(r, true, v & 0xF == 0, f.carry))
}

/// DAA: adjusts A to a BCD result after an addition or a subtraction.
#[verifier::opaque]
pub open spec fn alu_daa(a: u8, f: FlagsRegister) -> (u8, FlagsRegister) {
    let low = f.half_carry || (!f.subtract && (a & 0x0F) > 9);
    let high = f.carry || (!f.subtract && a > 0x99);
    let adjust: int = (if low { 0x06int } else { 0 }) + (if high { 0x60int } else { 0 });
    let r = if f.subtract {
        wrap8(a - adjust)
    } else {
        wrap8(a + adjust)
    };
    (r, FlagsRegister { zero: r == 0, half_carry: false, carry: f.carry || high, ..f })
}

/// The register code of an 8-bit operand: B 0, C 1, D 2, E 3, H 4, L 5, (HL) 6, A 7.
pub open spec fn bit_code(t: BitTarget) -> int {
    match t {
        BitTarget::B => 0,
        BitTarget::C => 1,
        BitTarget::D => 2,
        BitTarget::E => 3,
        BitTarget::H => 4,
        BitTarget::L => 5,
        BitTarget::HLIndirect => 6,
        BitTarget::A => 7,
    }
}

/// The register code of an arithmetic operand (None for an immediate byte).
pub open spec fn arith_code(t: ArithmeticTarget) -> Option<int> {
    match t {
        ArithmeticTarget::B => Some(0),
        ArithmeticTarget::C => Some(1),
        ArithmeticTarget::D => Some(2),
        ArithmeticTarget::E => Some(3),
        ArithmeticTarget::H => Some(4),
        ArithmeticTarget::L => Some(5),
        ArithmeticTarget::HLIndirect => Some(6),
        ArithmeticTarget::A => Some(7),
        ArithmeticTarget::D8 => None,
    }
}

/// The register code of an 8-bit INC/DEC operand (None for a 16-bit pair).
pub open spec fn incdec_code(t: IncDecTarget) -> Option<int> {
    match t {
        IncDecTarget::B => Some(0),
        IncDecTarget::C => Some(1),
        IncDecTarget::D => Some(2),
        IncDecTarget::E => Some(3),
        IncDecTarget::H => Some(4),
        IncDecTarget::L => Some(5),
        IncDecTarget::HLIndirect => Some(6),
        IncDecTarget::A => Some(7),
        _ => None,
    }
}

/// The bit number of a BIT, RES or SET instruction is below 8.
pub open spec fn well_formed(i: Instruction) -> bool {
    match i {
        Instruction::BIT(b, _) => b < 8,
        Instruction::RES(b, _) => b < 8,
        Instruction::SET(b, _) => b < 8,
        _ => true,
    }
}

impl CpuView {
    /// The PPU's line, mode and mode clock: what its timing invariant is about.
    pub open spec fn ppu_timing(self) -> (u8, PPUMode, u32) {
        (self.bus.ppu.ly, self.bus.ppu.stat.mode, self.bus.ppu.mode_clock)
    }

    pub open spec fn read(self, address: u16) -> u8 {
        self.bus.read(address)
    }

    pub open spec fn write(self, address: u16, value: u8) -> CpuView {
        CpuView { bus: self.bus.write(address, value), ..self }
    }

    pub open spec fn with_registers(self, r: Registers) -> CpuView {
        CpuView { registers: r, ..self }
    }

    pub open spec fn with_flags(self, f: FlagsRegister) -> CpuView {
        CpuView { registers: Registers { f, ..self.registers }, ..self }
    }

    /// A and the flags set from an ALU result.
    pub open spec fn with_a_flags(self, r: (u8, FlagsRegister)) -> CpuView {
        CpuView { registers: Registers { a: r.0, f: r.1, ..self.registers }, ..self }
    }

    /// The program counter moved on by `n` bytes.
    pub open spec fn advance(self, n: int) -> CpuView {
        CpuView { pc: wrap16(self.pc + n), ..self }
    }

    /// The byte after the program counter.
    pub open spec fn imm8(self) -> u8 {
        self.read(self.pc)
    }

    /// The little-endian word after the program counter.
    pub open spec fn imm16(self) -> u16 {
        pair(self.read(wrap16(self.pc + 1)), self.read(self.pc))
    }

    /// The 8-bit operand with register code `code`.
    #[verifier::opaque]
    pub open spec fn get_r8(self, code: int) -> u8 {
        let r = self.registers;
        if code == 0 {
            r.b
        } else if code == 1 {
            r.c
        } else if code == 2 {
            r.d
        } else if code == 3 {
            r.e
        } else if code == 4 {
            r.h
        } else if code == 5 {
            r.l
        } else if code == 6 {
            self.read(r.hl())
        } else {
            r.a
        }
    }

    /// The state with the 8-bit operand with register code `code` set to `v`.
    #[verifier::opaque]
    pub open spec fn set_r8(self, code: int, v: u8) -> CpuView {
        let r = self.registers;
        if code == 0 {
            self.with_registers(Registers { b: v, ..r })
        } else if code == 1 {
            self.with_registers(Registers { c: v, ..r })
        } else if code == 2 {
            self.with_registers(Registers { d: v, ..r })
        } else if code == 3 {
            self.with_registers(Registers { e: v, ..r })
        } else if code == 4 {
            self.with_registers(Registers { h: v, ..r })
        } else if code == 5 {
            self.with_registers(Registers { l: v, ..r })
        } else if code == 6 {
            self.write(r.hl(), v)
        } else {
            self.with_registers(Registers { a: v, ..r })
        }
    }

    /// The value of an arithmetic operand (an immediate byte follows the opcode).
    pub open spec fn arith_operand(self, t: ArithmeticTarget) -> u8 {
        match arith_code(t) {
            Some(code) => self.get_r8(code),
            None => self.imm8(),
        }
    }

    /// The state after an arithmetic operand is fetched: an immediate byte moves
    /// the program counter past it.
    pub open spec fn after_operand(self, t: ArithmeticTarget) -> CpuView {
        match arith_code(t) {
            Some(_) => self,
            None => self.advance(1),
        }
    }

    /// Whether a jump condition holds.
    pub open spec fn condition(self, c: JumpCondition) -> bool {
        match c {
            JumpCondition::Always => true,
            JumpCondition::Zero => self.registers.f.zero,
            JumpCondition::NotZero => !self.registers.f.zero,
            JumpCondition::Carry => self.registers.f.carry,
            JumpCondition::NotCarry => !self.registers.f.carry,
        }
    }

    /// `value` pushed: its high byte at SP-1, its low byte at SP-2, SP down by 2.
    pub open spec fn pushed(self, value: u16) -> CpuView {
        let sp1 = wrap16(self.sp - 1);
        let sp2 = wrap16(self.sp - 2);
        CpuView { sp: sp2, ..self.write(sp1, (value / 256) as u8).write(sp2, (value % 256) as u8) }
    }

    /// The little-endian word at SP.
    pub open spec fn top_of_stack(self) -> u16 {
        pair(self.read(wrap16(self.sp + 1)), self.read(self.sp))
    }

    /// The state after a word is popped (SP up by 2).
    pub open spec fn popped(self) -> CpuView {
        CpuView { sp: wrap16(self.sp + 2), ..self }
    }

    /// The 16-bit value of a stack operand.
    pub open spec fn stack_value(self, t: StackTarget) -> u16 {
        match t {
            StackTarget::AF => self.registers.af(),
            StackTarget::BC => self.registers.bc(),
            StackTarget::DE => self.registers.de(),
            StackTarget::HL => self.registers.hl(),
        }
    }

    /// The registers with a stack operand set (for AF, F keeps its high nibble).
    pub open spec fn with_stack_value(self, t: StackTarget, v: u16) -> CpuView {
        self.with_registers(
            match t {
                StackTarget::AF => self.registers.with_af(v),
                StackTarget::BC => self.registers.with_bc(v),
                StackTarget::DE => self.registers.with_de(v),
                StackTarget::HL => self.registers.with_hl(v),
            },
        )
    }
}

/// The (destination, source) register codes of a register-to-register load.
pub open spec fn ld_rr(t: LoadTarget) -> Option<(int, int)> {
    match t {
        LoadTarget::BFromB => Some((0, 0)),
        LoadTarget::BFromC => Some((0, 1)),
        LoadTarget::BFromD => Some((0, 2)),
        LoadTarget::BFromE => Some((0, 3)),
        LoadTarget::BFromH => Some((0, 4)),
        LoadTarget::BFromL => Some((0, 5)),
        LoadTarget::BFromHLIndirect => Some((0, 6)),
        LoadTarget::BFromA => Some((0, 7)),
        LoadTarget::CFromB => Some((1, 0)),
        LoadTarget::CFromC => Some((1, 1)),
        LoadTarget::CFromD => Some((1, 2)),
        LoadTarget::CFromE => Some((1, 3)),
        LoadTarget::CFromH => Some((1, 4)),
        LoadTarget::CFromL => Some((1, 5)),
        LoadTarget::CFromHLIndirect => Some((1, 6)),
        LoadTarget::CFromA => Some((1, 7)),
        LoadTarget::DFromB => Some((2, 0)),
        LoadTarget::DFromC => Some((2, 1)),
        LoadTarget::DFromD => Some((2, 2)),
        LoadTarget::DFromE => Some((2, 3)),
        LoadTarget::DFromH => Some((2, 4)),
        LoadTarget::DFromL => Some((2, 5)),
        LoadTarget::DFromHLIndirect => Some((2, 6)),
        LoadTarget::DFromA => Some((2, 7)),
        LoadTarget::EFromB => Some((3, 0)),
        LoadTarget::EFromC => Some((3, 1)),
        LoadTarget::EFromD => Some((3, 2)),
        LoadTarget::EFromE => Some((3, 3)),
        LoadTarget::EFromH => Some((3, 4)),
        LoadTarget::EFromL => Some((3, 5)),
        LoadTarget::EFromHLIndirect => Some((3, 6)),
        LoadTarget::EFromA => Some((3, 7)),
        LoadTarget::HFromB => Some((4, 0)),
        LoadTarget::HFromC => Some((4, 1)),
        LoadTarget::HFromD => Some((4, 2)),
        LoadTarget::HFromE => Some((4, 3)),
        LoadTarget::HFromH => Some((4, 4)),
        LoadTarget::HFromL => Some((4, 5)),
        LoadTarget::HFromHLIndirect => Some((4, 6)),
        LoadTarget::HFromA => Some((4, 7)),
        LoadTarget::LFromB => Some((5, 0)),
        LoadTarget::LFromC => Some((5, 1)),
        LoadTarget::LFromD => Some((5, 2)),
        LoadTarget::LFromE => Some((5, 3)),
        LoadTarget::LFromH => Some((5, 4)),
        LoadTarget::LFromL => Some((5, 5)),
        LoadTarget::LFromHLIndirect => Some((5, 6)),
        LoadTarget::LFromA => Some((5, 7)),
        LoadTarget::HLIndirectFromB => Some((6, 0)),
        LoadTarget::HLIndirectFromC => Some((6, 1)),
        LoadTarget::HLIndirectFromD => Some((6, 2)),
        LoadTarget::HLIndirectFromE => Some((6, 3)),
        LoadTarget::HLIndirectFromH => Some((6, 4)),
        LoadTarget::HLIndirectFromL => Some((6, 5)),
        LoadTarget::HLIndirectFromA => Some((6, 7)),
        LoadTarget::AFromB => Some((7, 0)),
        LoadTarget::AFromC => Some((7, 1)),
        LoadTarget::AFromD => Some((7, 2)),
        LoadTarget::AFromE => Some((7, 3)),
        LoadTarget::AFromH => Some((7, 4)),
        LoadTarget::AFromL => Some((7, 5)),
        LoadTarget::AFromHLIndirect => Some((7, 6)),
        LoadTarget::AFromA => Some((7, 7)),
        _ => None,
    }
}

/// The destination register code of a load of an immediate byte.
pub open spec fn ld_imm(t: LoadTarget) -> Option<int> {
    match t {
        LoadTarget::BFromD8 => Some(0),
        LoadTarget::CFromD8 => Some(1),
        LoadTarget::DFromD8 => Some(2),
        LoadTarget::EFromD8 => Some(3),
        LoadTarget::HFromD8 => Some(4),
        LoadTarget::LFromD8 => Some(5),
        LoadTarget::HLIndirectFromD8 => Some(6),
        LoadTarget::AFromD8 => Some(7),
        _ => None,
    }
}

/// The signed value of a relative jump's offset byte.
pub open spec fn signed8(b: u8) -> int {
    if b < 128 {
        b as int
    } else {
        b - 256
    }
}

impl CpuView {
    /// INC: an 8-bit operand with the flags, or a 16-bit register (flags kept).
    #[verifier::opaque]
    pub open spec fn inc_spec(self, t: IncDecTarget) -> CpuView {
        match t {
            IncDecTarget::BC => self.with_registers(
                self.registers.with_bc(wrap16(self.registers.bc() + 1)),
            ),
            IncDecTarget::DE => self.with_registers(
                self.registers.with_de(wrap16(self.registers.de() + 1)),
            ),
            IncDecTarget::HL => self.with_registers(
                self.registers.with_hl(wrap16(self.registers.hl() + 1)),
            ),
            IncDecTarget::SP => CpuView { sp: wrap16(self.sp + 1), ..self },
            _ => {
                let code = incdec_code(t)->0;
                let (r, f) = alu_inc(self.get_r8(code), self.registers.f);
                self.set_r8(code, r).with_flags(f)
            },
        }
    }

    /// DEC: an 8-bit operand with the flags, or a 16-bit register (flags kept).
    #[verifier::opaque]
    pub open spec fn dec_spec(self, t: IncDecTarget) -> CpuView {
        match t {
            IncDecTarget::BC => self.with_registers(
                self.registers.with_bc(wrap16(self.registers.bc() - 1)),
            ),
            IncDecTarget::DE => self.with_registers(
                self.registers.with_de(wrap16(self.registers.de() - 1)),
            ),
            IncDecTarget::HL => self.with_registers(
                self.registers.with_hl(wrap16(self.registers.hl() - 1)),
            ),
            IncDecTarget::SP => CpuView { sp: wrap16(self.sp - 1), ..self },
            _ => {
                let code = incdec_code(t)->0;
                let (r, f) = alu_dec(self.get_r8(code), self.registers.f);
                self.set_r8(code, r).with_flags(f)
            },
        }
    }

    /// LD: register-to-register and immediate loads, indirect loads through BC, DE
    /// and HL (with HL stepped by the Inc/Dec forms), 16-bit immediates and
    /// absolute addresses.
    #[verifier::opaque]
    pub open spec fn load_spec(self, t: LoadTarget) -> CpuView {
        let r = self.registers;
        match t {
            LoadTarget::A16FromSP => self.sp_store_spec(),
            LoadTarget::SPFromHL => CpuView { sp: r.hl(), ..self },
            LoadTarget::HLFromSPOffset => self.hl_from_sp_spec(),
            _ => self.load_plain_spec(t),
        }
    }

    /// The loads other than those of SP.
    #[verifier::opaque]
    pub open spec fn load_plain_spec(self, t: LoadTarget) -> CpuView {
        let r = self.registers;
        match ld_rr(t) {
            Some((d, src)) => self.set_r8(d, self.get_r8(src)),
            None => match ld_imm(t) {
                Some(d) => self.advance(1).set_r8(d, self.imm8()),
                None => match t {
                    LoadTarget::AFromHLIndirectDec => self.with_registers(
                        Registers { a: self.read(r.hl()), ..r }.with_hl(wrap16(r.hl() - 1)),
                    ),
                    LoadTarget::AFromHLIndirectInc => self.with_registers(
                        Registers { a: self.read(r.hl()), ..r }.with_hl(wrap16(r.hl() + 1)),
                    ),
                    LoadTarget::AFromBCIndirect => self.with_registers(
                        Registers { a: self.read(r.bc()), ..r },
                    ),
                    LoadTarget::AFromDEIndirect => self.with_registers(
                        Registers { a: self.read(r.de()), ..r },
                    ),
                    LoadTarget::HLIndirectFromADec => self.write(r.hl(), r.a).with_registers(
                        r.with_hl(wrap16(r.hl() - 1)),
                    ),
                    LoadTarget::HLIndirectFromAInc => self.write(r.hl(), r.a).with_registers(
                        r.with_hl(wrap16(r.hl() + 1)),
                    ),
                    LoadTarget::BCIndirectFromA => self.write(r.bc(), r.a),
                    LoadTarget::DEIndirectFromA => self.write(r.de(), r.a),
                    LoadTarget::BCFromD16 => self.advance(2).with_registers(r.with_bc(self.imm16())),
                    LoadTarget::DEFromD16 => self.advance(2).with_registers(r.with_de(self.imm16())),
                    LoadTarget::HLFromD16 => self.advance(2).with_registers(r.with_hl(self.imm16())),
                    LoadTarget::SPFromD16 => CpuView { sp: self.imm16(), ..self.advance(2) },
                    LoadTarget::AFromA16 => self.advance(2).with_registers(
                        Registers { a: self.read(self.imm16()), ..r },
                    ),
                    _ => self.advance(2).write(self.imm16(), r.a),
                },
            },
        }
    }

    /// LDH: A to or from 0xFF00 plus an immediate byte or C.
    #[verifier::opaque]
    pub open spec fn ldh_spec(self, t: LDHTarget) -> CpuView {
        let r = self.registers;
        match t {
            LDHTarget::A8FromA => self.advance(1).write((0xFF00 + self.imm8()) as u16, r.a),
            LDHTarget::AFromA8 => self.advance(1).with_registers(
                Registers { a: self.read((0xFF00 + self.imm8()) as u16), ..r },
            ),
            LDHTarget::CFromA => self.write((0xFF00 + r.c) as u16, r.a),
            LDHTarget::AFromC => self.with_registers(
                Registers { a: self.read((0xFF00 + r.c) as u16), ..r },
            ),
        }
    }

    /// A rotate, shift or SWAP of the operand with register code `code`, whose
    /// kind is `kind` (the CB-prefix order: RLC, RRC, RL, RR, SLA, SRA, SWAP, SRL).
    #[verifier::opaque]
    pub open spec fn shift_spec(self, kind: int, code: int) -> CpuView {
        let (r, c) = shift_result(kind, self.get_r8(code), self.registers.f.carry);
        self.set_r8(code, r).with_flags(flags(r, false, false, c))
    }

    /// JP: to the immediate address if the condition holds.
    #[verifier::opaque]
    pub open spec fn jp_spec(self, c: JumpCondition) -> CpuView {
        if self.condition(c) {
            CpuView { pc: self.imm16(), ..self }
        } else {
            self.advance(2)
        }
    }

    /// JR: by the signed immediate offset (from the next instruction) if the
    /// condition holds.
    #[verifier::opaque]
    pub open spec fn jr_spec(self, c: JumpCondition) -> CpuView {
        if self.condition(c) {
            CpuView { pc: wrap16(self.pc + 1 + signed8(self.imm8())), ..self }
        } else {
            self.advance(1)
        }
    }

    /// CALL: pushes the address of the next instruction and jumps to the immediate
    /// address, if the condition holds.
    #[verifier::opaque]
    pub open spec fn call_spec(self, c: JumpCondition) -> CpuView {
        if self.condition(c) {
            CpuView { pc: self.imm16(), ..self.advance(2).pushed(wrap16(self.pc + 2)) }
        } else {
            self.advance(2)
        }
    }

    /// RET: pops the program counter if the condition holds.
    #[verifier::opaque]
    pub open spec fn ret_spec(self, c: JumpCondition) -> CpuView {
        if self.condition(c) {
            CpuView { pc: self.top_of_stack(), ..self.popped() }
        } else {
            self
        }
    }

    /// The 8-bit arithmetic and logic group (`op`: ADD, ADC, SUB, SBC, AND, XOR,
    /// OR, CP) on A and the operand `t`; CP keeps A.
    #[verifier::opaque]
    pub open spec fn alu_spec(self, op: int, t: ArithmeticTarget) -> CpuView {
        let a = self.registers.a;
        let v = self.arith_operand(t);
        let c = self.registers.f.carry;
        let s1 = self.after_operand(t);
        if op == 0 {
            s1.with_a_flags(alu_add(a, v))
        } else if op == 1 {
            s1.with_a_flags(alu_adc(a, v, c))
        } else if op == 2 {
            s1.with_a_flags(alu_sub(a, v))
        } else if op == 3 {
            s1.with_a_flags(alu_sbc(a, v, c))
        } else if op == 4 {
            s1.with_a_flags(alu_and(a, v))
        } else if op == 5 {
            s1.with_a_flags(alu_xor(a, v))
        } else if op == 6 {
            s1.with_a_flags(alu_or(a, v))
        } else {
            s1.with_flags(alu_sub(a, v).1)
        }
    }

    /// PUSH of a 16-bit register.
    #[verifier::opaque]
    pub open spec fn push_spec(self, t: StackTarget) -> CpuView {
        self.pushed(self.stack_value(t))
    }

    /// POP into a 16-bit register.
    #[verifier::opaque]
    pub open spec fn pop_spec(self, t: StackTarget) -> CpuView {
        self.popped().with_stack_value(t, self.top_of_stack())
    }

    /// RETI: pops the program counter and enables interrupts at once.
    #[verifier::opaque]
    pub open spec fn reti_spec(self) -> CpuView {
        CpuView { pc: self.top_of_stack(), ime: true, ..self.popped() }
    }

    /// RST: pushes the program counter and jumps to the fixed address `a`.
    #[verifier::opaque]
    pub open spec fn rst_spec(self, a: u8) -> CpuView {
        CpuView { pc: a as u16, ..self.pushed(self.pc) }
    }

    /// BIT: Z is set when bit `b` of the operand is clear; N clear, H set.
    #[verifier::opaque]
    pub open spec fn bit_spec(self, b: u8, code: int) -> CpuView {
        self.with_flags(
            FlagsRegister {
                zero: self.get_r8(code) & (1u8 << b) == 0,
                subtract: false,
                half_carry: true,
                ..self.registers.f
            },
        )
    }

    /// RES (`set` false) or SET (`set` true) of bit `b` of the operand.
    #[verifier::opaque]
    pub open spec fn change_bit_spec(self, b: u8, code: int, set: bool) -> CpuView {
        self.set_r8(
            code,
            if set {
                self.get_r8(code) | (1u8 << b)
            } else {
                self.get_r8(code) & !(1u8 << b)
            },
        )
    }

    /// The value of the 16-bit register that ADD HL adds.
    pub open spec fn wide_value(self, t: WideTarget) -> u16 {
        match t {
            WideTarget::BC => self.registers.bc(),
            WideTarget::DE => self.registers.de(),
            WideTarget::HL => self.registers.hl(),
            WideTarget::SP => self.sp,
        }
    }

    /// ADD HL,rr: HL plus the register; N cleared, H from bit 11, C from bit 15,
    /// Z kept.
    pub open spec fn add_hl_spec(self, t: WideTarget) -> CpuView {
        let r = self.registers;
        let hl = r.hl();
        let v = self.wide_value(t);
        let flags = FlagsRegister {
            subtract: false,
            half_carry: (hl % 0x1000) + (v % 0x1000) > 0xFFF,
            carry: hl + v > 0xFFFF,
            ..r.f
        };
        self.with_registers(Registers { f: flags, ..r.with_hl(wrap16(hl + v)) })
    }

    /// SP plus the signed immediate byte, and the flags that ADD SP and LD HL,SP+e
    /// set: Z and N cleared, H and C from the carries out of bits 3 and 7 of the
    /// unsigned low-byte addition.
    pub open spec fn sp_offset(self) -> (u16, FlagsRegister) {
        let e = self.imm8();
        (
            wrap16(self.sp + signed8(e)),
            FlagsRegister {
                zero: false,
                subtract: false,
                half_carry: (self.sp % 16) + (e % 16) > 0xF,
                carry: (self.sp % 256) + e > 0xFF,
            },
        )
    }

    /// ADD SP,e: SP plus the signed immediate byte.
    pub open spec fn add_sp_spec(self) -> CpuView {
        let (v, f) = self.sp_offset();
        CpuView { sp: v, ..self.advance(1) }.with_flags(f)
    }

    /// LD HL,SP+e: HL from SP plus the signed immediate byte.
    pub open spec fn hl_from_sp_spec(self) -> CpuView {
        let (v, f) = self.sp_offset();
        self.advance(1).with_registers(Registers { f, ..self.registers.with_hl(v) })
    }

    /// LD (a16),SP: SP's low byte at the immediate address, its high byte after it.
    pub open spec fn sp_store_spec(self) -> CpuView {
        let a = self.imm16();
        self.advance(2).write(a, (self.sp % 256) as u8).write(wrap16(a + 1), (self.sp / 256) as u8)
    }

    /// The arithmetic and logic instructions: ADD, ADC, SUB, SBC, AND, XOR, OR
    /// and CP are operations 0 to 7 of `alu_spec`.
    #[verifier::opaque]
    pub open spec fn alu_group_spec(self, i: Instruction) -> CpuView {
        match i {
            Instruction::ADD(t) => self.alu_spec(0, t),
            Instruction::ADC(t) => self.alu_spec(1, t),
            Instruction::SUB(t) => self.alu_spec(2, t),
            Instruction::SBC(t) => self.alu_spec(3, t),
            Instruction::AND(t) => self.alu_spec(4, t),
            Instruction::XOR(t) => self.alu_spec(5, t),
            Instruction::OR(t) => self.alu_spec(6, t),
            Instruction::CP(t) => self.alu_spec(7, t),
            _ => self,
        }
    }

    /// The CB-prefixed instructions: BIT, RES, SET and the rotates and shifts.
    #[verifier::opaque]
    pub open spec fn cb_group_spec(self, i: Instruction) -> CpuView {
        match i {
            Instruction::BIT(b, t) => self.bit_spec(b, bit_code(t)),
            Instruction::RES(b, t) => self.change_bit_spec(b, bit_code(t), false),
            Instruction::SET(b, t) => self.change_bit_spec(b, bit_code(t), true),
            Instruction::RLC(t) => self.shift_spec(0, bit_code(t)),
            Instruction::RRC(t) => self.shift_spec(1, bit_code(t)),
            Instruction::RL(t) => self.shift_spec(2, bit_code(t)),
            Instruction::RR(t) => self.shift_spec(3, bit_code(t)),
            Instruction::SLA(t) => self.shift_spec(4, bit_code(t)),
            Instruction::SRA(t) => self.shift_spec(5, bit_code(t)),
            Instruction::SWAP(t) => self.shift_spec(6, bit_code(t)),
            Instruction::SRL(t) => self.shift_spec(7, bit_code(t)),
            _ => self,
        }
    }

    /// Jumps, calls, returns and restarts.
    #[verifier::opaque]
    pub open spec fn flow_group_spec(self, i: Instruction) -> CpuView {
        match i {
            Instruction::JP(c) => self.jp_spec(c),
            Instruction::JR(c) => self.jr_spec(c),
            Instruction::CALL(c) => self.call_spec(c),
            Instruction::RET(c) => self.ret_spec(c),
            Instruction::RETI => self.reti_spec(),
            Instruction::RST(a) => self.rst_spec(a),
            Instruction::JPHL => CpuView { pc: self.registers.hl(), ..self },
            _ => self,
        }
    }

    /// Loads, INC, DEC, PUSH, POP and the 16-bit additions.
    #[verifier::opaque]
    pub open spec fn data_group_spec(self, i: Instruction) -> CpuView {
        match i {
            Instruction::INC(t) => self.inc_spec(t),
            Instruction::DEC(t) => self.dec_spec(t),
            Instruction::LD(t) => self.load_spec(t),
            Instruction::LDH(t) => self.ldh_spec(t),
            Instruction::PUSH(t) => self.push_spec(t),
            Instruction::POP(t) => self.pop_spec(t),
            Instruction::ADDHL(t) => self.add_hl_spec(t),
            Instruction::ADDSP => self.add_sp_spec(),
            _ => self,
        }
    }

    /// The instructions without operands: NOP, HALT, STOP, DAA, CPL, SCF, CCF, DI
    /// (which also cancels a pending EI) and EI.
    #[verifier::opaque]
    pub open spec fn plain_group_spec(self, i: Instruction) -> CpuView {
        let r = self.registers;
        let f = r.f;
        match i {
            Instruction::HALT => CpuView { halted: true, ..self },
            Instruction::DAA => self.with_a_flags(alu_daa(r.a, f)),
            Instruction::CPL => self.with_registers(
                Registers {
                    a: !r.a,
                    f: FlagsRegister { subtract: true, half_carry: true, ..f },
                    ..r
                },
            ),
            Instruction::SCF => self.with_flags(
                FlagsRegister { carry: true, subtract: false, half_carry: false, ..f },
            ),
            Instruction::CCF => self.with_flags(
                FlagsRegister { carry: !f.carry, subtract: false, half_carry: false, ..f },
            ),
            Instruction::DI => CpuView { ime: false, ei_delay: false, ..self },
            Instruction::EI => CpuView { ei_delay: true, ..self },
            Instruction::STOP => CpuView { halted: true, ..self.advance(1) },
            _ => self,
        }
    }

    /// The state after executing `i`, with the program counter already past its
    /// opcode.
    #[verifier::opaque]
    pub open spec fn execute_spec(self, i: Instruction) -> CpuView {
        if is_alu(i) {
            self.alu_group_spec(i)
        } else if is_cb(i) {
            self.cb_group_spec(i)
        } else if is_flow(i) {
            self.flow_group_spec(i)
        } else if is_data(i) {
            self.data_group_spec(i)
        } else {
            self.plain_group_spec(i)
        }
    }
}

/// Whether `i` is one of the arithmetic and logic instructions.
pub open spec fn is_alu(i: Instruction) -> bool {
    ||| i is ADD
    ||| i is ADC
    ||| i is SUB
    ||| i is SBC
    ||| i is AND
    ||| i is XOR
    ||| i is OR
    ||| i is CP
}

/// Whether `i` is one of the CB-prefixed instructions.
pub open spec fn is_cb(i: Instruction) -> bool {
    ||| i is BIT
    ||| i is RES
    ||| i is SET
    ||| i is RLC
    ||| i is RRC
    ||| i is RL
    ||| i is RR
    ||| i is SLA
    ||| i is SRA
    ||| i is SWAP
    ||| i is SRL
}

/// Whether `i` is a jump, call, return or restart.
pub open spec fn is_flow(i: Instruction) -> bool {
    ||| i is JP
    ||| i is JR
    ||| i is CALL
    ||| i is RET
    ||| i is RETI
    ||| i is RST
    ||| i is JPHL
}

/// Whether `i` is a load, INC, DEC, PUSH, POP or a 16-bit addition.
pub open spec fn is_data(i: Instruction) -> bool {
    ||| i is INC
    ||| i is DEC
    ||| i is LD
    ||| i is LDH
    ||| i is PUSH
    ||| i is POP
    ||| i is ADDHL
    ||| i is ADDSP
}

/// `execute_spec` of the arithmetic and logic instructions.
proof fn lemma_unfold_alu(s: CpuView, t: ArithmeticTarget)
    ensures
        s.execute_spec(Instruction::ADD(t)) == s.alu_spec(0, t),
        s.execute_spec(Instruction::ADC(t)) == s.alu_spec(1, t),
        s.execute_spec(Instruction::SUB(t)) == s.alu_spec(2, t),
        s.execute_spec(Instruction::SBC(t)) == s.alu_spec(3, t),
        s.execute_spec(Instruction::AND(t)) == s.alu_spec(4, t),
        s.execute_spec(Instruction::XOR(t)) == s.alu_spec(5, t),
        s.execute_spec(Instruction::OR(t)) == s.alu_spec(6, t),
        s.execute_spec(Instruction::CP(t)) == s.alu_spec(7, t),
{
    reveal(CpuView::execute_spec);
    reveal(CpuView::alu_group_spec);
}

/// `execute_spec` of BIT, RES and SET on operand `t`.
proof fn lemma_unfold_bits(s: CpuView, b: u8, t: BitTarget)
    ensures
        s.execute_spec(Instruction::BIT(b, t)) == s.bit_spec(b, bit_code(t)),
        s.execute_spec(Instruction::RES(b, t)) == s.change_bit_spec(b, bit_code(t), false),
        s.execute_spec(Instruction::SET(b, t)) == s.change_bit_spec(b, bit_code(t), true),
{
    reveal(CpuView::execute_spec);
    reveal(CpuView::cb_group_spec);
}

/// `execute_spec` of the rotates, shifts and SWAP on operand `t`.
proof fn lemma_unfold_shifts(s: CpuView, t: BitTarget)
    ensures
        s.execute_spec(Instruction::RLC(t)) == s.shift_spec(0, bit_code(t)),
        s.execute_spec(Instruction::RRC(t)) == s.shift_spec(1, bit_code(t)),
        s.execute_spec(Instruction::RL(t)) == s.shift_spec(2, bit_code(t)),
        s.execute_spec(Instruction::RR(t)) == s.shift_spec(3, bit_code(t)),
{
    reveal(CpuView::execute_spec);
    reveal(CpuView::cb_group_spec);
}

/// `execute_spec` of the shifts and SWAP on operand `t`.
proof fn lemma_unfold_shifts2(s: CpuView, t: BitTarget)
    ensures
        s.execute_spec(Instruction::SLA(t)) == s.shift_spec(4, bit_code(t)),
        s.execute_spec(Instruction::SRA(t)) == s.shift_spec(5, bit_code(t)),
        s.execute_spec(Instruction::SWAP(t)) == s.shift_spec(6, bit_code(t)),
        s.execute_spec(Instruction::SRL(t)) == s.shift_spec(7, bit_code(t)),
{
    reveal(CpuView::execute_spec);
    reveal(CpuView::cb_group_spec);
}

/// `execute_spec` of the jumps, calls and returns.
proof fn lemma_unfold_jumps(s: CpuView, c: JumpCondition, a: u8)
    ensures
        s.execute_spec(Instruction::JP(c)) == s.jp_spec(c),
        s.execute_spec(Instruction::JR(c)) == s.jr_spec(c),
        s.execute_spec(Instruction::CALL(c)) == s.call_spec(c),
        s.execute_spec(Instruction::RET(c)) == s.ret_spec(c),
        s.execute_spec(Instruction::RETI) == s.reti_spec(),
        s.execute_spec(Instruction::RST(a)) == s.rst_spec(a),
{
    reveal(CpuView::execute_spec);
    reveal(CpuView::flow_group_spec);
}

/// `execute_spec` of the loads, INC, DEC, PUSH and POP.
proof fn lemma_unfold_data(
    s: CpuView,
    l: LoadTarget,
    h: LDHTarget,
    t: IncDecTarget,
    st: StackTarget,
)
    ensures
        s.execute_spec(Instruction::LD(l)) == s.load_spec(l),
        s.execute_spec(Instruction::LDH(h)) == s.ldh_spec(h),
        s.execute_spec(Instruction::INC(t)) == s.inc_spec(t),
        s.execute_spec(Instruction::DEC(t)) == s.dec_spec(t),
        s.execute_spec(Instruction::PUSH(st)) == s.pushed(s.stack_value(st)),
        s.execute_spec(Instruction::POP(st)) == s.popped().with_stack_value(
            st,
            s.top_of_stack(),
        ),
{
    reveal(CpuView::execute_spec);
    reveal(CpuView::data_group_spec);
    reveal(CpuView::push_spec);
    reveal(CpuView::pop_spec);
}

/// `execute_spec` of the 16-bit additions and JP (HL).
proof fn lemma_unfold_wide(s: CpuView, w: WideTarget)
    ensures
        s.execute_spec(Instruction::ADDHL(w)) == s.add_hl_spec(w),
        s.execute_spec(Instruction::ADDSP) == s.add_sp_spec(),
        s.execute_spec(Instruction::JPHL) == (CpuView { pc: s.registers.hl(), ..s }),
{
    reveal(CpuView::execute_spec);
    reveal(CpuView::data_group_spec);
    reveal(CpuView::flow_group_spec);
}

/// `execute_spec` of the instructions without operands.
proof fn lemma_unfold_plain(s: CpuView)
    ensures
        s.execute_spec(Instruction::NOP) == s,
        s.execute_spec(Instruction::HALT) == (CpuView { halted: true, ..s }),
        s.execute_spec(Instruction::DAA) == s.with_a_flags(alu_daa(s.registers.a, s.registers.f)),
        s.execute_spec(Instruction::CPL) == s.with_registers(
            Registers {
                a: !s.registers.a,
                f: FlagsRegister { subtract: true, half_carry: true, ..s.registers.f },
                ..s.registers
            },
        ),
        s.execute_spec(Instruction::SCF) == s.with_flags(
            FlagsRegister { carry: true, subtract: false, half_carry: false, ..s.registers.f },
        ),
        s.execute_spec(Instruction::CCF) == s.with_flags(
            FlagsRegister {
                carry: !s.registers.f.carry,
                subtract: false,
                half_carry: false,
                ..s.registers.f
            },
        ),
        s.execute_spec(Instruction::DI) == (CpuView { ime: false, ei_delay: false, ..s }),
        s.execute_spec(Instruction::STOP) == (CpuView { halted: true, ..s.advance(1) }),
        s.execute_spec(Instruction::EI) == (CpuView { ei_delay: true, ..s }),
{
    reveal(CpuView::execute_spec);
    reveal(CpuView::plain_group_spec);
}

/// The rotate/shift/swap group by kind (RLC, RRC, RL, RR, SLA, SRA, SWAP, SRL):
/// the result and the bit that goes to carry (SWAP clears it).
pub open spec fn shift_result(kind: int, v: u8, carry: bool) -> (u8, bool) {
    let top = v >= 0x80;
    let bottom = v % 2 == 1;
    if kind == 0 {
        ((wrap8(2 * v) + (if top { 1int } else { 0 })) as u8, top)
    } else if kind == 1 {
        ((v / 2 + (if bottom { 0x80int } else { 0 })) as u8, bottom)
    } else if kind == 2 {
        ((wrap8(2 * v) + (if carry { 1int } else { 0 })) as u8, top)
    } else if kind == 3 {
        ((v / 2 + (if carry { 0x80int } else { 0 })) as u8, bottom)
    } else if kind == 4 {
        (wrap8(2 * v), top)
    } else if kind == 5 {
        ((v / 2 + (if top { 0x80int } else { 0 })) as u8, bottom)
    } else if kind == 6 {
        (((v % 16) * 16 + v / 16) as u8, false)
    } else {
        ((v / 2) as u8, bottom)
    }
}

/// The instruction of an opcode outside the regular blocks (0x40-0x7F loads,
/// 0x80-0xBF arithmetic and the 0xCB prefix). The eleven opcodes that the CPU
/// does not define (0xD3, 0xDB, 0xDD, 0xE3, 0xE4, 0xEB, 0xEC, 0xED, 0xF4, 0xFC,
/// 0xFD) decode as NOP.
pub open spec fn decode_other(opcode: u8) -> Instruction {
    match opcode {
        0x00 => Instruction::NOP,
        0x01 => Instruction::LD(LoadTarget::BCFromD16),
        0x02 => Instruction::LD(LoadTarget::BCIndirectFromA),
        0x03 => Instruction::INC(IncDecTarget::BC),
        0x04 => Instruction::INC(IncDecTarget::B),
        0x05 => Instruction::DEC(IncDecTarget::B),
        0x06 => Instruction::LD(LoadTarget::BFromD8),
        0x07 => Instruction::RLC(BitTarget::A),
        0x08 => Instruction::LD(LoadTarget::A16FromSP),
        0x09 => Instruction::ADDHL(WideTarget::BC),
        0x0A => Instruction::LD(LoadTarget::AFromBCIndirect),
        0x0B => Instruction::DEC(IncDecTarget::BC),
        0x0C => Instruction::INC(IncDecTarget::C),
        0x0D => Instruction::DEC(IncDecTarget::C),
        0x0E => Instruction::LD(LoadTarget::CFromD8),
        0x0F => Instruction::RRC(BitTarget::A),
        0x10 => Instruction::STOP,
        0x11 => Instruction::LD(LoadTarget::DEFromD16),
        0x12 => Instruction::LD(LoadTarget::DEIndirectFromA),
        0x13 => Instruction::INC(IncDecTarget::DE),
        0x14 => Instruction::INC(IncDecTarget::D),
        0x15 => Instruction::DEC(IncDecTarget::D),
        0x16 => Instruction::LD(LoadTarget::DFromD8),
        0x17 => Instruction::RL(BitTarget::A),
        0x18 => Instruction::JR(JumpCondition::Always),
        0x19 => Instruction::ADDHL(WideTarget::DE),
        0x1A => Instruction::LD(LoadTarget::AFromDEIndirect),
        0x1B => Instruction::DEC(IncDecTarget::DE),
        0x1C => Instruction::INC(IncDecTarget::E),
        0x1D => Instruction::DEC(IncDecTarget::E),
        0x1E => Instruction::LD(LoadTarget::EFromD8),
        0x1F => Instruction::RR(BitTarget::A),
        0x20 => Instruction::JR(JumpCondition::NotZero),
        0x21 => Instruction::LD(LoadTarget::HLFromD16),
        0x22 => Instruction::LD(LoadTarget::HLIndirectFromAInc),
        0x23 => Instruction::INC(IncDecTarget::HL),
        0x24 => Instruction::INC(IncDecTarget::H),
        0x25 => Instruction::DEC(IncDecTarget::H),
        0x26 => Instruction::LD(LoadTarget::HFromD8),
        0x27 => Instruction::DAA,
        0x28 => Instruction::JR(JumpCondition::Zero),
        0x29 => Instruction::ADDHL(WideTarget::HL),
        0x2A => Instruction::LD(LoadTarget::AFromHLIndirectInc),
        0x2B => Instruction::DEC(IncDecTarget::HL),
        0x2C => Instruction::INC(IncDecTarget::L),
        0x2D => Instruction::DEC(IncDecTarget::L),
        0x2E => Instruction::LD(LoadTarget::LFromD8),
        0x2F => Instruction::CPL,
        0x30 => Instruction::JR(JumpCondition::NotCarry),
        0x31 => Instruction::LD(LoadTarget::SPFromD16),
        0x32 => Instruction::LD(LoadTarget::HLIndirectFromADec),
        0x33 => Instruction::INC(IncDecTarget::SP),
        0x34 => Instruction::INC(IncDecTarget::HLIndirect),
        0x35 => Instruction::DEC(IncDecTarget::HLIndirect),
        0x36 => Instruction::LD(LoadTarget::HLIndirectFromD8),
        0x37 => Instruction::SCF,
        0x38 => Instruction::JR(JumpCondition::Carry),
        0x39 => Instruction::ADDHL(WideTarget::SP),
        0x3A => Instruction::LD(LoadTarget::AFromHLIndirectDec),
        0x3B => Instruction::DEC(IncDecTarget::SP),
        0x3C => Instruction::INC(IncDecTarget::A),
        0x3D => Instruction::DEC(IncDecTarget::A),
        0x3E => Instruction::LD(LoadTarget::AFromD8),
        0x3F => Instruction::CCF,
        0x76 => Instruction::HALT,
        0xC0 => Instruction::RET(JumpCondition::NotZero),
        0xC1 => Instruction::POP(StackTarget::BC),
        0xC2 => Instruction::JP(JumpCondition::NotZero),
        0xC3 => Instruction::JP(JumpCondition::Always),
        0xC4 => Instruction::CALL(JumpCondition::NotZero),
        0xC5 => Instruction::PUSH(StackTarget::BC),
        0xC6 => Instruction::ADD(ArithmeticTarget::D8),
        0xC7 => Instruction::RST(0x00),
        0xC8 => Instruction::RET(JumpCondition::Zero),
        0xC9 => Instruction::RET(JumpCondition::Always),
        0xCA => Instruction::JP(JumpCondition::Zero),
        0xCC => Instruction::CALL(JumpCondition::Zero),
        0xCD => Instruction::CALL(JumpCondition::Always),
        0xCE => Instruction::ADC(ArithmeticTarget::D8),
        0xCF => Instruction::RST(0x08),
        0xD0 => Instruction::RET(JumpCondition::NotCarry),
        0xD1 => Instruction::POP(StackTarget::DE),
        0xD2 => Instruction::JP(JumpCondition::NotCarry),
        0xD4 => Instruction::CALL(JumpCondition::NotCarry),
        0xD5 => Instruction::PUSH(StackTarget::DE),
        0xD6 => Instruction::SUB(ArithmeticTarget::D8),
        0xD7 => Instruction::RST(0x10),
        0xD8 => Instruction::RET(JumpCondition::Carry),
        0xD9 => Instruction::RETI,
        0xDA => Instruction::JP(JumpCondition::Carry),
        0xDC => Instruction::CALL(JumpCondition::Carry),
        0xDE => Instruction::SBC(ArithmeticTarget::D8),
        0xDF => Instruction::RST(0x18),
        0xE0 => Instruction::LDH(LDHTarget::A8FromA),
        0xE1 => Instruction::POP(StackTarget::HL),
        0xE2 => Instruction::LDH(LDHTarget::CFromA),
        0xE5 => Instruction::PUSH(StackTarget::HL),
        0xE6 => Instruction::AND(ArithmeticTarget::D8),
        0xE7 => Instruction::RST(0x20),
        0xE8 => Instruction::ADDSP,
        0xE9 => Instruction::JPHL,
        0xEA => Instruction::LD(LoadTarget::A16FromA),
        0xEE => Instruction::XOR(ArithmeticTarget::D8),
        0xEF => Instruction::RST(0x28),
        0xF0 => Instruction::LDH(LDHTarget::AFromA8),
        0xF1 => Instruction::POP(StackTarget::AF),
        0xF2 => Instruction::LDH(LDHTarget::AFromC),
        0xF3 => Instruction::DI,
        0xF5 => Instruction::PUSH(StackTarget::AF),
        0xF6 => Instruction::OR(ArithmeticTarget::D8),
        0xF7 => Instruction::RST(0x30),
        0xF8 => Instruction::LD(LoadTarget::HLFromSPOffset),
        0xF9 => Instruction::LD(LoadTarget::SPFromHL),
        0xFA => Instruction::LD(LoadTarget::AFromA16),
        0xFB => Instruction::EI,
        0xFE => Instruction::CP(ArithmeticTarget::D8),
        0xFF => Instruction::RST(0x38),
        _ => Instruction::NOP,
    }
}

/// Whether `i` is the instruction that the CB-prefixed opcode `op` encodes: bits
/// 2-0 name the operand, bits 7-3 the operation (eight rotates and shifts, then
/// BIT, RES and SET for bits 0-7).
pub open spec fn cb_decoded(op: u8, i: Instruction) -> bool {
    let code = op % 8;
    match i {
        Instruction::RLC(t) => op < 0x08 && bit_code(t) == code,
        Instruction::RRC(t) => 0x08 <= op < 0x10 && bit_code(t) == code,
        Instruction::RL(t) => 0x10 <= op < 0x18 && bit_code(t) == code,
        Instruction::RR(t) => 0x18 <= op < 0x20 && bit_code(t) == code,
        Instruction::SLA(t) => 0x20 <= op < 0x28 && bit_code(t) == code,
        Instruction::SRA(t) => 0x28 <= op < 0x30 && bit_code(t) == code,
        Instruction::SWAP(t) => 0x30 <= op < 0x38 && bit_code(t) == code,
        Instruction::SRL(t) => 0x38 <= op < 0x40 && bit_code(t) == code,
        Instruction::BIT(b, t) => 0x40 <= op < 0x80 && b == (op - 0x40) / 8 && bit_code(t) == code,
        Instruction::RES(b, t) => 0x80 <= op < 0xC0 && b == (op - 0x80) / 8 && bit_code(t) == code,
        Instruction::SET(b, t) => 0xC0 <= op && b == (op - 0xC0) / 8 && bit_code(t) == code,
        _ => false,
    }
}

/// Whether `i` is the instruction that `opcode` (followed by `next`) encodes:
/// 0xCB takes its instruction from `next`; 0x40-0x7F (but HALT at 0x76) load
/// register (bits 5-3) from register (bits 2-0); 0x80-0xBF apply ADD, ADC, SUB,
/// SBC, AND, XOR, OR, CP (bits 5-3) to A and a register (bits 2-0); the other
/// opcodes are listed in `decode_other`.
pub open spec fn decoded(opcode: u8, next: u8, i: Instruction) -> bool {
    if opcode == 0xCB {
        cb_decoded(next, i)
    } else if 0x40 <= opcode < 0x80 && opcode != 0x76 {
        match i {
            Instruction::LD(t) => ld_rr(t) == Some(((opcode - 0x40) / 8, (opcode % 8) as int)),
            _ => false,
        }
    } else if 0x80 <= opcode < 0xC0 {
        let k = (opcode - 0x80) / 8;
        let code = Some((opcode % 8) as int);
        match i {
            Instruction::ADD(t) => k == 0 && arith_code(t) == code,
            Instruction::ADC(t) => k == 1 && arith_code(t) == code,
            Instruction::SUB(t) => k == 2 && arith_code(t) == code,
            Instruction::SBC(t) => k == 3 && arith_code(t) == code,
            Instruction::AND(t) => k == 4 && arith_code(t) == code,
            Instruction::XOR(t) => k == 5 && arith_code(t) == code,
            Instruction::OR(t) => k == 6 && arith_code(t) == code,
            Instruction::CP(t) => k == 7 && arith_code(t) == code,
            _ => false,
        }
    } else {
        i == decode_other(opcode)
    }
}

/// The instruction that `opcode` (followed by `next`) encodes.
pub open spec fn decode(opcode: u8, next: u8) -> Instruction {
    choose|i: Instruction| decoded(opcode, next, i)
}

/// The lowest-numbered of interrupts 0-4 that `pending` requests (V-blank 0, STAT
/// 1, timer 2, serial 3, joypad 4).
pub open spec fn lowest_interrupt(pending: u8) -> Option<u8> {
    if pending & 0x01 != 0 {
        Some(0)
    } else if pending & 0x02 != 0 {
        Some(1)
    } else if pending & 0x04 != 0 {
        Some(2)
    } else if pending & 0x08 != 0 {
        Some(3)
    } else if pending & 0x10 != 0 {
        Some(4)
    } else {
        None
    }
}

/// The IF bits of the interrupts that the devices raise: V-blank (bit 0), STAT
/// (bit 1), timer (bit 2) and joypad (bit 4).
pub open spec fn raised(vblank: bool, stat: bool, timer: bool, joypad: bool) -> u8 {
    (if vblank { 0x01u8 } else { 0 }) | (if stat { 0x02u8 } else { 0 }) | (if timer {
        0x04u8
    } else {
        0
    }) | (if joypad { 0x10u8 } else { 0 })
}

impl CpuView {
    /// The instruction at the program counter, and the state after it is fetched.
    pub open spec fn fetched(self) -> (Instruction, CpuView) {
        let op = self.read(self.pc);
        let next = self.read(wrap16(self.pc + 1));
        (decode(op, next), self.advance(if op == 0xCB { 2 } else { 1 }))
    }

    /// Interrupt `i` serviced: IME cleared, its IF bit cleared, PC pushed and set
    /// to the interrupt's vector 0x40 + 8i.
    pub open spec fn serviced(self, i: u8) -> CpuView {
        let s1 = CpuView { ime: false, if_register: self.if_register & !(1u8 << i), ..self };
        CpuView { pc: (0x40 + 8 * i) as u16, ..s1.pushed(self.pc) }
    }

    /// Interrupt dispatch: whether an interrupt was serviced, and the new state. A
    /// requested and enabled interrupt wakes a halted CPU even with IME clear; with
    /// IME set the lowest-numbered one is serviced.
    pub open spec fn interrupt_spec(self) -> (bool, CpuView) {
        let pending = self.ie_register & self.if_register;
        if pending == 0 {
            (false, self)
        } else {
            let s1 = CpuView { halted: false, ..self };
            if !self.ime {
                (false, s1)
            } else {
                match lowest_interrupt(pending) {
                    Some(i) => (true, s1.serviced(i)),
                    None => (false, s1),
                }
            }
        }
    }

    /// The cycles that the devices run for after one step: 8 while the boot ROM
    /// waits for V-blank (PC 0x0064-0x0069), 4 otherwise.
    pub open spec fn step_cycles(self) -> u32 {
        if self.bus.boot_rom_enabled && 0x64 <= self.pc <= 0x69 {
            8
        } else {
            4
        }
    }

    /// The bus as the CPU hands it to the devices: with the CPU's IE and IF.
    pub open spec fn synced_bus(self) -> BusView {
        BusView { ie_register: self.ie_register, if_register: self.if_register, ..self.bus }
    }

    /// The devices run for `step_cycles`, and the interrupts they raise are
    /// requested in IF (and copied to the bus).
    pub open spec fn devices_stepped(self) -> CpuView {
        let cycles = self.step_cycles();
        let b = self.synced_bus();
        let (v, st, t, j) = b.step_interrupts(cycles);
        let new_if = self.if_register | raised(v, st, t, j);
        CpuView {
            if_register: new_if,
            bus: BusView {
                ie_register: self.ie_register,
                if_register: new_if,
                ..b.stepped(cycles)
            },
            ..self
        }
    }

    /// The state in which the devices run after the CPU's part of a step, if they
    /// run: none when an interrupt is serviced; otherwise the halted CPU as it is,
    /// or the state after one instruction.
    pub open spec fn before_devices(self) -> Option<CpuView> {
        let (handled, s1) = self.interrupt_spec();
        if handled {
            None
        } else if s1.halted {
            Some(s1)
        } else {
            let (i, s2) = s1.fetched();
            Some(s2.execute_spec(i))
        }
    }

    /// One step: an interrupt is serviced (which cancels a pending EI), or a halted
    /// CPU waits, or one instruction runs; in the last two cases the devices then
    /// run. An EI that was pending at the start of the step (the EI ran in the step
    /// before) enables interrupts at its end, after the next instruction has run,
    /// unless that instruction cancelled it.
    pub open spec fn step_spec(self) -> CpuView {
        match self.before_devices() {
            None => CpuView { ei_delay: false, ..self.interrupt_spec().1 },
            Some(s) => {
                let d = s.devices_stepped();
                if self.ei_delay && d.ei_delay {
                    CpuView { ime: true, ei_delay: false, ..d }
                } else {
                    d
                }
            },
        }
    }

    /// No panic in a step: cartridge accesses fit, the instruction is well
    /// formed, and the PPU can run for the step's cycles.
    pub open spec fn step_ok(self) -> bool {
        &&& self.bus.cart_fits()
        &&& match self.before_devices() {
            None => true,
            Some(s) => s.bus.ppu.step_ok(s.step_cycles()),
        }
    }

    /// The invariant that every step keeps: cartridge accesses fit and the PPU's
    /// timing is consistent.
    pub open spec fn inv(self) -> bool {
        self.bus.cart_fits() && self.bus.ppu.inv()
    }
}

/// Each opcode encodes one instruction: `decoded` holds of at most one.
pub proof fn lemma_decoded_unique(opcode: u8, next: u8, i1: Instruction, i2: Instruction)
    requires
        decoded(opcode, next, i1),
        decoded(opcode, next, i2),
    ensures
        i1 == i2,
{
    if opcode == 0xCB {
        match i1 {
            Instruction::BIT(_, t1) => match i2 {
                Instruction::BIT(_, t2) => lemma_bit_code_injective(t1, t2),
                _ => {},
            },
            Instruction::RES(_, t1) => match i2 {
                Instruction::RES(_, t2) => lemma_bit_code_injective(t1, t2),
                _ => {},
            },
            Instruction::SET(_, t1) => match i2 {
                Instruction::SET(_, t2) => lemma_bit_code_injective(t1, t2),
                _ => {},
            },
            _ => {},
        }
    } else if 0x40 <= opcode < 0x80 && opcode != 0x76 {
        match (i1, i2) {
            (Instruction::LD(t1), Instruction::LD(t2)) => lemma_ld_rr_injective(t1, t2),
            _ => {},
        }
    }
}

proof fn lemma_bit_code_injective(t1: BitTarget, t2: BitTarget)
    requires
        bit_code(t1) == bit_code(t2),
    ensures
        t1 == t2,
{
}

proof fn lemma_ld_rr_injective(t1: LoadTarget, t2: LoadTarget)
    requires
        ld_rr(t1) is Some,
        ld_rr(t1) == ld_rr(t2),
    ensures
        t1 == t2,
{
}

/// The instruction that `decoded` allows is the one `decode` names.
pub proof fn lemma_decode(opcode: u8, next: u8, i: Instruction)
    requires
        decoded(opcode, next, i),
    ensures
        decode(opcode, next) == i,
{
    lemma_decoded_unique(opcode, next, i, decode(opcode, next));
}

/// Setting an 8-bit operand changes only that register or the bus.
pub proof fn lemma_set_r8_frame(s: CpuView, code: int, v: u8)
    ensures
        s.set_r8(code, v).registers.f == s.registers.f,
        s.set_r8(code, v).pc == s.pc,
        s.set_r8(code, v).sp == s.sp,
        s.set_r8(code, v).halted == s.halted,
        s.set_r8(code, v).ime == s.ime,
        s.set_r8(code, v).ie_register == s.ie_register,
        s.set_r8(code, v).if_register == s.if_register,
        s.set_r8(code, v).ei_delay == s.ei_delay,
{
    reveal(CpuView::set_r8);
}

/// `wrap16` of a value less than one period away from the range.
pub proof fn lemma_wrap16(x: int)
    requires
        -0x10000 <= x < 0x20000,
    ensures
        wrap16(x) == (if x < 0 {
            x + 0x10000
        } else if x >= 0x10000 {
            x - 0x10000
        } else {
            x
        }),
{
}

/// `wrap8` of a value less than one period away from the range.
pub proof fn lemma_wrap8(x: int)
    requires
        -0x100 <= x < 0x200,
    ensures
        wrap8(x) == (if x < 0 {
            x + 0x100
        } else if x >= 0x100 {
            x - 0x100
        } else {
            x
        }),
{
}

/// A nibble is at most 15.
proof fn lemma_nibble(x: u8)
    ensures
        x & 0xF <= 15,
{
    assert(x & 0xF <= 15) by (bit_vector);
}

impl CpuView {
    /// The CPU at power-on: registers clear, PC at the entry point 0x0100, SP 0xFFFE,
    /// interrupts disabled and none enabled or requested.
    pub open spec fn power_on() -> CpuView {
        CpuView {
            registers: Registers {
                a: 0,
                b: 0,
                c: 0,
                d: 0,
                e: 0,
                f: FlagsRegister { zero: false, subtract: false, half_carry: false, carry: false },
                h: 0,
                l: 0,
            },
            pc: 0x0100,
            sp: 0xFFFE,
            bus: BusView::power_on(),
            halted: false,
            ime: false,
            ie_register: 0,
            if_register: 0,
            ei_delay: false,
        }
    }
}

impl CPU {
    /// A CPU at power-on, at the cartridge entry point 0x0100, with the bus at
    /// power-on.
    pub fn new() -> (cpu: CPU)
        ensures
            cpu@ == CpuView::power_on(),
    {
        CPU {
            registers: Registers::new(),
            pc: 0x0100,
            sp: 0xFFFE,
            bus: MemoryBus::new(),
            halted: false,
            ime: false,
            ie_register: 0x00,
            if_register: 0x00,
            ei_delay: false,
        }
    }

    /// Reads the 8-bit operand with register code `code`.
    fn read_r8(&self, code: u8) -> (r: u8)
        requires
            code < 8,
            self@.bus.cart_fits(),
        ensures
            r == self@.get_r8(code as int),
    {
        reveal(CpuView::get_r8);
        if code == 0 {
            self.registers.b
        } else if code == 1 {
            self.registers.c
        } else if code == 2 {
            self.registers.d
        } else if code == 3 {
            self.registers.e
        } else if code == 4 {
            self.registers.h
        } else if code == 5 {
            self.registers.l
        } else if code == 6 {
            let address = self.registers.get_hl();
            self.bus.read_byte(address)
        } else {
            self.registers.a
        }
    }

    /// Writes the 8-bit operand with register code `code`.
    fn write_r8(&mut self, code: u8, value: u8)
        requires
            code < 8,
            old(self)@.bus.cart_fits(),
        ensures
            final(self)@ == old(self)@.set_r8(code as int, value),
            final(self)@.bus.cart_fits(),
            final(self)@.ppu_timing() == old(self)@.ppu_timing(),
    {
        reveal(CpuView::set_r8);
        if code == 0 {
            self.registers.b = value;
        } else if code == 1 {
            self.registers.c = value;
        } else if code == 2 {
            self.registers.d = value;
        } else if code == 3 {
            self.registers.e = value;
        } else if code == 4 {
            self.registers.h = value;
        } else if code == 5 {
            self.registers.l = value;
        } else if code == 6 {
            let address = self.registers.get_hl();
            self.bus.write_byte(address, value);
        } else {
            self.registers.a = value;
        }
    }

    /// Reads the byte at PC and moves PC past it.
    fn read_imm8(&mut self) -> (r: u8)
        requires
            old(self)@.bus.cart_fits(),
        ensures
            r == old(self)@.imm8(),
            final(self)@ == old(self)@.advance(1),
    {
        let value = self.bus.read_byte(self.pc);
        self.pc = self.pc.wrapping_add(1);
        value
    }

    /// Reads the little-endian word at PC and moves PC past it.
    fn read_imm16(&mut self) -> (r: u16)
        requires
            old(self)@.bus.cart_fits(),
        ensures
            r == old(self)@.imm16(),
            final(self)@ == old(self)@.advance(2),
    {
        let low = self.bus.read_byte(self.pc) as u16;
        self.pc = self.pc.wrapping_add(1);
        let high = self.bus.read_byte(self.pc) as u16;
        self.pc = self.pc.wrapping_add(1);
        proof {
            assert((high << 8u16) | low == high * 256 + low) by (bit_vector)
                requires
                    high <= 0xFF,
                    low <= 0xFF,
            ;
        }
        (high << 8) | low
    }

    /// The value of an arithmetic operand; an immediate byte is read from PC.
    fn get_arithmetic_target_value(&mut self, target: ArithmeticTarget) -> (r: u8)
        requires
            old(self)@.bus.cart_fits(),
        ensures
            r == old(self)@.arith_operand(target),
            final(self)@ == old(self)@.after_operand(target),
    {
        reveal(CpuView::get_r8);
        match target {
            ArithmeticTarget::A => self.registers.a,
            ArithmeticTarget::B => self.registers.b,
            ArithmeticTarget::C => self.registers.c,
            ArithmeticTarget::D => self.registers.d,
            ArithmeticTarget::E => self.registers.e,
            ArithmeticTarget::H => self.registers.h,
            ArithmeticTarget::L => self.registers.l,
            ArithmeticTarget::HLIndirect => {
                let address = self.registers.get_hl();
                self.bus.read_byte(address)
            },
            ArithmeticTarget::D8 => self.read_imm8(),
        }
    }

    /// A <- A + value, with the flags.
    pub fn add(&mut self, value: u8)
        ensures
            final(self)@ == old(self)@.with_a_flags(alu_add(old(self).registers.a, value)),
    {
        proof {
            lemma_nibble(self.registers.a);
            lemma_nibble(value);
        }
        let a = self.registers.a;
        let new_value = a.wrapping_add(value);
        self.registers.f.zero = new_value == 0;
        self.registers.f.subtract = false;
        self.registers.f.carry = (a as u16) + (value as u16) > 0xFF;
        self.registers.f.half_carry = (a & 0xF) + (value & 0xF) > 0xF;
        self.registers.a = new_value;
    }

    /// A <- A + value + carry, with the flags.
    fn adc(&mut self, value: u8)
        ensures
            final(self)@ == old(self)@.with_a_flags(
                alu_adc(old(self).registers.a, value, old(self).registers.f.carry),
            ),
    {
        proof {
            lemma_nibble(self.registers.a);
            lemma_nibble(value);
        }
        let a = self.registers.a;
        let carry: u8 = if self.registers.f.carry {
            1
        } else {
            0
        };
        let result = a.wrapping_add(value).wrapping_add(carry);
        self.registers.f.zero = result == 0;
        self.registers.f.subtract = false;
        self.registers.f.carry = (a as u16) + (value as u16) + (carry as u16) > 0xFF;
        self.registers.f.half_carry = (a & 0xF) + (value & 0xF) + carry > 0xF;
        self.registers.a = result;
    }

    /// A <- A - value, with the flags.
    pub fn sub(&mut self, value: u8)
        ensures
            final(self)@ == old(self)@.with_a_flags(alu_sub(old(self).registers.a, value)),
    {
        proof {
            lemma_nibble(self.registers.a);
            lemma_nibble(value);
        }
        let a = self.registers.a;
        let new_value = a.wrapping_sub(value);
        self.registers.f.zero = new_value == 0;
        self.registers.f.subtract = true;
        self.registers.f.carry = a < value;
        self.registers.f.half_carry = (a & 0xF) < (value & 0xF);
        self.registers.a = new_value;
    }

    /// A <- A - value - carry, with the flags.
    fn sbc(&mut self, value: u8)
        ensures
            final(self)@ == old(self)@.with_a_flags(
                alu_sbc(old(self).registers.a, value, old(self).registers.f.carry),
            ),
    {
        proof {
            lemma_nibble(self.registers.a);
            lemma_nibble(value);
        }
        let a = self.registers.a;
        let carry: u8 = if self.registers.f.carry {
            1
        } else {
            0
        };
        let result = a.wrapping_sub(value).wrapping_sub(carry);
        self.registers.f.zero = result == 0;
        self.registers.f.subtract = true;
        self.registers.f.carry = (a as u16) < (value as u16) + (carry as u16);
        self.registers.f.half_carry = (a & 0xF) < (value & 0xF) + carry;
        self.registers.a = result;
    }

    /// A <- A & value (H set, N and C clear).
    pub fn and(&mut self, value: u8)
        ensures
            final(self)@ == old(self)@.with_a_flags(alu_and(old(self).registers.a, value)),
    {
        let new_value = self.registers.a & value;
        self.registers.f.zero = new_value == 0;
        self.registers.f.subtract = false;
        self.registers.f.carry = false;
        self.registers.f.half_carry = true;
        self.registers.a = new_value;
    }

    /// A <- A | value (N, H and C clear).
    pub fn or(&mut self, value: u8)
        ensures
            final(self)@ == old(self)@.with_a_flags(alu_or(old(self).registers.a, value)),
    {
        let new_value = self.registers.a | value;
        self.registers.f.zero = new_value == 0;
        self.registers.f.subtract = false;
        self.registers.f.carry = false;
        self.registers.f.half_carry = false;
        self.registers.a = new_value;
    }

    /// A <- A ^ value (N, H and C clear).
    pub fn xor(&mut self, value: u8)
        ensures
            final(self)@ == old(self)@.with_a_flags(alu_xor(old(self).registers.a, value)),
    {
        let new_value = self.registers.a ^ value;
        self.registers.f.zero = new_value == 0;
        self.registers.f.subtract = false;
        self.registers.f.carry = false;
        self.registers.f.half_carry = false;
        self.registers.a = new_value;
    }

    /// The flags of A - value; A is kept.
    fn cp(&mut self, value: u8)
        ensures
            final(self)@ == old(self)@.with_flags(alu_sub(old(self).registers.a, value).1),
    {
        proof {
            lemma_nibble(self.registers.a);
            lemma_nibble(value);
        }
        let a = self.registers.a;
        let new_value = a.wrapping_sub(value);
        self.registers.f.zero = new_value == 0;
        self.registers.f.subtract = true;
        self.registers.f.carry = a < value;
        self.registers.f.half_carry = (a & 0xF) < (value & 0xF);
    }
}

/// The register codes of a register-to-register load.
fn ld_codes(t: LoadTarget) -> (r: Option<(u8, u8)>)
    ensures
        match r {
            Some((d, s)) => ld_rr(t) == Some((d as int, s as int)) && d < 8 && s < 8,
            None => ld_rr(t) is None,
        },
{
    match t {
        LoadTarget::BFromB => Some((0, 0)),
        LoadTarget::BFromC => Some((0, 1)),
        LoadTarget::BFromD => Some((0, 2)),
        LoadTarget::BFromE => Some((0, 3)),
        LoadTarget::BFromH => Some((0, 4)),
        LoadTarget::BFromL => Some((0, 5)),
        LoadTarget::BFromHLIndirect => Some((0, 6)),
        LoadTarget::BFromA => Some((0, 7)),
        LoadTarget::CFromB => Some((1, 0)),
        LoadTarget::CFromC => Some((1, 1)),
        LoadTarget::CFromD => Some((1, 2)),
        LoadTarget::CFromE => Some((1, 3)),
        LoadTarget::CFromH => Some((1, 4)),
        LoadTarget::CFromL => Some((1, 5)),
        LoadTarget::CFromHLIndirect => Some((1, 6)),
        LoadTarget::CFromA => Some((1, 7)),
        LoadTarget::DFromB => Some((2, 0)),
        LoadTarget::DFromC => Some((2, 1)),
        LoadTarget::DFromD => Some((2, 2)),
        LoadTarget::DFromE => Some((2, 3)),
        LoadTarget::DFromH => Some((2, 4)),
        LoadTarget::DFromL => Some((2, 5)),
        LoadTarget::DFromHLIndirect => Some((2, 6)),
        LoadTarget::DFromA => Some((2, 7)),
        LoadTarget::EFromB => Some((3, 0)),
        LoadTarget::EFromC => Some((3, 1)),
        LoadTarget::EFromD => Some((3, 2)),
        LoadTarget::EFromE => Some((3, 3)),
        LoadTarget::EFromH => Some((3, 4)),
        LoadTarget::EFromL => Some((3, 5)),
        LoadTarget::EFromHLIndirect => Some((3, 6)),
        LoadTarget::EFromA => Some((3, 7)),
        LoadTarget::HFromB => Some((4, 0)),
        LoadTarget::HFromC => Some((4, 1)),
        LoadTarget::HFromD => Some((4, 2)),
        LoadTarget::HFromE => Some((4, 3)),
        LoadTarget::HFromH => Some((4, 4)),
        LoadTarget::HFromL => Some((4, 5)),
        LoadTarget::HFromHLIndirect => Some((4, 6)),
        LoadTarget::HFromA => Some((4, 7)),
        LoadTarget::LFromB => Some((5, 0)),
        LoadTarget::LFromC => Some((5, 1)),
        LoadTarget::LFromD => Some((5, 2)),
        LoadTarget::LFromE => Some((5, 3)),
        LoadTarget::LFromH => Some((5, 4)),
        LoadTarget::LFromL => Some((5, 5)),
        LoadTarget::LFromHLIndirect => Some((5, 6)),
        LoadTarget::LFromA => Some((5, 7)),
        LoadTarget::HLIndirectFromB => Some((6, 0)),
        LoadTarget::HLIndirectFromC => Some((6, 1)),
        LoadTarget::HLIndirectFromD => Some((6, 2)),
        LoadTarget::HLIndirectFromE => Some((6, 3)),
        LoadTarget::HLIndirectFromH => Some((6, 4)),
        LoadTarget::HLIndirectFromL => Some((6, 5)),
        LoadTarget::HLIndirectFromA => Some((6, 7)),
        LoadTarget::AFromB => Some((7, 0)),
        LoadTarget::AFromC => Some((7, 1)),
        LoadTarget::AFromD => Some((7, 2)),
        LoadTarget::AFromE => Some((7, 3)),
        LoadTarget::AFromH => Some((7, 4)),
        LoadTarget::AFromL => Some((7, 5)),
        LoadTarget::AFromHLIndirect => Some((7, 6)),
        LoadTarget::AFromA => Some((7, 7)),
        _ => None,
    }
}

/// The destination register code of an immediate-byte load.
fn ld_imm_code(t: LoadTarget) -> (r: Option<u8>)
    ensures
        match r {
            Some(d) => ld_imm(t) == Some(d as int) && d < 8,
            None => ld_imm(t) is None,
        },
{
    match t {
        LoadTarget::BFromD8 => Some(0),
        LoadTarget::CFromD8 => Some(1),
        LoadTarget::DFromD8 => Some(2),
        LoadTarget::EFromD8 => Some(3),
        LoadTarget::HFromD8 => Some(4),
        LoadTarget::LFromD8 => Some(5),
        LoadTarget::HLIndirectFromD8 => Some(6),
        LoadTarget::AFromD8 => Some(7),
        _ => None,
    }
}

/// The register code of an 8-bit INC/DEC operand.
fn incdec_code8(t: IncDecTarget) -> (r: u8)
    requires
        incdec_code(t) is Some,
    ensures
        incdec_code(t) == Some(r as int),
        r < 8,
{
    match t {
        IncDecTarget::B => 0,
        IncDecTarget::C => 1,
        IncDecTarget::D => 2,
        IncDecTarget::E => 3,
        IncDecTarget::H => 4,
        IncDecTarget::L => 5,
        IncDecTarget::HLIndirect => 6,
        _ => 7,
    }
}

/// The register code of a rotate, shift or bit operand.
fn bit_target_code(t: BitTarget) -> (r: u8)
    ensures
        r as int == bit_code(t),
        r < 8,
{
    match t {
        BitTarget::B => 0,
        BitTarget::C => 1,
        BitTarget::D => 2,
        BitTarget::E => 3,
        BitTarget::H => 4,
        BitTarget::L => 5,
        BitTarget::HLIndirect => 6,
        BitTarget::A => 7,
    }
}

/// The rotate/shift/swap of `v` of kind `kind`, and the bit that goes to carry.
fn shift_value(kind: u8, v: u8, carry: bool) -> (r: (u8, bool))
    requires
        kind < 8,
    ensures
        r == shift_result(kind as int, v, carry),
{
    proof {
        assert((v << 1u8) == wrap8(2 * v) && (v >> 1u8) == v / 2 && (v & 0x80 != 0) == (v >= 0x80)
            && (v & 0x01 != 0) == (v % 2 == 1) && (v & 0x80) == (if v >= 0x80 { 0x80u8 } else { 0 })
            && (v << 4u8) | (v >> 4u8) == (v % 16) * 16 + v / 16) by (bit_vector);
        assert(forall|x: u8, y: u8| #![auto] x <= 1 ==> (y << 1u8) | x == (y << 1u8) + x)
            by (bit_vector);
        assert(forall|x: u8, y: u8| #![auto] (x == 0 || x == 0x80) ==> (y >> 1u8) | x == (y >> 1u8) + x)
            by (bit_vector);
    }
    if kind == 0 {
        let top = (v & 0x80) != 0;
        ((v << 1) | (if top { 1 } else { 0 }), top)
    } else if kind == 1 {
        let bottom = (v & 0x01) != 0;
        ((v >> 1) | (if bottom { 0x80 } else { 0 }), bottom)
    } else if kind == 2 {
        ((v << 1) | (if carry { 1 } else { 0 }), (v & 0x80) != 0)
    } else if kind == 3 {
        ((v >> 1) | (if carry { 0x80 } else { 0 }), (v & 0x01) != 0)
    } else if kind == 4 {
        (v << 1, (v & 0x80) != 0)
    } else if kind == 5 {
        ((v >> 1) | (v & 0x80), (v & 0x01) != 0)
    } else if kind == 6 {
        ((v << 4) | (v >> 4), false)
    } else {
        (v >> 1, (v & 0x01) != 0)
    }
}

impl CPU {
    /// INC of an 8-bit operand (with the flags) or a 16-bit register.
    #[verifier::rlimit(30)]
    pub fn inc(&mut self, target: IncDecTarget)
        requires
            old(self)@.bus.cart_fits(),
        ensures
            final(self)@ == old(self)@.inc_spec(target),
            final(self)@.bus.cart_fits(),
            final(self)@.ppu_timing() == old(self)@.ppu_timing(),
    {
        reveal(CpuView::inc_spec);
        let ghost s0 = self@;
        match target {
            IncDecTarget::BC => {
                let value = self.registers.get_bc().wrapping_add(1);
                proof {
                    lemma_wrap16(self.registers.bc() + 1);
                }
                assert(value == wrap16(self.registers.bc() + 1));
                assert(s0.inc_spec(target) == s0.with_registers(s0.registers.with_bc(value)));
                self.registers.set_bc(value);
            },
            IncDecTarget::DE => {
                let value = self.registers.get_de().wrapping_add(1);
                proof {
                    lemma_wrap16(self.registers.de() + 1);
                }
                assert(value == wrap16(self.registers.de() + 1));
                assert(s0.inc_spec(target) == s0.with_registers(s0.registers.with_de(value)));
                self.registers.set_de(value);
            },
            IncDecTarget::HL => {
                let value = self.registers.get_hl().wrapping_add(1);
                proof {
                    lemma_wrap16(self.registers.hl() + 1);
                }
                assert(value == wrap16(self.registers.hl() + 1));
                assert(s0.inc_spec(target) == s0.with_registers(s0.registers.with_hl(value)));
                self.registers.set_hl(value);
            },
            IncDecTarget::SP => {
                proof {
                    lemma_wrap16(s0.sp + 1);
                }
                assert(s0.inc_spec(target) == (CpuView { sp: wrap16(s0.sp + 1), ..s0 }));
                self.sp = self.sp.wrapping_add(1);
            },
            _ => self.inc_8(target),
        }
    }

    fn inc_8(&mut self, target: IncDecTarget)
        requires
            incdec_code(target) is Some,
            old(self)@.bus.cart_fits(),
        ensures
            final(self)@ == old(self)@.inc_spec(target),
            final(self)@.bus.cart_fits(),
            final(self)@.ppu_timing() == old(self)@.ppu_timing(),
    {
        reveal(CpuView::inc_spec);
        let ghost s0 = self@;
        let code = incdec_code8(target);
        let value = self.read_r8(code);
        let new_value = value.wrapping_add(1);
        let ghost result = alu_inc(value, s0.registers.f);
        assert(new_value == result.0);
        assert(s0.inc_spec(target) == s0.set_r8(code as int, new_value).with_flags(result.1));
        proof {
            lemma_set_r8_frame(s0, code as int, new_value);
        }
        self.write_r8(code, new_value);
        self.registers.f.zero = new_value == 0;
        self.registers.f.subtract = false;
        self.registers.f.half_carry = (value & 0xF) == 0xF;
        assert(self.registers.f == result.1);
    }

    /// DEC of an 8-bit operand (with the flags) or a 16-bit register.
    #[verifier::rlimit(30)]
    pub fn dec(&mut self, target: IncDecTarget)
        requires
            old(self)@.bus.cart_fits(),
        ensures
            final(self)@ == old(self)@.dec_spec(target),
            final(self)@.bus.cart_fits(),
            final(self)@.ppu_timing() == old(self)@.ppu_timing(),
    {
        reveal(CpuView::dec_spec);
        let ghost s0 = self@;
        match target {
            IncDecTarget::BC => {
                let value = self.registers.get_bc().wrapping_sub(1);
                proof {
                    lemma_wrap16(self.registers.bc() - 1);
                }
                assert(value == wrap16(self.registers.bc() - 1));
                assert(s0.dec_spec(target) == s0.with_registers(s0.registers.with_bc(value)));
                self.registers.set_bc(value);
            },
            IncDecTarget::DE => {
                let value = self.registers.get_de().wrapping_sub(1);
                proof {
                    lemma_wrap16(self.registers.de() - 1);
                }
                assert(value == wrap16(self.registers.de() - 1));
                assert(s0.dec_spec(target) == s0.with_registers(s0.registers.with_de(value)));
                self.registers.set_de(value);
            },
            IncDecTarget::HL => {
                let value = self.registers.get_hl().wrapping_sub(1);
                proof {
                    lemma_wrap16(self.registers.hl() - 1);
                }
                assert(value == wrap16(self.registers.hl() - 1));
                assert(s0.dec_spec(target) == s0.with_registers(s0.registers.with_hl(value)));
                self.registers.set_hl(value);
            },
            IncDecTarget::SP => {
                proof {
                    lemma_wrap16(s0.sp - 1);
                }
                assert(s0.dec_spec(target) == (CpuView { sp: wrap16(s0.sp - 1), ..s0 }));
                self.sp = self.sp.wrapping_sub(1);
            },
            _ => self.dec_8(target),
        }
    }

    fn dec_8(&mut self, target: IncDecTarget)
        requires
            incdec_code(target) is Some,
            old(self)@.bus.cart_fits(),
        ensures
            final(self)@ == old(self)@.dec_spec(target),
            final(self)@.bus.cart_fits(),
            final(self)@.ppu_timing() == old(self)@.ppu_timing(),
    {
        reveal(CpuView::dec_spec);
        let ghost s0 = self@;
        let code = incdec_code8(target);
        let value = self.read_r8(code);
        let new_value = value.wrapping_sub(1);
        let ghost result = alu_dec(value, s0.registers.f);
        assert(new_value == result.0);
        assert(s0.dec_spec(target) == s0.set_r8(code as int, new_value).with_flags(result.1));
        proof {
            lemma_set_r8_frame(s0, code as int, new_value);
        }
        self.write_r8(code, new_value);
        self.registers.f.zero = new_value == 0;
        self.registers.f.subtract = true;
        self.registers.f.half_carry = (value & 0xF) == 0;
        assert(self.registers.f == result.1);
    }
}

impl CPU {
    /// Pushes `value`: high byte at SP-1, low byte at SP-2.
    fn push_word(&mut self, value: u16)
        requires
            old(self)@.bus.cart_fits(),
        ensures
            final(self)@ == old(self)@.pushed(value),
            final(self)@.bus.cart_fits(),
            final(self)@.ppu_timing() == old(self)@.ppu_timing(),
    {
        let ghost s0 = self@;
        let high = (value >> 8) as u8;
        let low = (value & 0xFF) as u8;
        proof {
            assert(high == value / 256 && low == value % 256) by (bit_vector)
                requires
                    high == (value >> 8) as u8,
                    low == (value & 0xFF) as u8,
            ;
        }
        self.sp = self.sp.wrapping_sub(1);
        self.bus.write_byte(self.sp, high);
        self.sp = self.sp.wrapping_sub(1);
        self.bus.write_byte(self.sp, low);
        assert(self@ == s0.pushed(value));
    }

    /// Pops the little-endian word at SP.
    fn pop_word(&mut self) -> (r: u16)
        requires
            old(self)@.bus.cart_fits(),
        ensures
            r == old(self)@.top_of_stack(),
            final(self)@ == old(self)@.popped(),
    {
        let low = self.bus.read_byte(self.sp) as u16;
        self.sp = self.sp.wrapping_add(1);
        let high = self.bus.read_byte(self.sp) as u16;
        self.sp = self.sp.wrapping_add(1);
        proof {
            assert((high << 8u16) | low == high * 256 + low) by (bit_vector)
                requires
                    high <= 0xFF,
                    low <= 0xFF,
            ;
        }
        (high << 8) | low
    }

    /// PUSH: the 16-bit register goes on the stack.
    pub fn push(&mut self, target: StackTarget)
        requires
            old(self)@.bus.cart_fits(),
        ensures
            final(self)@ == old(self)@.pushed(old(self)@.stack_value(target)),
            final(self)@.bus.cart_fits(),
            final(self)@.ppu_timing() == old(self)@.ppu_timing(),
    {
        let value = match target {
            StackTarget::AF => self.registers.get_af(),
            StackTarget::BC => self.registers.get_bc(),
            StackTarget::DE => self.registers.get_de(),
            StackTarget::HL => self.registers.get_hl(),
        };
        self.push_word(value);
    }

    /// POP: the word at the top of the stack goes to the 16-bit register.
    pub fn pop(&mut self, target: StackTarget)
        requires
            old(self)@.bus.cart_fits(),
        ensures
            final(self)@ == old(self)@.popped().with_stack_value(
                target,
                old(self)@.top_of_stack(),
            ),
            final(self)@.bus.cart_fits(),
            final(self)@.ppu_timing() == old(self)@.ppu_timing(),
    {
        let value = self.pop_word();
        match target {
            StackTarget::AF => self.registers.set_af(value),
            StackTarget::BC => self.registers.set_bc(value),
            StackTarget::DE => self.registers.set_de(value),
            StackTarget::HL => self.registers.set_hl(value),
        }
    }

    /// Whether `condition` holds of the flags.
    pub fn check_condition(&self, condition: JumpCondition) -> (r: bool)
        ensures
            r == self@.condition(condition),
    {
        match condition {
            JumpCondition::Always => true,
            JumpCondition::Zero => self.registers.f.zero,
            JumpCondition::NotZero => !self.registers.f.zero,
            JumpCondition::Carry => self.registers.f.carry,
            JumpCondition::NotCarry => !self.registers.f.carry,
        }
    }

    /// JP: to the immediate address if the condition holds.
    fn jump(&mut self, condition: JumpCondition)
        requires
            old(self)@.bus.cart_fits(),
        ensures
            final(self)@ == old(self)@.jp_spec(condition),
            final(self)@.bus == old(self)@.bus,
    {
        reveal(CpuView::jp_spec);
        if self.check_condition(condition) {
            let address = self.read_imm16();
            self.pc = address;
        } else {
            self.pc = self.pc.wrapping_add(2);
        }
    }

    /// JR: by the signed immediate offset if the condition holds.
    fn jump_relative(&mut self, condition: JumpCondition)
        requires
            old(self)@.bus.cart_fits(),
        ensures
            final(self)@ == old(self)@.jr_spec(condition),
            final(self)@.bus == old(self)@.bus,
    {
        reveal(CpuView::jr_spec);
        let ghost s0 = self@;
        if self.check_condition(condition) {
            let offset = self.read_imm8();
            if offset < 128 {
                self.pc = self.pc.wrapping_add(offset as u16);
            } else {
                self.pc = self.pc.wrapping_sub(256 - offset as u16);
            }
            assert(self.pc == wrap16(s0.pc + 1 + signed8(offset)));
        } else {
            self.pc = self.pc.wrapping_add(1);
        }
    }

    /// CALL: pushes the address after the instruction and jumps, if the
    /// condition holds.
    fn call(&mut self, condition: JumpCondition)
        requires
            old(self)@.bus.cart_fits(),
        ensures
            final(self)@ == old(self)@.call_spec(condition),
            final(self)@.bus.cart_fits(),
            final(self)@.ppu_timing() == old(self)@.ppu_timing(),
    {
        reveal(CpuView::call_spec);
        if self.check_condition(condition) {
            let address = self.read_imm16();
            self.push_word(self.pc);
            self.pc = address;
        } else {
            self.pc = self.pc.wrapping_add(2);
        }
    }

    /// RET: pops the program counter if the condition holds.
    fn ret(&mut self, condition: JumpCondition)
        requires
            old(self)@.bus.cart_fits(),
        ensures
            final(self)@ == old(self)@.ret_spec(condition),
            final(self)@.bus == old(self)@.bus,
    {
        reveal(CpuView::ret_spec);
        if self.check_condition(condition) {
            let address = self.pop_word();
            self.pc = address;
        }
    }

    /// LDH: A to or from the high page.
    fn load_high(&mut self, target: LDHTarget)
        requires
            old(self)@.bus.cart_fits(),
        ensures
            final(self)@ == old(self)@.ldh_spec(target),
            final(self)@.bus.cart_fits(),
            final(self)@.ppu_timing() == old(self)@.ppu_timing(),
    {
        reveal(CpuView::ldh_spec);
        match target {
            LDHTarget::A8FromA => {
                let offset = self.read_imm8();
                self.bus.write_byte(0xFF00 + offset as u16, self.registers.a);
            },
            LDHTarget::AFromA8 => {
                let offset = self.read_imm8();
                self.registers.a = self.bus.read_byte(0xFF00 + offset as u16);
            },
            LDHTarget::CFromA => {
                self.bus.write_byte(0xFF00 + self.registers.c as u16, self.registers.a);
            },
            LDHTarget::AFromC => {
                self.registers.a = self.bus.read_byte(0xFF00 + self.registers.c as u16);
            },
        }
    }

    /// A rotate, shift or SWAP of the operand with register code `code`.
    fn shift_operand(&mut self, kind: u8, code: u8)
        requires
            kind < 8,
            code < 8,
            old(self)@.bus.cart_fits(),
        ensures
            final(self)@ == old(self)@.shift_spec(kind as int, code as int),
            final(self)@.bus.cart_fits(),
            final(self)@.ppu_timing() == old(self)@.ppu_timing(),
    {
        reveal(CpuView::shift_spec);
        let ghost s0 = self@;
        let value = self.read_r8(code);
        let (result, carry) = shift_value(kind, value, self.registers.f.carry);
        proof {
            lemma_set_r8_frame(s0, code as int, result);
        }
        self.write_r8(code, result);
        self.registers.f.zero = result == 0;
        self.registers.f.subtract = false;
        self.registers.f.half_carry = false;
        self.registers.f.carry = carry;
        assert(self.registers.f == flags(result, false, false, carry));
    }

    /// BIT: Z is set when bit `bit` of the operand is clear; H set, N clear.
    fn test_bit(&mut self, bit: u8, code: u8)
        requires
            bit < 8,
            code < 8,
            old(self)@.bus.cart_fits(),
        ensures
            final(self)@ == old(self)@.bit_spec(bit, code as int),
            final(self)@.bus == old(self)@.bus,
    {
        reveal(CpuView::bit_spec);
        let value = self.read_r8(code);
        let result = value & (1u8 << bit);
        self.registers.f.zero = result == 0;
        self.registers.f.subtract = false;
        self.registers.f.half_carry = true;
    }

    /// RES or SET: clears or sets bit `bit` of the operand.
    fn change_bit(&mut self, bit: u8, code: u8, set: bool)
        requires
            bit < 8,
            code < 8,
            old(self)@.bus.cart_fits(),
        ensures
            final(self)@ == old(self)@.change_bit_spec(bit, code as int, set),
            final(self)@.bus.cart_fits(),
            final(self)@.ppu_timing() == old(self)@.ppu_timing(),
    {
        reveal(CpuView::change_bit_spec);
        let value = self.read_r8(code);
        if set {
            self.write_r8(code, value | (1u8 << bit));
        } else {
            self.write_r8(code, value & !(1u8 << bit));
        }
    }

    /// DAA: decimal-adjusts A after a BCD addition or subtraction.
    fn decimal_adjust(&mut self)
        ensures
            final(self)@ == old(self)@.with_a_flags(
                alu_daa(old(self).registers.a, old(self).registers.f),
            ),
    {
        let (result, flags) = daa(self.registers.a, self.registers.f);
        self.registers.a = result;
        self.registers.f = flags;
    }
}

/// The DAA result and flags for A = `a` and flags `f`.
fn daa(a: u8, f: FlagsRegister) -> (r: (u8, FlagsRegister))
    ensures
        r == alu_daa(a, f),
{
    reveal(alu_daa);
    let mut adjust: u8 = 0;
    let mut carry = f.carry;
    if f.half_carry || (!f.subtract && (a & 0x0F) > 9) {
        adjust = adjust + 0x06;
    }
    if f.carry || (!f.subtract && a > 0x99) {
        adjust = adjust + 0x60;
        carry = true;
    }
    let result = if f.subtract {
        proof {
            lemma_wrap8(a - adjust);
        }
        a.wrapping_sub(adjust)
    } else {
        proof {
            lemma_wrap8(a + adjust);
        }
        a.wrapping_add(adjust)
    };
    (result, FlagsRegister { zero: result == 0, half_carry: false, carry, ..f })
}

impl CPU {
    /// LD through BC, DE or HL (the HL forms stepping HL), and loads of 16-bit
    /// immediates and absolute addresses.
    #[verifier::rlimit(40)]
    fn load_indirect(&mut self, target: LoadTarget)
        requires
            ld_rr(target) is None,
            ld_imm(target) is None,
            target != LoadTarget::A16FromSP,
            target != LoadTarget::SPFromHL,
            target != LoadTarget::HLFromSPOffset,
            old(self)@.bus.cart_fits(),
        ensures
            final(self)@ == old(self)@.load_spec(target),
            final(self)@.bus.cart_fits(),
            final(self)@.ppu_timing() == old(self)@.ppu_timing(),
    {
        reveal(CpuView::load_spec);
        reveal(CpuView::load_plain_spec);
        let ghost s0 = self@;
        match target {
            LoadTarget::AFromHLIndirectDec => {
                let address = self.registers.get_hl();
                self.registers.a = self.bus.read_byte(address);
                proof {
                    lemma_wrap16(address - 1);
                }
                self.registers.set_hl(address.wrapping_sub(1));
            },
            LoadTarget::AFromHLIndirectInc => {
                let address = self.registers.get_hl();
                self.registers.a = self.bus.read_byte(address);
                proof {
                    lemma_wrap16(address + 1);
                }
                self.registers.set_hl(address.wrapping_add(1));
            },
            LoadTarget::AFromBCIndirect => {
                let address = self.registers.get_bc();
                self.registers.a = self.bus.read_byte(address);
            },
            LoadTarget::AFromDEIndirect => {
                let address = self.registers.get_de();
                self.registers.a = self.bus.read_byte(address);
            },
            LoadTarget::HLIndirectFromADec => {
                let address = self.registers.get_hl();
                self.bus.write_byte(address, self.registers.a);
                proof {
                    lemma_wrap16(address - 1);
                }
                self.registers.set_hl(address.wrapping_sub(1));
            },
            LoadTarget::HLIndirectFromAInc => {
                let address = self.registers.get_hl();
                self.bus.write_byte(address, self.registers.a);
                proof {
                    lemma_wrap16(address + 1);
                }
                self.registers.set_hl(address.wrapping_add(1));
            },
            LoadTarget::BCIndirectFromA => {
                let address = self.registers.get_bc();
                self.bus.write_byte(address, self.registers.a);
            },
            LoadTarget::DEIndirectFromA => {
                let address = self.registers.get_de();
                self.bus.write_byte(address, self.registers.a);
            },
            _ => self.load_wide(target),
        }
    }

    /// LD of a 16-bit immediate, or of A from or to an absolute address.
    fn load_wide(&mut self, target: LoadTarget)
        requires
            ld_rr(target) is None,
            ld_imm(target) is None,
            target != LoadTarget::AFromHLIndirectDec,
            target != LoadTarget::AFromHLIndirectInc,
            target != LoadTarget::AFromBCIndirect,
            target != LoadTarget::AFromDEIndirect,
            target != LoadTarget::HLIndirectFromADec,
            target != LoadTarget::HLIndirectFromAInc,
            target != LoadTarget::BCIndirectFromA,
            target != LoadTarget::DEIndirectFromA,
            target != LoadTarget::A16FromSP,
            target != LoadTarget::SPFromHL,
            target != LoadTarget::HLFromSPOffset,
            old(self)@.bus.cart_fits(),
        ensures
            final(self)@ == old(self)@.load_spec(target),
            final(self)@.bus.cart_fits(),
            final(self)@.ppu_timing() == old(self)@.ppu_timing(),
    {
        reveal(CpuView::load_spec);
        reveal(CpuView::load_plain_spec);
        let value = self.read_imm16();
        match target {
            LoadTarget::BCFromD16 => self.registers.set_bc(value),
            LoadTarget::DEFromD16 => self.registers.set_de(value),
            LoadTarget::HLFromD16 => self.registers.set_hl(value),
            LoadTarget::SPFromD16 => {
                self.sp = value;
            },
            LoadTarget::AFromA16 => {
                self.registers.a = self.bus.read_byte(value);
            },
            _ => {
                self.bus.write_byte(value, self.registers.a);
            },
        }
    }

    /// LD: copies a register, the byte at an address or an immediate into a
    /// register or to an address.
    fn load(&mut self, target: LoadTarget)
        requires
            old(self)@.bus.cart_fits(),
        ensures
            final(self)@ == old(self)@.load_spec(target),
            final(self)@.bus.cart_fits(),
            final(self)@.ppu_timing() == old(self)@.ppu_timing(),
    {
        reveal(CpuView::load_spec);
        reveal(CpuView::load_plain_spec);
        match target {
            LoadTarget::A16FromSP => {
                self.store_sp();
                return;
            },
            LoadTarget::SPFromHL => {
                self.sp = self.registers.get_hl();
                return;
            },
            LoadTarget::HLFromSPOffset => {
                self.load_hl_sp_offset();
                return;
            },
            _ => {},
        }
        match ld_codes(target) {
            Some((destination, source)) => {
                let value = self.read_r8(source);
                self.write_r8(destination, value);
            },
            None => match ld_imm_code(target) {
                Some(destination) => {
                    let value = self.read_imm8();
                    self.write_r8(destination, value);
                },
                None => self.load_indirect(target),
            },
        }
    }
}

impl CPU {
    /// The 8-bit arithmetic and logic group: `op` picks ADD, ADC, SUB, SBC, AND,
    /// XOR, OR or CP, applied to A and the operand `target`.
    fn alu(&mut self, op: u8, target: ArithmeticTarget)
        requires
            op < 8,
            old(self)@.bus.cart_fits(),
        ensures
            final(self)@ == old(self)@.alu_spec(op as int, target),
            final(self)@.bus == old(self)@.bus,
    {
        reveal(CpuView::alu_spec);
        let value = self.get_arithmetic_target_value(target);
        if op == 0 {
            self.add(value);
        } else if op == 1 {
            self.adc(value);
        } else if op == 2 {
            self.sub(value);
        } else if op == 3 {
            self.sbc(value);
        } else if op == 4 {
            self.and(value);
        } else if op == 5 {
            self.xor(value);
        } else if op == 6 {
            self.or(value);
        } else {
            self.cp(value);
        }
    }

    /// Runs an arithmetic or logic instruction.
    fn execute_alu(&mut self, instruction: Instruction)
        requires
            is_alu(instruction),
            old(self)@.bus.cart_fits(),
        ensures
            final(self)@ == old(self)@.execute_spec(instruction),
            final(self)@.bus.cart_fits(),
            final(self)@.ppu_timing() == old(self)@.ppu_timing(),
    {
        let ghost s = self@;
        match instruction {
            Instruction::ADD(t) => {
                proof {
                    lemma_unfold_alu(s, t);
                }
                self.alu(0, t);
            },
            Instruction::ADC(t) => {
                proof {
                    lemma_unfold_alu(s, t);
                }
                self.alu(1, t);
            },
            Instruction::SUB(t) => {
                proof {
                    lemma_unfold_alu(s, t);
                }
                self.alu(2, t);
            },
            Instruction::SBC(t) => {
                proof {
                    lemma_unfold_alu(s, t);
                }
                self.alu(3, t);
            },
            Instruction::AND(t) => {
                proof {
                    lemma_unfold_alu(s, t);
                }
                self.alu(4, t);
            },
            Instruction::XOR(t) => {
                proof {
                    lemma_unfold_alu(s, t);
                }
                self.alu(5, t);
            },
            Instruction::OR(t) => {
                proof {
                    lemma_unfold_alu(s, t);
                }
                self.alu(6, t);
            },
            Instruction::CP(t) => {
                proof {
                    lemma_unfold_alu(s, t);
                }
                self.alu(7, t);
            },
            _ => {},
        }
    }

    /// Runs a CB-prefixed instruction.
    fn execute_cb(&mut self, instruction: Instruction)
        requires
            is_cb(instruction),
            well_formed(instruction),
            old(self)@.bus.cart_fits(),
        ensures
            final(self)@ == old(self)@.execute_spec(instruction),
            final(self)@.bus.cart_fits(),
            final(self)@.ppu_timing() == old(self)@.ppu_timing(),
    {
        let ghost s = self@;
        match instruction {
            Instruction::BIT(b, t) => {
                proof {
                    lemma_unfold_bits(s, b, t);
                }
                self.test_bit(b, bit_target_code(t));
            },
            Instruction::RES(b, t) => {
                proof {
                    lemma_unfold_bits(s, b, t);
                }
                self.change_bit(b, bit_target_code(t), false);
            },
            Instruction::SET(b, t) => {
                proof {
                    lemma_unfold_bits(s, b, t);
                }
                self.change_bit(b, bit_target_code(t), true);
            },
            Instruction::RLC(t) => {
                proof {
                    lemma_unfold_shifts(s, t);
                }
                self.shift_operand(0, bit_target_code(t));
            },
            Instruction::RRC(t) => {
                proof {
                    lemma_unfold_shifts(s, t);
                }
                self.shift_operand(1, bit_target_code(t));
            },
            Instruction::RL(t) => {
                proof {
                    lemma_unfold_shifts(s, t);
                }
                self.shift_operand(2, bit_target_code(t));
            },
            Instruction::RR(t) => {
                proof {
                    lemma_unfold_shifts(s, t);
                }
                self.shift_operand(3, bit_target_code(t));
            },
            Instruction::SLA(t) => {
                proof {
                    lemma_unfold_shifts2(s, t);
                }
                self.shift_operand(4, bit_target_code(t));
            },
            Instruction::SRA(t) => {
                proof {
                    lemma_unfold_shifts2(s, t);
                }
                self.shift_operand(5, bit_target_code(t));
            },
            Instruction::SWAP(t) => {
                proof {
                    lemma_unfold_shifts2(s, t);
                }
                self.shift_operand(6, bit_target_code(t));
            },
            Instruction::SRL(t) => {
                proof {
                    lemma_unfold_shifts2(s, t);
                }
                self.shift_operand(7, bit_target_code(t));
            },
            _ => {},
        }
    }

    /// Runs a jump, call, return or restart.
    fn execute_flow(&mut self, instruction: Instruction)
        requires
            is_flow(instruction),
            old(self)@.bus.cart_fits(),
        ensures
            final(self)@ == old(self)@.execute_spec(instruction),
            final(self)@.bus.cart_fits(),
            final(self)@.ppu_timing() == old(self)@.ppu_timing(),
    {
        let ghost s = self@;
        match instruction {
            Instruction::JPHL => {
                proof {
                    lemma_unfold_wide(s, WideTarget::BC);
                }
                self.pc = self.registers.get_hl();
            },
            Instruction::JP(c) => {
                proof {
                    lemma_unfold_jumps(s, c, 0);
                }
                self.jump(c);
            },
            Instruction::JR(c) => {
                proof {
                    lemma_unfold_jumps(s, c, 0);
                }
                self.jump_relative(c);
            },
            Instruction::CALL(c) => {
                proof {
                    lemma_unfold_jumps(s, c, 0);
                }
                self.call(c);
            },
            Instruction::RET(c) => {
                proof {
                    lemma_unfold_jumps(s, c, 0);
                }
                self.ret(c);
            },
            Instruction::RETI => {
                proof {
                    lemma_unfold_jumps(s, JumpCondition::Always, 0);
                    reveal(CpuView::reti_spec);
                }
                let address = self.pop_word();
                self.pc = address;
                self.ime = true;
            },
            Instruction::RST(a) => {
                proof {
                    lemma_unfold_jumps(s, JumpCondition::Always, a);
                    reveal(CpuView::rst_spec);
                }
                self.push_word(self.pc);
                self.pc = a as u16;
            },
            _ => {},
        }
    }

    /// Runs a load, INC, DEC, PUSH or POP.
    fn execute_data(&mut self, instruction: Instruction)
        requires
            is_data(instruction),
            old(self)@.bus.cart_fits(),
        ensures
            final(self)@ == old(self)@.execute_spec(instruction),
            final(self)@.bus.cart_fits(),
            final(self)@.ppu_timing() == old(self)@.ppu_timing(),
    {
        let ghost s = self@;
        match instruction {
            Instruction::ADDHL(w) => {
                proof {
                    lemma_unfold_wide(s, w);
                }
                self.add_hl(w);
            },
            Instruction::ADDSP => {
                proof {
                    lemma_unfold_wide(s, WideTarget::BC);
                }
                self.add_sp();
            },
            Instruction::INC(t) => {
                proof {
                    lemma_unfold_data(s, LoadTarget::AFromA, LDHTarget::AFromC, t, StackTarget::AF);
                }
                self.inc(t);
            },
            Instruction::DEC(t) => {
                proof {
                    lemma_unfold_data(s, LoadTarget::AFromA, LDHTarget::AFromC, t, StackTarget::AF);
                }
                self.dec(t);
            },
            Instruction::LD(t) => {
                proof {
                    lemma_unfold_data(s, t, LDHTarget::AFromC, IncDecTarget::A, StackTarget::AF);
                }
                self.load(t);
            },
            Instruction::LDH(t) => {
                proof {
                    lemma_unfold_data(s, LoadTarget::AFromA, t, IncDecTarget::A, StackTarget::AF);
                }
                self.load_high(t);
            },
            Instruction::PUSH(t) => {
                proof {
                    lemma_unfold_data(s, LoadTarget::AFromA, LDHTarget::AFromC, IncDecTarget::A, t);
                }
                self.push(t);
            },
            Instruction::POP(t) => {
                proof {
                    lemma_unfold_data(s, LoadTarget::AFromA, LDHTarget::AFromC, IncDecTarget::A, t);
                }
                self.pop(t);
            },
            _ => {},
        }
    }

    /// Runs an instruction without operands.
    #[verifier::rlimit(40)]
    fn execute_plain(&mut self, instruction: Instruction)
        requires
            !is_alu(instruction) && !is_cb(instruction) && !is_flow(instruction)
                && !is_data(instruction),
            old(self)@.bus.cart_fits(),
        ensures
            final(self)@ == old(self)@.execute_spec(instruction),
            final(self)@.bus.cart_fits(),
            final(self)@.ppu_timing() == old(self)@.ppu_timing(),
    {
        let ghost s = self@;
        match instruction {
            Instruction::NOP => {
                proof {
                    lemma_unfold_plain(s);
                }
            },
            Instruction::HALT => {
                proof {
                    lemma_unfold_plain(s);
                }
                self.halted = true;
            },
            Instruction::DAA => {
                proof {
                    lemma_unfold_plain(s);
                }
                self.decimal_adjust();
            },
            Instruction::CPL => {
                proof {
                    lemma_unfold_plain(s);
                }
                self.registers.a = !self.registers.a;
                self.registers.f.subtract = true;
                self.registers.f.half_carry = true;
            },
            Instruction::SCF => {
                proof {
                    lemma_unfold_plain(s);
                }
                self.registers.f.carry = true;
                self.registers.f.subtract = false;
                self.registers.f.half_carry = false;
            },
            Instruction::CCF => {
                proof {
                    lemma_unfold_plain(s);
                }
                self.registers.f.carry = !self.registers.f.carry;
                self.registers.f.subtract = false;
                self.registers.f.half_carry = false;
            },
            Instruction::DI => {
                proof {
                    lemma_unfold_plain(s);
                }
                self.ime = false;
                self.ei_delay = false;
            },
            Instruction::EI => {
                proof {
                    lemma_unfold_plain(s);
                }
                self.ei_delay = true;
            },
            Instruction::STOP => {
                proof {
                    lemma_unfold_plain(s);
                }
                self.pc = self.pc.wrapping_add(1);
                self.halted = true;
            },
            _ => {},
        }
    }

    /// Runs `instruction` (whose opcode the program counter is already past).
    pub fn execute(&mut self, instruction: Instruction)
        requires
            well_formed(instruction),
            old(self)@.bus.cart_fits(),
        ensures
            final(self)@ == old(self)@.execute_spec(instruction),
            final(self)@.bus.cart_fits(),
            final(self)@.ppu_timing() == old(self)@.ppu_timing(),
    {
        match instruction {
            Instruction::ADD(_) | Instruction::ADC(_) | Instruction::SUB(_) | Instruction::SBC(_)
            | Instruction::AND(_) | Instruction::XOR(_) | Instruction::OR(_) | Instruction::CP(
                _,
            ) => self.execute_alu(instruction),
            Instruction::BIT(_, _) | Instruction::RES(_, _) | Instruction::SET(_, _)
            | Instruction::RLC(_) | Instruction::RRC(_) | Instruction::RL(_) | Instruction::RR(_)
            | Instruction::SLA(_) | Instruction::SRA(_) | Instruction::SWAP(_) | Instruction::SRL(
                _,
            ) => self.execute_cb(instruction),
            Instruction::JP(_) | Instruction::JR(_) | Instruction::CALL(_) | Instruction::RET(_)
            | Instruction::RETI | Instruction::RST(_) | Instruction::JPHL => self.execute_flow(
                instruction,
            ),
            Instruction::INC(_) | Instruction::DEC(_) | Instruction::LD(_) | Instruction::LDH(_)
            | Instruction::PUSH(_) | Instruction::POP(_) | Instruction::ADDHL(_)
            | Instruction::ADDSP => self.execute_data(instruction),
            _ => self.execute_plain(instruction),
        }
    }
}

} // verus!
