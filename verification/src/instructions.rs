//! The decoded form of the CPU's instructions.
use vstd::prelude::*;

verus! {

/// One decoded instruction, with the operand it names.
#[derive(Debug)]
pub enum Instruction {
    ADD(ArithmeticTarget),
    SUB(ArithmeticTarget),
    AND(ArithmeticTarget),
    OR(ArithmeticTarget),
    XOR(ArithmeticTarget),
    CP(ArithmeticTarget),
    INC(IncDecTarget),
    DEC(IncDecTarget),
    LD(LoadTarget),
    PUSH(StackTarget),
    POP(StackTarget),
    JP(JumpCondition),
    JR(JumpCondition),
    CALL(JumpCondition),
    RET(JumpCondition),
    NOP,
    HALT,
    LDH(LDHTarget),
    BIT(u8, BitTarget),
    RES(u8, BitTarget),
    SET(u8, BitTarget),
    RL(BitTarget),
    RLC(BitTarget),
    RR(BitTarget),
    RRC(BitTarget),
    SLA(BitTarget),
    SRA(BitTarget),
    SRL(BitTarget),
    SWAP(BitTarget),
    /// Add with carry.
    ADC(ArithmeticTarget),
    /// Subtract with carry.
    SBC(ArithmeticTarget),
    /// Set the carry flag.
    SCF,
    /// Complement the carry flag.
    CCF,
    /// Decimal-adjust the accumulator.
    DAA,
    /// Complement the accumulator.
    CPL,
    /// Enable interrupts (after the next instruction).
    EI,
    /// Disable interrupts.
    DI,
    /// Return from an interrupt handler.
    RETI,
    /// Call one of the fixed restart addresses.
    RST(u8),
    /// Add a 16-bit register to HL.
    ADDHL(WideTarget),
    /// Add a signed immediate byte to SP.
    ADDSP,
    /// Jump to the address in HL.
    JPHL,
    /// Stop the CPU until an interrupt (the byte after the opcode is skipped).
    STOP,
}

/// The 16-bit register that ADD HL adds.
#[derive(Debug, Clone, Copy)]
pub enum WideTarget {
    BC,
    DE,
    HL,
    SP,
}

/// The second operand of an 8-bit arithmetic or logic instruction.
#[derive(Debug, Clone, Copy)]
pub enum ArithmeticTarget {
    A,
    B,
    C,
    D,
    E,
    H,
    L,
    HLIndirect,
    D8,
}

#[derive(Debug, Clone, Copy)]
pub enum IncDecTarget {
    A,
    B,
    C,
    D,
    E,
    H,
    L,
    HLIndirect,
    BC,
    DE,
    HL,
    SP,
}

/// Destination and source of a load, named `<destination>From<source>`.
#[derive(Debug, Clone, Copy)]
pub enum LoadTarget {
    AFromHLIndirect,
    AFromHLIndirectDec,
    AFromHLIndirectInc,
    AFromBCIndirect,
    AFromDEIndirect,
    HLIndirectFromA,
    HLIndirectFromADec,
    HLIndirectFromAInc,
    BCIndirectFromA,
    DEIndirectFromA,
    AFromD8,
    BFromD8,
    CFromD8,
    DFromD8,
    EFromD8,
    HFromD8,
    LFromD8,
    HLIndirectFromD8,
    BCFromD16,
    DEFromD16,
    HLFromD16,
    SPFromD16,
    AFromA16,
    A16FromA,
    /// SP to an absolute address (low byte first).
    A16FromSP,
    /// SP from HL.
    SPFromHL,
    /// HL from SP plus a signed immediate byte.
    HLFromSPOffset,
    AFromC,
    CFromA,
    AFromB,
    BFromA,
    AFromD,
    DFromA,
    AFromE,
    EFromA,
    AFromH,
    HFromA,
    AFromL,
    LFromA,
    AFromA,
    BFromB,
    BFromC,
    BFromD,
    BFromE,
    BFromH,
    BFromL,
    BFromHLIndirect,
    CFromB,
    CFromC,
    CFromD,
    CFromE,
    CFromH,
    CFromL,
    CFromHLIndirect,
    DFromB,
    DFromC,
    DFromD,
    DFromE,
    DFromH,
    DFromL,
    DFromHLIndirect,
    EFromB,
    EFromC,
    EFromD,
    EFromE,
    EFromH,
    EFromL,
    EFromHLIndirect,
    HFromB,
    HFromC,
    HFromD,
    HFromE,
    HFromH,
    HFromL,
    HFromHLIndirect,
    LFromB,
    LFromC,
    LFromD,
    LFromE,
    LFromH,
    LFromL,
    LFromHLIndirect,
    HLIndirectFromB,
    HLIndirectFromC,
    HLIndirectFromD,
    HLIndirectFromE,
    HLIndirectFromH,
    HLIndirectFromL,
}

/// Loads between A and the high page 0xFF00-0xFFFF.
#[derive(Debug, Clone, Copy)]
pub enum LDHTarget {
    AFromA8,
    A8FromA,
    AFromC,
    CFromA,
}

/// The operand of a rotate, shift or single-bit instruction.
#[derive(Debug, Clone, Copy)]
pub enum BitTarget {
    A,
    B,
    C,
    D,
    E,
    H,
    L,
    HLIndirect,
}

#[derive(Debug, Clone, Copy)]
pub enum StackTarget {
    AF,
    BC,
    DE,
    HL,
}

#[derive(Debug, Clone, Copy)]
pub enum JumpCondition {
    Always,
    Zero,
    NotZero,
    Carry,
    NotCarry,
}

} // verus!
