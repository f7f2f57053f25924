//! The CPU register file of the Sharp LR35902.
use vstd::prelude::*;

verus! {

/// The flag register F. Only its high nibble holds state: bit 7 is Z, bit 6 is N,
/// bit 5 is H and bit 4 is C; the low nibble always reads as zero.
#[derive(Clone, Copy, Debug)]
pub struct FlagsRegister {
    pub zero: bool,
    pub subtract: bool,
    pub half_carry: bool,
    pub carry: bool,
}

/// The byte that a flag register reads as.
pub open spec fn flags_byte(f: FlagsRegister) -> u8 {
    ((if f.zero { 0x80int } else { 0 }) + (if f.subtract { 0x40int } else { 0 }) + (if f.half_carry {
        0x20int
    } else {
        0
    }) + (if f.carry { 0x10int } else { 0 })) as u8
}

/// The flag register that a byte is read into: each flag is its bit of the byte.
pub open spec fn flags_of_byte(b: u8) -> FlagsRegister {
    FlagsRegister {
        zero: b & 0x80 != 0,
        subtract: b & 0x40 != 0,
        half_carry: b & 0x20 != 0,
        carry: b & 0x10 != 0,
    }
}

impl From<u8> for FlagsRegister {
    fn from(byte: u8) -> (r: FlagsRegister) {
        FlagsRegister {
            zero: byte & 0x80 != 0,
            subtract: byte & 0x40 != 0,
            half_carry: byte & 0x20 != 0,
            carry: byte & 0x10 != 0,
        }
    }
}

impl vstd::std_specs::convert::FromSpecImpl<u8> for FlagsRegister {
    open spec fn obeys_from_spec() -> bool {
        true
    }

    open spec fn from_spec(v: u8) -> FlagsRegister {
        flags_of_byte(v)
    }
}

impl From<FlagsRegister> for u8 {
    fn from(flags: FlagsRegister) -> (r: u8) {
        let z: u8 = if flags.zero { 0x80 } else { 0 };
        let n: u8 = if flags.subtract { 0x40 } else { 0 };
        let h: u8 = if flags.half_carry { 0x20 } else { 0 };
        let c: u8 = if flags.carry { 0x10 } else { 0 };
        z + n + h + c
    }
}

impl vstd::std_specs::convert::FromSpecImpl<FlagsRegister> for u8 {
    open spec fn obeys_from_spec() -> bool {
        true
    }

    open spec fn from_spec(v: FlagsRegister) -> u8 {
        flags_byte(v)
    }
}

/// Reading a flag register back from the byte it reads as gives the same flags.
pub proof fn lemma_flags_round_trip(f: FlagsRegister)
    ensures
        flags_of_byte(flags_byte(f)) == f,
{
    let b = flags_byte(f);
    let (z, n, h, c) = (f.zero, f.subtract, f.half_carry, f.carry);
    assert(((b & 0x80 != 0) == z) && ((b & 0x40 != 0) == n) && ((b & 0x20 != 0) == h) && ((b & 0x10 != 0) == c)) by (bit_vector)
        requires
            b == ((if z { 0x80int } else { 0 }) + (if n { 0x40int } else { 0 }) + (if h { 0x20int } else { 0 }) + (if c { 0x10int } else { 0 })) as u8,
    ;
}

/// A byte read into the flag register reads back with its low nibble cleared.
pub proof fn lemma_byte_round_trip(b: u8)
    ensures
        flags_byte(flags_of_byte(b)) == b & 0xF0,
{
    assert(((if b & 0x80 != 0 { 0x80int } else { 0 }) + (if b & 0x40 != 0 { 0x40int } else { 0 }) + (if b & 0x20 != 0 { 0x20int } else { 0 }) + (if b & 0x10 != 0 { 0x10int } else { 0 })) == (b & 0xF0) as int) by (bit_vector);
}

/// The eight 8-bit registers. B/C, D/E and H/L pair into 16-bit registers with the
/// first register of the pair as the high byte; A/F pairs the same way.
#[derive(Clone, Copy, Debug)]
pub struct Registers {
    pub a: u8,
    pub b: u8,
    pub c: u8,
    pub d: u8,
    pub e: u8,
    pub f: FlagsRegister,
    pub h: u8,
    pub l: u8,
}

/// The 16-bit value of a register pair with `hi` as its high byte.
pub open spec fn pair(hi: u8, lo: u8) -> u16 {
    (hi * 256 + lo) as u16
}

proof fn lemma_pair_bits(hi: u8, lo: u8)
    ensures
        ((hi as u16) << 8) | (lo as u16) == pair(hi, lo),
{
    assert(((hi as u16) << 8) | (lo as u16) == (hi * 256 + lo) as u16) by (bit_vector);
}

proof fn lemma_split_bits(v: u16)
    ensures
        (v >> 8) as u8 == v / 256,
        (v & 0xFF) as u8 == v % 256,
        pair((v / 256) as u8, (v % 256) as u8) == v,
{
    assert((v >> 8) as u8 == v / 256 && (v & 0xFF) as u8 == v % 256) by (bit_vector);
}

impl Registers {
    /// All registers and flags cleared.
    pub fn new() -> (r: Registers)
        ensures
            r.a == 0 && r.b == 0 && r.c == 0 && r.d == 0 && r.e == 0 && r.h == 0 && r.l == 0,
            !r.f.zero && !r.f.subtract && !r.f.half_carry && !r.f.carry,
    {
        Registers {
            a: 0,
            b: 0,
            c: 0,
            d: 0,
            e: 0,
            f: FlagsRegister { zero: false, subtract: false, half_carry: false, carry: false },
            h: 0,
            l: 0,
        }
    }

    pub open spec fn bc(self) -> u16 {
        pair(self.b, self.c)
    }

    pub open spec fn de(self) -> u16 {
        pair(self.d, self.e)
    }

    pub open spec fn hl(self) -> u16 {
        pair(self.h, self.l)
    }

    pub open spec fn af(self) -> u16 {
        pair(self.a, flags_byte(self.f))
    }

    /// The registers with the pair B/C set to `v`.
    pub open spec fn with_bc(self, v: u16) -> Registers {
        Registers { b: (v / 256) as u8, c: (v % 256) as u8, ..self }
    }

    pub open spec fn with_de(self, v: u16) -> Registers {
        Registers { d: (v / 256) as u8, e: (v % 256) as u8, ..self }
    }

    pub open spec fn with_hl(self, v: u16) -> Registers {
        Registers { h: (v / 256) as u8, l: (v % 256) as u8, ..self }
    }

    /// The registers with A set to the high byte of `v` and F read from its low byte.
    pub open spec fn with_af(self, v: u16) -> Registers {
        Registers { a: (v / 256) as u8, f: flags_of_byte((v % 256) as u8), ..self }
    }

    pub fn get_bc(&self) -> (r: u16)
        ensures
            r == self.bc(),
    {
        proof {
            lemma_pair_bits(self.b, self.c);
        }
        ((self.b as u16) << 8) | (self.c as u16)
    }

    pub fn get_de(&self) -> (r: u16)
        ensures
            r == self.de(),
    {
        proof {
            lemma_pair_bits(self.d, self.e);
        }
        ((self.d as u16) << 8) | (self.e as u16)
    }

    pub fn get_hl(&self) -> (r: u16)
        ensures
            r == self.hl(),
    {
        proof {
            lemma_pair_bits(self.h, self.l);
        }
        ((self.h as u16) << 8) | (self.l as u16)
    }

    pub fn get_af(&self) -> (r: u16)
        ensures
            r == self.af(),
    {
        let f = u8::from(self.f);
        proof {
            lemma_pair_bits(self.a, f);
        }
        ((self.a as u16) << 8) | (f as u16)
    }

    pub fn set_bc(&mut self, value: u16)
        ensures
            *final(self) == old(self).with_bc(value),
            final(self).bc() == value,
    {
        proof {
            lemma_split_bits(value);
        }
        self.b = (value >> 8) as u8;
        self.c = (value & 0xFF) as u8;
    }

    pub fn set_de(&mut self, value: u16)
        ensures
            *final(self) == old(self).with_de(value),
            final(self).de() == value,
    {
        proof {
            lemma_split_bits(value);
        }
        self.d = (value >> 8) as u8;
        self.e = (value & 0xFF) as u8;
    }

    pub fn set_hl(&mut self, value: u16)
        ensures
            *final(self) == old(self).with_hl(value),
            final(self).hl() == value,
    {
        proof {
            lemma_split_bits(value);
        }
        self.h = (value >> 8) as u8;
        self.l = (value & 0xFF) as u8;
    }

    pub fn set_af(&mut self, value: u16)
        ensures
            *final(self) == old(self).with_af(value),
            final(self).af() == value & 0xFFF0,
    {
        proof {
            lemma_split_bits(value);
            lemma_byte_round_trip((value % 256) as u8);
            assert(pair((value / 256) as u8, ((value % 256) as u8) & 0xF0) == value & 0xFFF0) by (bit_vector);
        }
        self.a = (value >> 8) as u8;
        self.f = FlagsRegister::from((value & 0xFF) as u8);
    }
}

/// A register pair reads back what was written to it (AF without F's low nibble,
/// which always reads 0), and writing AF with what it reads changes nothing.
pub proof fn lemma_pair_round_trip(r: Registers, v: u16)
    ensures
        r.with_bc(v).bc() == v,
        r.with_de(v).de() == v,
        r.with_hl(v).hl() == v,
        r.with_af(v).af() == v & 0xFFF0,
        r.with_af(r.af()) == r,
{
    lemma_split_bits(v);
    let hi = (v >> 8) as u8;
    let lo = (v & 0xFF) as u8;
    lemma_byte_round_trip(lo);
    lemma_pair_bits(hi, lo & 0xF0);
    assert(((hi as u16) << 8) | ((lo & 0xF0) as u16) == v & 0xFFF0) by (bit_vector)
        requires
            hi == (v >> 8) as u8,
            lo == (v & 0xFF) as u8,
    ;
    let b = flags_byte(r.f);
    lemma_flags_round_trip(r.f);
    lemma_byte_round_trip(b);
    lemma_split_bits(r.af());
}

} // verus!
