//! The instruction word: opcode tags, trap vectors, condition flags, the
//! operand fields an instruction word carries, and sign extension of its
//! immediate and offset fields.

use vstd::prelude::*;

verus! {

/// The three condition flags. Exactly one is in force at a time once any
/// flag-updating operation has run.
#[derive(Debug, Clone, Copy, PartialEq, Eq, Structural)]
pub enum Flags {
    FlPos,
    FlZro,
    FlNeg,
}

impl Flags {
    /// The one-hot bit pattern a flag occupies in the condition register.
    pub open spec fn spec_value(self) -> u16 {
        match self {
            Flags::FlPos => 1,
            Flags::FlZro => 2,
            Flags::FlNeg => 4,
        }
    }

    pub fn value(&self) -> (r: u16)
        ensures
            r == self.spec_value(),
    {
        match *self {
            Flags::FlPos => 1,
            Flags::FlZro => 2,
            Flags::FlNeg => 4,
        }
    }
}

/// The condition-flag pattern that a register write of `v` leaves behind:
/// zero gives `FlZro`, a set top bit gives `FlNeg`, anything else `FlPos`.
pub open spec fn spec_flag_for(v: u16) -> u16 {
    if v == 0 {
        Flags::FlZro.spec_value()
    } else if v >= 0x8000 {
        Flags::FlNeg.spec_value()
    } else {
        Flags::FlPos.spec_value()
    }
}

/// Exactly one of the three condition flags is set after a flag update, and
/// which one is determined by the written value alone.
pub proof fn lemma_flag_exclusive(v: u16)
    ensures
        spec_flag_for(v) == Flags::FlPos.spec_value() || spec_flag_for(v)
            == Flags::FlZro.spec_value() || spec_flag_for(v) == Flags::FlNeg.spec_value(),
        v == 0 <==> spec_flag_for(v) == Flags::FlZro.spec_value(),
        v >= 0x8000 <==> spec_flag_for(v) == Flags::FlNeg.spec_value(),
        0 < v < 0x8000 <==> spec_flag_for(v) == Flags::FlPos.spec_value(),
{
}

/// The sixteen opcode tags, in the order of their 4-bit encodings 0 through 15.
#[derive(Debug, Clone, Copy, PartialEq, Eq, Structural)]
pub enum OPCodes {
    OpBr,
    OpAdd,
    OpLd,
    OpSt,
    OpJsr,
    OpAnd,
    OpLdr,
    OpStr,
    OpRti,
    OpNot,
    OpLdi,
    OpSti,
    OpJmp,
    OpRes,
    OpLea,
    OpTrap,
}

impl OPCodes {
    pub open spec fn spec_value(self) -> u16 {
        match self {
            Self::OpBr => 0x0,
            Self::OpAdd => 0x1,
            Self::OpLd => 0x2,
            Self::OpSt => 0x3,
            Self::OpJsr => 0x4,
            Self::OpAnd => 0x5,
            Self::OpLdr => 0x6,
            Self::OpStr => 0x7,
            Self::OpRti => 0x8,
            Self::OpNot => 0x9,
            Self::OpLdi => 0xa,
            Self::OpSti => 0xb,
            Self::OpJmp => 0xc,
            Self::OpRes => 0xd,
            Self::OpLea => 0xe,
            Self::OpTrap => 0xf,
        }
    }

    pub fn value(self) -> (r: u16)
        ensures
            r == self.spec_value(),
    {
        match self {
            Self::OpBr => 0x0,
            Self::OpAdd => 0x1,
            Self::OpLd => 0x2,
            Self::OpSt => 0x3,
            Self::OpJsr => 0x4,
            Self::OpAnd => 0x5,
            Self::OpLdr => 0x6,
            Self::OpStr => 0x7,
            Self::OpRti => 0x8,
            Self::OpNot => 0x9,
            Self::OpLdi => 0xa,
            Self::OpSti => 0xb,
            Self::OpJmp => 0xc,
            Self::OpRes => 0xd,
            Self::OpLea => 0xe,
            Self::OpTrap => 0xf,
        }
    }

    /// The opcode tag for a 4-bit opcode field. Values above 15 cannot come
    /// out of a 4-bit field; the mapping sends them to the reserved opcode,
    /// whose execution is a fatal fault.
    pub open spec fn spec_from(op: u16) -> OPCodes {
        match op {
            0x0 => Self::OpBr,
            0x1 => Self::OpAdd,
            0x2 => Self::OpLd,
            0x3 => Self::OpSt,
            0x4 => Self::OpJsr,
            0x5 => Self::OpAnd,
            0x6 => Self::OpLdr,
            0x7 => Self::OpStr,
            0x8 => Self::OpRti,
            0x9 => Self::OpNot,
            0xa => Self::OpLdi,
            0xb => Self::OpSti,
            0xc => Self::OpJmp,
            0xd => Self::OpRes,
            0xe => Self::OpLea,
            0xf => Self::OpTrap,
            _ => Self::OpRes,
        }
    }

    pub fn from(op: u16) -> (r: OPCodes)
        ensures
            r == OPCodes::spec_from(op),
    {
        match op {
            0x0 => Self::OpBr,
            0x1 => Self::OpAdd,
            0x2 => Self::OpLd,
            0x3 => Self::OpSt,
            0x4 => Self::OpJsr,
            0x5 => Self::OpAnd,
            0x6 => Self::OpLdr,
            0x7 => Self::OpStr,
            0x8 => Self::OpRti,
            0x9 => Self::OpNot,
            0xa => Self::OpLdi,
            0xb => Self::OpSti,
            0xc => Self::OpJmp,
            0xd => Self::OpRes,
            0xe => Self::OpLea,
            0xf => Self::OpTrap,
            _ => Self::OpRes,
        }
    }
}

/// The six defined trap vectors.
#[derive(Debug, Clone, Copy, PartialEq, Eq, Structural)]
pub enum TrapCodes {
    TrapGetC,
    TrapOut,
    TrapPuts,
    TrapIn,
    TrapPutsP,
    TrapHalt,
}

impl TrapCodes {
    pub open spec fn spec_value(self) -> u16 {
        match self {
            Self::TrapGetC => 0x20,
            Self::TrapOut => 0x21,
            Self::TrapPuts => 0x22,
            Self::TrapIn => 0x23,
            Self::TrapPutsP => 0x24,
            Self::TrapHalt => 0x25,
        }
    }

    pub fn value(&self) -> (r: u16)
        ensures
            r == self.spec_value(),
    {
        match *self {
            Self::TrapGetC => 0x20,
            Self::TrapOut => 0x21,
            Self::TrapPuts => 0x22,
            Self::TrapIn => 0x23,
            Self::TrapPutsP => 0x24,
            Self::TrapHalt => 0x25,
        }
    }

    /// The trap tag for a vector byte; `None` for the vectors outside the
    /// defined six, whose execution is a fatal fault.
    pub open spec fn spec_from(vector: u16) -> Option<TrapCodes> {
        match vector {
            0x20 => Some(Self::TrapGetC),
            0x21 => Some(Self::TrapOut),
            0x22 => Some(Self::TrapPuts),
            0x23 => Some(Self::TrapIn),
            0x24 => Some(Self::TrapPutsP),
            0x25 => Some(Self::TrapHalt),
            _ => None,
        }
    }

    pub fn from(vector: u16) -> (r: Option<TrapCodes>)
        ensures
            r == TrapCodes::spec_from(vector),
    {
        match vector {
            0x20 => Some(Self::TrapGetC),
            0x21 => Some(Self::TrapOut),
            0x22 => Some(Self::TrapPuts),
            0x23 => Some(Self::TrapIn),
            0x24 => Some(Self::TrapPutsP),
            0x25 => Some(Self::TrapHalt),
            _ => None,
        }
    }
}

// Operand fields of an instruction word.

/// Bits 15-12: the opcode selector.
pub open spec fn spec_opcode(inst: u16) -> u16 {
    inst >> 12
}

/// Bits 11-9: the destination register, or the condition mask of a branch.
pub open spec fn spec_dr(inst: u16) -> u16 {
    (inst >> 9) & 0x7
}

/// Bits 8-6: the first source register, or the base register of a jump.
pub open spec fn spec_sr1(inst: u16) -> u16 {
    (inst >> 6) & 0x7
}

/// Bits 2-0: the second source register.
pub open spec fn spec_sr2(inst: u16) -> u16 {
    inst & 0x7
}

/// Bit 5: set when the second operand is the immediate field.
pub open spec fn spec_imm_flag(inst: u16) -> u16 {
    (inst >> 5) & 0x1
}

/// Bit 11: set for the offset form of jump-to-subroutine.
pub open spec fn spec_long_flag(inst: u16) -> u16 {
    (inst >> 11) & 0x1
}

/// Bits 7-0: the trap vector.
pub open spec fn spec_trapvect(inst: u16) -> u16 {
    inst & 0xFF
}

/// An n-bit two's-complement field widened to a word: the field's sign bit
/// replicated into bits n and above.
pub open spec fn spec_sign_extend(x: u16, bit_count: u16) -> u16 {
    if (x >> (bit_count - 1) as u16) & 1 != 0 {
        x | (0xFFFFu16 << bit_count)
    } else {
        x
    }
}

/// Sign-extends the low `bit_count` bits of `x` into a full word.
pub fn sign_extend(x: u16, bit_count: u16) -> (r: u16)
    requires
        1 <= bit_count < 16,
    ensures
        r == spec_sign_extend(x, bit_count),
{
    if ((x >> (bit_count - 1)) & 1) != 0 {
        x | (0xFFFFu16 << bit_count)
    } else {
        x
    }
}

/// The largest value an n-bit field can hold, plus one, for the field widths
/// the instruction set uses.
pub open spec fn spec_field_bound(bit_count: u16) -> u16 {
    if bit_count == 5 {
        32
    } else if bit_count == 6 {
        64
    } else if bit_count == 9 {
        512
    } else {
        2048
    }
}

/// A word reinterpreted as a 16-bit two's-complement integer.
pub open spec fn spec_as_signed(w: u16) -> int {
    if w < 0x8000 {
        w as int
    } else {
        w - 0x10000
    }
}

/// An n-bit field reinterpreted as an n-bit two's-complement integer, for the
/// field widths the instruction set uses.
pub open spec fn spec_field_as_signed(x: u16, bit_count: u16) -> int {
    if x < spec_field_bound(bit_count) / 2 {
        x as int
    } else {
        x - spec_field_bound(bit_count)
    }
}

/// Sign extension is exact: for each field width the instruction set uses,
/// the extended word, read as a 16-bit two's-complement integer, equals the
/// field read as an n-bit two's-complement integer.
pub proof fn lemma_sign_extend_exact(x: u16, bit_count: u16)
    requires
        bit_count == 5 || bit_count == 6 || bit_count == 9 || bit_count == 11,
        x < spec_field_bound(bit_count),
    ensures
        spec_as_signed(spec_sign_extend(x, bit_count)) == spec_field_as_signed(x, bit_count),
{
    if bit_count == 5 {
        assert(x < 32 && (x >> 4) & 1 == 0 ==> x < 16) by (bit_vector);
        assert(x < 32 && (x >> 4) & 1 != 0 ==> x >= 16 && (x | (0xFFFFu16 << 5)) == x + 0xFFE0
            && (x | (0xFFFFu16 << 5)) >= 0x8000) by (bit_vector);
    } else if bit_count == 6 {
        assert(x < 64 && (x >> 5) & 1 == 0 ==> x < 32) by (bit_vector);
        assert(x < 64 && (x >> 5) & 1 != 0 ==> x >= 32 && (x | (0xFFFFu16 << 6)) == x + 0xFFC0
            && (x | (0xFFFFu16 << 6)) >= 0x8000) by (bit_vector);
    } else if bit_count == 9 {
        assert(x < 512 && (x >> 8) & 1 == 0 ==> x < 256) by (bit_vector);
        assert(x < 512 && (x >> 8) & 1 != 0 ==> x >= 256 && (x | (0xFFFFu16 << 9)) == x + 0xFE00
            && (x | (0xFFFFu16 << 9)) >= 0x8000) by (bit_vector);
    } else {
        assert(x < 2048 && (x >> 10) & 1 == 0 ==> x < 1024) by (bit_vector);
        assert(x < 2048 && (x >> 10) & 1 != 0 ==> x >= 1024 && (x | (0xFFFFu16 << 11)) == x + 0xF800
            && (x | (0xFFFFu16 << 11)) >= 0x8000) by (bit_vector);
    }
    assert(x < 0x8000);
}

} // verus!
