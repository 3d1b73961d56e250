//! The execution engine: the register file, the fetch-decode-execute step,
//! the sixteen opcode handlers, and the trap dispatcher.

use vstd::prelude::*;

use crate::device::{spec_pending_after_poll, spec_polled_byte, Device};
use crate::instructions::{
    sign_extend, spec_dr, spec_flag_for, spec_imm_flag, spec_long_flag, spec_opcode,
    spec_sign_extend, spec_sr1, spec_sr2, spec_trapvect, Flags, OPCodes, TrapCodes,
};
use crate::memory::{
    spec_mem_after_read, spec_pending_after_read, spec_read_value, Mem,
};

verus! {

/// The program counter a fresh machine starts at.
pub const PC_START: u16 = 0x3000;

/// A fatal fault: the machine stops at once and the instance is not
/// recoverable, unlike a normal halt.
#[derive(Debug, Clone, Copy, PartialEq, Eq, Structural)]
pub enum Fault {
    /// The return-from-interrupt opcode, which this machine does not
    /// implement.
    InterruptReturn,
    /// The reserved opcode.
    Reserved,
    /// A trap vector outside the six defined ones.
    UnknownTrap,
}

/// The low byte of a word: the first byte the packed-string output emits.
pub open spec fn spec_low_byte(w: u16) -> u8 {
    (w & 0xff) as u8
}

/// The high byte of a word: emitted after the low byte by the packed-string
/// output, unless it is zero.
pub open spec fn spec_high_byte(w: u16) -> u8 {
    ((w >> 8) & 0xff) as u8
}

/// The index, counted from `start` (wrapping) and starting the scan at `k`,
/// of the first zero word; one full pass of the address space, 0x10000 words,
/// when none is found.
pub open spec fn spec_scan_zero(m: Seq<u16>, start: u16, k: nat) -> nat
    decreases 0x10000 - k,
{
    if k >= 0x10000 {
        0x10000 as nat
    } else if m[start.wrapping_add(k as u16) as int] == 0 {
        k
    } else {
        spec_scan_zero(m, start, k + 1)
    }
}

/// The length of the zero-terminated string at `start`: the count of words
/// before its terminator, or a full pass of the address space when no word of
/// memory is zero.
pub open spec fn spec_string_len(m: Seq<u16>, start: u16) -> nat {
    spec_scan_zero(m, start, 0)
}

/// The bytes the put-string trap emits for the first `k` words at `start`:
/// one low byte per word.
pub open spec fn spec_puts_bytes(m: Seq<u16>, start: u16, k: nat) -> Seq<u8>
    decreases k,
{
    if k == 0 {
        Seq::empty()
    } else {
        spec_puts_bytes(m, start, (k - 1) as nat).push(
            spec_low_byte(m[start.wrapping_add((k - 1) as u16) as int]),
        )
    }
}

/// The bytes one word of a packed string emits: its low byte, then its high
/// byte unless that is zero.
pub open spec fn spec_word_bytes(w: u16) -> Seq<u8> {
    if spec_high_byte(w) == 0 {
        seq![spec_low_byte(w)]
    } else {
        seq![spec_low_byte(w), spec_high_byte(w)]
    }
}

/// The bytes the put-packed-string trap emits for the first `k` words at
/// `start`.
pub open spec fn spec_putsp_bytes(m: Seq<u16>, start: u16, k: nat) -> Seq<u8>
    decreases k,
{
    if k == 0 {
        Seq::empty()
    } else {
        spec_putsp_bytes(m, start, (k - 1) as nat) + spec_word_bytes(
            m[start.wrapping_add((k - 1) as u16) as int],
        )
    }
}

/// The prompt the input-with-echo trap emits before it blocks for a byte:
/// the bytes of "Enter a character: ".
pub open spec fn spec_prompt() -> Seq<u8> {
    seq![
        0x45u8, 0x6eu8, 0x74u8, 0x65u8, 0x72u8, 0x20u8, 0x61u8, 0x20u8, 0x63u8, 0x68u8, 0x61u8,
        0x72u8, 0x61u8, 0x63u8, 0x74u8, 0x65u8, 0x72u8, 0x3au8, 0x20u8,
    ]
}

/// All register fields of an instruction word are 3-bit, so they name one of
/// the eight general-purpose registers; the other fields are likewise bounded
/// by their widths.
pub proof fn lemma_fields_in_range(inst: u16)
    by (bit_vector)
    ensures
        spec_opcode(inst) < 16,
        spec_dr(inst) < 8,
        spec_sr1(inst) < 8,
        spec_sr2(inst) < 8,
        spec_imm_flag(inst) < 2,
        spec_long_flag(inst) < 2,
        spec_trapvect(inst) < 256,
{
}

/// One virtual machine instance: eight general-purpose registers, a program
/// counter, the condition-flag register, a count register, the store, and the
/// run state. The whole state is owned by the instance; independent machines
/// share nothing.
pub struct CPU {
    pub regs: Vec<u16>,
    pub pc: u16,
    pub rcond: u16,
    pub rcount: u16,
    pub memory: Mem,
    pub running: bool,
}

impl CPU {
    /// Well-formed: a full register file and a full address space.
    pub open spec fn wf(self) -> bool {
        &&& self.regs@.len() == 8
        &&& self.memory.wf()
    }

    /// The value the register-lookup path yields for index `r`: one of the
    /// eight general-purpose registers, the condition or count register under
    /// their dedicated indices, and zero for any index outside those — the
    /// documented permissive fallback, unreachable through the 3-bit register
    /// fields of valid encodings.
    pub open spec fn spec_reg(self, r: u16) -> u16 {
        if r < 8 {
            self.regs@[r as int]
        } else if r == 9 {
            self.rcond
        } else if r == 10 {
            self.rcount
        } else {
            0
        }
    }

    /// A machine with cleared registers and memory, the program counter at
    /// `PC_START`, and the run state set to running.
    pub fn new() -> (cpu: CPU)
        ensures
            cpu.wf(),
            cpu.regs@ == Seq::new(8, |i: int| 0u16),
            cpu.pc == PC_START,
            cpu.rcond == 0,
            cpu.rcount == 0,
            cpu.memory@ == Seq::new(0x10000, |i: int| 0u16),
            cpu.running,
    {
        let mut regs: Vec<u16> = Vec::new();
        let mut i: usize = 0;
        while i < 8
            invariant
                i <= 8,
                regs@ =~= Seq::new(i as nat, |j: int| 0u16),
            decreases 8 - i,
        {
            regs.push(0);
            i = i + 1;
        }
        CPU {
            regs,
            pc: PC_START,
            rcond: 0,
            rcount: 0,
            memory: Mem::new(),
            running: true,
        }
    }

    /// Reads register `r`, with the permissive zero fallback for indices that
    /// name no register.
    pub fn get_reg(&self, r: u16) -> (val: u16)
        requires
            self.wf(),
        ensures
            val == self.spec_reg(r),
    {
        match r {
            0 => self.regs[0],
            1 => self.regs[1],
            2 => self.regs[2],
            3 => self.regs[3],
            4 => self.regs[4],
            5 => self.regs[5],
            6 => self.regs[6],
            7 => self.regs[7],
            9 => self.rcond,
            10 => self.rcount,
            _ => 0,
        }
    }

    /// Writes register `r`; an index that names no register writes nothing.
    pub fn set_reg(&mut self, r: u16, val: u16)
        requires
            old(self).wf(),
        ensures
            final(self).wf(),
            r < 8 ==> final(self).regs@ == old(self).regs@.update(r as int, val)
                && final(self).rcond == old(self).rcond && final(self).rcount == old(
                self,
            ).rcount,
            r == 9 ==> final(self).regs@ == old(self).regs@ && final(self).rcond == val
                && final(self).rcount == old(self).rcount,
            r == 10 ==> final(self).regs@ == old(self).regs@ && final(self).rcond == old(
                self,
            ).rcond && final(self).rcount == val,
            r == 8 || r > 10 ==> final(self).regs@ == old(self).regs@ && final(self).rcond == old(
                self,
            ).rcond && final(self).rcount == old(self).rcount,
            final(self).pc == old(self).pc,
            final(self).memory@ == old(self).memory@,
            final(self).running == old(self).running,
    {
        match r {
            0 => self.regs[0] = val,
            1 => self.regs[1] = val,
            2 => self.regs[2] = val,
            3 => self.regs[3] = val,
            4 => self.regs[4] = val,
            5 => self.regs[5] = val,
            6 => self.regs[6] = val,
            7 => self.regs[7] = val,
            9 => self.rcond = val,
            10 => self.rcount = val,
            _ => (),
        }
    }

    /// Sets the condition flags from the value register `r` now holds: the
    /// zero flag for zero, the negative flag when the top bit is set, the
    /// positive flag otherwise — always exactly one of the three.
    fn update_flags(&mut self, r: u16)
        requires
            old(self).wf(),
        ensures
            final(self).wf(),
            final(self).rcond == spec_flag_for(old(self).spec_reg(r)),
            final(self).regs@ == old(self).regs@,
            final(self).pc == old(self).pc,
            final(self).rcount == old(self).rcount,
            final(self).memory@ == old(self).memory@,
            final(self).running == old(self).running,
    {
        let v = self.get_reg(r);
        proof {
            assert((v >> 15) != 0 <==> v >= 0x8000) by (bit_vector);
        }
        if v == 0 {
            self.rcond = Flags::FlZro.value();
        } else if (v >> 15) != 0 {
            self.rcond = Flags::FlNeg.value();
        } else {
            self.rcond = Flags::FlPos.value();
        }
    }

    /// Fetches the word at the program counter and advances the counter by
    /// one, wrapping at the top of the address space.
    fn fetch<D: Device>(&mut self, dev: &mut D) -> (inst: u16)
        requires
            old(self).wf(),
        ensures
            final(self).wf(),
            inst == spec_read_value(old(self).memory@, old(self).pc, old(dev).pending()),
            final(self).memory@ == spec_mem_after_read(
                old(self).memory@,
                old(self).pc,
                old(dev).pending(),
            ),
            final(dev).pending() == spec_pending_after_read(old(dev).pending(), old(self).pc),
            final(dev).emitted() == old(dev).emitted(),
            final(self).pc == old(self).pc.wrapping_add(1),
            final(self).regs@ == old(self).regs@,
            final(self).rcond == old(self).rcond,
            final(self).rcount == old(self).rcount,
            final(self).running == old(self).running,
    {
        let pc = self.pc;
        let inst = self.memory.read(pc, dev);
        self.pc = self.pc.wrapping_add(1);
        inst
    }

    /// Branch: when the instruction's condition mask meets the current flags,
    /// the program counter moves by the sign-extended 9-bit offset; a mask
    /// that shares no bit with the flags leaves it unchanged.
    fn br(&mut self, inst: u16)
        requires
            old(self).wf(),
        ensures
            final(self).wf(),
            final(self).pc == (if spec_dr(inst) & old(self).rcond != 0 {
                old(self).pc.wrapping_add(spec_sign_extend(inst & 0x1ff, 9))
            } else {
                old(self).pc
            }),
            final(self).regs@ == old(self).regs@,
            final(self).rcond == old(self).rcond,
            final(self).rcount == old(self).rcount,
            final(self).memory@ == old(self).memory@,
            final(self).running == old(self).running,
    {
        let offset = sign_extend(inst & 0x1ff, 9);
        let cond_flag = (inst >> 9) & 0x7;

        if (cond_flag & self.rcond) != 0 {
            self.pc = self.pc.wrapping_add(offset);
        }
    }

    /// The word an add instruction writes: the first source register plus the
    /// second source register or the sign-extended 5-bit immediate, wrapping.
    pub open spec fn spec_add_value(self, inst: u16) -> u16 {
        if spec_imm_flag(inst) != 0 {
            self.spec_reg(spec_sr1(inst)).wrapping_add(spec_sign_extend(inst & 0x1f, 5))
        } else {
            self.spec_reg(spec_sr1(inst)).wrapping_add(self.spec_reg(spec_sr2(inst)))
        }
    }

    /// Add: destination gets the wrapping sum; flags follow the written
    /// value. Overflow is silently discarded, never reported.
    fn add(&mut self, inst: u16)
        requires
            old(self).wf(),
        ensures
            final(self).wf(),
            final(self).regs@ == old(self).regs@.update(
                spec_dr(inst) as int,
                old(self).spec_add_value(inst),
            ),
            final(self).rcond == spec_flag_for(old(self).spec_add_value(inst)),
            final(self).pc == old(self).pc,
            final(self).rcount == old(self).rcount,
            final(self).memory@ == old(self).memory@,
            final(self).running == old(self).running,
    {
        proof {
            lemma_fields_in_range(inst);
        }
        let r0 = (inst >> 9) & 0x7;
        let r1 = (inst >> 6) & 0x7;
        let imm_flag = (inst >> 5) & 0x1;

        if imm_flag != 0 {
            let imm5 = sign_extend(inst & 0x1f, 5);
            let r = self.get_reg(r1);
            self.set_reg(r0, r.wrapping_add(imm5));
        } else {
            let r2 = inst & 0x7;
            let r = self.get_reg(r1);
            let l = self.get_reg(r2);
            self.set_reg(r0, r.wrapping_add(l));
        }

        self.update_flags(r0);
    }

    /// The word an and instruction writes: the bitwise and of the first
    /// source register with the second source register or the sign-extended
    /// 5-bit immediate.
    pub open spec fn spec_and_value(self, inst: u16) -> u16 {
        if spec_imm_flag(inst) != 0 {
            self.spec_reg(spec_sr1(inst)) & spec_sign_extend(inst & 0x1f, 5)
        } else {
            self.spec_reg(spec_sr1(inst)) & self.spec_reg(spec_sr2(inst))
        }
    }

    /// Bitwise and: destination gets the conjunction; flags follow the
    /// written value.
    fn and_(&mut self, inst: u16)
        requires
            old(self).wf(),
        ensures
            final(self).wf(),
            final(self).regs@ == old(self).regs@.update(
                spec_dr(inst) as int,
                old(self).spec_and_value(inst),
            ),
            final(self).rcond == spec_flag_for(old(self).spec_and_value(inst)),
            final(self).pc == old(self).pc,
            final(self).rcount == old(self).rcount,
            final(self).memory@ == old(self).memory@,
            final(self).running == old(self).running,
    {
        proof {
            lemma_fields_in_range(inst);
        }
        let r0 = (inst >> 9) & 0x7;
        let r1 = (inst >> 6) & 0x7;
        let imm_flag = (inst >> 5) & 0x1;

        if imm_flag != 0 {
            let imm5 = sign_extend(inst & 0x1f, 5);
            let val = self.get_reg(r1) & imm5;
            self.set_reg(r0, val);
        } else {
            let r2 = inst & 0x7;
            let val = self.get_reg(r1) & self.get_reg(r2);
            self.set_reg(r0, val);
        }

        self.update_flags(r0);
    }

    /// Bitwise complement: destination gets the complement of the first
    /// source register; flags follow the written value.
    fn not(&mut self, inst: u16)
        requires
            old(self).wf(),
        ensures
            final(self).wf(),
            final(self).regs@ == old(self).regs@.update(
                spec_dr(inst) as int,
                !old(self).spec_reg(spec_sr1(inst)),
            ),
            final(self).rcond == spec_flag_for(!old(self).spec_reg(spec_sr1(inst))),
            final(self).pc == old(self).pc,
            final(self).rcount == old(self).rcount,
            final(self).memory@ == old(self).memory@,
            final(self).running == old(self).running,
    {
        proof {
            lemma_fields_in_range(inst);
        }
        let r0 = (inst >> 9) & 0x7;
        let r1 = (inst >> 6) & 0x7;

        let val = self.get_reg(r1);
        self.set_reg(r0, !val);
        self.update_flags(r0);
    }

    /// Jump-to-subroutine: the link register (register 7) takes the current
    /// program counter; the counter then moves by the sign-extended 11-bit
    /// offset (long form) or to the base register named in the instruction,
    /// read after the link was written.
    fn jsr(&mut self, inst: u16)
        requires
            old(self).wf(),
        ensures
            final(self).wf(),
            final(self).regs@ == old(self).regs@.update(7, old(self).pc),
            final(self).pc == (if spec_long_flag(inst) != 0 {
                old(self).pc.wrapping_add(spec_sign_extend(inst & 0x7ff, 11))
            } else {
                old(self).regs@.update(7, old(self).pc)[spec_sr1(inst) as int]
            }),
            final(self).rcond == old(self).rcond,
            final(self).rcount == old(self).rcount,
            final(self).memory@ == old(self).memory@,
            final(self).running == old(self).running,
    {
        proof {
            lemma_fields_in_range(inst);
        }
        let long_flag = (inst >> 11) & 1;
        let pc = self.pc;
        self.set_reg(7, pc);

        if long_flag != 0 {
            let long_pc_offset = sign_extend(inst & 0x7ff, 11);
            self.pc = self.pc.wrapping_add(long_pc_offset);
        } else {
            let r1 = (inst >> 6) & 0x7;
            self.pc = self.get_reg(r1);
        }
    }

    /// Jump: the program counter takes the value of the base register named
    /// in the instruction.
    fn jmp(&mut self, inst: u16)
        requires
            old(self).wf(),
        ensures
            final(self).wf(),
            final(self).pc == old(self).spec_reg(spec_sr1(inst)),
            final(self).regs@ == old(self).regs@,
            final(self).rcond == old(self).rcond,
            final(self).rcount == old(self).rcount,
            final(self).memory@ == old(self).memory@,
            final(self).running == old(self).running,
    {
        let r = (inst >> 6) & 0x7;
        let r = self.get_reg(r);
        self.pc = r;
    }

    /// Load-effective-address: destination gets the program counter plus the
    /// sign-extended 9-bit offset; flags follow the written value.
    fn lea(&mut self, inst: u16)
        requires
            old(self).wf(),
        ensures
            final(self).wf(),
            final(self).regs@ == old(self).regs@.update(
                spec_dr(inst) as int,
                old(self).pc.wrapping_add(spec_sign_extend(inst & 0x1ff, 9)),
            ),
            final(self).rcond == spec_flag_for(
                old(self).pc.wrapping_add(spec_sign_extend(inst & 0x1ff, 9)),
            ),
            final(self).pc == old(self).pc,
            final(self).rcount == old(self).rcount,
            final(self).memory@ == old(self).memory@,
            final(self).running == old(self).running,
    {
        proof {
            lemma_fields_in_range(inst);
        }
        let r0 = (inst >> 9) & 0x7;
        let pc_offset = sign_extend(inst & 0x1ff, 9);
        let pc = self.pc;
        self.set_reg(r0, pc.wrapping_add(pc_offset));

        self.update_flags(r0);
    }

    /// Load: destination gets the word at program counter plus sign-extended
    /// 9-bit offset; the read goes through the memory-mapped device path;
    /// flags follow the written value.
    fn ld<D: Device>(&mut self, inst: u16, dev: &mut D)
        requires
            old(self).wf(),
        ensures
            final(self).wf(),
            ({
                let addr = old(self).pc.wrapping_add(spec_sign_extend(inst & 0x1ff, 9));
                let val = spec_read_value(old(self).memory@, addr, old(dev).pending());
                &&& final(self).regs@ == old(self).regs@.update(spec_dr(inst) as int, val)
                &&& final(self).rcond == spec_flag_for(val)
                &&& final(self).memory@ == spec_mem_after_read(
                    old(self).memory@,
                    addr,
                    old(dev).pending(),
                )
                &&& final(dev).pending() == spec_pending_after_read(old(dev).pending(), addr)
            }),
            final(dev).emitted() == old(dev).emitted(),
            final(self).pc == old(self).pc,
            final(self).rcount == old(self).rcount,
            final(self).running == old(self).running,
    {
        proof {
            lemma_fields_in_range(inst);
        }
        let r0 = (inst >> 9) & 0x7;
        let pc_offset = sign_extend(inst & 0x1ff, 9);
        let addr = self.pc.wrapping_add(pc_offset);
        let val = self.memory.read(addr, dev);

        self.set_reg(r0, val);
        self.update_flags(r0);
    }

    /// Load-register: destination gets the word at the first source register
    /// plus the sign-extended 6-bit offset; the read goes through the
    /// memory-mapped device path; flags follow the written value.
    fn ldr<D: Device>(&mut self, inst: u16, dev: &mut D)
        requires
            old(self).wf(),
        ensures
            final(self).wf(),
            ({
                let addr = old(self).spec_reg(spec_sr1(inst)).wrapping_add(
                    spec_sign_extend(inst & 0x3f, 6),
                );
                let val = spec_read_value(old(self).memory@, addr, old(dev).pending());
                &&& final(self).regs@ == old(self).regs@.update(spec_dr(inst) as int, val)
                &&& final(self).rcond == spec_flag_for(val)
                &&& final(self).memory@ == spec_mem_after_read(
                    old(self).memory@,
                    addr,
                    old(dev).pending(),
                )
                &&& final(dev).pending() == spec_pending_after_read(old(dev).pending(), addr)
            }),
            final(dev).emitted() == old(dev).emitted(),
            final(self).pc == old(self).pc,
            final(self).rcount == old(self).rcount,
            final(self).running == old(self).running,
    {
        proof {
            lemma_fields_in_range(inst);
        }
        let r0 = (inst >> 9) & 0x7;
        let r1 = (inst >> 6) & 0x7;
        let offset = sign_extend(inst & 0x3f, 6);

        let base = self.get_reg(r1);
        let addr = base.wrapping_add(offset);
        let val = self.memory.read(addr, dev);

        self.set_reg(r0, val);
        self.update_flags(r0);
    }

    /// Load-indirect: the word at program counter plus sign-extended 9-bit
    /// offset names an address, and the destination gets the word found
    /// there; both reads go through the memory-mapped device path; flags
    /// follow the written value.
    fn ldi<D: Device>(&mut self, inst: u16, dev: &mut D)
        requires
            old(self).wf(),
        ensures
            final(self).wf(),
            ({
                let a1 = old(self).pc.wrapping_add(spec_sign_extend(inst & 0x1ff, 9));
                let m0 = old(self).memory@;
                let p0 = old(dev).pending();
                let addr = spec_read_value(m0, a1, p0);
                let m1 = spec_mem_after_read(m0, a1, p0);
                let p1 = spec_pending_after_read(p0, a1);
                let val = spec_read_value(m1, addr, p1);
                &&& final(self).regs@ == old(self).regs@.update(spec_dr(inst) as int, val)
                &&& final(self).rcond == spec_flag_for(val)
                &&& final(self).memory@ == spec_mem_after_read(m1, addr, p1)
                &&& final(dev).pending() == spec_pending_after_read(p1, addr)
            }),
            final(dev).emitted() == old(dev).emitted(),
            final(self).pc == old(self).pc,
            final(self).rcount == old(self).rcount,
            final(self).running == old(self).running,
    {
        proof {
            lemma_fields_in_range(inst);
        }
        let r0 = (inst >> 9) & 0x7;
        let pc_offset = sign_extend(inst & 0x1ff, 9);

        let a1 = self.pc.wrapping_add(pc_offset);
        let addr = self.memory.read(a1, dev);
        let val = self.memory.read(addr, dev);

        self.set_reg(r0, val);
        self.update_flags(r0);
    }

    /// Store: the word at program counter plus sign-extended 9-bit offset is
    /// overwritten with the value of register 0 — the fixed source this
    /// machine uses, not the register named in the destination field.
    fn st(&mut self, inst: u16)
        requires
            old(self).wf(),
        ensures
            final(self).wf(),
            final(self).memory@ == old(self).memory@.update(
                old(self).pc.wrapping_add(spec_sign_extend(inst & 0x1ff, 9)) as int,
                old(self).regs@[0],
            ),
            final(self).regs@ == old(self).regs@,
            final(self).pc == old(self).pc,
            final(self).rcond == old(self).rcond,
            final(self).rcount == old(self).rcount,
            final(self).running == old(self).running,
    {
        let pc_offset = sign_extend(inst & 0x1ff, 9);
        let addr = self.pc.wrapping_add(pc_offset);
        let val = self.get_reg(0);
        self.memory.write(addr, val);
    }

    /// Store-register: the word at the first source register plus the
    /// sign-extended 6-bit offset is overwritten with the value of the
    /// register named in the destination field.
    fn str(&mut self, inst: u16)
        requires
            old(self).wf(),
        ensures
            final(self).wf(),
            final(self).memory@ == old(self).memory@.update(
                old(self).spec_reg(spec_sr1(inst)).wrapping_add(
                    spec_sign_extend(inst & 0x3f, 6),
                ) as int,
                old(self).spec_reg(spec_dr(inst)),
            ),
            final(self).regs@ == old(self).regs@,
            final(self).pc == old(self).pc,
            final(self).rcond == old(self).rcond,
            final(self).rcount == old(self).rcount,
            final(self).running == old(self).running,
    {
        let r0 = (inst >> 9) & 0x7;
        let r1 = (inst >> 6) & 0x7;
        let offset = sign_extend(inst & 0x3f, 6);

        let val = self.get_reg(r0);
        let base = self.get_reg(r1);
        self.memory.write(base.wrapping_add(offset), val);
    }

    /// Store-indirect: the word at program counter plus sign-extended 9-bit
    /// offset names an address, and the word found there is overwritten with
    /// the value of the register named in the destination field; the address
    /// read goes through the memory-mapped device path.
    fn sti<D: Device>(&mut self, inst: u16, dev: &mut D)
        requires
            old(self).wf(),
        ensures
            final(self).wf(),
            ({
                let a1 = old(self).pc.wrapping_add(spec_sign_extend(inst & 0x1ff, 9));
                let m0 = old(self).memory@;
                let p0 = old(dev).pending();
                let addr = spec_read_value(m0, a1, p0);
                &&& final(self).memory@ == spec_mem_after_read(m0, a1, p0).update(
                    addr as int,
                    old(self).spec_reg(spec_dr(inst)),
                )
                &&& final(dev).pending() == spec_pending_after_read(p0, a1)
            }),
            final(dev).emitted() == old(dev).emitted(),
            final(self).regs@ == old(self).regs@,
            final(self).pc == old(self).pc,
            final(self).rcond == old(self).rcond,
            final(self).rcount == old(self).rcount,
            final(self).running == old(self).running,
    {
        let r0 = (inst >> 9) & 0x7;
        let pc_offset = sign_extend(inst & 0x1ff, 9);
        let a1 = self.pc.wrapping_add(pc_offset);
        let addr = self.memory.read(a1, dev);

        let val = self.get_reg(r0);
        self.memory.write(addr, val);
    }

    /// Return-from-interrupt is not implemented: executing it is a fatal
    /// fault and changes no state.
    fn rti(&mut self, _inst: u16) -> (f: Fault)
        ensures
            f == Fault::InterruptReturn,
            *final(self) == *old(self),
    {
        Fault::InterruptReturn
    }

    /// The reserved opcode is not implemented: executing it is a fatal fault
    /// and changes no state.
    fn res(&mut self, _inst: u16) -> (f: Fault)
        ensures
            f == Fault::Reserved,
            *final(self) == *old(self),
    {
        Fault::Reserved
    }

    /// Get-character: blocks for one byte from the device and stores it into
    /// register 0. The flags are left alone — the one register write that
    /// does not update them.
    fn trap_getc<D: Device>(&mut self, dev: &mut D)
        requires
            old(self).wf(),
        ensures
            final(self).wf(),
            final(self).regs@ == old(self).regs@.update(
                0,
                spec_polled_byte(old(dev).pending()) as u16,
            ),
            final(dev).pending() == spec_pending_after_poll(old(dev).pending()),
            final(dev).emitted() == old(dev).emitted(),
            final(self).pc == old(self).pc,
            final(self).rcond == old(self).rcond,
            final(self).rcount == old(self).rcount,
            final(self).memory@ == old(self).memory@,
            final(self).running == old(self).running,
    {
        let ch = dev.read_byte();
        self.set_reg(0, ch as u16);
    }

    /// Output: emits the low byte of register 0.
    fn trap_out<D: Device>(&mut self, dev: &mut D)
        requires
            old(self).wf(),
        ensures
            final(self).wf(),
            final(dev).emitted() == old(dev).emitted().push(spec_low_byte(old(self).regs@[0])),
            final(dev).pending() == old(dev).pending(),
            final(self).regs@ == old(self).regs@,
            final(self).pc == old(self).pc,
            final(self).rcond == old(self).rcond,
            final(self).rcount == old(self).rcount,
            final(self).memory@ == old(self).memory@,
            final(self).running == old(self).running,
    {
        let r0 = self.get_reg(0);
        proof {
            assert(r0 & 0xff < 256) by (bit_vector);
        }
        let c = (r0 & 0xff) as u8;
        dev.write_byte(c);
    }

    /// Put-string: register 0 points into memory; the low byte of each
    /// successive word is emitted, one character per word, until a zero word.
    /// A string no zero word terminates ends after one full pass of the
    /// address space. The scan reads the backing store directly; the keyboard
    /// poll belongs to the instruction-level load paths.
    fn trap_puts<D: Device>(&mut self, dev: &mut D)
        requires
            old(self).wf(),
        ensures
            final(self).wf(),
            final(dev).emitted() == old(dev).emitted() + spec_puts_bytes(
                old(self).memory@,
                old(self).regs@[0],
                spec_string_len(old(self).memory@, old(self).regs@[0]),
            ),
            final(dev).pending() == old(dev).pending(),
            final(self).regs@ == old(self).regs@,
            final(self).pc == old(self).pc,
            final(self).rcond == old(self).rcond,
            final(self).rcount == old(self).rcount,
            final(self).memory@ == old(self).memory@,
            final(self).running == old(self).running,
    {
        let start = self.get_reg(0);
        let ghost m0 = self.memory@;
        let ghost e0 = dev.emitted();
        let ghost p0 = dev.pending();

        let mut count: usize = 0;
        while count < 0x10000
            invariant_except_break
                count <= 0x10000,
                self.wf(),
                self.memory@ == m0,
                start == self.spec_reg(0),
                dev.emitted() == e0 + spec_puts_bytes(m0, start, count as nat),
                dev.pending() == p0,
                spec_scan_zero(m0, start, count as nat) == spec_string_len(m0, start),
            ensures
                self.wf(),
                self.memory@ == m0,
                dev.pending() == p0,
                dev.emitted() == e0 + spec_puts_bytes(m0, start, spec_string_len(m0, start)),
            decreases 0x10000 - count,
        {
            let addr = start.wrapping_add(count as u16);
            let chr = self.memory.memory[addr as usize];
            if chr == 0 {
                proof {
                    assert(spec_scan_zero(m0, start, count as nat) == count);
                }
                break ;
            }
            proof {
                assert(chr & 0xff < 256) by (bit_vector);
            }
            dev.write_byte((chr & 0xff) as u8);
            proof {
                assert(spec_puts_bytes(m0, start, (count + 1) as nat) =~= spec_puts_bytes(
                    m0,
                    start,
                    count as nat,
                ).push(spec_low_byte(chr)));
                assert(dev.emitted() =~= e0 + spec_puts_bytes(m0, start, (count + 1) as nat));
            }
            count = count + 1;
        }
    }

    /// Input-with-echo: emits the fixed prompt, blocks for one byte, stores
    /// it into register 0, and — unlike get-character — updates the flags
    /// from the stored value.
    fn trap_in_<D: Device>(&mut self, dev: &mut D)
        requires
            old(self).wf(),
        ensures
            final(self).wf(),
            final(dev).emitted() == old(dev).emitted() + spec_prompt(),
            final(dev).pending() == spec_pending_after_poll(old(dev).pending()),
            final(self).regs@ == old(self).regs@.update(
                0,
                spec_polled_byte(old(dev).pending()) as u16,
            ),
            final(self).rcond == spec_flag_for(spec_polled_byte(old(dev).pending()) as u16),
            final(self).pc == old(self).pc,
            final(self).rcount == old(self).rcount,
            final(self).memory@ == old(self).memory@,
            final(self).running == old(self).running,
    {
        let ghost e0 = dev.emitted();
        dev.write_byte(0x45);
        dev.write_byte(0x6e);
        dev.write_byte(0x74);
        dev.write_byte(0x65);
        dev.write_byte(0x72);
        dev.write_byte(0x20);
        dev.write_byte(0x61);
        dev.write_byte(0x20);
        dev.write_byte(0x63);
        dev.write_byte(0x68);
        dev.write_byte(0x61);
        dev.write_byte(0x72);
        dev.write_byte(0x61);
        dev.write_byte(0x63);
        dev.write_byte(0x74);
        dev.write_byte(0x65);
        dev.write_byte(0x72);
        dev.write_byte(0x3a);
        dev.write_byte(0x20);
        proof {
            assert(dev.emitted() =~= e0 + spec_prompt());
        }

        let ch = dev.read_byte();
        self.set_reg(0, ch as u16);
        self.update_flags(0);
    }

    /// Put-packed-string: register 0 points into memory; each word emits its
    /// low byte and then, unless zero, its high byte, until a zero word. A
    /// string no zero word terminates ends after one full pass of the address
    /// space. The scan reads the backing store directly; the keyboard poll
    /// belongs to the instruction-level load paths.
    fn trap_putsp<D: Device>(&mut self, dev: &mut D)
        requires
            old(self).wf(),
        ensures
            final(self).wf(),
            final(dev).emitted() == old(dev).emitted() + spec_putsp_bytes(
                old(self).memory@,
                old(self).regs@[0],
                spec_string_len(old(self).memory@, old(self).regs@[0]),
            ),
            final(dev).pending() == old(dev).pending(),
            final(self).regs@ == old(self).regs@,
            final(self).pc == old(self).pc,
            final(self).rcond == old(self).rcond,
            final(self).rcount == old(self).rcount,
            final(self).memory@ == old(self).memory@,
            final(self).running == old(self).running,
    {
        let start = self.get_reg(0);
        let ghost m0 = self.memory@;
        let ghost e0 = dev.emitted();
        let ghost p0 = dev.pending();

        let mut count: usize = 0;
        while count < 0x10000
            invariant_except_break
                count <= 0x10000,
                self.wf(),
                self.memory@ == m0,
                start == self.spec_reg(0),
                dev.emitted() == e0 + spec_putsp_bytes(m0, start, count as nat),
                dev.pending() == p0,
                spec_scan_zero(m0, start, count as nat) == spec_string_len(m0, start),
            ensures
                self.wf(),
                self.memory@ == m0,
                dev.pending() == p0,
                dev.emitted() == e0 + spec_putsp_bytes(m0, start, spec_string_len(m0, start)),
            decreases 0x10000 - count,
        {
            let addr = start.wrapping_add(count as u16);
            let chr = self.memory.memory[addr as usize];
            if chr == 0 {
                proof {
                    assert(spec_scan_zero(m0, start, count as nat) == count);
                }
                break ;
            }
            proof {
                assert(chr & 0xff < 256) by (bit_vector);
                assert((chr >> 8) & 0xff < 256) by (bit_vector);
            }
            let c1 = (chr & 0xff) as u8;
            dev.write_byte(c1);
            let c2 = ((chr >> 8) & 0xff) as u8;
            if c2 != 0 {
                dev.write_byte(c2);
            }
            proof {
                assert(spec_putsp_bytes(m0, start, (count + 1) as nat) =~= spec_putsp_bytes(
                    m0,
                    start,
                    count as nat,
                ) + spec_word_bytes(chr));
                assert(dev.emitted() =~= e0 + spec_putsp_bytes(m0, start, (count + 1) as nat));
            }
            count = count + 1;
        }
    }

    /// Halt: sets the run state to halted; no further instruction executes.
    fn trap_halt(&mut self)
        requires
            old(self).wf(),
        ensures
            final(self).wf(),
            !final(self).running,
            final(self).regs@ == old(self).regs@,
            final(self).pc == old(self).pc,
            final(self).rcond == old(self).rcond,
            final(self).rcount == old(self).rcount,
            final(self).memory@ == old(self).memory@,
    {
        self.running = false;
    }

    /// Trap: dispatches on the vector in the low byte of the instruction to
    /// one of the six console operations; any other vector is a fatal fault.
    fn trap<D: Device>(&mut self, inst: u16, dev: &mut D) -> (r: Result<(), Fault>)
        requires
            old(self).wf(),
        ensures
            final(self).wf(),
            spec_trap_post(
                old(self).regs@,
                old(self).pc,
                old(self).rcond,
                old(self).rcount,
                old(self).memory@,
                old(self).running,
                old(dev).pending(),
                old(dev).emitted(),
                *final(self),
                final(dev).pending(),
                final(dev).emitted(),
                inst,
                r,
            ),
    {
        match TrapCodes::from(inst & 0xff) {
            Some(TrapCodes::TrapGetC) => {
                self.trap_getc(dev);
                Ok(())
            },
            Some(TrapCodes::TrapOut) => {
                self.trap_out(dev);
                Ok(())
            },
            Some(TrapCodes::TrapPuts) => {
                self.trap_puts(dev);
                Ok(())
            },
            Some(TrapCodes::TrapIn) => {
                self.trap_in_(dev);
                Ok(())
            },
            Some(TrapCodes::TrapPutsP) => {
                self.trap_putsp(dev);
                Ok(())
            },
            Some(TrapCodes::TrapHalt) => {
                self.trap_halt();
                Ok(())
            },
            None => Err(Fault::UnknownTrap),
        }
    }
}

/// What one trap dispatch does, given the machine state it starts from
/// (handed over field by field) and the device state: the relation between
/// that state, the state left behind, and the outcome, for each of the six
/// vectors and for the fatal fallback.
pub open spec fn spec_trap_post(
    regs0: Seq<u16>,
    pc0: u16,
    rcond0: u16,
    rcount0: u16,
    m0: Seq<u16>,
    running0: bool,
    pre_pending: Seq<u8>,
    pre_emitted: Seq<u8>,
    post: CPU,
    post_pending: Seq<u8>,
    post_emitted: Seq<u8>,
    inst: u16,
    r: Result<(), Fault>,
) -> bool {
    let same_pc_mem = post.pc == pc0 && post.memory@ == m0 && post.rcount == rcount0;
    match TrapCodes::spec_from(spec_trapvect(inst)) {
        Some(TrapCodes::TrapGetC) => {
            &&& post.regs@ == regs0.update(0, spec_polled_byte(pre_pending) as u16)
            &&& post.rcond == rcond0
            &&& same_pc_mem
            &&& post.running == running0
            &&& post_pending == spec_pending_after_poll(pre_pending)
            &&& post_emitted == pre_emitted
            &&& r is Ok
        },
        Some(TrapCodes::TrapOut) => {
            &&& post.regs@ == regs0
            &&& post.rcond == rcond0
            &&& same_pc_mem
            &&& post.running == running0
            &&& post_pending == pre_pending
            &&& post_emitted == pre_emitted.push(spec_low_byte(regs0[0]))
            &&& r is Ok
        },
        Some(TrapCodes::TrapPuts) => {
            &&& post.regs@ == regs0
            &&& post.rcond == rcond0
            &&& same_pc_mem
            &&& post.running == running0
            &&& post_pending == pre_pending
            &&& post_emitted == pre_emitted + spec_puts_bytes(
                m0,
                regs0[0],
                spec_string_len(m0, regs0[0]),
            )
            &&& r is Ok
        },
        Some(TrapCodes::TrapIn) => {
            &&& post.regs@ == regs0.update(0, spec_polled_byte(pre_pending) as u16)
            &&& post.rcond == spec_flag_for(spec_polled_byte(pre_pending) as u16)
            &&& same_pc_mem
            &&& post.running == running0
            &&& post_pending == spec_pending_after_poll(pre_pending)
            &&& post_emitted == pre_emitted + spec_prompt()
            &&& r is Ok
        },
        Some(TrapCodes::TrapPutsP) => {
            &&& post.regs@ == regs0
            &&& post.rcond == rcond0
            &&& same_pc_mem
            &&& post.running == running0
            &&& post_pending == pre_pending
            &&& post_emitted == pre_emitted + spec_putsp_bytes(
                m0,
                regs0[0],
                spec_string_len(m0, regs0[0]),
            )
            &&& r is Ok
        },
        Some(TrapCodes::TrapHalt) => {
            &&& post.regs@ == regs0
            &&& post.rcond == rcond0
            &&& same_pc_mem
            &&& !post.running
            &&& post_pending == pre_pending
            &&& post_emitted == pre_emitted
            &&& r is Ok
        },
        None => {
            &&& post.regs@ == regs0
            &&& post.rcond == rcond0
            &&& same_pc_mem
            &&& post.running == running0
            &&& post_pending == pre_pending
            &&& post_emitted == pre_emitted
            &&& r == Err::<(), Fault>(Fault::UnknownTrap)
        },
    }
}

/// What one step does: the full relation between the machine and device state
/// a step starts from, the state it leaves behind, and its outcome. The step
/// fetches the word at the program counter — a read that goes through the
/// memory-mapped device path like any other — advances the counter, and
/// executes the fetched instruction.
pub open spec fn spec_step_post(
    pre: CPU,
    pre_pending: Seq<u8>,
    pre_emitted: Seq<u8>,
    post: CPU,
    post_pending: Seq<u8>,
    post_emitted: Seq<u8>,
    r: Result<(), Fault>,
) -> bool {
    let m0 = pre.memory@;
    let p0 = pre_pending;
    let inst = spec_read_value(m0, pre.pc, p0);
    let m1 = spec_mem_after_read(m0, pre.pc, p0);
    let p1 = spec_pending_after_read(p0, pre.pc);
    let pc1 = pre.pc.wrapping_add(1);
    let regs1 = pre.regs@;
    let device_untouched = post_pending == p1 && post_emitted == pre_emitted;
    match OPCodes::spec_from(spec_opcode(inst)) {
        OPCodes::OpBr => {
            &&& post.regs@ == regs1
            &&& post.pc == (if spec_dr(inst) & pre.rcond != 0 {
                pc1.wrapping_add(spec_sign_extend(inst & 0x1ff, 9))
            } else {
                pc1
            })
            &&& post.rcond == pre.rcond
            &&& post.rcount == pre.rcount
            &&& post.memory@ == m1
            &&& post.running == pre.running
            &&& device_untouched
            &&& r is Ok
        },
        OPCodes::OpAdd => {
            let v = (if spec_imm_flag(inst) != 0 {
                regs1[spec_sr1(inst) as int].wrapping_add(spec_sign_extend(inst & 0x1f, 5))
            } else {
                regs1[spec_sr1(inst) as int].wrapping_add(regs1[spec_sr2(inst) as int])
            });
            &&& post.regs@ == regs1.update(spec_dr(inst) as int, v)
            &&& post.pc == pc1
            &&& post.rcond == spec_flag_for(v)
            &&& post.rcount == pre.rcount
            &&& post.memory@ == m1
            &&& post.running == pre.running
            &&& device_untouched
            &&& r is Ok
        },
        OPCodes::OpLd => {
            let addr = pc1.wrapping_add(spec_sign_extend(inst & 0x1ff, 9));
            let v = spec_read_value(m1, addr, p1);
            &&& post.regs@ == regs1.update(spec_dr(inst) as int, v)
            &&& post.pc == pc1
            &&& post.rcond == spec_flag_for(v)
            &&& post.rcount == pre.rcount
            &&& post.memory@ == spec_mem_after_read(m1, addr, p1)
            &&& post.running == pre.running
            &&& post_pending == spec_pending_after_read(p1, addr)
            &&& post_emitted == pre_emitted
            &&& r is Ok
        },
        OPCodes::OpSt => {
            let addr = pc1.wrapping_add(spec_sign_extend(inst & 0x1ff, 9));
            &&& post.regs@ == regs1
            &&& post.pc == pc1
            &&& post.rcond == pre.rcond
            &&& post.rcount == pre.rcount
            &&& post.memory@ == m1.update(addr as int, regs1[0])
            &&& post.running == pre.running
            &&& device_untouched
            &&& r is Ok
        },
        OPCodes::OpJsr => {
            let regs2 = regs1.update(7, pc1);
            &&& post.regs@ == regs2
            &&& post.pc == (if spec_long_flag(inst) != 0 {
                pc1.wrapping_add(spec_sign_extend(inst & 0x7ff, 11))
            } else {
                regs2[spec_sr1(inst) as int]
            })
            &&& post.rcond == pre.rcond
            &&& post.rcount == pre.rcount
            &&& post.memory@ == m1
            &&& post.running == pre.running
            &&& device_untouched
            &&& r is Ok
        },
        OPCodes::OpAnd => {
            let v = (if spec_imm_flag(inst) != 0 {
                regs1[spec_sr1(inst) as int] & spec_sign_extend(inst & 0x1f, 5)
            } else {
                regs1[spec_sr1(inst) as int] & regs1[spec_sr2(inst) as int]
            });
            &&& post.regs@ == regs1.update(spec_dr(inst) as int, v)
            &&& post.pc == pc1
            &&& post.rcond == spec_flag_for(v)
            &&& post.rcount == pre.rcount
            &&& post.memory@ == m1
            &&& post.running == pre.running
            &&& device_untouched
            &&& r is Ok
        },
        OPCodes::OpLdr => {
            let addr = regs1[spec_sr1(inst) as int].wrapping_add(spec_sign_extend(inst & 0x3f, 6));
            let v = spec_read_value(m1, addr, p1);
            &&& post.regs@ == regs1.update(spec_dr(inst) as int, v)
            &&& post.pc == pc1
            &&& post.rcond == spec_flag_for(v)
            &&& post.rcount == pre.rcount
            &&& post.memory@ == spec_mem_after_read(m1, addr, p1)
            &&& post.running == pre.running
            &&& post_pending == spec_pending_after_read(p1, addr)
            &&& post_emitted == pre_emitted
            &&& r is Ok
        },
        OPCodes::OpStr => {
            let addr = regs1[spec_sr1(inst) as int].wrapping_add(spec_sign_extend(inst & 0x3f, 6));
            &&& post.regs@ == regs1
            &&& post.pc == pc1
            &&& post.rcond == pre.rcond
            &&& post.rcount == pre.rcount
            &&& post.memory@ == m1.update(addr as int, regs1[spec_dr(inst) as int])
            &&& post.running == pre.running
            &&& device_untouched
            &&& r is Ok
        },
        OPCodes::OpRti => {
            &&& post.regs@ == regs1
            &&& post.pc == pc1
            &&& post.rcond == pre.rcond
            &&& post.rcount == pre.rcount
            &&& post.memory@ == m1
            &&& post.running == pre.running
            &&& device_untouched
            &&& r == Err::<(), Fault>(Fault::InterruptReturn)
        },
        OPCodes::OpNot => {
            let v = !regs1[spec_sr1(inst) as int];
            &&& post.regs@ == regs1.update(spec_dr(inst) as int, v)
            &&& post.pc == pc1
            &&& post.rcond == spec_flag_for(v)
            &&& post.rcount == pre.rcount
            &&& post.memory@ == m1
            &&& post.running == pre.running
            &&& device_untouched
            &&& r is Ok
        },
        OPCodes::OpLdi => {
            let a1 = pc1.wrapping_add(spec_sign_extend(inst & 0x1ff, 9));
            let addr = spec_read_value(m1, a1, p1);
            let m2 = spec_mem_after_read(m1, a1, p1);
            let p2 = spec_pending_after_read(p1, a1);
            let v = spec_read_value(m2, addr, p2);
            &&& post.regs@ == regs1.update(spec_dr(inst) as int, v)
            &&& post.pc == pc1
            &&& post.rcond == spec_flag_for(v)
            &&& post.rcount == pre.rcount
            &&& post.memory@ == spec_mem_after_read(m2, addr, p2)
            &&& post.running == pre.running
            &&& post_pending == spec_pending_after_read(p2, addr)
            &&& post_emitted == pre_emitted
            &&& r is Ok
        },
        OPCodes::OpSti => {
            let a1 = pc1.wrapping_add(spec_sign_extend(inst & 0x1ff, 9));
            let addr = spec_read_value(m1, a1, p1);
            &&& post.regs@ == regs1
            &&& post.pc == pc1
            &&& post.rcond == pre.rcond
            &&& post.rcount == pre.rcount
            &&& post.memory@ == spec_mem_after_read(m1, a1, p1).update(
                addr as int,
                regs1[spec_dr(inst) as int],
            )
            &&& post.running == pre.running
            &&& post_pending == spec_pending_after_read(p1, a1)
            &&& post_emitted == pre_emitted
            &&& r is Ok
        },
        OPCodes::OpJmp => {
            &&& post.regs@ == regs1
            &&& post.pc == regs1[spec_sr1(inst) as int]
            &&& post.rcond == pre.rcond
            &&& post.rcount == pre.rcount
            &&& post.memory@ == m1
            &&& post.running == pre.running
            &&& device_untouched
            &&& r is Ok
        },
        OPCodes::OpRes => {
            &&& post.regs@ == regs1
            &&& post.pc == pc1
            &&& post.rcond == pre.rcond
            &&& post.rcount == pre.rcount
            &&& post.memory@ == m1
            &&& post.running == pre.running
            &&& device_untouched
            &&& r == Err::<(), Fault>(Fault::Reserved)
        },
        OPCodes::OpLea => {
            let v = pc1.wrapping_add(spec_sign_extend(inst & 0x1ff, 9));
            &&& post.regs@ == regs1.update(spec_dr(inst) as int, v)
            &&& post.pc == pc1
            &&& post.rcond == spec_flag_for(v)
            &&& post.rcount == pre.rcount
            &&& post.memory@ == m1
            &&& post.running == pre.running
            &&& device_untouched
            &&& r is Ok
        },
        OPCodes::OpTrap => spec_trap_post(
            regs1,
            pc1,
            pre.rcond,
            pre.rcount,
            m1,
            pre.running,
            p1,
            pre_emitted,
            post,
            post_pending,
            post_emitted,
            inst,
            r,
        ),
    }
}

/// The instruction word a step starting from this state fetches: the word at
/// the program counter, read through the memory-mapped device path.
pub open spec fn spec_fetched(pre: CPU, pre_pending: Seq<u8>) -> u16 {
    spec_read_value(pre.memory@, pre.pc, pre_pending)
}

/// A branch whose condition mask shares no bit with the current flags leaves
/// the program counter at its post-fetch value, and touches neither the
/// registers nor the flags.
pub proof fn lemma_branch_untaken(
    pre: CPU,
    pre_pending: Seq<u8>,
    pre_emitted: Seq<u8>,
    post: CPU,
    post_pending: Seq<u8>,
    post_emitted: Seq<u8>,
    r: Result<(), Fault>,
)
    requires
        pre.wf(),
        spec_step_post(pre, pre_pending, pre_emitted, post, post_pending, post_emitted, r),
        spec_opcode(spec_fetched(pre, pre_pending)) == OPCodes::OpBr.spec_value(),
        spec_dr(spec_fetched(pre, pre_pending)) & pre.rcond == 0,
    ensures
        post.pc == pre.pc.wrapping_add(1),
        post.regs@ == pre.regs@,
        post.rcond == pre.rcond,
        r is Ok,
{
}

/// Jump-to-subroutine, long form: after the step, the link register holds the
/// post-fetch program counter, and the counter has moved from there by the
/// sign-extended 11-bit offset, wrapping.
pub proof fn lemma_jsr_linkage(
    pre: CPU,
    pre_pending: Seq<u8>,
    pre_emitted: Seq<u8>,
    post: CPU,
    post_pending: Seq<u8>,
    post_emitted: Seq<u8>,
    r: Result<(), Fault>,
)
    requires
        pre.wf(),
        spec_step_post(pre, pre_pending, pre_emitted, post, post_pending, post_emitted, r),
        spec_opcode(spec_fetched(pre, pre_pending)) == OPCodes::OpJsr.spec_value(),
        spec_long_flag(spec_fetched(pre, pre_pending)) != 0,
    ensures
        post.regs@[7] == pre.pc.wrapping_add(1),
        post.pc == pre.pc.wrapping_add(1).wrapping_add(
            spec_sign_extend(spec_fetched(pre, pre_pending) & 0x7ff, 11),
        ),
        r is Ok,
{
}

/// Executing the reserved opcode, the return-from-interrupt opcode, or a trap
/// with a vector outside the defined six is a fatal fault: the step reports
/// an error naming the fault, and — unlike a normal halt — does not touch the
/// run state.
pub proof fn lemma_fatal_fault_distinct(
    pre: CPU,
    pre_pending: Seq<u8>,
    pre_emitted: Seq<u8>,
    post: CPU,
    post_pending: Seq<u8>,
    post_emitted: Seq<u8>,
    r: Result<(), Fault>,
)
    requires
        pre.wf(),
        spec_step_post(pre, pre_pending, pre_emitted, post, post_pending, post_emitted, r),
        ({
            let inst = spec_fetched(pre, pre_pending);
            ||| spec_opcode(inst) == OPCodes::OpRti.spec_value()
            ||| spec_opcode(inst) == OPCodes::OpRes.spec_value()
            ||| (spec_opcode(inst) == OPCodes::OpTrap.spec_value() && TrapCodes::spec_from(
                spec_trapvect(inst),
            ) is None)
        }),
    ensures
        r is Err,
        post.running == pre.running,
        spec_opcode(spec_fetched(pre, pre_pending)) == OPCodes::OpRti.spec_value() ==> r == Err::<
            (),
            Fault,
        >(Fault::InterruptReturn),
        spec_opcode(spec_fetched(pre, pre_pending)) == OPCodes::OpRes.spec_value() ==> r == Err::<
            (),
            Fault,
        >(Fault::Reserved),
        spec_opcode(spec_fetched(pre, pre_pending)) == OPCodes::OpTrap.spec_value() ==> r == Err::<
            (),
            Fault,
        >(Fault::UnknownTrap),
{
}

/// How a bounded run ends: a normal halt, a fatal fault, or the step budget
/// running out with the machine still running.
#[derive(Debug, Clone, Copy, PartialEq, Eq, Structural)]
pub enum RunOutcome {
    Halted,
    Faulted(Fault),
    OutOfSteps,
}

/// One instruction boundary of a run: the machine together with the device
/// state it sees.
pub ghost struct RunPoint {
    pub cpu: CPU,
    pub pending: Seq<u8>,
    pub emitted: Seq<u8>,
}

/// A chain of states, each one verified step apart from the next, every state
/// before the last still running.
pub open spec fn spec_trace_ok(trace: Seq<RunPoint>) -> bool {
    forall|i: int|
        #![trigger trace[i]]
        0 <= i < trace.len() - 1 ==> trace[i].cpu.running && spec_step_post(
            trace[i].cpu,
            trace[i].pending,
            trace[i].emitted,
            trace[i + 1].cpu,
            trace[i + 1].pending,
            trace[i + 1].emitted,
            Ok(()),
        )
}

/// What a bounded run did: a chain of single steps leads from the starting
/// state — its condition flag set to the zero flag — to the state left
/// behind, and the chain ends as the outcome says: at a machine that halted,
/// at the step budget with the machine still running, or one fatal step short
/// of the final state.
pub open spec fn spec_run_post(
    pre: CPU,
    pre_pending: Seq<u8>,
    pre_emitted: Seq<u8>,
    post: CPU,
    post_pending: Seq<u8>,
    post_emitted: Seq<u8>,
    max_steps: u64,
    r: RunOutcome,
    trace: Seq<RunPoint>,
) -> bool {
    &&& spec_trace_ok(trace)
    &&& trace.len() >= 1
    &&& trace[0].cpu.regs@ == pre.regs@
    &&& trace[0].cpu.pc == pre.pc
    &&& trace[0].cpu.rcond == Flags::FlZro.spec_value()
    &&& trace[0].cpu.rcount == pre.rcount
    &&& trace[0].cpu.memory@ == pre.memory@
    &&& trace[0].cpu.running == pre.running
    &&& trace[0].pending == pre_pending
    &&& trace[0].emitted == pre_emitted
    &&& match r {
        RunOutcome::Halted => {
            &&& trace.len() <= max_steps + 1
            &&& trace.last().cpu == post
            &&& trace.last().pending == post_pending
            &&& trace.last().emitted == post_emitted
            &&& !post.running
        },
        RunOutcome::OutOfSteps => {
            &&& trace.len() == max_steps + 1
            &&& trace.last().cpu == post
            &&& trace.last().pending == post_pending
            &&& trace.last().emitted == post_emitted
            &&& post.running
        },
        RunOutcome::Faulted(f) => {
            &&& trace.len() <= max_steps
            &&& trace.last().cpu.running
            &&& spec_step_post(
                trace.last().cpu,
                trace.last().pending,
                trace.last().emitted,
                post,
                post_pending,
                post_emitted,
                Err(f),
            )
        },
    }
}

/// The origin address of a program image: its first two bytes, big-endian.
pub open spec fn spec_origin(image: Seq<u8>) -> u16 {
    ((image[0] as u16) << 8) | (image[1] as u16)
}

/// The number of payload words of a program image: one per byte pair after
/// the origin.
pub open spec fn spec_image_words(image: Seq<u8>) -> int {
    (image.len() - 2) / 2
}

/// Payload word `j` of a program image, big-endian.
pub open spec fn spec_image_word(image: Seq<u8>, j: int) -> u16 {
    ((image[2 + 2 * j] as u16) << 8) | (image[2 + 2 * j + 1] as u16)
}

impl CPU {
    /// Executes exactly one instruction: fetch at the program counter,
    /// advance it, decode, execute. `Ok` for every instruction the machine
    /// implements — a halt trap is an `Ok` that clears the run state — and
    /// the fatal fault otherwise. `spec_step_post` is the whole of what the
    /// step did.
    pub fn step<D: Device>(&mut self, dev: &mut D) -> (r: Result<(), Fault>)
        requires
            old(self).wf(),
        ensures
            final(self).wf(),
            spec_step_post(
                *old(self),
                old(dev).pending(),
                old(dev).emitted(),
                *final(self),
                final(dev).pending(),
                final(dev).emitted(),
                r,
            ),
    {
        let inst = self.fetch(dev);
        proof {
            lemma_fields_in_range(inst);
        }

        let op = inst >> 12;

        match OPCodes::from(op) {
            OPCodes::OpBr => {
                self.br(inst);
                Ok(())
            },
            OPCodes::OpAdd => {
                self.add(inst);
                Ok(())
            },
            OPCodes::OpLd => {
                self.ld(inst, dev);
                Ok(())
            },
            OPCodes::OpSt => {
                self.st(inst);
                Ok(())
            },
            OPCodes::OpJsr => {
                self.jsr(inst);
                Ok(())
            },
            OPCodes::OpAnd => {
                self.and_(inst);
                Ok(())
            },
            OPCodes::OpLdr => {
                self.ldr(inst, dev);
                Ok(())
            },
            OPCodes::OpStr => {
                self.str(inst);
                Ok(())
            },
            OPCodes::OpRti => Err(self.rti(inst)),
            OPCodes::OpNot => {
                self.not(inst);
                Ok(())
            },
            OPCodes::OpLdi => {
                self.ldi(inst, dev);
                Ok(())
            },
            OPCodes::OpSti => {
                self.sti(inst, dev);
                Ok(())
            },
            OPCodes::OpJmp => {
                self.jmp(inst);
                Ok(())
            },
            OPCodes::OpRes => Err(self.res(inst)),
            OPCodes::OpLea => {
                self.lea(inst);
                Ok(())
            },
            OPCodes::OpTrap => self.trap(inst, dev),
        }
    }

    /// Steps the machine until it halts, faults, or `max_steps` instructions
    /// have run. The condition flag starts as the zero flag before the first
    /// step. The loop exits through `Halted` exactly when the
    /// run state is down, so a conforming host issues no step to a halted
    /// machine; a machine that is already halted is returned untouched but
    /// for the initial flag write. Whatever the outcome, the state left
    /// behind is reachable from the starting state by a chain of single
    /// steps: `spec_run_post` pins the whole run down.
    pub fn run<D: Device>(&mut self, dev: &mut D, max_steps: u64) -> (r: RunOutcome)
        requires
            old(self).wf(),
        ensures
            final(self).wf(),
            r == RunOutcome::Halted <==> !final(self).running,
            !old(self).running ==> final(self).regs@ == old(self).regs@ && final(self).pc == old(
                self,
            ).pc && final(self).rcond == Flags::FlZro.spec_value() && final(self).rcount == old(
                self,
            ).rcount && final(self).memory@ == old(self).memory@ && r == RunOutcome::Halted,
            exists|trace: Seq<RunPoint>|
                spec_run_post(
                    *old(self),
                    old(dev).pending(),
                    old(dev).emitted(),
                    *final(self),
                    final(dev).pending(),
                    final(dev).emitted(),
                    max_steps,
                    r,
                    trace,
                ),
    {
        self.rcond = Flags::FlZro.value();

        let ghost start = RunPoint { cpu: *self, pending: dev.pending(), emitted: dev.emitted() };
        let ghost mut trace: Seq<RunPoint> = seq![start];

        let mut steps: u64 = 0;
        while self.running && steps < max_steps
            invariant
                self.wf(),
                steps <= max_steps,
                !old(self).running ==> self.regs@ == old(self).regs@ && self.pc == old(self).pc
                    && self.rcond == Flags::FlZro.spec_value() && self.rcount == old(self).rcount
                    && self.memory@ == old(self).memory@ && !self.running,
                spec_trace_ok(trace),
                trace.len() == steps + 1,
                trace[0] == start,
                start.cpu.regs@ == old(self).regs@,
                start.cpu.pc == old(self).pc,
                start.cpu.rcond == Flags::FlZro.spec_value(),
                start.cpu.rcount == old(self).rcount,
                start.cpu.memory@ == old(self).memory@,
                start.cpu.running == old(self).running,
                start.pending == old(dev).pending(),
                start.emitted == old(dev).emitted(),
                trace.last().cpu == *self,
                trace.last().pending == dev.pending(),
                trace.last().emitted == dev.emitted(),
            decreases max_steps - steps,
        {
            let ghost before = trace;
            let r = self.step(dev);
            match r {
                Ok(()) => {},
                Err(f) => {
                    proof {
                        assert(self.running);
                        assert(spec_run_post(
                            *old(self),
                            old(dev).pending(),
                            old(dev).emitted(),
                            *self,
                            dev.pending(),
                            dev.emitted(),
                            max_steps,
                            RunOutcome::Faulted(f),
                            trace,
                        ));
                    }
                    return RunOutcome::Faulted(f);
                },
            }
            proof {
                trace = trace.push(
                    RunPoint { cpu: *self, pending: dev.pending(), emitted: dev.emitted() },
                );
                assert forall|i: int| 0 <= i < trace.len() - 1 implies trace[i].cpu.running
                    && spec_step_post(
                    trace[i].cpu,
                    trace[i].pending,
                    trace[i].emitted,
                    trace[i + 1].cpu,
                    trace[i + 1].pending,
                    trace[i + 1].emitted,
                    Ok(()),
                ) by {
                    if i < trace.len() - 2 {
                        assert(trace[i] == before[i]);
                        assert(trace[i + 1] == before[i + 1]);
                        assert(before[i].cpu.running && spec_step_post(
                            before[i].cpu,
                            before[i].pending,
                            before[i].emitted,
                            before[i + 1].cpu,
                            before[i + 1].pending,
                            before[i + 1].emitted,
                            Ok(()),
                        ));
                    } else {
                        assert(trace[i] == before.last());
                    }
                }
            }
            steps = steps + 1;
        }

        let outcome = if self.running {
            RunOutcome::OutOfSteps
        } else {
            RunOutcome::Halted
        };
        proof {
            assert(spec_run_post(
                *old(self),
                old(dev).pending(),
                old(dev).emitted(),
                *self,
                dev.pending(),
                dev.emitted(),
                max_steps,
                outcome,
                trace,
            ));
        }
        outcome
    }

    /// Loads a program image: the first two bytes are the big-endian origin
    /// address, every following byte pair one big-endian payload word, placed
    /// from the origin up; the program counter starts at the origin. The
    /// image must carry an origin, whole words, and a payload that stays
    /// inside the address space.
    pub fn load_image(&mut self, image: &Vec<u8>)
        requires
            old(self).wf(),
            image@.len() >= 2,
            image@.len() % 2 == 0,
            spec_origin(image@) + spec_image_words(image@) <= 0x10000,
        ensures
            final(self).wf(),
            final(self).pc == spec_origin(image@),
            forall|a: int|
                0 <= a < 0x10000 ==> final(self).memory@[a] == (if spec_origin(image@) <= a
                    < spec_origin(image@) + spec_image_words(image@) {
                    spec_image_word(image@, a - spec_origin(image@))
                } else {
                    old(self).memory@[a]
                }),
            final(self).regs@ == old(self).regs@,
            final(self).rcond == old(self).rcond,
            final(self).rcount == old(self).rcount,
            final(self).running == old(self).running,
    {
        let origin: u16 = ((image[0] as u16) << 8) | (image[1] as u16);

        self.pc = origin;

        let ghost m_init = self.memory@;

        let mut i: usize = 2;
        let mut count: usize = 0;
        while i < image.len()
            invariant
                self.wf(),
                image@.len() >= 2,
                image@.len() % 2 == 0,
                origin == spec_origin(image@),
                origin + spec_image_words(image@) <= 0x10000,
                i == 2 + 2 * count,
                i <= image@.len(),
                count <= spec_image_words(image@),
                forall|a: int|
                    0 <= a < 0x10000 ==> self.memory@[a] == (if origin <= a < origin + count {
                        spec_image_word(image@, a - origin)
                    } else {
                        m_init[a]
                    }),
                self.pc == origin,
                self.regs@ == old(self).regs@,
                self.rcond == old(self).rcond,
                self.rcount == old(self).rcount,
                self.running == old(self).running,
            decreases image@.len() - i,
        {
            let word: u16 = ((image[i] as u16) << 8) | (image[i + 1] as u16);
            self.memory.write(origin + (count as u16), word);
            i = i + 2;
            count = count + 1;
        }
    }
}

} // verus!
