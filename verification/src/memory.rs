//! The 65,536-word store, with two addresses serving as the keyboard's
//! memory-mapped status and data registers. A read of the status address
//! first polls the device and refreshes both mapped registers.

use vstd::prelude::*;

use crate::device::{spec_pending_after_poll, spec_polled_byte, Device};

verus! {

/// Number of words in the address space.
pub const MEMORY_MAX: usize = 0x10000;

/// Address of the keyboard status register: its top bit says a byte is ready.
pub const KBSR: u16 = 0xFE00;

/// Address of the keyboard data register: the last byte the keyboard yielded.
pub const KBDR: u16 = 0xFE02;

/// The two memory-mapped keyboard registers.
#[derive(Debug, Clone, Copy, PartialEq, Eq, Structural)]
pub enum MemoryMappedReg {
    Kbsr,
    Kbdr,
}

impl MemoryMappedReg {
    /// The address the mapped register occupies.
    pub open spec fn spec_address(self) -> u16 {
        match self {
            MemoryMappedReg::Kbsr => KBSR,
            MemoryMappedReg::Kbdr => KBDR,
        }
    }

    pub fn address(self) -> (r: u16)
        ensures
            r == self.spec_address(),
    {
        match self {
            MemoryMappedReg::Kbsr => KBSR,
            MemoryMappedReg::Kbdr => KBDR,
        }
    }
}

/// The store after one read at `addr` with input `pending` at the device: a
/// read of the keyboard status address first polls the device and rewrites
/// both mapped registers; a read anywhere else changes nothing.
pub open spec fn spec_mem_after_read(m: Seq<u16>, addr: u16, pending: Seq<u8>) -> Seq<u16> {
    if addr == KBSR {
        if spec_polled_byte(pending) != 0 {
            m.update(KBSR as int, 0x8000u16).update(KBDR as int, spec_polled_byte(pending) as u16)
        } else {
            m.update(KBSR as int, 0u16)
        }
    } else {
        m
    }
}

/// The device input still pending after one read at `addr`: a read of the
/// keyboard status address consumes one poll, a read anywhere else none.
pub open spec fn spec_pending_after_read(pending: Seq<u8>, addr: u16) -> Seq<u8> {
    if addr == KBSR {
        spec_pending_after_poll(pending)
    } else {
        pending
    }
}

/// The word a read at `addr` returns: the stored word, after the poll a read
/// of the keyboard status address performs.
pub open spec fn spec_read_value(m: Seq<u16>, addr: u16, pending: Seq<u8>) -> u16 {
    spec_mem_after_read(m, addr, pending)[addr as int]
}

/// The word-addressed store. Well-formed when it spans the full 16-bit
/// address space, so that every word-sized address is in bounds.
pub struct Mem {
    pub memory: Vec<u16>,
}

impl View for Mem {
    type V = Seq<u16>;

    open spec fn view(&self) -> Seq<u16> {
        self.memory@
    }
}

impl Mem {
    pub open spec fn wf(self) -> bool {
        self@.len() == MEMORY_MAX
    }

    /// A store of 65,536 zeroed words.
    pub fn new() -> (m: Mem)
        ensures
            m.wf(),
            m@ == Seq::new(MEMORY_MAX as nat, |i: int| 0u16),
    {
        let m = Mem { memory: vec![0u16; MEMORY_MAX] };
        proof {
            assert(m@ =~= Seq::new(MEMORY_MAX as nat, |i: int| 0u16));
        }
        m
    }

    /// Reads the word at `addr`. A read of the keyboard status address first
    /// polls the device: a pending byte sets the status word's top bit and
    /// leaves the byte in the data word, no pending byte clears the status
    /// word.
    pub fn read<D: Device>(&mut self, addr: u16, dev: &mut D) -> (val: u16)
        requires
            old(self).wf(),
        ensures
            final(self).wf(),
            final(self)@ == spec_mem_after_read(old(self)@, addr, old(dev).pending()),
            final(dev).pending() == spec_pending_after_read(old(dev).pending(), addr),
            final(dev).emitted() == old(dev).emitted(),
            val == spec_read_value(old(self)@, addr, old(dev).pending()),
    {
        if addr == KBSR {
            self.keyboard(dev);
        }
        self.memory[addr as usize]
    }

    /// Stores `val` at `addr`. A store to a mapped register is an ordinary
    /// store, indistinguishable from a device update.
    pub fn write(&mut self, addr: u16, val: u16)
        requires
            old(self).wf(),
        ensures
            final(self).wf(),
            final(self)@ == old(self)@.update(addr as int, val),
    {
        self.memory[addr as usize] = val;
    }

    /// Polls the keyboard and rewrites the two mapped registers.
    fn keyboard<D: Device>(&mut self, dev: &mut D)
        requires
            old(self).wf(),
        ensures
            final(self).wf(),
            final(self)@ == spec_mem_after_read(old(self)@, KBSR, old(dev).pending()),
            final(dev).pending() == spec_pending_after_poll(old(dev).pending()),
            final(dev).emitted() == old(dev).emitted(),
    {
        let ch = dev.read_byte();

        if ch != 0 {
            self.write(KBSR, 0x8000);
            self.write(KBDR, ch as u16);
        } else {
            self.write(KBSR, 0);
        }
    }
}

} // verus!
