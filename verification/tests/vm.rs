use lc3_vm::cpu::{Fault, RunOutcome, CPU, PC_START};
use lc3_vm::device::QueueDevice;
use lc3_vm::instructions::{sign_extend, Flags, OPCodes, TrapCodes};
use lc3_vm::memory::{Mem, MemoryMappedReg, KBDR, KBSR};

fn machine_with(words: &[u16]) -> CPU {
    let mut cpu = CPU::new();
    let mut addr = PC_START;
    for &w in words {
        cpu.memory.write(addr, w);
        addr += 1;
    }
    cpu
}

fn empty_device() -> QueueDevice {
    QueueDevice::new(Vec::new())
}

#[test]
fn sign_extension_widths() {
    // width 5: -1, -16, and the positive maximum
    assert_eq!(sign_extend(0x1f, 5), 0xffff);
    assert_eq!(sign_extend(0x10, 5), 0xfff0);
    assert_eq!(sign_extend(0x0f, 5), 0x000f);
    // width 6
    assert_eq!(sign_extend(0x3f, 6), 0xffff);
    assert_eq!(sign_extend(0x20, 6), 0xffe0);
    assert_eq!(sign_extend(0x1f, 6), 0x001f);
    // width 9
    assert_eq!(sign_extend(0x1ff, 9), 0xffff);
    assert_eq!(sign_extend(0x100, 9), 0xff00);
    assert_eq!(sign_extend(0x0ff, 9), 0x00ff);
    // width 11
    assert_eq!(sign_extend(0x7ff, 11), 0xffff);
    assert_eq!(sign_extend(0x400, 11), 0xfc00);
    assert_eq!(sign_extend(0x005, 11), 0x0005);
}

#[test]
fn flags_one_hot_and_consistent() {
    // ADD R0, R0, #0 on a cleared machine writes zero
    let mut cpu = machine_with(&[0x1020]);
    let mut dev = empty_device();
    assert_eq!(cpu.step(&mut dev), Ok(()));
    assert_eq!(cpu.rcond, Flags::FlZro.value());

    // ADD R0, R0, #1 writes a positive value
    let mut cpu = machine_with(&[0x1021]);
    let mut dev = empty_device();
    assert_eq!(cpu.step(&mut dev), Ok(()));
    assert_eq!(cpu.regs[0], 1);
    assert_eq!(cpu.rcond, Flags::FlPos.value());

    // ADD R0, R0, #-1 writes 0xffff, a negative value
    let mut cpu = machine_with(&[0x103f]);
    let mut dev = empty_device();
    assert_eq!(cpu.step(&mut dev), Ok(()));
    assert_eq!(cpu.regs[0], 0xffff);
    assert_eq!(cpu.rcond, Flags::FlNeg.value());

    for v in [
        Flags::FlPos.value(),
        Flags::FlZro.value(),
        Flags::FlNeg.value(),
    ] {
        assert_eq!(v.count_ones(), 1);
    }
}

#[test]
fn add_wraparound_sets_negative() {
    // R0 starts at 0x7fff; ADD R0, R0, #1 wraps to 0x8000 without a fault
    let mut cpu = machine_with(&[0x1021]);
    cpu.regs[0] = 0x7fff;
    let mut dev = empty_device();
    assert_eq!(cpu.step(&mut dev), Ok(()));
    assert_eq!(cpu.regs[0], 0x8000);
    assert_eq!(cpu.rcond, Flags::FlNeg.value());
}

#[test]
fn add_register_form() {
    // ADD R2, R0, R1
    let mut cpu = machine_with(&[0x1401]);
    cpu.regs[0] = 3;
    cpu.regs[1] = 4;
    let mut dev = empty_device();
    assert_eq!(cpu.step(&mut dev), Ok(()));
    assert_eq!(cpu.regs[2], 7);
    assert_eq!(cpu.rcond, Flags::FlPos.value());
}

#[test]
fn and_both_forms() {
    // AND R2, R0, R1
    let mut cpu = machine_with(&[0x5401]);
    cpu.regs[0] = 0x0ff0;
    cpu.regs[1] = 0x00ff;
    let mut dev = empty_device();
    assert_eq!(cpu.step(&mut dev), Ok(()));
    assert_eq!(cpu.regs[2], 0x00f0);

    // AND R0, R0, #0
    let mut cpu = machine_with(&[0x5020]);
    cpu.regs[0] = 0x1234;
    let mut dev = empty_device();
    assert_eq!(cpu.step(&mut dev), Ok(()));
    assert_eq!(cpu.regs[0], 0);
    assert_eq!(cpu.rcond, Flags::FlZro.value());
}

#[test]
fn not_complements() {
    // NOT R1, R0
    let mut cpu = machine_with(&[0x9200]);
    cpu.regs[0] = 0x00ff;
    let mut dev = empty_device();
    assert_eq!(cpu.step(&mut dev), Ok(()));
    assert_eq!(cpu.regs[1], 0xff00);
    assert_eq!(cpu.rcond, Flags::FlNeg.value());
}

#[test]
fn branch_taken_moves_pc() {
    // BRz +3 with the zero flag in force
    let mut cpu = machine_with(&[0x0403]);
    cpu.rcond = Flags::FlZro.value();
    let mut dev = empty_device();
    assert_eq!(cpu.step(&mut dev), Ok(()));
    assert_eq!(cpu.pc, PC_START + 1 + 3);
}

#[test]
fn branch_tie_break_leaves_pc() {
    // BRz +3 while the positive flag is in force: no mask bit meets the
    // flags, so the counter keeps its post-fetch value
    let mut cpu = machine_with(&[0x0403]);
    cpu.rcond = Flags::FlPos.value();
    let mut dev = empty_device();
    assert_eq!(cpu.step(&mut dev), Ok(()));
    assert_eq!(cpu.pc, PC_START + 1);
}

#[test]
fn branch_negative_offset() {
    // BRnzp #-2
    let mut cpu = machine_with(&[0x0ffe]);
    cpu.rcond = Flags::FlZro.value();
    let mut dev = empty_device();
    assert_eq!(cpu.step(&mut dev), Ok(()));
    assert_eq!(cpu.pc, PC_START - 1);
}

#[test]
fn jsr_long_form_linkage() {
    // JSR +5 from a post-fetch counter of X = PC_START + 1
    let mut cpu = machine_with(&[0x4805]);
    let mut dev = empty_device();
    assert_eq!(cpu.step(&mut dev), Ok(()));
    assert_eq!(cpu.regs[7], PC_START + 1);
    assert_eq!(cpu.pc, PC_START + 1 + 5);
}

#[test]
fn jsr_register_form() {
    // JSRR R3
    let mut cpu = machine_with(&[0x40c0]);
    cpu.regs[3] = 0x4242;
    let mut dev = empty_device();
    assert_eq!(cpu.step(&mut dev), Ok(()));
    assert_eq!(cpu.regs[7], PC_START + 1);
    assert_eq!(cpu.pc, 0x4242);
}

#[test]
fn jmp_takes_base_register() {
    // JMP R2
    let mut cpu = machine_with(&[0xc080]);
    cpu.regs[2] = 0x1234;
    let mut dev = empty_device();
    assert_eq!(cpu.step(&mut dev), Ok(()));
    assert_eq!(cpu.pc, 0x1234);
}

#[test]
fn load_and_store_pc_relative() {
    // LD R1, +2 reads the word two past the post-fetch counter
    let mut cpu = machine_with(&[0x2202, 0x0000, 0x0000, 0xbeef]);
    let mut dev = empty_device();
    assert_eq!(cpu.step(&mut dev), Ok(()));
    assert_eq!(cpu.regs[1], 0xbeef);
    assert_eq!(cpu.rcond, Flags::FlNeg.value());

    // ST writes the value of register 0 — the fixed source — not R1
    let mut cpu = machine_with(&[0x3202]);
    cpu.regs[0] = 0x1111;
    cpu.regs[1] = 0x2222;
    let mut dev = empty_device();
    assert_eq!(cpu.step(&mut dev), Ok(()));
    assert_eq!(cpu.memory.memory[(PC_START + 3) as usize], 0x1111);
}

#[test]
fn load_register_and_store_register() {
    // LDR R1, R2, #1
    let mut cpu = machine_with(&[0x6281]);
    cpu.regs[2] = 0x5000;
    cpu.memory.write(0x5001, 0x7777);
    let mut dev = empty_device();
    assert_eq!(cpu.step(&mut dev), Ok(()));
    assert_eq!(cpu.regs[1], 0x7777);

    // STR R1, R2, #1
    let mut cpu = machine_with(&[0x7281]);
    cpu.regs[1] = 0x0042;
    cpu.regs[2] = 0x5000;
    let mut dev = empty_device();
    assert_eq!(cpu.step(&mut dev), Ok(()));
    assert_eq!(cpu.memory.memory[0x5001], 0x0042);
}

#[test]
fn load_indirect_and_store_indirect() {
    // LDI R1, +1: the word after the instruction names the address
    let mut cpu = machine_with(&[0xa201, 0x0000, 0x5000]);
    cpu.memory.write(0x5000, 0x0042);
    let mut dev = empty_device();
    assert_eq!(cpu.step(&mut dev), Ok(()));
    assert_eq!(cpu.regs[1], 0x0042);

    // STI R1, +1
    let mut cpu = machine_with(&[0xb201, 0x0000, 0x5000]);
    cpu.regs[1] = 0x4242;
    let mut dev = empty_device();
    assert_eq!(cpu.step(&mut dev), Ok(()));
    assert_eq!(cpu.memory.memory[0x5000], 0x4242);
}

#[test]
fn lea_loads_address() {
    // LEA R1, +4
    let mut cpu = machine_with(&[0xe204]);
    let mut dev = empty_device();
    assert_eq!(cpu.step(&mut dev), Ok(()));
    assert_eq!(cpu.regs[1], PC_START + 1 + 4);
    assert_eq!(cpu.rcond, Flags::FlPos.value());
}

#[test]
fn put_string_stops_at_zero_word() {
    // TRAP x22 with R0 pointing at [0x48, 0x49, 0x00]
    let mut cpu = machine_with(&[0xf022]);
    cpu.regs[0] = 0x5000;
    cpu.memory.write(0x5000, 0x48);
    cpu.memory.write(0x5001, 0x49);
    cpu.memory.write(0x5002, 0x00);
    let mut dev = empty_device();
    assert_eq!(cpu.step(&mut dev), Ok(()));
    assert_eq!(dev.output(), &vec![0x48, 0x49]);
}

#[test]
fn put_packed_string_byte_order() {
    // TRAP x24 on the word 0x4241: low byte first, then the high byte
    let mut cpu = machine_with(&[0xf024]);
    cpu.regs[0] = 0x5000;
    cpu.memory.write(0x5000, 0x4241);
    let mut dev = empty_device();
    assert_eq!(cpu.step(&mut dev), Ok(()));
    assert_eq!(dev.output(), &vec![0x41, 0x42]);

    // a word whose high byte is zero emits its low byte only
    let mut cpu = machine_with(&[0xf024]);
    cpu.regs[0] = 0x5000;
    cpu.memory.write(0x5000, 0x0042);
    let mut dev = empty_device();
    assert_eq!(cpu.step(&mut dev), Ok(()));
    assert_eq!(dev.output(), &vec![0x42]);
}

#[test]
fn get_character_leaves_flags() {
    let mut cpu = machine_with(&[0xf020]);
    let flags_before = cpu.rcond;
    let mut dev = QueueDevice::new(vec![0x41]);
    assert_eq!(cpu.step(&mut dev), Ok(()));
    assert_eq!(cpu.regs[0], 0x41);
    assert_eq!(cpu.rcond, flags_before);
    assert_eq!(dev.output(), &Vec::<u8>::new());
}

#[test]
fn output_emits_low_byte() {
    let mut cpu = machine_with(&[0xf021]);
    cpu.regs[0] = 0x1248;
    let mut dev = empty_device();
    assert_eq!(cpu.step(&mut dev), Ok(()));
    assert_eq!(dev.output(), &vec![0x48]);
}

#[test]
fn input_with_echo_prompts_and_updates_flags() {
    let mut cpu = machine_with(&[0xf023]);
    let mut dev = QueueDevice::new(vec![0x41]);
    assert_eq!(cpu.step(&mut dev), Ok(()));
    assert_eq!(cpu.regs[0], 0x41);
    assert_eq!(cpu.rcond, Flags::FlPos.value());
    assert_eq!(dev.output(), &b"Enter a character: ".to_vec());
}

#[test]
fn load_image_round_trip() {
    let mut cpu = CPU::new();
    let image = vec![0x30, 0x00, 0x12, 0x34, 0x56, 0x78];
    cpu.load_image(&image);
    assert_eq!(cpu.memory.memory[0x3000], 0x1234);
    assert_eq!(cpu.memory.memory[0x3001], 0x5678);
    assert_eq!(cpu.pc, 0x3000);
}

#[test]
fn load_image_origin_only() {
    let mut cpu = CPU::new();
    cpu.memory.write(0x4000, 0x1111);
    let image = vec![0x40, 0x00];
    cpu.load_image(&image);
    assert_eq!(cpu.pc, 0x4000);
    assert_eq!(cpu.memory.memory[0x4000], 0x1111);
}

#[test]
fn run_exits_exactly_once_halted() {
    // two no-effect adds, then TRAP x25
    let mut cpu = machine_with(&[0x1020, 0x1020, 0xf025]);
    let mut dev = empty_device();
    assert_eq!(cpu.run(&mut dev, 1000), RunOutcome::Halted);
    assert!(!cpu.running);

    // a halted machine is left untouched: no further step is issued
    let pc = cpu.pc;
    assert_eq!(cpu.run(&mut dev, 1000), RunOutcome::Halted);
    assert_eq!(cpu.pc, pc);
    assert!(!cpu.running);
}

#[test]
fn run_out_of_steps_keeps_running() {
    // BRnzp #-1 loops in place forever
    let mut cpu = machine_with(&[0x0fff]);
    let mut dev = empty_device();
    assert_eq!(cpu.run(&mut dev, 10), RunOutcome::OutOfSteps);
    assert!(cpu.running);
}

#[test]
fn reserved_opcode_is_fatal() {
    let mut cpu = machine_with(&[0xd000]);
    let mut dev = empty_device();
    assert_eq!(cpu.step(&mut dev), Err(Fault::Reserved));
    assert!(cpu.running);
}

#[test]
fn interrupt_return_is_fatal() {
    let mut cpu = machine_with(&[0x8000]);
    let mut dev = empty_device();
    assert_eq!(cpu.step(&mut dev), Err(Fault::InterruptReturn));
}

#[test]
fn unknown_trap_vector_is_fatal() {
    let mut cpu = machine_with(&[0xf026]);
    let mut dev = empty_device();
    assert_eq!(cpu.step(&mut dev), Err(Fault::UnknownTrap));
}

#[test]
fn fatal_fault_distinct_from_halt() {
    let mut cpu = machine_with(&[0xd000]);
    let mut dev = empty_device();
    let outcome = cpu.run(&mut dev, 1000);
    assert_eq!(outcome, RunOutcome::Faulted(Fault::Reserved));
    assert_ne!(outcome, RunOutcome::Halted);
    assert!(cpu.running);
}

#[test]
fn get_character_empty_input_yields_zero() {
    let mut cpu = machine_with(&[0xf020]);
    cpu.regs[0] = 0x1234;
    let mut dev = empty_device();
    assert_eq!(cpu.step(&mut dev), Ok(()));
    assert_eq!(cpu.regs[0], 0);
}

#[test]
fn load_register_polls_keyboard_status() {
    // LDR R1, R2, #0 with R2 at the keyboard status address: the read polls
    // the device and refreshes both mapped registers first
    let mut cpu = machine_with(&[0x6280]);
    cpu.regs[2] = KBSR;
    let mut dev = QueueDevice::new(vec![0x41]);
    assert_eq!(cpu.step(&mut dev), Ok(()));
    assert_eq!(cpu.regs[1], 0x8000);
    assert_eq!(cpu.rcond, Flags::FlNeg.value());
    assert_eq!(cpu.memory.memory[KBDR as usize], 0x41);

    // with nothing pending the status word is cleared
    let mut cpu = machine_with(&[0x6280]);
    cpu.regs[2] = KBSR;
    cpu.memory.write(KBSR, 0x8000);
    let mut dev = empty_device();
    assert_eq!(cpu.step(&mut dev), Ok(()));
    assert_eq!(cpu.regs[1], 0);
    assert_eq!(cpu.rcond, Flags::FlZro.value());
}

#[test]
fn keyboard_status_poll_ready() {
    let mut mem = Mem::new();
    let mut dev = QueueDevice::new(vec![0x41]);
    let status = mem.read(KBSR, &mut dev);
    assert_eq!(status, 0x8000);
    let data = mem.read(KBDR, &mut dev);
    assert_eq!(data, 0x41);
}

#[test]
fn keyboard_status_poll_empty() {
    let mut mem = Mem::new();
    mem.write(KBSR, 0x8000);
    let mut dev = empty_device();
    let status = mem.read(KBSR, &mut dev);
    assert_eq!(status, 0);
}

#[test]
fn ordinary_memory_read_write() {
    let mut mem = Mem::new();
    let mut dev = empty_device();
    assert_eq!(mem.read(0x1234, &mut dev), 0);
    mem.write(0x1234, 0xabcd);
    assert_eq!(mem.read(0x1234, &mut dev), 0xabcd);
}

#[test]
fn mapped_register_addresses() {
    assert_eq!(MemoryMappedReg::Kbsr.address(), 0xfe00);
    assert_eq!(MemoryMappedReg::Kbdr.address(), 0xfe02);
    assert_eq!(MemoryMappedReg::Kbsr.address(), KBSR);
    assert_eq!(MemoryMappedReg::Kbdr.address(), KBDR);
}

#[test]
fn opcode_round_trip() {
    for op in 0..16u16 {
        assert_eq!(OPCodes::from(op).value(), op);
    }
}

#[test]
fn trap_code_round_trip() {
    for vector in [0x20u16, 0x21, 0x22, 0x23, 0x24, 0x25] {
        let code = TrapCodes::from(vector).unwrap();
        assert_eq!(code.value(), vector);
    }
    assert_eq!(TrapCodes::from(0x1f), None);
    assert_eq!(TrapCodes::from(0x26), None);
}

#[test]
fn flag_values() {
    assert_eq!(Flags::FlPos.value(), 1);
    assert_eq!(Flags::FlZro.value(), 2);
    assert_eq!(Flags::FlNeg.value(), 4);
}

#[test]
fn fresh_machine_state() {
    let cpu = CPU::new();
    assert_eq!(cpu.pc, PC_START);
    assert!(cpu.running);
    assert_eq!(cpu.regs, vec![0; 8]);
    assert_eq!(cpu.rcond, 0);
    assert_eq!(cpu.memory.memory.len(), 0x10000);
}

#[test]
fn get_reg_permissive_fallback() {
    let mut cpu = CPU::new();
    cpu.regs[3] = 7;
    cpu.rcond = 2;
    cpu.rcount = 5;
    assert_eq!(cpu.get_reg(3), 7);
    assert_eq!(cpu.get_reg(9), 2);
    assert_eq!(cpu.get_reg(10), 5);
    assert_eq!(cpu.get_reg(8), 0);
    assert_eq!(cpu.get_reg(11), 0);
    assert_eq!(cpu.get_reg(0xffff), 0);
}
