use lib::assembler::{
    assemble, can_assemble, can_resolve_labels, resolve_label, Instruction, Operand,
};
use lib::emulator::{decode_opcode, Op, RunOutcome, CPU};

fn ins(mnemonic: &str, location: u16, a: Option<Operand>, b: Option<Operand>) -> Instruction {
    Instruction { mnemonic: mnemonic.to_string(), location, operand1: a, operand2: b }
}

fn fresh_cpu() -> CPU {
    CPU {
        registers: [0; 16],
        register_i: 0,
        memory: [0; 4096],
        position_in_memory: 0,
        stack: [0; 16],
        stack_pointer: 0,
    }
}

fn reg(r: u8) -> Option<Operand> {
    Some(Operand::Register(r))
}

fn imm(i: u8) -> Option<Operand> {
    Some(Operand::Immediate(i))
}

fn label(l: &str) -> Option<Operand> {
    Some(Operand::Label(l.to_string()))
}

#[test]
fn resolve_label_replaces_jump_label_by_location() {
    let program = vec![
        ins("LOAD", 0, reg(0), imm(1)),
        ins("loop:", 2, None, None),
        ins("ADD", 2, reg(0), reg(1)),
        ins("JMP", 4, label("loop"), None),
    ];
    assert!(can_resolve_labels(&program));
    let resolved = resolve_label(program);
    assert_eq!(resolved.len(), 4);
    assert!(matches!(resolved[3].operand1, Some(Operand::Address(2))));
    assert!(resolved[3].operand2.is_none());
    assert_eq!(resolved[3].mnemonic, "JMP");
    assert!(matches!(resolved[0].operand1, Some(Operand::Register(0))));
    assert_eq!(resolved[1].mnemonic, "loop:");
}

#[test]
fn resolve_label_last_definition_wins() {
    let program = vec![
        ins("a:", 0, None, None),
        ins("LOAD", 0, reg(0), imm(1)),
        ins("a:", 7, None, None),
        ins("JMP", 2, label("a"), None),
    ];
    let resolved = resolve_label(program);
    assert!(matches!(resolved[3].operand1, Some(Operand::Address(7))));
}

#[test]
fn resolve_label_trims_every_trailing_colon() {
    let program = vec![ins("start::", 9, None, None), ins("JMP", 0, label("start"), None)];
    assert!(can_resolve_labels(&program));
    let resolved = resolve_label(program);
    assert!(matches!(resolved[1].operand1, Some(Operand::Address(9))));
}

#[test]
fn resolve_label_rejects_undefined_label() {
    let program = vec![ins("JMP", 0, label("nowhere"), None)];
    assert!(!can_resolve_labels(&program));
}

#[test]
fn resolve_label_rejects_jump_without_label() {
    let program = vec![ins("JMP", 0, Some(Operand::Address(4)), None)];
    assert!(!can_resolve_labels(&program));
}

#[test]
fn assemble_jump_encodes_twelve_bit_address() {
    let program = vec![ins("JMP", 0, Some(Operand::Address(0x234)), None)];
    assert!(can_assemble(&program));
    let memory = assemble(program);
    assert_eq!(&memory[0..2], &[0x12, 0x34]);
}

#[test]
fn assemble_labels_take_no_space() {
    let program = vec![
        ins("LOAD", 0, reg(1), imm(7)),
        ins("here:", 2, None, None),
        ins("LOAD", 2, reg(2), imm(8)),
    ];
    let memory = assemble(program);
    assert_eq!(&memory[0..4], &[0x61, 0x07, 0x62, 0x08]);
    assert!(memory[4..].iter().all(|b| *b == 0));
}

#[test]
fn assemble_styx_and_cmp_encodings() {
    let program = vec![ins("STYX", 0, reg(3), reg(0)), ins("CMP", 2, reg(5), imm(7))];
    let memory = assemble(program);
    assert_eq!(&memory[0..4], &[0x83, 0x00, 0x35, 0x07]);
    let word = ((memory[2] as u16) << 8) | memory[3] as u16;
    assert!(matches!(decode_opcode(word), Op::SkipEqual(5, 7)));
}

#[test]
fn assemble_accepts_leading_label() {
    let program = vec![ins("start:", 0, None, None), ins("LOAD", 0, reg(0), imm(1))];
    assert!(can_assemble(&program));
    let memory = assemble(program);
    assert_eq!(&memory[0..2], &[0x60, 0x01]);
    assert!(memory[2..].iter().all(|b| *b == 0));
}

#[test]
fn can_assemble_rejects_wrong_operands() {
    assert!(!can_assemble(&vec![ins("LOAD", 0, reg(0), reg(1))]));
    assert!(!can_assemble(&vec![ins("ADD", 0, reg(0), imm(1))]));
    assert!(!can_assemble(&vec![ins("JMP", 0, label("x"), None)]));
    assert!(can_assemble(&vec![ins("NOP", 0, None, None)]));
}

#[test]
fn can_assemble_rejects_program_larger_than_memory() {
    let mut program = Vec::new();
    for k in 0..2049u16 {
        program.push(ins("LOAD", k, reg(0), imm(0)));
    }
    assert!(!can_assemble(&program));
    program.pop();
    assert!(can_assemble(&program));
}

#[test]
fn assembled_loads_decode_as_load_immediate() {
    let program = vec![ins("LOAD", 0, reg(4), imm(200))];
    let memory = assemble(program);
    let word = ((memory[0] as u16) << 8) | memory[1] as u16;
    assert!(matches!(decode_opcode(word), Op::LoadImmediate(4, 200)));
}

#[test]
fn assembled_fibonacci_runs_to_thirteen() {
    let program = vec![
        ins("LOAD", 0, reg(0), imm(1)),
        ins("LOAD", 1, reg(1), imm(1)),
        ins("LOAD", 2, reg(5), imm(5)),
        ins("LOAD", 3, reg(6), imm(1)),
        ins("loop:", 8, None, None),
        ins("SUB", 4, reg(5), reg(6)),
        ins("STYX", 5, reg(3), reg(0)),
        ins("ADD", 6, reg(0), reg(1)),
        ins("STYX", 7, reg(1), reg(3)),
        ins("CMP", 8, reg(5), imm(0)),
        ins("JMP", 9, label("loop"), None),
    ];
    assert!(can_resolve_labels(&program));
    let resolved = resolve_label(program);
    assert!(can_assemble(&resolved));
    let memory = assemble(resolved);
    let mut cpu = fresh_cpu();
    cpu.memory = memory;
    cpu.run();
    assert_eq!(cpu.registers[0], 13);
    let mut bounded = fresh_cpu();
    bounded.memory = memory;
    assert!(matches!(bounded.run_for(1000), RunOutcome::Halted));
    assert_eq!(bounded.registers, cpu.registers);
    assert_eq!(bounded.position_in_memory, cpu.position_in_memory);
}

#[test]
fn step_reports_halt_and_moves_past_it() {
    let mut cpu = fresh_cpu();
    cpu.position_in_memory = 10;
    assert!(cpu.can_step());
    assert_eq!(cpu.step(), 0);
    assert_eq!(cpu.position_in_memory, 12);
}

#[test]
fn read_opcode_is_big_endian() {
    let mut cpu = fresh_cpu();
    cpu.memory[4] = 0xAB;
    cpu.memory[5] = 0xCD;
    cpu.position_in_memory = 4;
    assert_eq!(cpu.read_opcode(), 0xABCD);
}

#[test]
fn can_step_rejects_faulting_steps() {
    let mut cpu = fresh_cpu();
    cpu.memory[0] = 0xB1;
    assert!(!cpu.can_step());
    cpu.memory[0] = 0x00;
    cpu.memory[1] = 0xEE;
    assert!(!cpu.can_step());
    cpu.memory[0] = 0x22;
    cpu.memory[1] = 0x00;
    cpu.stack_pointer = 16;
    assert!(!cpu.can_step());
    cpu.stack_pointer = 0;
    assert!(cpu.can_step());
    cpu.memory[0] = 0xFF;
    cpu.memory[1] = 0x55;
    cpu.register_i = 4090;
    assert!(!cpu.can_step());
    cpu.register_i = 4080;
    assert!(cpu.can_step());
    cpu.position_in_memory = 4095;
    assert!(!cpu.can_step());
}

#[test]
fn ret_after_call_restores_position() {
    let mut cpu = fresh_cpu();
    cpu.position_in_memory = 0x20C;
    cpu.call(0x216);
    assert_eq!(cpu.position_in_memory, 0x216);
    assert_eq!(cpu.stack_pointer, 1);
    assert_eq!(cpu.stack[0], 0x20C);
    cpu.ret();
    assert_eq!(cpu.position_in_memory, 0x20C);
    assert_eq!(cpu.stack_pointer, 0);
}

#[test]
fn load_after_store_restores_registers() {
    let mut cpu = fresh_cpu();
    for k in 0..16 {
        cpu.registers[k] = (k as u8) * 3 + 1;
    }
    cpu.set_register_i(0x300);
    assert_eq!(cpu.register_i, 0x300);
    cpu.store_regs(4);
    assert_eq!(&cpu.memory[0x300..0x306], &[1, 4, 7, 10, 13, 0]);
    let saved = cpu.registers;
    for k in 0..16 {
        cpu.registers[k] = 0;
    }
    cpu.load_regs(4);
    assert_eq!(&cpu.registers[0..5], &saved[0..5]);
    assert_eq!(&cpu.registers[5..], &[0u8; 11]);
}

#[test]
fn add_sets_carry_flag() {
    let mut cpu = fresh_cpu();
    cpu.registers[1] = 200;
    cpu.registers[2] = 100;
    cpu.add_xy(1, 2);
    assert_eq!(cpu.registers[1], 44);
    assert_eq!(cpu.registers[0xF], 1);
    cpu.add_x_immediate(1, 6);
    assert_eq!(cpu.registers[1], 50);
    assert_eq!(cpu.registers[0xF], 0);
    cpu.add_x_immediate(1, 250);
    assert_eq!(cpu.registers[1], 44);
    assert_eq!(cpu.registers[0xF], 1);
}

#[test]
fn sub_with_borrow_wraps() {
    let mut cpu = fresh_cpu();
    cpu.registers[0] = 3;
    cpu.registers[1] = 5;
    cpu.subs_xy(0, 1);
    assert_eq!(cpu.registers[0], 0xFE);
    assert_eq!(cpu.registers[1], 5);
    assert_eq!(cpu.registers[0xF], 0);
    cpu.registers[2] = 9;
    cpu.subs_xy(2, 1);
    assert_eq!(cpu.registers[2], 4);
    assert_eq!(cpu.registers[0xF], 1);
    cpu.registers[3] = 5;
    cpu.subs_xy(3, 1);
    assert_eq!(cpu.registers[3], 0);
    assert_eq!(cpu.registers[0xF], 1);
}

#[test]
fn run_for_reports_halt_fault_and_limit() {
    let program = [0x60, 0x01, 0x70, 0x01, 0x00, 0x00];
    let mut cpu = fresh_cpu();
    cpu.memory[0..6].copy_from_slice(&program);
    assert!(matches!(cpu.run_for(1), RunOutcome::StepLimit));
    assert_eq!(cpu.position_in_memory, 2);
    assert_eq!(cpu.registers[0], 1);
    assert!(matches!(cpu.run_for(10), RunOutcome::Halted));
    assert_eq!(cpu.position_in_memory, 6);
    assert_eq!(cpu.registers[0], 2);

    let mut faulty = fresh_cpu();
    faulty.memory[0] = 0x60;
    faulty.memory[1] = 0x05;
    faulty.memory[2] = 0xB0;
    assert!(matches!(faulty.run_for(10), RunOutcome::Faulted));
    assert_eq!(faulty.position_in_memory, 2);
    assert_eq!(faulty.registers[0], 5);

    let mut idle = fresh_cpu();
    assert!(matches!(idle.run_for(0), RunOutcome::StepLimit));
    assert_eq!(idle.position_in_memory, 0);
}

#[test]
fn load_restores_stored_registers_in_another_machine() {
    let mut first = fresh_cpu();
    for k in 0..16 {
        first.registers[k] = 100 + k as u8;
    }
    first.set_register_i(0x100);
    first.store_regs(3);
    let mut second = fresh_cpu();
    second.memory[0x100..0x104].copy_from_slice(&first.memory[0x100..0x104]);
    second.set_register_i(0x100);
    second.load_regs(3);
    assert_eq!(&second.registers[0..4], &[100, 101, 102, 103]);
}

#[test]
fn bitwise_and_moves() {
    let mut cpu = fresh_cpu();
    cpu.load_immediate(1, 0b1100);
    cpu.load_immediate(2, 0b1010);
    cpu.or(1, 2);
    assert_eq!(cpu.registers[1], 0b1110);
    cpu.and(1, 2);
    assert_eq!(cpu.registers[1], 0b1010);
    cpu.xor(1, 2);
    assert_eq!(cpu.registers[1], 0);
    cpu.store_y_in_x(3, 2);
    assert_eq!(cpu.registers[3], 0b1010);
}

#[test]
fn skips_move_two_bytes() {
    let mut cpu = fresh_cpu();
    cpu.registers[1] = 7;
    cpu.registers[2] = 7;
    cpu.skip_equal(1, 7);
    assert_eq!(cpu.position_in_memory, 2);
    cpu.skip_not_equal(1, 7);
    assert_eq!(cpu.position_in_memory, 2);
    cpu.skip_reg_equal(1, 2);
    assert_eq!(cpu.position_in_memory, 4);
    cpu.skip_reg_not_equal(1, 2);
    assert_eq!(cpu.position_in_memory, 4);
    cpu.jmp(0x123);
    assert_eq!(cpu.position_in_memory, 0x123);
}

#[test]
fn decode_opcode_examples() {
    assert!(matches!(decode_opcode(0x0000), Op::Halt));
    assert!(matches!(decode_opcode(0x00EE), Op::Return));
    assert!(matches!(decode_opcode(0x1208), Op::Jump(0x208)));
    assert!(matches!(decode_opcode(0x8125), Op::SubXY(1, 2)));
    assert!(matches!(decode_opcode(0xF365), Op::LoadRegs(3)));
    assert!(matches!(decode_opcode(0x8126), Op::Unsupported));
    assert!(matches!(decode_opcode(0x0123), Op::Unsupported));
}
