use lib::assembler::{assemble, Instruction, Operand};

fn zeroed_memory() -> [u8; 4096] {
  [0u8; 4096]
}

#[test]
fn test_assemble_single_load_register_immediate() {
  let instructions = vec![Instruction {
    mnemonic: "LOAD".to_string(),
    location: 0,
    operand1: Some(Operand::Register(0)),
    operand2: Some(Operand::Immediate(1)),
  }];

  let expected_bytes: [u8; 2] = [0x60, 0x01];

  let memory = assemble(instructions);

  assert_eq!(&memory[0..2], &expected_bytes);

  assert_eq!(&memory[2..], &zeroed_memory()[2..]);
}

#[test]
fn test_assemble_multiple_load_register_immediate() {
  let instructions = vec![
    Instruction {
      mnemonic: "LOAD".to_string(),
      location: 0,
      operand1: Some(Operand::Register(1)),
      operand2: Some(Operand::Immediate(10)),
    },
    Instruction {
      mnemonic: "LOAD".to_string(),
      location: 2,
      operand1: Some(Operand::Register(5)),
      operand2: Some(Operand::Immediate(255)),
    },
  ];

  let expected_bytes: [u8; 4] = [0x61, 0x0A, 0x65, 0xFF];

  let memory = assemble(instructions);

  assert_eq!(&memory[0..4], &expected_bytes);
  assert_eq!(&memory[4..], &zeroed_memory()[4..]);
}

#[test]
fn test_assemble_load_register_immediate_edge_values() {
  let instructions = vec![
    Instruction {
      mnemonic: "LOAD".to_string(),
      location: 0,
      operand1: Some(Operand::Register(0)),
      operand2: Some(Operand::Immediate(0)),
    },
    Instruction {
      mnemonic: "LOAD".to_string(),
      location: 2,
      operand1: Some(Operand::Register(15)),
      operand2: Some(Operand::Immediate(255)),
    },
    Instruction {
      mnemonic: "LOAD".to_string(),
      location: 4,
      operand1: Some(Operand::Register(7)),
      operand2: Some(Operand::Immediate(1)),
    },
    Instruction {
      mnemonic: "LOAD".to_string(),
      location: 6,
      operand1: Some(Operand::Register(8)),
      operand2: Some(Operand::Immediate(254)),
    },
  ];

  let expected_bytes: [u8; 8] = [0x60, 0x00, 0x6F, 0xFF, 0x67, 0x01, 0x68, 0xFE];

  let memory = assemble(instructions);

  assert_eq!(&memory[0..8], &expected_bytes);
  assert_eq!(&memory[8..], &zeroed_memory()[8..]);
}

#[test]
fn test_assemble_unhandled_instruction() {
  let instructions = vec![
    Instruction {
      mnemonic: "NOP".to_string(),
      location: 0,
      operand1: Some(Operand::Register(0)),
      operand2: Some(Operand::Register(1)),
    },
    Instruction {
      mnemonic: "LOAD".to_string(),
      location: 2,
      operand1: Some(Operand::Register(2)),
      operand2: Some(Operand::Immediate(5)),
    },
  ];

  let expected_bytes: [u8; 4] = [0x00, 0x00, 0x62, 0x05];

  let memory = assemble(instructions);

  assert_eq!(&memory[0..4], &expected_bytes);
  assert_eq!(&memory[4..], &zeroed_memory()[4..]);
}

#[test]
fn test_assemble_add() {
  let instructions = vec![Instruction {
    mnemonic: "ADD".to_string(),
    location: 0,
    operand1: Some(Operand::Register(6)),
    operand2: Some(Operand::Register(2)),
  }];

  let expected_bytes: [u8; 2] = [0x86, 0x24];

  let memory = assemble(instructions);

  assert_eq!(&memory[0..2], &expected_bytes);

  assert_eq!(&memory[2..], &zeroed_memory()[2..]);
}

#[test]
fn test_assemble_sub() {
  let instructions = vec![Instruction {
    mnemonic: "SUB".to_string(),
    location: 0,
    operand1: Some(Operand::Register(6)),
    operand2: Some(Operand::Register(2)),
  }];

  let expected_bytes: [u8; 2] = [0x86, 0x25];

  let memory = assemble(instructions);

  assert_eq!(&memory[0..2], &expected_bytes);

  assert_eq!(&memory[2..], &zeroed_memory()[2..]);
}

#[test]
fn test_fib() {
  let instructions = vec![
    Instruction {
      mnemonic: "LOAD".to_string(),
      location: 0,
      operand1: Some(Operand::Register(0)),
      operand2: Some(Operand::Immediate(1)),
    },
    Instruction {
      mnemonic: "LOAD".to_string(),
      location: 1,
      operand1: Some(Operand::Register(1)),
      operand2: Some(Operand::Immediate(1)),
    },
    Instruction {
      mnemonic: "LOAD".to_string(),
      location: 2,
      operand1: Some(Operand::Register(5)),
      operand2: Some(Operand::Immediate(5)),
    },
    Instruction {
      mnemonic: "LOAD".to_string(),
      location: 3,
      operand1: Some(Operand::Register(6)),
      operand2: Some(Operand::Immediate(1)),
    },
    Instruction {
      mnemonic: "SUB".to_string(),
      location: 4,
      operand1: Some(Operand::Register(5)),
      operand2: Some(Operand::Register(6)),
    },
    // loop label is ignored in instruction structure unless label support is added
    Instruction {
      mnemonic: "STYX".to_string(),
      location: 5,
      operand1: Some(Operand::Register(3)),
      operand2: Some(Operand::Register(0)),
    },
    Instruction {
      mnemonic: "ADD".to_string(),
      location: 6,
      operand1: Some(Operand::Register(0)),
      operand2: Some(Operand::Register(1)),
    },
    Instruction {
      mnemonic: "STYX".to_string(),
      location: 7,
      operand1: Some(Operand::Register(1)),
      operand2: Some(Operand::Register(3)),
    },
    Instruction {
      mnemonic: "CMP".to_string(),
      location: 8,
      operand1: Some(Operand::Register(5)),
      operand2: Some(Operand::Immediate(0)),
    },
    Instruction {
      mnemonic: "JMP".to_string(),
      location: 9,
      operand1: Some(Operand::Address(8)),
      operand2: None,
    },
  ];
  const LEN: usize = 22;
  let expected_bytes: [u8; LEN] = [
    // Main program (starts at 0x200)
    0x60, 0x01, // 0x002: LD V0, 0x01
    0x61, 0x01, // 0x004: LD V1, 0x01
    0x65, 0x05, // 0x006: LD V5, 0x05
    0x66, 0x01, // 0x008: LD V6, 0x01
    0x85, 0x65, // 0x00A: V5 <- V5 - V6 // Decrement counter
    0x83, 0x00, //      : V3 <- V0 (STYX V3 V0)      // Save f_n+1
    0x80, 0x14, // 0x00C: ADD V0, V1
    0x81, 0x30, //      : V1 <- V3 (STYX V3 V1)
    0x35, 0x00, //      : V5 == 0;
    0x10, 0x08, // JMP 0x008
    0x00, 0x00,
  ];

  let memory = assemble(instructions);

  assert_eq!(&memory[0..LEN], &expected_bytes);

  assert_eq!(&memory[LEN..], &zeroed_memory()[LEN..]);
}

