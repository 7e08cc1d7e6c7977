//! What one step of the CPU does, stated on the two opcode bytes at the
//! program counter: for each opcode, when the step can be taken and the
//! whole machine after it, written with plain arithmetic and bit operations
//! on the machine before it.
use vstd::prelude::*;
use crate::emulator::{MachineState, lemma_word_fields};

verus! {

/// The step at the program counter reads the two bytes `hi` and `lo`.
pub open spec fn fetches(s: MachineState, hi: u8, lo: u8) -> bool {
    &&& s.wf()
    &&& s.pc + 1 < 4096
    &&& s.memory[s.pc] == hi
    &&& s.memory[s.pc + 1] == lo
}

/// `6xkk` sets `Vx` to `kk`.
pub proof fn law_load_immediate(s: MachineState, hi: u8, lo: u8)
    requires
        fetches(s, hi, lo),
        hi / 16 == 6,
    ensures
        s.step_defined(),
        !s.at_halt(),
        ({
            let x = (hi % 16) as int;
            let y = (lo / 16) as int;
            s.next() == MachineState {
                pc: s.pc + 2,
                registers: s.registers.update(x, lo),
                ..s
            }
        }),
{
    lemma_word_fields(hi, lo);
}

/// `7xkk` sets `Vx` to `Vx + kk` modulo 256, then `VF` to the carry.
pub proof fn law_add_immediate(s: MachineState, hi: u8, lo: u8)
    requires
        fetches(s, hi, lo),
        hi / 16 == 7,
    ensures
        s.step_defined(),
        !s.at_halt(),
        ({
            let x = (hi % 16) as int;
            let y = (lo / 16) as int;
            s.next() == MachineState {
                pc: s.pc + 2,
                registers: s.registers.update(x, ((s.registers[x] + lo) % 256) as u8).update(15, if s.registers[x] + lo > 255 { 1u8 } else { 0u8 }),
                ..s
            }
        }),
{
    lemma_word_fields(hi, lo);
}

/// `8xy0` copies `Vy` into `Vx`.
pub proof fn law_store_y_in_x(s: MachineState, hi: u8, lo: u8)
    requires
        fetches(s, hi, lo),
        hi / 16 == 8,
        lo % 16 == 0,
    ensures
        s.step_defined(),
        !s.at_halt(),
        ({
            let x = (hi % 16) as int;
            let y = (lo / 16) as int;
            s.next() == MachineState {
                pc: s.pc + 2,
                registers: s.registers.update(x, s.registers[y]),
                ..s
            }
        }),
{
    lemma_word_fields(hi, lo);
}

/// `8xy1` leaves the bitwise OR of `Vx` and `Vy` in `Vx`.
pub proof fn law_or(s: MachineState, hi: u8, lo: u8)
    requires
        fetches(s, hi, lo),
        hi / 16 == 8,
        lo % 16 == 1,
    ensures
        s.step_defined(),
        !s.at_halt(),
        ({
            let x = (hi % 16) as int;
            let y = (lo / 16) as int;
            s.next() == MachineState {
                pc: s.pc + 2,
                registers: s.registers.update(x, s.registers[x] | s.registers[y]),
                ..s
            }
        }),
{
    lemma_word_fields(hi, lo);
}

/// `8xy3` leaves the bitwise XOR of `Vx` and `Vy` in `Vx`.
pub proof fn law_xor(s: MachineState, hi: u8, lo: u8)
    requires
        fetches(s, hi, lo),
        hi / 16 == 8,
        lo % 16 == 3,
    ensures
        s.step_defined(),
        !s.at_halt(),
        ({
            let x = (hi % 16) as int;
            let y = (lo / 16) as int;
            s.next() == MachineState {
                pc: s.pc + 2,
                registers: s.registers.update(x, s.registers[x] ^ s.registers[y]),
                ..s
            }
        }),
{
    lemma_word_fields(hi, lo);
}

/// `8xy4` sets `Vx` to `Vx + Vy` modulo 256, then `VF` to the carry.
pub proof fn law_add_xy(s: MachineState, hi: u8, lo: u8)
    requires
        fetches(s, hi, lo),
        hi / 16 == 8,
        lo % 16 == 4,
    ensures
        s.step_defined(),
        !s.at_halt(),
        ({
            let x = (hi % 16) as int;
            let y = (lo / 16) as int;
            s.next() == MachineState {
                pc: s.pc + 2,
                registers: s.registers.update(x, ((s.registers[x] + s.registers[y]) % 256) as u8).update(15, if s.registers[x] + s.registers[y] > 255 { 1u8 } else { 0u8 }),
                ..s
            }
        }),
{
    lemma_word_fields(hi, lo);
}

/// `8xy5` sets `Vx` to `Vx - Vy` modulo 256, then `VF` to 1 when no borrow occurred (`Vx >= Vy`) and 0 otherwise.
pub proof fn law_sub_xy(s: MachineState, hi: u8, lo: u8)
    requires
        fetches(s, hi, lo),
        hi / 16 == 8,
        lo % 16 == 5,
    ensures
        s.step_defined(),
        !s.at_halt(),
        ({
            let x = (hi % 16) as int;
            let y = (lo / 16) as int;
            s.next() == MachineState {
                pc: s.pc + 2,
                registers: s.registers.update(x, ((s.registers[x] - s.registers[y] + 256) % 256) as u8).update(15, if s.registers[x] >= s.registers[y] { 1u8 } else { 0u8 }),
                ..s
            }
        }),
{
    lemma_word_fields(hi, lo);
}

/// `3xkk` skips the next instruction exactly when `Vx == kk`.
pub proof fn law_skip_equal(s: MachineState, hi: u8, lo: u8)
    requires
        fetches(s, hi, lo),
        hi / 16 == 3,
    ensures
        s.step_defined(),
        !s.at_halt(),
        ({
            let x = (hi % 16) as int;
            let y = (lo / 16) as int;
            s.next() == MachineState {
                pc: if s.registers[x] == lo {
                    s.pc + 4
                } else {
                    s.pc + 2
                },
                ..s
            }
        }),
{
    lemma_word_fields(hi, lo);
}

/// `4xkk` skips the next instruction exactly when `Vx != kk`.
pub proof fn law_skip_not_equal(s: MachineState, hi: u8, lo: u8)
    requires
        fetches(s, hi, lo),
        hi / 16 == 4,
    ensures
        s.step_defined(),
        !s.at_halt(),
        ({
            let x = (hi % 16) as int;
            let y = (lo / 16) as int;
            s.next() == MachineState {
                pc: if s.registers[x] != lo {
                    s.pc + 4
                } else {
                    s.pc + 2
                },
                ..s
            }
        }),
{
    lemma_word_fields(hi, lo);
}

/// `9xy_` skips the next instruction exactly when `Vx != Vy`.
pub proof fn law_skip_reg_not_equal(s: MachineState, hi: u8, lo: u8)
    requires
        fetches(s, hi, lo),
        hi / 16 == 9,
    ensures
        s.step_defined(),
        !s.at_halt(),
        ({
            let x = (hi % 16) as int;
            let y = (lo / 16) as int;
            s.next() == MachineState {
                pc: if s.registers[x] != s.registers[y] {
                    s.pc + 4
                } else {
                    s.pc + 2
                },
                ..s
            }
        }),
{
    lemma_word_fields(hi, lo);
}

/// `0000` halts: the step reports the halt and only moves the program
/// counter past the opcode.
pub proof fn law_halt(s: MachineState)
    requires
        fetches(s, 0, 0),
    ensures
        s.step_defined(),
        s.at_halt(),
        s.next() == (MachineState { pc: s.pc + 2, ..s }),
{
    lemma_word_fields(0, 0);
}

/// `00EE` can be taken when the stack holds an entry; it pops the top entry
/// into the program counter.
pub proof fn law_return(s: MachineState)
    requires
        fetches(s, 0, 0xEE),
        0 < s.stack_pointer <= 16,
    ensures
        s.step_defined(),
        !s.at_halt(),
        s.next() == (MachineState {
            pc: s.stack[s.stack_pointer - 1] as int,
            stack_pointer: s.stack_pointer - 1,
            ..s
        }),
{
    lemma_word_fields(0, 0xEE);
}

/// `1nnn` continues at `nnn`.
pub proof fn law_jump(s: MachineState, hi: u8, lo: u8)
    requires
        fetches(s, hi, lo),
        hi / 16 == 1,
    ensures
        s.step_defined(),
        !s.at_halt(),
        s.next() == (MachineState { pc: (hi % 16) as int * 256 + lo, ..s }),
{
    lemma_word_fields(hi, lo);
}

/// `Annn` sets `I` to `nnn`.
pub proof fn law_set_register_i(s: MachineState, hi: u8, lo: u8)
    requires
        fetches(s, hi, lo),
        hi / 16 == 0xA,
    ensures
        s.step_defined(),
        !s.at_halt(),
        s.next() == (MachineState {
            pc: s.pc + 2,
            register_i: ((hi % 16) as int * 256 + lo) as u16,
            ..s
        }),
{
    lemma_word_fields(hi, lo);
}

/// Which steps can be taken: the opcode bytes lie in memory, the opcode is
/// one of `0000`, `00EE`, `1nnn` to `7xkk`, `8xy0` to `8xy5`, `9xy_`,
/// `Annn`, `Fx55`, `Fx65`; a return needs a stack entry, a call needs room
/// on the stack, and `Fx55`/`Fx65` need `I + x` in memory.
pub proof fn law_step_defined(s: MachineState, hi: u8, lo: u8)
    requires
        fetches(s, hi, lo),
    ensures
        s.step_defined() <==> {
            let c = hi / 16;
            let x = hi % 16;
            ||| hi == 0 && lo == 0
            ||| hi == 0 && lo == 0xEE && 0 < s.stack_pointer <= 16
            ||| c == 1
            ||| c == 2 && s.stack_pointer < 16
            ||| 3 <= c <= 7
            ||| c == 8 && lo % 16 <= 5
            ||| c == 9 || c == 0xA
            ||| c == 0xF && (lo == 0x55 || lo == 0x65) && s.register_i + x < 4096
        },
        s.at_halt() <==> (hi == 0 && lo == 0),
{
    lemma_word_fields(hi, lo);
}

/// `8xy2` leaves the bitwise AND of `Vx` and `Vy` in `Vx` and changes
/// nothing else but the program counter.
pub proof fn law_and(s: MachineState, hi: u8, lo: u8)
    requires
        fetches(s, hi, lo),
        hi / 16 == 8,
        lo % 16 == 2,
    ensures
        s.step_defined(),
        !s.at_halt(),
        ({
            let x = (hi % 16) as int;
            let y = (lo / 16) as int;
            s.next() == MachineState {
                pc: s.pc + 2,
                registers: s.registers.update(x, s.registers[x] & s.registers[y]),
                ..s
            }
        }),
{
    lemma_word_fields(hi, lo);
}

/// `5xy_` skips the next instruction exactly when `Vx == Vy`.
pub proof fn law_skip_reg_equal(s: MachineState, hi: u8, lo: u8)
    requires
        fetches(s, hi, lo),
        hi / 16 == 5,
    ensures
        s.step_defined(),
        !s.at_halt(),
        ({
            let x = (hi % 16) as int;
            let y = (lo / 16) as int;
            s.next() == MachineState {
                pc: if s.registers[x] == s.registers[y] {
                    s.pc + 4
                } else {
                    s.pc + 2
                },
                ..s
            }
        }),
{
    lemma_word_fields(hi, lo);
}

/// `2nnn` can be taken whenever the stack has room; it pushes the address
/// of the next instruction and continues at `nnn`.
pub proof fn law_call(s: MachineState, hi: u8, lo: u8)
    requires
        fetches(s, hi, lo),
        hi / 16 == 2,
        s.stack_pointer < 16,
    ensures
        s.step_defined(),
        !s.at_halt(),
        s.next() == (MachineState {
            pc: (hi % 16) as int * 256 + lo,
            stack: s.stack.update(s.stack_pointer, (s.pc + 2) as u16),
            stack_pointer: s.stack_pointer + 1,
            ..s
        }),
{
    lemma_word_fields(hi, lo);
}

/// `Fx65` can be taken when `I + x` lies in memory; it loads `Vk` from the
/// memory at `I + k` for every `k <= x` and leaves memory unchanged.
pub proof fn law_load_regs(s: MachineState, hi: u8, lo: u8)
    requires
        fetches(s, hi, lo),
        hi / 16 == 0xF,
        lo == 0x65,
        s.register_i + hi % 16 < 4096,
    ensures
        s.step_defined(),
        !s.at_halt(),
        s.next().pc == s.pc + 2,
        s.next().memory == s.memory,
        s.next().register_i == s.register_i,
        s.next().stack == s.stack,
        s.next().stack_pointer == s.stack_pointer,
        s.next().registers.len() == 16,
        forall|k: int|
            0 <= k <= hi % 16 ==> #[trigger] s.next().registers[k] == s.memory[s.register_i + k],
        forall|k: int| hi % 16 < k < 16 ==> #[trigger] s.next().registers[k] == s.registers[k],
{
    lemma_word_fields(hi, lo);
}

/// `Fx55` can be taken when `I + x` lies in memory; it stores `Vk` at the
/// memory at `I + k` for every `k <= x` and leaves the registers unchanged.
pub proof fn law_store_regs(s: MachineState, hi: u8, lo: u8)
    requires
        fetches(s, hi, lo),
        hi / 16 == 0xF,
        lo == 0x55,
        s.register_i + hi % 16 < 4096,
    ensures
        s.step_defined(),
        !s.at_halt(),
        s.next().pc == s.pc + 2,
        s.next().registers == s.registers,
        s.next().register_i == s.register_i,
        s.next().stack == s.stack,
        s.next().stack_pointer == s.stack_pointer,
        s.next().memory.len() == 4096,
        forall|k: int|
            0 <= k <= hi % 16 ==> #[trigger] s.next().memory[s.register_i + k] == s.registers[k],
        forall|a: int|
            0 <= a < 4096 && !(s.register_i <= a <= s.register_i + hi % 16) ==> #[trigger] s.next().memory[a]
                == s.memory[a],
{
    lemma_word_fields(hi, lo);
}

} // verus!
