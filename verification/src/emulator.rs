//! A small CHIP-8 style CPU: sixteen 8-bit registers, a 12-bit index
//! register, 4 KiB of memory and a sixteen-entry call stack.
//!
//! Every operation is specified against [`MachineState`], the mathematical
//! view of a [`CPU`], and `step` is specified against the decoder [`decode`].
use vstd::prelude::*;

verus! {

/// The machine. All fields are public so that programs can be loaded and
/// results inspected directly.
pub struct CPU {
    pub position_in_memory: usize,
    pub registers: [u8; 16],
    pub register_i: u16,
    pub memory: [u8; 4096],
    pub stack: [u16; 16],
    pub stack_pointer: usize,
}

/// The mathematical view of a [`CPU`].
#[verifier::ext_equal]
pub struct MachineState {
    pub pc: int,
    pub registers: Seq<u8>,
    pub register_i: u16,
    pub memory: Seq<u8>,
    pub stack: Seq<u16>,
    pub stack_pointer: int,
}

impl View for CPU {
    type V = MachineState;

    open spec fn view(&self) -> MachineState {
        MachineState {
            pc: self.position_in_memory as int,
            registers: self.registers@,
            register_i: self.register_i,
            memory: self.memory@,
            stack: self.stack@,
            stack_pointer: self.stack_pointer as int,
        }
    }
}

/// The operations the CPU understands, as decoded from a 16-bit opcode.
pub enum Op {
    /// `0000`: stop execution.
    Halt,
    /// `00EE`: return from a subroutine.
    Return,
    /// `1nnn`: jump to `nnn`.
    Jump(u16),
    /// `2nnn`: call the subroutine at `nnn`.
    Call(u16),
    /// `3xkk`: skip the next instruction if `Vx == kk`.
    SkipEqual(u8, u8),
    /// `4xkk`: skip the next instruction if `Vx != kk`.
    SkipNotEqual(u8, u8),
    /// `5xy_`: skip the next instruction if `Vx == Vy`.
    SkipRegEqual(u8, u8),
    /// `6xkk`: `Vx = kk`.
    LoadImmediate(u8, u8),
    /// `7xkk`: `Vx = Vx + kk`, carry in `VF`.
    AddImmediate(u8, u8),
    /// `8xy0`: `Vx = Vy`.
    StoreYInX(u8, u8),
    /// `8xy1`: `Vx = Vx | Vy`.
    Or(u8, u8),
    /// `8xy2`: `Vx = Vx & Vy`.
    And(u8, u8),
    /// `8xy3`: `Vx = Vx ^ Vy`.
    Xor(u8, u8),
    /// `8xy4`: `Vx = Vx + Vy`, carry in `VF`.
    AddXY(u8, u8),
    /// `8xy5`: `Vx = Vx - Vy` modulo 256, `VF` = 1 when `Vx >= Vy` (no borrow).
    SubXY(u8, u8),
    /// `9xy_`: skip the next instruction if `Vx != Vy`.
    SkipRegNotEqual(u8, u8),
    /// `Annn`: `I = nnn`.
    SetRegisterI(u16),
    /// `Fx55`: store `V0..=Vx` at `I..=I+x`.
    StoreRegs(u8),
    /// `Fx65`: load `V0..=Vx` from `I..=I+x`.
    LoadRegs(u8),
    /// Any other opcode.
    Unsupported,
}

/// The opcode that the decoder assigns to a 16-bit word.
pub open spec fn decode(opcode: u16) -> Op {
    let c = opcode / 4096;
    let x = ((opcode / 256) % 16) as u8;
    let y = ((opcode / 16) % 16) as u8;
    let d = opcode % 16;
    let nnn = opcode % 4096;
    let kk = (opcode % 256) as u8;
    if opcode == 0 {
        Op::Halt
    } else if opcode == 0x00EE {
        Op::Return
    } else if c == 1 {
        Op::Jump(nnn)
    } else if c == 2 {
        Op::Call(nnn)
    } else if c == 3 {
        Op::SkipEqual(x, kk)
    } else if c == 4 {
        Op::SkipNotEqual(x, kk)
    } else if c == 5 {
        Op::SkipRegEqual(x, y)
    } else if c == 6 {
        Op::LoadImmediate(x, kk)
    } else if c == 7 {
        Op::AddImmediate(x, kk)
    } else if c == 8 && d == 0 {
        Op::StoreYInX(x, y)
    } else if c == 8 && d == 1 {
        Op::Or(x, y)
    } else if c == 8 && d == 2 {
        Op::And(x, y)
    } else if c == 8 && d == 3 {
        Op::Xor(x, y)
    } else if c == 8 && d == 4 {
        Op::AddXY(x, y)
    } else if c == 8 && d == 5 {
        Op::SubXY(x, y)
    } else if c == 9 {
        Op::SkipRegNotEqual(x, y)
    } else if c == 0xA {
        Op::SetRegisterI(nnn)
    } else if c == 0xF && y == 5 && d == 5 {
        Op::StoreRegs(x)
    } else if c == 0xF && y == 6 && d == 5 {
        Op::LoadRegs(x)
    } else {
        Op::Unsupported
    }
}

/// How a bounded run ended.
pub enum RunOutcome {
    /// The halt opcode was executed.
    Halted,
    /// The next instruction could not be executed without fault.
    Faulted,
    /// The step limit was reached first.
    StepLimit,
}

/// The big-endian 16-bit word made of two bytes.
pub open spec fn word(high: u8, low: u8) -> u16 {
    (high as int * 256 + low as int) as u16
}

/// A word is its high byte times 256 plus its low byte, and the fields
/// that the decoder reads are the nibbles and the low byte of that sum.
pub proof fn lemma_word_fields(h: u8, l: u8)
    ensures
        word(h, l) == h as int * 256 + l as int,
        word(h, l) / 4096 == h / 16,
        (word(h, l) / 256) % 16 == h % 16,
        (word(h, l) / 16) % 16 == l / 16,
        word(h, l) % 16 == l % 16,
        word(h, l) % 4096 == (h % 16) as int * 256 + l,
        word(h, l) % 256 == l,
{
    let w = word(h, l);
    assert(w == h as int * 256 + l as int);
    assert(w / 4096 == h / 16 && (w / 256) % 16 == h % 16 && (w / 16) % 16 == l / 16 && w % 16
        == l % 16 && w % 4096 == (h % 16) as int * 256 + l && w % 256 == l) by (nonlinear_arith)
        requires
            w == h as int * 256 + l as int,
            h < 256,
            l < 256,
    ;
}

impl MachineState {
    /// The shape of a machine: sixteen registers, 4 KiB of memory, sixteen
    /// stack entries and a non-negative program counter and stack pointer.
    pub open spec fn wf(self) -> bool {
        &&& self.registers.len() == 16
        &&& self.memory.len() == 4096
        &&& self.stack.len() == 16
        &&& self.pc >= 0
        &&& self.stack_pointer >= 0
    }

    pub open spec fn with_register(self, x: int, v: u8) -> MachineState {
        MachineState { registers: self.registers.update(x, v), ..self }
    }

    pub open spec fn with_pc(self, pc: int) -> MachineState {
        MachineState { pc, ..self }
    }

    /// The opcode at the program counter.
    pub open spec fn current_opcode(self) -> u16 {
        word(self.memory[self.pc], self.memory[self.pc + 1])
    }

    pub open spec fn op_or(self, x: int, y: int) -> MachineState {
        self.with_register(x, self.registers[x] | self.registers[y])
    }

    pub open spec fn op_and(self, x: int, y: int) -> MachineState {
        self.with_register(x, self.registers[x] & self.registers[y])
    }

    pub open spec fn op_xor(self, x: int, y: int) -> MachineState {
        self.with_register(x, self.registers[x] ^ self.registers[y])
    }

    /// `Vx` receives the sum modulo 256, then `VF` receives the carry.
    pub open spec fn op_add_xy(self, x: int, y: int) -> MachineState {
        let sum = self.registers[x] + self.registers[y];
        self.with_register(x, (sum % 256) as u8).with_register(15, if sum > 255 { 1 } else { 0 })
    }

    /// `Vx` receives the difference modulo 256, then `VF` becomes 1 when
    /// no borrow occurred (`Vx >= Vy`) and 0 otherwise.
    pub open spec fn op_subs_xy(self, x: int, y: int) -> MachineState {
        let difference = self.registers[x] - self.registers[y];
        self.with_register(x, (difference % 256) as u8).with_register(
            15,
            if self.registers[x] >= self.registers[y] {
                1
            } else {
                0
            },
        )
    }

    /// `Vx` receives the sum modulo 256, then `VF` receives the carry.
    pub open spec fn op_add_x_immediate(self, x: int, kk: u8) -> MachineState {
        let sum = self.registers[x] + kk;
        self.with_register(x, (sum % 256) as u8).with_register(15, if sum > 255 { 1 } else { 0 })
    }

    pub open spec fn op_store_y_in_x(self, x: int, y: int) -> MachineState {
        self.with_register(x, self.registers[y])
    }

    pub open spec fn op_set_register_i(self, nnn: u16) -> MachineState {
        MachineState { register_i: nnn, ..self }
    }

    /// Memory at `I + k` receives `Vk` for every `k <= x`.
    pub open spec fn op_store_regs(self, x: int) -> MachineState {
        MachineState {
            memory: Seq::new(
                self.memory.len(),
                |a: int|
                    if self.register_i <= a <= self.register_i + x {
                        self.registers[a - self.register_i]
                    } else {
                        self.memory[a]
                    },
            ),
            ..self
        }
    }

    /// `Vk` receives the memory at `I + k` for every `k <= x`.
    pub open spec fn op_load_regs(self, x: int) -> MachineState {
        MachineState {
            registers: Seq::new(
                self.registers.len(),
                |k: int| if k <= x { self.memory[self.register_i + k] } else { self.registers[k] },
            ),
            ..self
        }
    }

    pub open spec fn op_jmp(self, addr: u16) -> MachineState {
        self.with_pc(addr as int)
    }

    /// The program counter, truncated to 16 bits, is pushed and control
    /// moves to `addr`.
    pub open spec fn op_call(self, addr: u16) -> MachineState {
        MachineState {
            stack: self.stack.update(self.stack_pointer, self.pc as u16),
            stack_pointer: self.stack_pointer + 1,
            pc: addr as int,
            ..self
        }
    }

    /// The top of the stack is popped into the program counter.
    pub open spec fn op_ret(self) -> MachineState {
        MachineState {
            stack_pointer: self.stack_pointer - 1,
            pc: self.stack[self.stack_pointer - 1] as int,
            ..self
        }
    }

    pub open spec fn skip_if(self, cond: bool) -> MachineState {
        if cond {
            self.with_pc(self.pc + 2)
        } else {
            self
        }
    }

    pub open spec fn op_skip_equal(self, x: int, kk: u8) -> MachineState {
        self.skip_if(self.registers[x] == kk)
    }

    pub open spec fn op_skip_not_equal(self, x: int, kk: u8) -> MachineState {
        self.skip_if(self.registers[x] != kk)
    }

    pub open spec fn op_skip_reg_equal(self, x: int, y: int) -> MachineState {
        self.skip_if(self.registers[x] == self.registers[y])
    }

    pub open spec fn op_skip_reg_not_equal(self, x: int, y: int) -> MachineState {
        self.skip_if(self.registers[x] != self.registers[y])
    }

    pub open spec fn op_load_immediate(self, x: int, kk: u8) -> MachineState {
        self.with_register(x, kk)
    }

    /// The effect of an operation, on a machine whose program counter has
    /// already moved past the opcode.
    pub open spec fn execute(self, op: Op) -> MachineState {
        match op {
            Op::Halt => self,
            Op::Return => self.op_ret(),
            Op::Jump(nnn) => self.op_jmp(nnn),
            Op::Call(nnn) => self.op_call(nnn),
            Op::SkipEqual(x, kk) => self.op_skip_equal(x as int, kk),
            Op::SkipNotEqual(x, kk) => self.op_skip_not_equal(x as int, kk),
            Op::SkipRegEqual(x, y) => self.op_skip_reg_equal(x as int, y as int),
            Op::LoadImmediate(x, kk) => self.op_load_immediate(x as int, kk),
            Op::AddImmediate(x, kk) => self.op_add_x_immediate(x as int, kk),
            Op::StoreYInX(x, y) => self.op_store_y_in_x(x as int, y as int),
            Op::Or(x, y) => self.op_or(x as int, y as int),
            Op::And(x, y) => self.op_and(x as int, y as int),
            Op::Xor(x, y) => self.op_xor(x as int, y as int),
            Op::AddXY(x, y) => self.op_add_xy(x as int, y as int),
            Op::SubXY(x, y) => self.op_subs_xy(x as int, y as int),
            Op::SkipRegNotEqual(x, y) => self.op_skip_reg_not_equal(x as int, y as int),
            Op::SetRegisterI(nnn) => self.op_set_register_i(nnn),
            Op::StoreRegs(x) => self.op_store_regs(x as int),
            Op::LoadRegs(x) => self.op_load_regs(x as int),
            Op::Unsupported => self,
        }
    }

    /// One step can be taken without fault: the opcode lies in memory, is
    /// supported, and its stack or memory access stays in bounds.
    pub open spec fn step_defined(self) -> bool {
        &&& self.wf()
        &&& self.pc + 1 < 4096
        &&& match decode(self.current_opcode()) {
            Op::Unsupported => false,
            Op::Return => 0 < self.stack_pointer <= 16,
            Op::Call(_) => self.stack_pointer < 16,
            Op::StoreRegs(x) => self.register_i + x < 4096,
            Op::LoadRegs(x) => self.register_i + x < 4096,
            _ => true,
        }
    }

    /// The opcode at the program counter is the halt opcode.
    pub open spec fn at_halt(self) -> bool {
        decode(self.current_opcode()) is Halt
    }

    /// The machine after one step: the program counter moves past the
    /// opcode, then the decoded operation takes effect.
    pub open spec fn next(self) -> MachineState {
        self.with_pc(self.pc + 2).execute(decode(self.current_opcode()))
    }

    /// Starting here, the machine reaches a halt opcode within `fuel` steps
    /// and every step on the way is defined.
    pub open spec fn halts_within(self, fuel: nat) -> bool
        decreases fuel,
    {
        &&& self.step_defined()
        &&& if self.at_halt() {
            true
        } else {
            fuel > 0 && self.next().halts_within((fuel - 1) as nat)
        }
    }

    /// The machine after stepping until (and including) the first halt
    /// opcode, looking at most `fuel` steps ahead.
    pub open spec fn run_result(self, fuel: nat) -> MachineState
        decreases fuel,
    {
        if self.at_halt() || fuel == 0 {
            self.next()
        } else {
            self.next().run_result((fuel - 1) as nat)
        }
    }
}

impl MachineState {
    /// The machine and the outcome after stepping at most `limit` times,
    /// stopping after the halt opcode or before a step that would fault.
    pub open spec fn bounded_run(self, limit: nat) -> (MachineState, RunOutcome)
        decreases limit,
    {
        if limit == 0 {
            (self, RunOutcome::StepLimit)
        } else if !self.step_defined() {
            (self, RunOutcome::Faulted)
        } else if self.at_halt() {
            (self.next(), RunOutcome::Halted)
        } else {
            self.next().bounded_run((limit - 1) as nat)
        }
    }
}

/// How a bounded run relates to one step: with no steps allowed it stops at
/// once; otherwise it stops before a step that cannot be taken, stops right
/// after the halt opcode, or takes one step and goes on with one step less.
pub proof fn law_bounded_run_step(s: MachineState, limit: nat)
    ensures
        limit == 0 ==> s.bounded_run(limit) == (s, RunOutcome::StepLimit),
        limit > 0 && !s.step_defined() ==> s.bounded_run(limit) == (s, RunOutcome::Faulted),
        limit > 0 && s.step_defined() && s.at_halt() ==> s.bounded_run(limit) == (
        s.next(),
        RunOutcome::Halted,
        ),
        limit > 0 && s.step_defined() && !s.at_halt() ==> s.bounded_run(limit) == s.next().bounded_run(
            (limit - 1) as nat,
        ),
{
}

/// How a halting run relates to one step: it halts within some steps
/// exactly when the step can be taken and either is the halt opcode or
/// the machine after it halts within one step less; its result is the
/// machine after the halt opcode, or the result of the rest of the run.
pub proof fn law_run_step(s: MachineState, fuel: nat)
    ensures
        s.halts_within(fuel) <==> s.step_defined() && (s.at_halt() || (fuel > 0
            && s.next().halts_within((fuel - 1) as nat))),
        s.halts_within(fuel) && s.at_halt() ==> s.run_result(fuel) == s.next(),
        s.halts_within(fuel) && !s.at_halt() ==> s.run_result(fuel) == s.next().run_result(
            (fuel - 1) as nat,
        ),
{
}

/// A bounded run that allows more steps than a halting run takes halts in
/// the same state as the unbounded run.
pub proof fn lemma_bounded_run_agrees(s: MachineState, fuel: nat, limit: nat)
    requires
        s.halts_within(fuel),
        fuel < limit,
    ensures
        s.bounded_run(limit) == (s.run_result(fuel), RunOutcome::Halted),
    decreases fuel,
{
    if !s.at_halt() {
        lemma_bounded_run_agrees(s.next(), (fuel - 1) as nat, (limit - 1) as nat);
    }
}

/// Loading registers from memory that holds what a store saved gives back
/// the saved registers, whatever else the machine holds.
pub proof fn lemma_load_restores_stored(s: MachineState, t: MachineState, x: int)
    requires
        s.wf(),
        t.wf(),
        0 <= x < 16,
        s.register_i + x < 4096,
        t.register_i == s.register_i,
        forall|k: int|
            0 <= k <= x ==> #[trigger] t.memory[s.register_i + k] == s.op_store_regs(
                x,
            ).memory[s.register_i + k],
    ensures
        forall|k: int| 0 <= k <= x ==> #[trigger] t.op_load_regs(x).registers[k] == s.registers[k],
{
    assert forall|k: int| 0 <= k <= x implies #[trigger] t.op_load_regs(x).registers[k]
        == s.registers[k] by {
        assert(t.memory[s.register_i + k] == s.op_store_regs(x).memory[s.register_i + k]);
    }
}

/// Once a run is known to halt, its outcome does not depend on how much
/// fuel the bound allows.
pub proof fn lemma_run_result_fuel(s: MachineState, f1: nat, f2: nat)
    requires
        s.halts_within(f1),
        s.halts_within(f2),
    ensures
        s.run_result(f1) == s.run_result(f2),
    decreases f1,
{
    if !s.at_halt() {
        lemma_run_result_fuel(s.next(), (f1 - 1) as nat, (f2 - 1) as nat);
    }
}

/// Returning right after a call restores the program counter and the stack
/// pointer that the call found; of the stack, only the entry that the call
/// pushed differs.
pub proof fn lemma_ret_undoes_call(s: MachineState, addr: u16)
    requires
        s.wf(),
        s.stack_pointer < 16,
        s.pc < 0x10000,
    ensures
        s.op_call(addr).op_ret() == (MachineState {
            stack: s.stack.update(s.stack_pointer, s.pc as u16),
            ..s
        }),
{
}

/// Loading the registers right after storing them changes nothing.
pub proof fn lemma_load_after_store(s: MachineState, x: int)
    requires
        s.wf(),
        0 <= x < 16,
        s.register_i + x < 4096,
    ensures
        s.op_store_regs(x).op_load_regs(x) == s.op_store_regs(x),
{
    let t = s.op_store_regs(x);
    assert(t.op_load_regs(x).registers =~= t.registers);
}

/// Storing the registers right after loading them changes nothing.
pub proof fn lemma_store_after_load(s: MachineState, x: int)
    requires
        s.wf(),
        0 <= x < 16,
        s.register_i + x < 4096,
    ensures
        s.op_load_regs(x).op_store_regs(x) == s.op_load_regs(x),
{
    let t = s.op_load_regs(x);
    assert(t.op_store_regs(x).memory =~= t.memory);
}

/// For a target register other than `VF`, the sum of two registers is the
/// new value of the target plus 256 times the carry in `VF`.
pub proof fn lemma_add_xy_carry(s: MachineState, x: int, y: int)
    requires
        s.wf(),
        0 <= x < 15,
        0 <= y < 16,
    ensures
        s.op_add_xy(x, y).registers[x] + 256 * s.op_add_xy(x, y).registers[15] == s.registers[x]
            + s.registers[y],
{
}

/// For a target register other than `VF`, the sum of a register and an
/// immediate is the new value of the register plus 256 times the carry in
/// `VF`.
pub proof fn lemma_add_x_immediate_carry(s: MachineState, x: int, kk: u8)
    requires
        s.wf(),
        0 <= x < 15,
    ensures
        s.op_add_x_immediate(x, kk).registers[x] + 256 * s.op_add_x_immediate(x, kk).registers[15]
            == s.registers[x] + kk,
{
}

/// For a target register other than `VF`, the old value of the target is
/// the new value plus the subtrahend, less 256 when a borrow occurred; `VF`
/// is 1 exactly when no borrow occurred (`Vx >= Vy`).
pub proof fn lemma_subs_xy_borrow(s: MachineState, x: int, y: int)
    requires
        s.wf(),
        0 <= x < 15,
        0 <= y < 16,
    ensures
        s.op_subs_xy(x, y).registers[x] + s.registers[y] == s.registers[x] + if s.registers[x]
            >= s.registers[y] {
            0int
        } else {
            256int
        },
        s.op_subs_xy(x, y).registers[15] == if s.registers[x] >= s.registers[y] {
            1u8
        } else {
            0u8
        },
{
}

/// The halt opcode only moves the program counter past itself.
pub proof fn lemma_halt_only_advances(s: MachineState)
    requires
        s.at_halt(),
    ensures
        s.next() == s.with_pc(s.pc + 2),
{
}

/// The operation that the CPU assigns to a 16-bit opcode.
pub fn decode_opcode(opcode: u16) -> (op: Op)
    ensures
        op == decode(opcode),
{
    let c = opcode / 4096;
    let x = ((opcode / 256) % 16) as u8;
    let y = ((opcode / 16) % 16) as u8;
    let d = opcode % 16;
    let nnn = opcode % 4096;
    let kk = (opcode % 256) as u8;
    if opcode == 0 {
        Op::Halt
    } else if opcode == 0x00EE {
        Op::Return
    } else if c == 1 {
        Op::Jump(nnn)
    } else if c == 2 {
        Op::Call(nnn)
    } else if c == 3 {
        Op::SkipEqual(x, kk)
    } else if c == 4 {
        Op::SkipNotEqual(x, kk)
    } else if c == 5 {
        Op::SkipRegEqual(x, y)
    } else if c == 6 {
        Op::LoadImmediate(x, kk)
    } else if c == 7 {
        Op::AddImmediate(x, kk)
    } else if c == 8 && d == 0 {
        Op::StoreYInX(x, y)
    } else if c == 8 && d == 1 {
        Op::Or(x, y)
    } else if c == 8 && d == 2 {
        Op::And(x, y)
    } else if c == 8 && d == 3 {
        Op::Xor(x, y)
    } else if c == 8 && d == 4 {
        Op::AddXY(x, y)
    } else if c == 8 && d == 5 {
        Op::SubXY(x, y)
    } else if c == 9 {
        Op::SkipRegNotEqual(x, y)
    } else if c == 0xA {
        Op::SetRegisterI(nnn)
    } else if c == 0xF && y == 5 && d == 5 {
        Op::StoreRegs(x)
    } else if c == 0xF && y == 6 && d == 5 {
        Op::LoadRegs(x)
    } else {
        Op::Unsupported
    }
}

impl CPU {
    /// Whether [`CPU::step`] can execute the instruction at the program
    /// counter without fault.
    pub fn can_step(&self) -> (b: bool)
        ensures
            b == self@.step_defined(),
    {
        if self.position_in_memory >= 4095 {
            return false;
        }
        let opcode = self.read_opcode();
        match decode_opcode(opcode) {
            Op::Unsupported => false,
            Op::Return => 0 < self.stack_pointer && self.stack_pointer <= 16,
            Op::Call(_) => self.stack_pointer < 16,
            Op::StoreRegs(x) => (self.register_i as usize) + (x as usize) < 4096,
            Op::LoadRegs(x) => (self.register_i as usize) + (x as usize) < 4096,
            _ => true,
        }
    }

    /// The 16-bit word at the program counter, high byte first.
    pub fn read_opcode(&self) -> (opcode: u16)
        requires
            self.position_in_memory + 1 < 4096,
        ensures
            opcode == self@.current_opcode(),
    {
        let p = self.position_in_memory;
        let op_byte1 = self.memory[p] as u16;
        let op_byte2 = self.memory[p + 1] as u16;
        assert((op_byte1 << 8u16) | op_byte2 == op_byte1 * 256 + op_byte2) by (bit_vector)
            requires
                op_byte1 < 256,
                op_byte2 < 256,
        ;
        (op_byte1 << 8) | op_byte2
    }

    /// Executes one instruction. Returns 0 when the instruction was the
    /// halt opcode and 1 otherwise.
    pub fn step(&mut self) -> (status: i32)
        requires
            old(self)@.step_defined(),
        ensures
            final(self)@ == old(self)@.next(),
            status == if old(self)@.at_halt() { 0i32 } else { 1i32 },
    {
        let opcode = self.read_opcode();
        self.position_in_memory += 2;
        let c = ((opcode & 0xF000) >> 12) as u8;
        let x = ((opcode & 0x0F00) >> 8) as u8;
        let y = ((opcode & 0x00F0) >> 4) as u8;
        let d = (opcode & 0x000F) as u8;
        let nnn = opcode & 0x0FFF;
        let kk = (opcode & 0x00FF) as u8;
        assert(c as u16 == opcode / 4096 && x as u16 == (opcode / 256) % 16 && y as u16 == (
        opcode / 16) % 16 && d as u16 == opcode % 16 && nnn == opcode % 4096 && kk as u16
            == opcode % 256 && c < 16 && x < 16 && y < 16 && d < 16) by (bit_vector)
            requires
                c == ((opcode & 0xF000u16) >> 12u16) as u8,
                x == ((opcode & 0x0F00u16) >> 8u16) as u8,
                y == ((opcode & 0x00F0u16) >> 4u16) as u8,
                d == (opcode & 0x000Fu16) as u8,
                nnn == opcode & 0x0FFFu16,
                kk == (opcode & 0x00FFu16) as u8,
        ;
        match (c, x, y, d) {
            (0, 0, 0, 0) => {
                return 0;
            },
            (0, 0, 0xE, 0xE) => self.ret(),
            (0x1, _, _, _) => self.jmp(nnn),
            (0x2, _, _, _) => self.call(nnn),
            (0x3, _, _, _) => self.skip_equal(x, kk),
            (0x4, _, _, _) => self.skip_not_equal(x, kk),
            (0x5, _, _, _) => self.skip_reg_equal(x, y),
            (0x6, _, _, _) => self.load_immediate(x, kk),
            (0x7, _, _, _) => self.add_x_immediate(x, kk),
            (0x8, _, _, 0x0) => self.store_y_in_x(x, y),
            (0x8, _, _, 0x1) => self.or(x, y),
            (0x8, _, _, 0x2) => self.and(x, y),
            (0x8, _, _, 0x3) => self.xor(x, y),
            (0x8, _, _, 0x4) => self.add_xy(x, y),
            (0x8, _, _, 0x5) => self.subs_xy(x, y),
            (0x9, _, _, _) => self.skip_reg_not_equal(x, y),
            (0xA, _, _, _) => self.set_register_i(nnn),
            (0xF, _, 0x5, 0x5) => self.store_regs(x),
            (0xF, _, 0x6, 0x5) => self.load_regs(x),
            _ => {
                // decode(opcode) is Unsupported here, which step_defined excludes
                assert(false);
            },
        }
        1
    }

    /// Steps until the halt opcode has been executed. The machine must be
    /// known to get there without fault.
    pub fn run(&mut self)
        requires
            exists|fuel: nat| old(self)@.halts_within(fuel),
        ensures
            forall|fuel: nat| old(self)@.halts_within(fuel) ==> final(self)@ == old(self)@.run_result(fuel),
    {
        let ghost start = self@;
        let ghost mut fuel: nat = choose|fuel: nat| self@.halts_within(fuel);
        assert forall|f: nat| start.halts_within(f) implies start.run_result(f) == start.run_result(
            fuel,
        ) by {
            lemma_run_result_fuel(start, f, fuel);
        }
        loop
            invariant_except_break
                self@.halts_within(fuel),
                forall|f: nat| start.halts_within(f) ==> start.run_result(f) == self@.run_result(fuel),
            ensures
                forall|f: nat| start.halts_within(f) ==> start.run_result(f) == self@,
            decreases fuel,
        {
            if self.step() == 0 {
                break;
            }
            proof {
                fuel = (fuel - 1) as nat;
            }
        }
    }

    /// Steps at most `limit` times: stops after executing the halt opcode,
    /// before an instruction that cannot be executed without fault, or when
    /// the limit is reached, and reports which.
    pub fn run_for(&mut self, limit: usize) -> (outcome: RunOutcome)
        ensures
            final(self)@ == old(self)@.bounded_run(limit as nat).0,
            outcome == old(self)@.bounded_run(limit as nat).1,
    {
        let ghost start = self@;
        let mut remaining = limit;
        while remaining > 0
            invariant
                start == old(self)@,
                start.bounded_run(limit as nat) == self@.bounded_run(remaining as nat),
            decreases remaining,
        {
            if !self.can_step() {
                assert(self@.bounded_run(remaining as nat) == (self@, RunOutcome::Faulted));
                return RunOutcome::Faulted;
            }
            let ghost before = self@;
            if self.step() == 0 {
                assert(before.bounded_run(remaining as nat) == (self@, RunOutcome::Halted));
                return RunOutcome::Halted;
            }
            remaining -= 1;
        }
        RunOutcome::StepLimit
    }

    /// `Vx = Vx | Vy`.
    pub fn or(&mut self, x: u8, y: u8)
        requires
            x < 16,
            y < 16,
        ensures
            final(self)@ == old(self)@.op_or(x as int, y as int),
    {
        let arg1 = self.registers[x as usize];
        let arg2 = self.registers[y as usize];
        self.registers[x as usize] = arg1 | arg2;
    }

    /// `Vx = Vx & Vy`.
    pub fn and(&mut self, x: u8, y: u8)
        requires
            x < 16,
            y < 16,
        ensures
            final(self)@ == old(self)@.op_and(x as int, y as int),
    {
        let arg1 = self.registers[x as usize];
        let arg2 = self.registers[y as usize];
        self.registers[x as usize] = arg1 & arg2;
    }

    /// `Vx = Vx ^ Vy`.
    pub fn xor(&mut self, x: u8, y: u8)
        requires
            x < 16,
            y < 16,
        ensures
            final(self)@ == old(self)@.op_xor(x as int, y as int),
    {
        let arg1 = self.registers[x as usize];
        let arg2 = self.registers[y as usize];
        self.registers[x as usize] = arg1 ^ arg2;
    }

    /// `Vx = Vx + Vy` modulo 256, then `VF` = carry.
    pub fn add_xy(&mut self, x: u8, y: u8)
        requires
            x < 16,
            y < 16,
        ensures
            final(self)@ == old(self)@.op_add_xy(x as int, y as int),
    {
        let arg1 = self.registers[x as usize];
        let arg2 = self.registers[y as usize];
        let sum = arg1 as u16 + arg2 as u16;
        let val = (sum % 256) as u8;
        let overflow = sum > 255;
        self.registers[x as usize] = val;
        if overflow {
            self.registers[0xF] = 1;
        } else {
            self.registers[0xF] = 0;
        }
    }

    /// `Vx = Vx - Vy` modulo 256, then `VF` = 1 when `Vx >= Vy`, else 0.
    pub fn subs_xy(&mut self, x: u8, y: u8)
        requires
            x < 16,
            y < 16,
        ensures
            final(self)@ == old(self)@.op_subs_xy(x as int, y as int),
    {
        let arg1 = self.registers[x as usize];
        let arg2 = self.registers[y as usize];
        let no_borrow = arg1 >= arg2;
        self.registers[x as usize] = arg1.wrapping_sub(arg2);
        if no_borrow {
            self.registers[0xF] = 1;
        } else {
            self.registers[0xF] = 0;
        }
    }

    /// `Vx = Vx + kk` modulo 256, then `VF` = carry.
    pub fn add_x_immediate(&mut self, x: u8, kk: u8)
        requires
            x < 16,
        ensures
            final(self)@ == old(self)@.op_add_x_immediate(x as int, kk),
    {
        let arg1 = self.registers[x as usize];
        let sum = arg1 as u16 + kk as u16;
        let val = (sum % 256) as u8;
        let overflow = sum > 255;
        self.registers[x as usize] = val;
        if overflow {
            self.registers[0xF] = 1;
        } else {
            self.registers[0xF] = 0;
        }
    }

    /// `Vx = Vy`.
    pub fn store_y_in_x(&mut self, x: u8, y: u8)
        requires
            x < 16,
            y < 16,
        ensures
            final(self)@ == old(self)@.op_store_y_in_x(x as int, y as int),
    {
        self.registers[x as usize] = self.registers[y as usize];
    }

    /// `I = nnn`.
    pub fn set_register_i(&mut self, nnn: u16)
        ensures
            final(self)@ == old(self)@.op_set_register_i(nnn),
    {
        self.register_i = nnn;
    }

    /// Stores `V0..=Vx` in memory at `I..=I+x`.
    pub fn store_regs(&mut self, x: u8)
        requires
            x < 16,
            old(self).register_i + x < 4096,
        ensures
            final(self)@ == old(self)@.op_store_regs(x as int),
    {
        let ghost start = self@;
        let mut start_loc = self.register_i;
        let mut reg: u8 = 0;
        while reg < x + 1
            invariant
                x < 16,
                reg <= x + 1,
                start.register_i + x < 4096,
                start_loc == start.register_i + reg,
                self.registers@ == start.registers,
                self.register_i == start.register_i,
                self.position_in_memory == start.pc,
                self.stack@ == start.stack,
                self.stack_pointer == start.stack_pointer,
                self.memory@ == Seq::new(
                    4096,
                    |a: int|
                        if start.register_i <= a < start.register_i + reg {
                            start.registers[a - start.register_i]
                        } else {
                            start.memory[a]
                        },
                ),
            decreases x + 1 - reg,
        {
            self.memory[start_loc as usize] = self.registers[reg as usize];
            start_loc += 1;
            reg += 1;
        }
    }

    /// Loads `V0..=Vx` from memory at `I..=I+x`.
    pub fn load_regs(&mut self, x: u8)
        requires
            x < 16,
            old(self).register_i + x < 4096,
        ensures
            final(self)@ == old(self)@.op_load_regs(x as int),
    {
        let ghost start = self@;
        let mut start_loc = self.register_i;
        let mut reg: u8 = 0;
        while reg < x + 1
            invariant
                x < 16,
                reg <= x + 1,
                start.register_i + x < 4096,
                start_loc == start.register_i + reg,
                self.memory@ == start.memory,
                self.register_i == start.register_i,
                self.position_in_memory == start.pc,
                self.stack@ == start.stack,
                self.stack_pointer == start.stack_pointer,
                self.registers@ == Seq::new(
                    16,
                    |k: int|
                        if k < reg {
                            start.memory[start.register_i + k]
                        } else {
                            start.registers[k]
                        },
                ),
            decreases x + 1 - reg,
        {
            self.registers[reg as usize] = self.memory[start_loc as usize];
            start_loc += 1;
            reg += 1;
        }
    }

    /// Continues at `addr`.
    pub fn jmp(&mut self, addr: u16)
        ensures
            final(self)@ == old(self)@.op_jmp(addr),
    {
        self.position_in_memory = addr as usize;
    }

    /// Pushes the program counter (as 16 bits) and continues at `addr`.
    pub fn call(&mut self, addr: u16)
        requires
            old(self).stack_pointer < 16,
        ensures
            final(self)@ == old(self)@.op_call(addr),
    {
        let sp = self.stack_pointer;
        self.stack[sp] = self.position_in_memory as u16;
        self.stack_pointer += 1;
        self.position_in_memory = addr as usize;
    }

    /// Pops the program counter from the stack.
    pub fn ret(&mut self)
        requires
            0 < old(self).stack_pointer <= 16,
        ensures
            final(self)@ == old(self)@.op_ret(),
    {
        self.stack_pointer -= 1;
        let call_addr = self.stack[self.stack_pointer];
        self.position_in_memory = call_addr as usize;
    }

    /// Skips the next instruction if `Vx == kk`.
    pub fn skip_equal(&mut self, x: u8, kk: u8)
        requires
            x < 16,
            old(self).position_in_memory + 2 <= usize::MAX,
        ensures
            final(self)@ == old(self)@.op_skip_equal(x as int, kk),
    {
        if self.registers[x as usize] == kk {
            self.position_in_memory += 2;
        }
    }

    /// Skips the next instruction if `Vx != kk`.
    pub fn skip_not_equal(&mut self, x: u8, kk: u8)
        requires
            x < 16,
            old(self).position_in_memory + 2 <= usize::MAX,
        ensures
            final(self)@ == old(self)@.op_skip_not_equal(x as int, kk),
    {
        if self.registers[x as usize] != kk {
            self.position_in_memory += 2;
        }
    }

    /// Skips the next instruction if `Vx == Vy`.
    pub fn skip_reg_equal(&mut self, x: u8, y: u8)
        requires
            x < 16,
            y < 16,
            old(self).position_in_memory + 2 <= usize::MAX,
        ensures
            final(self)@ == old(self)@.op_skip_reg_equal(x as int, y as int),
    {
        if self.registers[x as usize] == self.registers[y as usize] {
            self.position_in_memory += 2;
        }
    }

    /// Skips the next instruction if `Vx != Vy`.
    pub fn skip_reg_not_equal(&mut self, x: u8, y: u8)
        requires
            x < 16,
            y < 16,
            old(self).position_in_memory + 2 <= usize::MAX,
        ensures
            final(self)@ == old(self)@.op_skip_reg_not_equal(x as int, y as int),
    {
        if self.registers[x as usize] != self.registers[y as usize] {
            self.position_in_memory += 2;
        }
    }

    /// `Vx = kk`.
    pub fn load_immediate(&mut self, x: u8, kk: u8)
        requires
            x < 16,
        ensures
            final(self)@ == old(self)@.op_load_immediate(x as int, kk),
    {
        self.registers[x as usize] = kk;
    }
}

} // verus!
