//! The assembler: label resolution and translation of instructions into a
//! 4 KiB memory image of two-byte opcodes.
//!
//! The memory image of a program is specified by [`image`]: every
//! instruction other than a label takes the next two-byte slot, labels take
//! none, and instructions with an unknown mnemonic leave their slot zero.
use vstd::prelude::*;
use crate::emulator::{MachineState, Op, decode, word, lemma_word_fields};
use crate::semantics::{
    fetches, law_add_xy, law_jump, law_load_immediate, law_skip_equal, law_store_y_in_x, law_sub_xy,
};

verus! {

/// An operand as written in assembly source.
#[derive(Debug)]
pub enum Operand {
    /// A register `R0`..`R15`, by number.
    Register(u8),
    /// An 8-bit immediate value.
    Immediate(u8),
    /// A 12-bit memory address.
    Address(u16),
    /// A reference to a label, by name.
    Label(String),
}

/// One line of assembly: a mnemonic (or a label definition ending in `:`),
/// its location, and up to two operands.
#[derive(Debug)]
pub struct Instruction {
    pub mnemonic: String,
    pub location: u16,
    pub operand1: Option<Operand>,
    pub operand2: Option<Operand>,
}

/// How the assembler treats a mnemonic.
pub enum InstructionKind {
    Load,
    Styx,
    Add,
    Sub,
    Compare,
    Jmp,
    Label,
    Other,
}

/// The text ends with a colon, which makes it a label definition.
pub open spec fn ends_with_colon(m: Seq<char>) -> bool {
    m.len() > 0 && m.last() == ':'
}

/// The text with every trailing colon removed.
pub open spec fn trim_colons(m: Seq<char>) -> Seq<char>
    decreases m.len(),
{
    if ends_with_colon(m) {
        trim_colons(m.drop_last())
    } else {
        m
    }
}

/// The kind of a mnemonic; the named mnemonics are tested first.
pub open spec fn kind_of(m: Seq<char>) -> InstructionKind {
    if m == "LOAD"@ {
        InstructionKind::Load
    } else if m == "STYX"@ {
        InstructionKind::Styx
    } else if m == "ADD"@ {
        InstructionKind::Add
    } else if m == "SUB"@ {
        InstructionKind::Sub
    } else if m == "CMP"@ {
        InstructionKind::Compare
    } else if m == "JMP"@ {
        InstructionKind::Jmp
    } else if ends_with_colon(m) {
        InstructionKind::Label
    } else {
        InstructionKind::Other
    }
}

pub open spec fn kind(ins: Instruction) -> InstructionKind {
    kind_of(ins.mnemonic@)
}

/// The instruction is encoded into two bytes of the image.
pub open spec fn writes_bytes(ins: Instruction) -> bool {
    !(kind(ins) is Label) && !(kind(ins) is Other)
}

/// The operands are of the shape that the mnemonic takes.
pub open spec fn operands_fit(ins: Instruction) -> bool {
    match kind(ins) {
        InstructionKind::Load | InstructionKind::Compare => ins.operand1 matches Some(
            Operand::Register(_),
        ) && ins.operand2 matches Some(Operand::Immediate(_)),
        InstructionKind::Styx | InstructionKind::Add | InstructionKind::Sub => ins.operand1 matches Some(
            Operand::Register(_),
        ) && ins.operand2 matches Some(Operand::Register(_)),
        InstructionKind::Jmp => ins.operand1 matches Some(Operand::Address(_)),
        _ => true,
    }
}

pub open spec fn register_of(o: Option<Operand>) -> u8 {
    match o {
        Some(Operand::Register(r)) => r,
        _ => 0,
    }
}

pub open spec fn immediate_of(o: Option<Operand>) -> u8 {
    match o {
        Some(Operand::Immediate(i)) => i,
        _ => 0,
    }
}

pub open spec fn address_of(o: Option<Operand>) -> u16 {
    match o {
        Some(Operand::Address(a)) => a,
        _ => 0,
    }
}

/// The two bytes of an instruction that writes bytes, high byte first.
pub open spec fn encode(ins: Instruction) -> (u8, u8) {
    let r1 = register_of(ins.operand1);
    let r2 = register_of(ins.operand2);
    let i2 = immediate_of(ins.operand2);
    let a = address_of(ins.operand1);
    match kind(ins) {
        InstructionKind::Load => (0x60u8 | r1, i2),
        InstructionKind::Styx => (0x80u8 | r1, ((r2 % 16) * 16) as u8),
        InstructionKind::Add => (0x80u8 | r1, ((r2 % 16) * 16 + 4) as u8),
        InstructionKind::Sub => (0x80u8 | r1, ((r2 % 16) * 16 + 5) as u8),
        InstructionKind::Compare => (0x30u8 | r1, i2),
        _ => ((0x10 + (a / 256) % 16) as u8, (a % 256) as u8),
    }
}

/// The number of two-byte slots that the instructions take.
pub open spec fn slot_count(s: Seq<Instruction>) -> nat
    decreases s.len(),
{
    if s.len() == 0 {
        0
    } else {
        slot_count(s.drop_last()) + if kind(s.last()) is Label {
            0nat
        } else {
            1nat
        }
    }
}

/// The slot of instruction `i`: the number of slots taken before it.
pub open spec fn slot(s: Seq<Instruction>, i: int) -> int {
    slot_count(s.take(i)) as int
}

/// The 4 KiB memory image of a program.
pub open spec fn image(s: Seq<Instruction>) -> Seq<u8>
    decreases s.len(),
{
    if s.len() == 0 {
        Seq::new(4096, |p: int| 0u8)
    } else {
        let prev = image(s.drop_last());
        let ins = s.last();
        let at = 2 * (slot_count(s.drop_last()) as int);
        if writes_bytes(ins) {
            prev.update(at, encode(ins).0).update(at + 1, encode(ins).1)
        } else {
            prev
        }
    }
}

/// Instruction `i` can be assembled: a named mnemonic has operands of its
/// shape and its slot lies in memory.
pub open spec fn instruction_assembles(s: Seq<Instruction>, i: int) -> bool {
    if kind(s[i]) is Label || kind(s[i]) is Other {
        true
    } else {
        operands_fit(s[i]) && 2 * slot(s, i) + 1 < 4096
    }
}

/// Every instruction of the program can be assembled.
pub open spec fn program_assembles(s: Seq<Instruction>) -> bool {
    &&& 2 * s.len() <= usize::MAX
    &&& forall|i: int| 0 <= i < s.len() ==> #[trigger] instruction_assembles(s, i)
}

/// The mnemonic is the jump mnemonic.
pub open spec fn is_jump(ins: Instruction) -> bool {
    ins.mnemonic@ == "JMP"@
}

/// The mnemonic defines a label.
pub open spec fn is_label(ins: Instruction) -> bool {
    ends_with_colon(ins.mnemonic@)
}

/// The location of the last definition of the label `name`.
pub open spec fn label_location(s: Seq<Instruction>, name: Seq<char>) -> Option<u16>
    decreases s.len(),
{
    if s.len() == 0 {
        None
    } else if is_label(s.last()) && trim_colons(s.last().mnemonic@) == name {
        Some(s.last().location)
    } else {
        label_location(s.drop_last(), name)
    }
}

/// The whole program after label resolution.
pub open spec fn resolved_program(s: Seq<Instruction>) -> Seq<Instruction> {
    Seq::new(s.len(), |i: int| resolved(s, i))
}

/// The location that the jump at `i` refers to.
pub open spec fn jump_target(s: Seq<Instruction>, i: int) -> Option<u16> {
    match s[i].operand1 {
        Some(Operand::Label(l)) => label_location(s, l@),
        _ => None,
    }
}

/// The operation that an instruction names, with its operands.
pub open spec fn intended_op(ins: Instruction) -> Op {
    let r1 = register_of(ins.operand1);
    let r2 = register_of(ins.operand2);
    let i2 = immediate_of(ins.operand2);
    match kind(ins) {
        InstructionKind::Load => Op::LoadImmediate(r1, i2),
        InstructionKind::Styx => Op::StoreYInX(r1, r2),
        InstructionKind::Add => Op::AddXY(r1, r2),
        InstructionKind::Sub => Op::SubXY(r1, r2),
        InstructionKind::Compare => Op::SkipEqual(r1, i2),
        InstructionKind::Jmp => Op::Jump(address_of(ins.operand1)),
        _ => Op::Unsupported,
    }
}

/// The operands lie in the ranges that the two-byte encoding holds:
/// registers below 16 and jump addresses below 4096.
pub open spec fn operands_encodable(ins: Instruction) -> bool {
    &&& register_of(ins.operand1) < 16
    &&& (kind(ins) is Styx || kind(ins) is Add || kind(ins) is Sub) ==> register_of(ins.operand2)
        < 16
    &&& kind(ins) is Jmp ==> address_of(ins.operand1) < 4096
}

/// Every jump refers to a label that the program defines.
pub open spec fn labels_resolve(s: Seq<Instruction>) -> bool {
    forall|i: int| 0 <= i < s.len() && is_jump(s[i]) ==> #[trigger] jump_target(s, i) is Some
}

/// Instruction `i` after label resolution: a jump refers to the location of
/// its label, everything else is unchanged.
pub open spec fn resolved(s: Seq<Instruction>, i: int) -> Instruction {
    if is_jump(s[i]) {
        Instruction { operand1: Some(Operand::Address(jump_target(s, i)->0)), ..s[i] }
    } else {
        s[i]
    }
}

/// The instruction defines the label `name`: its mnemonic ends in a colon,
/// and without its trailing colons it is exactly `name`.
pub open spec fn defines_label(ins: Instruction, name: Seq<char>) -> bool {
    &&& ends_in_colon(ins.mnemonic@)
    &&& trim_colons(ins.mnemonic@) == name
}

/// Removing the trailing colons keeps the longest prefix that does not end
/// in a colon; only colons follow it in the text.
pub proof fn law_trim_colons(m: Seq<char>)
    ensures
        trim_colons(m).len() <= m.len(),
        trim_colons(m) == m.take(trim_colons(m).len() as int),
        forall|j: int| trim_colons(m).len() <= j < m.len() ==> m[j] == ':',
        trim_colons(m).len() > 0 ==> trim_colons(m)[trim_colons(m).len() - 1] != ':',
    decreases m.len(),
{
    if m.len() > 0 && m[m.len() - 1] == ':' {
        law_trim_colons(m.drop_last());
        let t = trim_colons(m.drop_last());
        assert(m.drop_last().take(t.len() as int) =~= m.take(t.len() as int));
        assert forall|j: int| t.len() <= j < m.len() implies m[j] == ':' by {
            if j < m.len() - 1 {
                assert(m.drop_last()[j] == ':');
            }
        }
    } else {
        assert(m.take(m.len() as int) =~= m);
    }
}

/// A label resolves to the location of the last instruction that defines
/// exactly that name, and to nothing when no instruction defines it.
pub proof fn law_label_location(s: Seq<Instruction>, name: Seq<char>)
    ensures
        label_location(s, name) is None <==> forall|i: int|
            0 <= i < s.len() ==> !#[trigger] defines_label(s[i], name),
        label_location(s, name) matches Some(l) ==> exists|i: int|
            0 <= i < s.len() && #[trigger] defines_label(s[i], name) && s[i].location == l && forall|
                j: int,
            |
                i < j < s.len() ==> !#[trigger] defines_label(s[j], name),
    decreases s.len(),
{
    if s.len() > 0 {
        let n = s.len() - 1;
        law_label_location(s.drop_last(), name);
        assert forall|i: int| 0 <= i < n implies s.drop_last()[i] == s[i] by {}
        if defines_label(s[n], name) {
            assert(defines_label(s[n], name) && s[n].location == s.last().location);
        } else {
            if label_location(s.drop_last(), name) is Some {
                let l = label_location(s.drop_last(), name)->0;
                let i = choose|i: int|
                    0 <= i < s.drop_last().len() && #[trigger] defines_label(s.drop_last()[i], name)
                        && s.drop_last()[i].location == l && forall|j: int|
                        i < j < s.drop_last().len() ==> !#[trigger] defines_label(
                            s.drop_last()[j],
                            name,
                        );
                assert(defines_label(s[i], name));
                assert forall|j: int| i < j < s.len() implies !#[trigger] defines_label(s[j], name) by {
                    if j < n {
                        assert(!defines_label(s.drop_last()[j], name));
                    }
                }
            } else {
                assert forall|i: int| 0 <= i < s.len() implies !#[trigger] defines_label(s[i], name) by {
                    if i < n {
                        assert(!defines_label(s.drop_last()[i], name));
                    }
                }
            }
        }
    }
}

/// Label resolution changes only jumps. A jump keeps its mnemonic, location
/// and second operand, and its label operand becomes the address of the
/// last instruction that defines exactly that label.
pub proof fn law_resolve_label(s: Seq<Instruction>, i: int)
    requires
        labels_resolve(s),
        0 <= i < s.len(),
    ensures
        resolved_program(s).len() == s.len(),
        s[i].mnemonic@ != "JMP"@ ==> resolved_program(s)[i] == s[i],
        s[i].mnemonic@ == "JMP"@ ==> {
            let r = resolved_program(s)[i];
            &&& r.mnemonic == s[i].mnemonic
            &&& r.location == s[i].location
            &&& r.operand2 == s[i].operand2
            &&& match s[i].operand1 {
                Some(Operand::Label(l)) => exists|k: int|
                    0 <= k < s.len() && #[trigger] defines_label(s[k], l@) && r.operand1 == Some(
                        Operand::Address(s[k].location),
                    ) && forall|j: int| k < j < s.len() ==> !#[trigger] defines_label(s[j], l@),
                _ => false,
            }
        },
{
    if s[i].mnemonic@ == "JMP"@ {
        assert(jump_target(s, i) is Some);
        match s[i].operand1 {
            Some(Operand::Label(l)) => {
                law_label_location(s, l@);
            },
            _ => {},
        }
    }
}

/// The jump at `i` has a label operand that some instruction defines.
pub open spec fn jump_label_defined(s: Seq<Instruction>, i: int) -> bool {
    match s[i].operand1 {
        Some(Operand::Label(l)) => exists|k: int| 0 <= k < s.len() && #[trigger] defines_label(s[k], l@),
        _ => false,
    }
}

/// The programs that label resolution accepts: every jump has a label
/// operand that some instruction defines.
pub proof fn law_labels_resolve(s: Seq<Instruction>)
    ensures
        labels_resolve(s) <==> forall|i: int|
            0 <= i < s.len() && s[i].mnemonic@ == "JMP"@ ==> #[trigger] jump_label_defined(s, i),
{
    assert forall|i: int| 0 <= i < s.len() implies (jump_target(s, i) is Some
        <==> jump_label_defined(s, i)) by {
        match s[i].operand1 {
            Some(Operand::Label(l)) => {
                law_label_location(s, l@);
            },
            _ => {},
        }
    }
    if labels_resolve(s) {
        assert forall|i: int| 0 <= i < s.len() && s[i].mnemonic@ == "JMP"@ implies #[trigger] jump_label_defined(s, i) by {
            assert(jump_target(s, i) is Some);
        }
    } else {
        let i = choose|i: int| 0 <= i < s.len() && is_jump(s[i]) && !(#[trigger] jump_target(s, i) is Some);
        assert(!jump_label_defined(s, i));
    }
}

/// A program takes at most one slot per instruction.
proof fn lemma_slot_count_bound(s: Seq<Instruction>)
    ensures
        slot_count(s) <= s.len(),
    decreases s.len(),
{
    if s.len() > 0 {
        lemma_slot_count_bound(s.drop_last());
    }
}

proof fn lemma_take_step(s: Seq<Instruction>, j: int)
    requires
        0 <= j < s.len(),
    ensures
        s.take(j + 1).drop_last() == s.take(j),
        s.take(j + 1).last() == s[j],
        slot(s, j + 1) == slot(s, j) + if kind(s[j]) is Label {
            0int
        } else {
            1int
        },
{
    assert(s.take(j + 1).drop_last() =~= s.take(j));
}

/// Slots grow along the program: an instruction that takes a slot comes
/// before every later slot.
proof fn lemma_slot_monotone(s: Seq<Instruction>, i: int, j: int)
    requires
        0 <= i < j <= s.len(),
    ensures
        slot(s, i) <= slot(s, j),
        !(kind(s[i]) is Label) ==> slot(s, i) + 1 <= slot(s, j),
    decreases j - i,
{
    lemma_take_step(s, j - 1);
    if i < j - 1 {
        lemma_slot_monotone(s, i, j - 1);
    }
}

/// Dropping the last instruction leaves the slots of the others as they are.
proof fn lemma_drop_last_slots(s: Seq<Instruction>, i: int)
    requires
        0 <= i < s.len() - 1,
    ensures
        slot(s.drop_last(), i) == slot(s, i),
        s.drop_last()[i] == s[i],
{
    assert(s.drop_last().take(i) =~= s.take(i));
}

proof fn lemma_program_assembles_drop_last(s: Seq<Instruction>)
    requires
        program_assembles(s),
        s.len() > 0,
    ensures
        program_assembles(s.drop_last()),
{
    assert forall|i: int| 0 <= i < s.drop_last().len() implies #[trigger] instruction_assembles(
        s.drop_last(),
        i,
    ) by {
        lemma_drop_last_slots(s, i);
        assert(instruction_assembles(s, i));
    }
}

/// The image of an assemblable program is 4 KiB long.
pub proof fn lemma_image_len(s: Seq<Instruction>)
    requires
        program_assembles(s),
    ensures
        image(s).len() == 4096,
    decreases s.len(),
{
    if s.len() > 0 {
        lemma_program_assembles_drop_last(s);
        lemma_image_len(s.drop_last());
        let n = s.len() - 1;
        assert(s.take(n) =~= s.drop_last());
        assert(instruction_assembles(s, n));
    }
}

/// Each instruction that writes bytes finds its two bytes, high byte first,
/// at twice its slot number in the image.
pub proof fn lemma_image_slot(s: Seq<Instruction>, i: int)
    requires
        program_assembles(s),
        0 <= i < s.len(),
        writes_bytes(s[i]),
    ensures
        image(s)[2 * slot(s, i)] == encode(s[i]).0,
        image(s)[2 * slot(s, i) + 1] == encode(s[i]).1,
    decreases s.len(),
{
    let n = s.len() - 1;
    lemma_program_assembles_drop_last(s);
    lemma_image_len(s.drop_last());
    assert(s.take(n) =~= s.drop_last());
    assert(instruction_assembles(s, n));
    assert(instruction_assembles(s, i));
    if i < n {
        lemma_drop_last_slots(s, i);
        lemma_image_slot(s.drop_last(), i);
        lemma_slot_monotone(s, i, n);
    }
}

/// A byte that no instruction writes stays zero.
pub proof fn lemma_image_unused(s: Seq<Instruction>, p: int)
    requires
        program_assembles(s),
        0 <= p < 4096,
        forall|i: int| 0 <= i < s.len() && writes_bytes(s[i]) ==> slot(s, i) != p / 2,
    ensures
        image(s)[p] == 0,
    decreases s.len(),
{
    if s.len() > 0 {
        let n = s.len() - 1;
        lemma_program_assembles_drop_last(s);
        lemma_image_len(s.drop_last());
        assert(s.take(n) =~= s.drop_last());
        assert(instruction_assembles(s, n));
        assert forall|i: int|
            0 <= i < s.drop_last().len() && writes_bytes(s.drop_last()[i]) implies slot(
            s.drop_last(),
            i,
        ) != p / 2 by {
            lemma_drop_last_slots(s, i);
        }
        lemma_image_unused(s.drop_last(), p);
    }
}

/// A label definition takes no room: deleting it from the program leaves
/// the number of slots and the memory image unchanged.
pub proof fn lemma_label_takes_no_space(s: Seq<Instruction>, i: int)
    requires
        0 <= i < s.len(),
        kind(s[i]) is Label,
    ensures
        slot_count(s.remove(i)) == slot_count(s),
        image(s.remove(i)) == image(s),
    decreases s.len(),
{
    let t = s.remove(i);
    if i == s.len() - 1 {
        assert(t =~= s.drop_last());
    } else {
        assert(t.drop_last() =~= s.drop_last().remove(i));
        assert(t.last() == s.last());
        lemma_label_takes_no_space(s.drop_last(), i);
    }
}

/// The CPU decodes the two bytes of an instruction as the operation the
/// instruction names, when its operands fit the encoding.
pub proof fn lemma_encoding_decodes(ins: Instruction)
    requires
        writes_bytes(ins),
        operands_fit(ins),
        operands_encodable(ins),
    ensures
        decode(word(encode(ins).0, encode(ins).1)) == intended_op(ins),
{
    let h = encode(ins).0;
    let l = encode(ins).1;
    lemma_word_fields(h, l);
    let r1 = register_of(ins.operand1);
    let a = address_of(ins.operand1);
    assert(0x60u8 | r1 == 0x60 + r1 && 0x80u8 | r1 == 0x80 + r1 && 0x30u8 | r1 == 0x30 + r1)
        by (bit_vector)
        requires
            r1 < 16,
    ;
    if kind(ins) is Jmp {
        assert(h == 0x10 + (a / 256) % 16);
        assert(l == a % 256);
        assert((h % 16) as int * 256 + l == a) by (nonlinear_arith)
            requires
                h == 0x10 + (a / 256) % 16,
                l == a % 256,
                a < 4096,
        ;
    }
}

/// In the image of a program, the CPU decodes the slot of each instruction
/// that writes bytes as the operation that the instruction names, when its
/// operands fit the encoding.
pub proof fn lemma_assembled_instruction_decodes(s: Seq<Instruction>, i: int)
    requires
        program_assembles(s),
        0 <= i < s.len(),
        writes_bytes(s[i]),
        operands_encodable(s[i]),
    ensures
        decode(word(image(s)[2 * slot(s, i)], image(s)[2 * slot(s, i) + 1])) == intended_op(s[i]),
{
    assert(instruction_assembles(s, i));
    lemma_image_slot(s, i);
    lemma_encoding_decodes(s[i]);
}

/// After label resolution and assembly, the CPU decodes each jump as a jump
/// to the location of the label that the jump names.
pub proof fn lemma_resolved_jump_decodes(s: Seq<Instruction>, i: int)
    requires
        labels_resolve(s),
        program_assembles(resolved_program(s)),
        0 <= i < s.len(),
        is_jump(s[i]),
        jump_target(s, i)->0 < 4096,
    ensures
        ({
            let r = resolved_program(s);
            decode(word(image(r)[2 * slot(r, i)], image(r)[2 * slot(r, i) + 1])) == Op::Jump(
                jump_target(s, i)->0,
            )
        }),
{
    let r = resolved_program(s);
    reveal_strlit("JMP");
    reveal_strlit("LOAD");
    reveal_strlit("STYX");
    reveal_strlit("ADD");
    reveal_strlit("SUB");
    reveal_strlit("CMP");
    assert(r[i].mnemonic@ == "JMP"@);
    assert("JMP"@.len() != "LOAD"@.len() && "JMP"@.len() != "STYX"@.len());
    assert("JMP"@[0] != "ADD"@[0] && "JMP"@[0] != "SUB"@[0] && "JMP"@[0] != "CMP"@[0]);
    assert(kind(r[i]) is Jmp);
    lemma_assembled_instruction_decodes(r, i);
}

proof fn lemma_named_kinds()
    ensures
        kind_of("LOAD"@) is Load,
        kind_of("STYX"@) is Styx,
        kind_of("ADD"@) is Add,
        kind_of("SUB"@) is Sub,
        kind_of("CMP"@) is Compare,
        kind_of("JMP"@) is Jmp,
{
    reveal_strlit("LOAD");
    reveal_strlit("STYX");
    reveal_strlit("ADD");
    reveal_strlit("SUB");
    reveal_strlit("CMP");
    reveal_strlit("JMP");
    assert("STYX"@[0] != "LOAD"@[0]);
    assert("ADD"@.len() != "LOAD"@.len() && "ADD"@[0] != "STYX"@[0]);
    assert("SUB"@.len() != "LOAD"@.len() && "SUB"@[0] != "ADD"@[0] && "SUB"@[1] != "STYX"@[1]);
    assert("CMP"@.len() != "LOAD"@.len() && "CMP"@.len() != "STYX"@.len() && "CMP"@[0] != "ADD"@[0]
        && "CMP"@[0] != "SUB"@[0]);
    assert("JMP"@.len() != "LOAD"@.len() && "JMP"@.len() != "STYX"@.len() && "JMP"@[0] != "ADD"@[0]
        && "JMP"@[0] != "SUB"@[0] && "JMP"@[0] != "CMP"@[0]);
}

/// The text ends with a colon, read off its last character.
pub open spec fn ends_in_colon(m: Seq<char>) -> bool {
    m.len() > 0 && m[m.len() - 1] == ':'
}

/// An instruction is a label definition exactly when its mnemonic ends in a
/// colon; the named mnemonics do not.
pub proof fn law_label_kind(ins: Instruction)
    ensures
        kind(ins) is Label <==> ends_in_colon(ins.mnemonic@),
        is_label(ins) <==> ends_in_colon(ins.mnemonic@),
{
    lemma_named_kinds();
    reveal_strlit("LOAD");
    reveal_strlit("STYX");
    reveal_strlit("ADD");
    reveal_strlit("SUB");
    reveal_strlit("CMP");
    reveal_strlit("JMP");
}

/// Slots are numbered from 0, and each instruction that is not a label
/// definition takes the next one.
pub proof fn law_slot(s: Seq<Instruction>, i: int)
    requires
        0 <= i < s.len(),
    ensures
        slot(s, 0) == 0,
        slot(s, i + 1) == slot(s, i) + if ends_in_colon(s[i].mnemonic@) {
            0int
        } else {
            1int
        },
{
    lemma_take_step(s, i);
    law_label_kind(s[i]);
}

/// The operands have the shape that the named mnemonic takes: a register
/// and an immediate for `LOAD` and `CMP`, two registers for `STYX`, `ADD`
/// and `SUB`, and an address first for `JMP`.
pub open spec fn operand_shape_ok(ins: Instruction) -> bool {
    let m = ins.mnemonic@;
    &&& (m == "LOAD"@ || m == "CMP"@) ==> (ins.operand1 matches Some(Operand::Register(_))
        && ins.operand2 matches Some(Operand::Immediate(_)))
    &&& (m == "STYX"@ || m == "ADD"@ || m == "SUB"@) ==> (ins.operand1 matches Some(
        Operand::Register(_),
    ) && ins.operand2 matches Some(Operand::Register(_)))
    &&& m == "JMP"@ ==> ins.operand1 matches Some(Operand::Address(_))
}

pub open spec fn named_mnemonic(m: Seq<char>) -> bool {
    m == "LOAD"@ || m == "STYX"@ || m == "ADD"@ || m == "SUB"@ || m == "CMP"@ || m == "JMP"@
}

/// The programs that the assembler accepts: each named mnemonic has
/// operands of its shape and its slot lies in memory; labels and unknown
/// mnemonics are always accepted.
pub proof fn law_program_assembles(s: Seq<Instruction>)
    ensures
        program_assembles(s) <==> {
            &&& 2 * s.len() <= usize::MAX
            &&& forall|i: int|
                0 <= i < s.len() && named_mnemonic(s[i].mnemonic@) ==> #[trigger] operand_shape_ok(s[i])
                    && 2 * slot(s, i) + 1 < 4096
        },
{
    lemma_named_kinds();
    assert forall|i: int| 0 <= i < s.len() implies (#[trigger] instruction_assembles(s, i) <==> (
    named_mnemonic(s[i].mnemonic@) ==> operand_shape_ok(s[i]) && 2 * slot(s, i) + 1 < 4096)) by {
        law_label_kind(s[i]);
    }
    if program_assembles(s) {
        assert forall|i: int|
            0 <= i < s.len() && named_mnemonic(s[i].mnemonic@) implies #[trigger] operand_shape_ok(
            s[i],
        ) && 2 * slot(s, i) + 1 < 4096 by {
            assert(instruction_assembles(s, i));
        }
    }
    if 2 * s.len() <= usize::MAX && forall|i: int|
        0 <= i < s.len() && named_mnemonic(s[i].mnemonic@) ==> #[trigger] operand_shape_ok(s[i])
            && 2 * slot(s, i) + 1 < 4096 {
        assert forall|i: int| 0 <= i < s.len() implies #[trigger] instruction_assembles(s, i) by {
            if named_mnemonic(s[i].mnemonic@) {
                assert(operand_shape_ok(s[i]));
            }
        }
    }
}

/// The machine is about to run instruction `i` of an assembled program.
pub open spec fn at_instruction(m: MachineState, s: Seq<Instruction>, i: int) -> bool {
    &&& program_assembles(s)
    &&& 0 <= i < s.len()
    &&& m.wf()
    &&& m.memory == image(s)
    &&& m.pc == 2 * slot(s, i)
}

proof fn lemma_fetches_encoding(m: MachineState, s: Seq<Instruction>, i: int)
    requires
        at_instruction(m, s, i),
        writes_bytes(s[i]),
    ensures
        fetches(m, encode(s[i]).0, encode(s[i]).1),
{
    assert(instruction_assembles(s, i));
    lemma_image_slot(s, i);
}

/// An assembled `LOAD Rr k` sets `Vr` to `k`.
pub proof fn law_assembled_load(m: MachineState, s: Seq<Instruction>, i: int, r: u8, k: u8)
    requires
        at_instruction(m, s, i),
        s[i].mnemonic@ == "LOAD"@,
        s[i].operand1 == Some(Operand::Register(r)),
        s[i].operand2 == Some(Operand::Immediate(k)),
        r < 16,
    ensures
        m.next() == (MachineState { pc: m.pc + 2, registers: m.registers.update(r as int, k), ..m }),
{
    lemma_named_kinds();
    lemma_fetches_encoding(m, s, i);
    assert((0x60u8 | r) / 16 == 6 && (0x60u8 | r) % 16 == r) by (bit_vector)
        requires
            r < 16,
    ;
    law_load_immediate(m, 0x60u8 | r, k);
}

/// An assembled `STYX Rx Ry` copies `Vy` into `Vx`.
pub proof fn law_assembled_styx(m: MachineState, s: Seq<Instruction>, i: int, x: u8, y: u8)
    requires
        at_instruction(m, s, i),
        s[i].mnemonic@ == "STYX"@,
        s[i].operand1 == Some(Operand::Register(x)),
        s[i].operand2 == Some(Operand::Register(y)),
        x < 16,
        y < 16,
    ensures
        m.next() == (MachineState {
            pc: m.pc + 2,
            registers: m.registers.update(x as int, m.registers[y as int]),
            ..m
        }),
{
    lemma_named_kinds();
    lemma_fetches_encoding(m, s, i);
    assert((0x80u8 | x) / 16 == 8 && (0x80u8 | x) % 16 == x) by (bit_vector)
        requires
            x < 16,
    ;
    let lo = ((y % 16) * 16) as u8;
    assert(lo / 16 == y && lo % 16 == 0);
    law_store_y_in_x(m, 0x80u8 | x, lo);
}

/// An assembled `ADD Rx Ry` sets `Vx` to `Vx + Vy` modulo 256, then `VF` to
/// the carry.
pub proof fn law_assembled_add(m: MachineState, s: Seq<Instruction>, i: int, x: u8, y: u8)
    requires
        at_instruction(m, s, i),
        s[i].mnemonic@ == "ADD"@,
        s[i].operand1 == Some(Operand::Register(x)),
        s[i].operand2 == Some(Operand::Register(y)),
        x < 16,
        y < 16,
    ensures
        m.next() == (MachineState {
            pc: m.pc + 2,
            registers: m.registers.update(
                x as int,
                ((m.registers[x as int] + m.registers[y as int]) % 256) as u8,
            ).update(
                15,
                if m.registers[x as int] + m.registers[y as int] > 255 {
                    1u8
                } else {
                    0u8
                },
            ),
            ..m
        }),
{
    lemma_named_kinds();
    lemma_fetches_encoding(m, s, i);
    assert((0x80u8 | x) / 16 == 8 && (0x80u8 | x) % 16 == x) by (bit_vector)
        requires
            x < 16,
    ;
    let lo = ((y % 16) * 16 + 4) as u8;
    assert(lo / 16 == y && lo % 16 == 4);
    law_add_xy(m, 0x80u8 | x, lo);
}

/// An assembled `SUB Rx Ry` sets `Vx` to `Vx - Vy` modulo 256, then `VF` to
/// 1 when no borrow occurred and 0 otherwise.
pub proof fn law_assembled_sub(m: MachineState, s: Seq<Instruction>, i: int, x: u8, y: u8)
    requires
        at_instruction(m, s, i),
        s[i].mnemonic@ == "SUB"@,
        s[i].operand1 == Some(Operand::Register(x)),
        s[i].operand2 == Some(Operand::Register(y)),
        x < 16,
        y < 16,
    ensures
        m.next() == (MachineState {
            pc: m.pc + 2,
            registers: m.registers.update(
                x as int,
                ((m.registers[x as int] - m.registers[y as int] + 256) % 256) as u8,
            ).update(
                15,
                if m.registers[x as int] >= m.registers[y as int] {
                    1u8
                } else {
                    0u8
                },
            ),
            ..m
        }),
{
    lemma_named_kinds();
    lemma_fetches_encoding(m, s, i);
    assert((0x80u8 | x) / 16 == 8 && (0x80u8 | x) % 16 == x) by (bit_vector)
        requires
            x < 16,
    ;
    let lo = ((y % 16) * 16 + 5) as u8;
    assert(lo / 16 == y && lo % 16 == 5);
    law_sub_xy(m, 0x80u8 | x, lo);
}

/// An assembled `CMP Rx k` skips the next instruction exactly when
/// `Vx == k`.
pub proof fn law_assembled_compare(m: MachineState, s: Seq<Instruction>, i: int, x: u8, k: u8)
    requires
        at_instruction(m, s, i),
        s[i].mnemonic@ == "CMP"@,
        s[i].operand1 == Some(Operand::Register(x)),
        s[i].operand2 == Some(Operand::Immediate(k)),
        x < 16,
    ensures
        m.next() == (MachineState {
            pc: if m.registers[x as int] == k {
                m.pc + 4
            } else {
                m.pc + 2
            },
            ..m
        }),
{
    lemma_named_kinds();
    lemma_fetches_encoding(m, s, i);
    assert((0x30u8 | x) / 16 == 3 && (0x30u8 | x) % 16 == x) by (bit_vector)
        requires
            x < 16,
    ;
    law_skip_equal(m, 0x30u8 | x, k);
}

/// An assembled `JMP a` continues at `a`.
pub proof fn law_assembled_jmp(m: MachineState, s: Seq<Instruction>, i: int, a: u16)
    requires
        at_instruction(m, s, i),
        s[i].mnemonic@ == "JMP"@,
        s[i].operand1 == Some(Operand::Address(a)),
        a < 4096,
    ensures
        m.next() == (MachineState { pc: a as int, ..m }),
{
    lemma_named_kinds();
    lemma_fetches_encoding(m, s, i);
    let hi = (0x10 + (a / 256) % 16) as u8;
    let lo = (a % 256) as u8;
    assert(hi / 16 == 1 && (hi % 16) as int * 256 + lo == a) by (nonlinear_arith)
        requires
            hi == (0x10 + (a / 256) % 16) as u8,
            lo == (a % 256) as u8,
            a < 4096,
    ;
    law_jump(m, hi, lo);
}

/// An instruction with a mnemonic the assembler does not know keeps its
/// slot, and both bytes of that slot stay zero when the slot lies in
/// memory.
pub proof fn law_assembled_unknown(s: Seq<Instruction>, i: int)
    requires
        program_assembles(s),
        0 <= i < s.len(),
        s[i].mnemonic@ != "LOAD"@,
        s[i].mnemonic@ != "STYX"@,
        s[i].mnemonic@ != "ADD"@,
        s[i].mnemonic@ != "SUB"@,
        s[i].mnemonic@ != "CMP"@,
        s[i].mnemonic@ != "JMP"@,
        !ends_in_colon(s[i].mnemonic@),
        2 * slot(s, i) + 1 < 4096,
    ensures
        2 * slot(s, i) + 1 < 2 * slot(s, i + 1),
        image(s)[2 * slot(s, i)] == 0,
        image(s)[2 * slot(s, i) + 1] == 0,
{
    lemma_take_step(s, i);
    assert forall|j: int| 0 <= j < s.len() && writes_bytes(s[j]) implies slot(s, j) != (2 * slot(
        s,
        i,
    )) / 2 by {
        if j < i {
            lemma_slot_monotone(s, j, i);
        } else if j > i {
            lemma_slot_monotone(s, i, j);
        }
    }
    assert forall|j: int| 0 <= j < s.len() && writes_bytes(s[j]) implies slot(s, j) != (2 * slot(
        s,
        i,
    ) + 1) / 2 by {
        if j < i {
            lemma_slot_monotone(s, j, i);
        } else if j > i {
            lemma_slot_monotone(s, i, j);
        }
    }
    lemma_slot_count_bound(s);
    assert(s.take(s.len() as int) =~= s);
    if i + 1 < s.len() {
        lemma_slot_monotone(s, i + 1, s.len() as int);
    }
    lemma_image_unused(s, 2 * slot(s, i));
    lemma_image_unused(s, 2 * slot(s, i) + 1);
}

fn same_text(a: &str, b: &str) -> (r: bool)
    ensures
        r == (a@ == b@),
{
    let n = a.unicode_len();
    let m = b.unicode_len();
    if n != m {
        return false;
    }
    let mut i: usize = 0;
    while i < n
        invariant
            n == a@.len(),
            m == b@.len(),
            n == m,
            i <= n,
            forall|j: int| 0 <= j < i ==> a@[j] == b@[j],
        decreases n - i,
    {
        if a.get_char(i) != b.get_char(i) {
            return false;
        }
        i += 1;
    }
    assert(a@ =~= b@);
    true
}

fn text_ends_with_colon(m: &str) -> (r: bool)
    ensures
        r == ends_with_colon(m@),
{
    let n = m.unicode_len();
    n > 0 && m.get_char(n - 1) == ':'
}

/// The name that a label definition defines.
fn label_name(m: &str) -> (r: String)
    ensures
        r@ == trim_colons(m@),
{
    let mut k = m.unicode_len();
    assert(m@.subrange(0, k as int) =~= m@);
    while k > 0 && m.get_char(k - 1) == ':'
        invariant
            k <= m@.len(),
            trim_colons(m@) == trim_colons(m@.subrange(0, k as int)),
        decreases k,
    {
        assert(m@.subrange(0, k as int).drop_last() =~= m@.subrange(0, k - 1));
        k -= 1;
    }
    m.substring_char(0, k).to_owned()
}

fn classify(m: &str) -> (k: InstructionKind)
    ensures
        k == kind_of(m@),
{
    if same_text(m, "LOAD") {
        InstructionKind::Load
    } else if same_text(m, "STYX") {
        InstructionKind::Styx
    } else if same_text(m, "ADD") {
        InstructionKind::Add
    } else if same_text(m, "SUB") {
        InstructionKind::Sub
    } else if same_text(m, "CMP") {
        InstructionKind::Compare
    } else if same_text(m, "JMP") {
        InstructionKind::Jmp
    } else if text_ends_with_colon(m) {
        InstructionKind::Label
    } else {
        InstructionKind::Other
    }
}

/// Whether every jump of the program refers to a label that the program
/// defines, as [`resolve_label`] requires.
pub fn can_resolve_labels(instructions: &Vec<Instruction>) -> (b: bool)
    ensures
        b == labels_resolve(instructions@),
{
    let ghost s = instructions@;
    let n = instructions.len();
    let mut i: usize = 0;
    while i < n
        invariant
            n == s.len(),
            s == instructions@,
            i <= n,
            forall|j: int| 0 <= j < i && is_jump(s[j]) ==> #[trigger] jump_target(s, j) is Some,
        decreases n - i,
    {
        let ins = &instructions[i];
        if same_text(ins.mnemonic.as_str(), "JMP") {
            match &ins.operand1 {
                Some(Operand::Label(l)) => {
                    if find_label(instructions, l.as_str()).is_none() {
                        assert(!(jump_target(s, i as int) is Some));
                        return false;
                    }
                },
                _ => {
                    assert(!(jump_target(s, i as int) is Some));
                    return false;
                },
            }
        }
        i += 1;
    }
    true
}

/// Whether [`assemble`] can lay the program out without fault.
pub fn can_assemble(instructions: &Vec<Instruction>) -> (b: bool)
    ensures
        b == program_assembles(instructions@),
{
    let ghost s = instructions@;
    let n = instructions.len();
    if n > usize::MAX / 2 {
        return false;
    }
    let mut slots: usize = 0;
    let mut i: usize = 0;
    while i < n
        invariant
            n == s.len(),
            s == instructions@,
            2 * n <= usize::MAX,
            i <= n,
            slots == slot(s, i as int),
            forall|j: int| 0 <= j < i ==> #[trigger] instruction_assembles(s, j),
        decreases n - i,
    {
        let ins = &instructions[i];
        proof {
            lemma_take_step(s, i as int);
            lemma_slot_count_bound(s.take(i + 1));
        }
        let k = classify(ins.mnemonic.as_str());
        let fits = match k {
            InstructionKind::Label => true,
            InstructionKind::Other => true,
            InstructionKind::Load | InstructionKind::Compare => {
                let shape = match (&ins.operand1, &ins.operand2) {
                    (Some(Operand::Register(_)), Some(Operand::Immediate(_))) => true,
                    _ => false,
                };
                shape && 2 * slots + 1 < 4096
            },
            InstructionKind::Styx | InstructionKind::Add | InstructionKind::Sub => {
                let shape = match (&ins.operand1, &ins.operand2) {
                    (Some(Operand::Register(_)), Some(Operand::Register(_))) => true,
                    _ => false,
                };
                shape && 2 * slots + 1 < 4096
            },
            InstructionKind::Jmp => {
                let shape = match &ins.operand1 {
                    Some(Operand::Address(_)) => true,
                    _ => false,
                };
                shape && 2 * slots + 1 < 4096
            },
        };
        if !fits {
            assert(!instruction_assembles(s, i as int));
            return false;
        }
        match k {
            InstructionKind::Label => {},
            _ => {
                slots += 1;
            },
        }
        i += 1;
    }
    true
}

/// The location of the last definition of the label `name`.
fn find_label(instructions: &Vec<Instruction>, name: &str) -> (r: Option<u16>)
    ensures
        r == label_location(instructions@, name@),
{
    let ghost s = instructions@;
    let mut k = instructions.len();
    assert(s.take(k as int) =~= s);
    while k > 0
        invariant
            s == instructions@,
            k <= s.len(),
            label_location(s, name@) == label_location(s.take(k as int), name@),
        decreases k,
    {
        let ins = &instructions[k - 1];
        assert(s.take(k as int).drop_last() =~= s.take(k - 1));
        assert(s.take(k as int).last() == s[k - 1]);
        if text_ends_with_colon(ins.mnemonic.as_str()) {
            let defined = label_name(ins.mnemonic.as_str());
            if same_text(defined.as_str(), name) {
                return Some(ins.location);
            }
        }
        k -= 1;
    }
    None
}

/// Replaces the label operand of every jump by the location of that label.
/// When a label is defined more than once, its last definition counts.
pub fn resolve_label(instructions: Vec<Instruction>) -> (result: Vec<Instruction>)
    requires
        labels_resolve(instructions@),
    ensures
        result@ == resolved_program(instructions@),
{
    let mut instructions = instructions;
    let ghost s = instructions@;
    let n = instructions.len();
    let mut targets: Vec<u16> = Vec::new();
    let mut i: usize = 0;
    while i < n
        invariant
            n == s.len(),
            instructions@ == s,
            targets@.len() == i,
            i <= n,
            labels_resolve(s),
            forall|j: int| 0 <= j < i && is_jump(s[j]) ==> Some(targets@[j]) == jump_target(s, j),
        decreases n - i,
    {
        let ins = &instructions[i];
        let mut target: u16 = 0;
        if same_text(ins.mnemonic.as_str(), "JMP") {
            assert(jump_target(s, i as int) is Some);
            match &ins.operand1 {
                Some(Operand::Label(l)) => {
                    match find_label(&instructions, l.as_str()) {
                        Some(location) => {
                            target = location;
                        },
                        None => {
                            assert(false);
                        },
                    }
                },
                _ => {
                    assert(false);
                },
            }
        }
        targets.push(target);
        i += 1;
    }
    let mut i: usize = 0;
    while i < n
        invariant
            n == s.len(),
            instructions@.len() == n,
            labels_resolve(s),
            targets@.len() == n,
            i <= n,
            forall|j: int| 0 <= j < n && is_jump(s[j]) ==> Some(targets@[j]) == jump_target(s, j),
            forall|j: int| 0 <= j < i ==> instructions@[j] == resolved(s, j),
            forall|j: int| i <= j < n ==> instructions@[j] == s[j],
        decreases n - i,
    {
        if same_text(instructions[i].mnemonic.as_str(), "JMP") {
            instructions[i].operand1 = Some(Operand::Address(targets[i]));
        }
        i += 1;
    }
    assert(instructions@ =~= resolved_program(s));
    instructions
}

/// Lays the program out in a fresh 4 KiB memory image, two bytes per
/// instruction; see [`image`].
pub fn assemble(instructions: Vec<Instruction>) -> (mem: [u8; 4096])
    requires
        program_assembles(instructions@),
    ensures
        mem@ == image(instructions@),
{
    let ghost s = instructions@;
    let mut mem = [0u8; 4096];
    let mut instr_ctr: usize = 0;
    let n = instructions.len();
    let mut idx: usize = 0;
    assert(mem@ =~= image(s.take(0)));
    while idx < n
        invariant
            n == s.len(),
            s == instructions@,
            idx <= n,
            program_assembles(s),
            instr_ctr == 2 * slot_count(s.take(idx as int)),
            mem@ == image(s.take(idx as int)),
        decreases n - idx,
    {
        let instr = &instructions[idx];
        proof {
            assert(s.take(idx + 1).drop_last() =~= s.take(idx as int));
            assert(s.take(idx + 1).last() == s[idx as int]);
            assert(instruction_assembles(s, idx as int));
            lemma_slot_count_bound(s.take(idx + 1));
        }
        let instr_kind = classify(instr.mnemonic.as_str());
        match instr_kind {
            InstructionKind::Load => match (&instr.operand1, &instr.operand2) {
                (Some(Operand::Register(r1)), Some(Operand::Immediate(i2))) => {
                    mem[instr_ctr] = 0x60 | *r1;
                    mem[instr_ctr + 1] = *i2;
                },
                _ => {
                    assert(false);
                },
            },
            InstructionKind::Styx => match (&instr.operand1, &instr.operand2) {
                (Some(Operand::Register(r1)), Some(Operand::Register(r2))) => {
                    let r2 = *r2;
                    assert(r2 << 4u8 == ((r2 % 16) * 16) as u8) by (bit_vector);
                    mem[instr_ctr] = 0x80 | *r1;
                    mem[instr_ctr + 1] = r2 << 4;
                },
                _ => {
                    assert(false);
                },
            },
            InstructionKind::Add => match (&instr.operand1, &instr.operand2) {
                (Some(Operand::Register(r1)), Some(Operand::Register(r2))) => {
                    let r2 = *r2;
                    assert((r2 << 4u8) | 4u8 == ((r2 % 16) * 16 + 4) as u8) by (bit_vector);
                    mem[instr_ctr] = 0x80 | *r1;
                    mem[instr_ctr + 1] = (r2 << 4) | 0x4;
                },
                _ => {
                    assert(false);
                },
            },
            InstructionKind::Sub => match (&instr.operand1, &instr.operand2) {
                (Some(Operand::Register(r1)), Some(Operand::Register(r2))) => {
                    let r2 = *r2;
                    assert((r2 << 4u8) | 5u8 == ((r2 % 16) * 16 + 5) as u8) by (bit_vector);
                    mem[instr_ctr] = 0x80 | *r1;
                    mem[instr_ctr + 1] = (r2 << 4) | 0x5;
                },
                _ => {
                    assert(false);
                },
            },
            InstructionKind::Compare => match (&instr.operand1, &instr.operand2) {
                (Some(Operand::Register(r1)), Some(Operand::Immediate(i2))) => {
                    mem[instr_ctr] = 0x30 | *r1;
                    mem[instr_ctr + 1] = *i2;
                },
                _ => {
                    assert(false);
                },
            },
            InstructionKind::Jmp => match &instr.operand1 {
                Some(Operand::Address(r1)) => {
                    let r1 = *r1;
                    assert(0x10u8 | ((r1 >> 8u16) & 0x000Fu16) as u8 == (0x10 + (r1 / 256) % 16) as u8
                        && (r1 & 0x00FFu16) as u8 == (r1 % 256) as u8) by (bit_vector);
                    mem[instr_ctr] = 0x10 | ((r1 >> 8) & 0x000F) as u8;
                    mem[instr_ctr + 1] = (r1 & 0x00FF) as u8;
                },
                _ => {
                    assert(false);
                },
            },
            InstructionKind::Label => {},
            InstructionKind::Other => {},
        }
        assert(mem@ =~= image(s.take(idx + 1)));
        match instr_kind {
            InstructionKind::Label => {},
            _ => {
                instr_ctr += 2;
            },
        }
        idx += 1;
    }
    assert(s.take(n as int) =~= s);
    mem
}

} // verus!
