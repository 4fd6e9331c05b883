use crate::chunk::Chunk;
use crate::common::Opcode;
use crate::interner::Interner;
use crate::layout::{boundary, instruction_len, scan, wide_operand};
use crate::number::NumberOps;
use crate::text::{decimal, padded_decimal, push_decimal, push_padded_decimal};
use crate::value::{value_as_string, Heap, Value};
use vstd::prelude::*;

verus! {

/// An instruction taken apart: its opcode and its operand bytes, 0 where
/// it has none.
#[derive(Clone, Copy, PartialEq, Eq, Structural, Debug)]
pub struct Instruction {
    pub op: Opcode,
    pub first: u8,
    pub second: u8,
}

impl Instruction {
    /// The bytes of the instruction: the opcode, then as many operand
    /// bytes as the opcode takes.
    pub open spec fn bytes(self) -> Seq<u8> {
        if self.op.operands() == 0 {
            seq![self.op.byte()]
        } else if self.op.operands() == 1 {
            seq![self.op.byte(), self.first]
        } else {
            seq![self.op.byte(), self.first, self.second]
        }
    }

    /// Whether the operand bytes that the opcode does not take are 0.
    pub open spec fn plain(self) -> bool {
        &&& self.op.operands() < 1 ==> self.first == 0
        &&& self.op.operands() < 2 ==> self.second == 0
    }
}

/// The bytes of a sequence of instructions, one after the other.
pub open spec fn assembled(instructions: Seq<Instruction>) -> Seq<u8>
    decreases instructions.len(),
{
    if instructions.len() == 0 {
        Seq::empty()
    } else {
        assembled(instructions.drop_last()) + instructions.last().bytes()
    }
}

/// Whether `code` is a sequence of whole instructions: it ends on an
/// instruction boundary, and every instruction starts with an opcode of
/// the machine.
pub open spec fn whole(code: Seq<u8>) -> bool {
    &&& boundary(code, code.len() as int)
    &&& forall|o: int|
        0 <= o < code.len() && #[trigger] boundary(code, o) ==> Opcode::decode(code[o]) is Some
}

/// Balanced code is a sequence of whole instructions: the code of every
/// script that compiles can be taken apart, and its instructions, put
/// together again, are that code.
pub proof fn lemma_balanced_code_is_whole(code: Seq<u8>)
    requires
        crate::layout::balanced(code),
    ensures
        whole(code),
{
    let (heights, end_height, free) = choose|heights: Map<int, int>, end_height: int, free: bool|
        #![all_triggers]
        crate::layout::balanced_under(code, heights, end_height, free) && (code.len() > 0
            ==> heights[0] == 0);
    assert forall|o: int| 0 <= o < code.len() && #[trigger] boundary(code, o) implies Opcode::decode(
        code[o],
    ) is Some by {
        assert(heights.contains_key(o));
    }
}

/// Takes code apart into its instructions. `None` for code that is no
/// sequence of whole instructions: with a byte that is no opcode where an
/// instruction starts, or with operands missing at the end.
///
/// The instructions, put together again, are the code.
pub fn disassemble_code(code: &Vec<u8>) -> (listing: Option<Vec<Instruction>>)
    ensures
        listing is Some <==> whole(code@),
        listing is Some ==> assembled(listing.unwrap()@) == code@ && forall|i: int|
            0 <= i < listing.unwrap()@.len() ==> (#[trigger] listing.unwrap()@[i]).plain(),
{
    let mut listing: Vec<Instruction> = Vec::new();
    let mut offset: usize = 0;
    assert(assembled(listing@) =~= code@.subrange(0, 0));
    while offset < code.len()
        invariant
            offset <= code@.len(),
            boundary(code@, offset as int),
            assembled(listing@) == code@.subrange(0, offset as int),
            forall|i: int| 0 <= i < listing@.len() ==> (#[trigger] listing@[i]).plain(),
            forall|o: int|
                0 <= o < offset && #[trigger] boundary(code@, o) ==> Opcode::decode(code@[o])
                    is Some,
        decreases code@.len() - offset,
    {
        let op = match Opcode::from_byte(code[offset]) {
            Some(op) => op,
            None => { return None; },
        };
        let operands: usize = op.operand_count();
        if code.len() - offset <= operands {
            proof {
                if boundary(code@, code@.len() as int) {
                    crate::layout::lemma_scan_linear(code@, 0, offset as int, code@.len() as int);
                }
            }
            return None;
        }
        let first: u8 = if operands >= 1 {
            code[offset + 1]
        } else {
            0
        };
        let second: u8 = if operands == 2 {
            code[offset + 2]
        } else {
            0
        };
        let instruction = Instruction { op, first, second };
        let ghost before = listing@;
        listing.push(instruction);
        proof {
            let next = offset + 1 + operands;
            assert(listing@.drop_last() =~= before);
            assert(assembled(listing@) =~= code@.subrange(0, next as int));
            assert(scan(code@, next as int, next as int));
            assert(scan(code@, offset as int, next as int));
            crate::layout::lemma_scan_trans(code@, 0, offset as int, next as int);
            assert forall|o: int| 0 <= o < next && #[trigger] boundary(code@, o) implies
                Opcode::decode(code@[o]) is Some by {
                if offset < o {
                    crate::layout::lemma_boundaries_apart(code@, offset as int, o);
                }
            }
        }
        offset = offset + 1 + operands;
    }
    assert(code@.subrange(0, offset as int) =~= code@);
    Some(listing)
}

/// Puts instructions together: their bytes, one after the other.
pub fn assemble(instructions: &Vec<Instruction>) -> (code: Vec<u8>)
    ensures
        code@ == assembled(instructions@),
{
    let mut code: Vec<u8> = Vec::new();
    let mut i: usize = 0;
    assert(instructions@.subrange(0, 0) =~= Seq::<Instruction>::empty());
    while i < instructions.len()
        invariant
            i <= instructions@.len(),
            code@ == assembled(instructions@.subrange(0, i as int)),
        decreases instructions@.len() - i,
    {
        let instruction = instructions[i];
        let operands: usize = instruction.op.operand_count();
        let ghost before = code@;
        code.push(instruction.op.to_byte());
        if operands >= 1 {
            code.push(instruction.first);
        }
        if operands == 2 {
            code.push(instruction.second);
        }
        i += 1;
        proof {
            assert(instructions@.subrange(0, i as int).drop_last() =~= instructions@.subrange(
                0,
                i - 1,
            ));
            assert(code@ =~= before + instruction.bytes());
        }
    }
    assert(instructions@.subrange(0, i as int) =~= instructions@);
    code
}

/// The target of a jump over `distance` bytes from the instruction at `o`,
/// as the disassembler writes it; it stops at the largest `usize`.
pub open spec fn jump_target(o: int, distance: int) -> nat {
    if o + 3 + distance <= usize::MAX {
        (o + 3 + distance) as nat
    } else {
        usize::MAX as nat
    }
}

/// How the disassembler writes the instruction at `o` of `code`, where it
/// does not have to write a constant out: the opcode's name, and after it
/// the slot or the count of arguments, or the distance and the target of a
/// jump.
pub open spec fn instruction_text(code: Seq<u8>, o: int) -> Seq<char> {
    match Opcode::decode(code[o]) {
        None => "Invalid opcode "@ + padded_decimal(code[o] as nat, 4, '0'),
        Some(op) => if o + instruction_len(code, o) > code.len() {
            op.name_spec() + " (cut off)"@
        } else {
            match op {
                Opcode::Jump | Opcode::JumpIfFalse => op.name_spec() + " "@ + decimal(
                    wide_operand(code, o) as nat,
                ) + " -> "@ + decimal(jump_target(o, wide_operand(code, o))),
                Opcode::Loop => op.name_spec() + " "@ + decimal(wide_operand(code, o) as nat)
                    + " -> "@ + (if wide_operand(code, o) <= o + 3 {
                    decimal((o + 3 - wide_operand(code, o)) as nat)
                } else {
                    "-"@ + decimal((wide_operand(code, o) - o - 3) as nat)
                }),
                Opcode::GetLocal | Opcode::SetLocal | Opcode::Call => op.name_spec() + " "@
                    + decimal(code[o + 1] as nat),
                _ => op.name_spec(),
            }
        },
    }
}

/// Whether the instruction names a constant, which the disassembler writes
/// out.
pub open spec fn names_constant(op: Opcode) -> bool {
    op == Opcode::Constant || op == Opcode::DefineGlobal || op == Opcode::GetGlobal || op
        == Opcode::SetGlobal
}

/// Writes an instruction without operands out: its name.
fn simple_instruction(instruction: Opcode) -> (text: String)
    ensures
        text@ == instruction.name_spec(),
{
    String::from_str(instruction.name())
}

/// Writes a jump or a loop out: its name, its distance, and its target.
fn jump_instruction(code: &Vec<u8>, instruction: Opcode, offset: usize) -> (text: String)
    requires
        offset + 3 <= code@.len(),
        instruction == Opcode::Jump || instruction == Opcode::JumpIfFalse || instruction
            == Opcode::Loop,
        Opcode::decode(code@[offset as int]) == Some(instruction),
    ensures
        text@ == instruction_text(code@, offset as int),
{
    let len: usize = code.len();
    let jump: usize = code[offset + 1] as usize * 256 + code[offset + 2] as usize;
    let mut text = String::from_str(instruction.name());
    text.append(" ");
    push_decimal(&mut text, jump);
    text.append(" -> ");
    match instruction {
        Opcode::Loop => {
            if jump <= offset + 3 {
                push_decimal(&mut text, offset + 3 - jump);
            } else {
                text.append("-");
                push_decimal(&mut text, jump - offset - 3);
            }
        },
        _ => {
            if jump <= usize::MAX - offset - 3 {
                push_decimal(&mut text, offset + 3 + jump);
            } else {
                push_decimal(&mut text, usize::MAX);
            }
        },
    }
    assert(text@ =~= instruction_text(code@, offset as int));
    text
}

/// Writes an instruction with a slot or a count out: its name and the
/// operand.
fn byte_instruction(code: &Vec<u8>, instruction: Opcode, offset: usize) -> (text: String)
    requires
        offset + 2 <= code@.len(),
        instruction == Opcode::GetLocal || instruction == Opcode::SetLocal || instruction
            == Opcode::Call,
        Opcode::decode(code@[offset as int]) == Some(instruction),
    ensures
        text@ == instruction_text(code@, offset as int),
{
    let len: usize = code.len();
    let mut text = String::from_str(instruction.name());
    text.append(" ");
    push_decimal(&mut text, code[offset + 1] as usize);
    assert(text@ =~= instruction_text(code@, offset as int));
    text
}

/// Writes an instruction that names a constant out: its name, the
/// constant's index, and the constant.
fn constant_instruction<N: NumberOps>(
    chunk: &Chunk,
    instruction: Opcode,
    offset: usize,
    interner: &Interner,
    ops: &N,
) -> (text: String)
    requires
        offset + 2 <= chunk.code@.len(),
    ensures
        text@.len() >= instruction.name_spec().len(),
        text@.subrange(0, instruction.name_spec().len() as int) == instruction.name_spec(),
        exists|written: Seq<char>|
            text@ == #[trigger] constant_text(
                instruction,
                chunk.code@[offset + 1] as nat,
                written,
            ) && constant_written(ops, chunk.constants@, chunk.code@[offset + 1] as int, interner@, written),
{
    let len: usize = chunk.code.len();
    let index: usize = chunk.code[offset + 1] as usize;
    let mut text = String::from_str(instruction.name());
    text.append(" Idx ");
    push_decimal(&mut text, index);
    text.append(" ");
    let ghost head = text@;
    let ghost mut written: Seq<char> = Seq::empty();
    if index < chunk.constants.len() {
        let heap = Heap::new();
        let value = value_as_string(&chunk.constants[index], interner, &heap, ops);
        text.append(value.as_str());
        proof {
            written = value@;
            assert(heap@ =~= Seq::<Seq<Value>>::empty());
        }
    }
    assert(text@.subrange(0, instruction.name_spec().len() as int) =~= instruction.name_spec());
    assert(text@ =~= constant_text(instruction, index as nat, written));
    assert(constant_written(ops, chunk.constants@, index as int, interner@, written));
    text
}

/// How the disassembler writes an instruction that names a constant: the
/// opcode's name, the index of the constant, and the constant written
/// out.
pub open spec fn constant_text(op: Opcode, index: nat, written: Seq<char>) -> Seq<char> {
    op.name_spec() + " Idx "@ + decimal(index) + " "@ + written
}

/// Whether `written` is how the disassembler writes the constant with
/// this index out: nothing for an index that the chunk does not hold; and
/// else the constant as the language prints it, an array as `Array<...>`
/// and a number as the embedder writes it.
pub open spec fn constant_written<N: NumberOps>(
    ops: &N,
    constants: Seq<Value>,
    index: int,
    strings: Seq<Seq<char>>,
    written: Seq<char>,
) -> bool {
    if index < constants.len() {
        crate::value::array_written(
            ops,
            constants[index],
            strings,
            Seq::empty(),
            crate::value::MAX_TEXT_DEPTH as nat,
            written,
        )
    } else {
        written == Seq::<char>::empty()
    }
}

/// Where the instruction after the one at `o` starts, or the end of the
/// code if the instruction at `o` is cut off.
pub open spec fn step_end(code: Seq<u8>, o: int) -> int {
    if o + instruction_len(code, o) <= code.len() {
        o + instruction_len(code, o)
    } else {
        code.len() as int
    }
}

/// How the disassembler begins the line of the instruction at `offset`:
/// the offset, and the source line, 0 where the chunk records none.
pub open spec fn line_head(chunk: &Chunk, offset: int) -> Seq<char> {
    padded_decimal(offset as nat, 4, '0') + " "@ + padded_decimal(
        (if chunk.lines@.contains_key(offset as usize) {
            chunk.lines@[offset as usize]
        } else {
            0
        }) as nat,
        4,
        ' ',
    ) + " "@
}

/// Whether `text` is the line that the disassembler writes for the
/// instruction at `offset`: the head of the line, and the instruction
/// written out; where it names a constant that the chunk holds, the
/// constant is written out after it.
pub open spec fn line_written<N: NumberOps>(
    ops: &N,
    chunk: &Chunk,
    offset: int,
    strings: Seq<Seq<char>>,
    text: Seq<char>,
) -> bool {
    let code = chunk.code@;
    if Opcode::decode(code[offset]) is Some && names_constant(
        Opcode::decode(code[offset]).unwrap(),
    ) && offset + 2 <= code.len() {
        exists|written: Seq<char>|
            text == line_head(chunk, offset) + #[trigger] constant_text(
                Opcode::decode(code[offset]).unwrap(),
                code[offset + 1] as nat,
                written,
            ) && constant_written(ops, chunk.constants@, code[offset + 1] as int, strings, written)
    } else {
        text == line_head(chunk, offset) + instruction_text(code, offset)
    }
}

/// The offsets of the instructions that the disassembler writes out, from
/// offset `o` on.
pub open spec fn listed(code: Seq<u8>, o: int) -> Seq<int>
    decreases code.len() - o,
{
    if o < 0 || o >= code.len() {
        Seq::empty()
    } else {
        seq![o] + listed(code, step_end(code, o))
    }
}

/// Writes the instruction at `offset` out: the offset, the source line,
/// and the instruction. Returns the text and the offset of the next
/// instruction.
pub fn disassemble_instruction<N: NumberOps>(
    chunk: &Chunk,
    offset: usize,
    interner: &Interner,
    ops: &N,
) -> (r: (String, usize))
    requires
        offset < chunk.code@.len(),
    ensures
        offset < r.1,
        r.1 == step_end(chunk.code@, offset as int),
        line_written(ops, chunk, offset as int, interner@, r.0@),
{
    let mut text = String::new();
    push_padded_decimal(&mut text, offset, 4, '0');
    text.append(" ");
    let line: usize = match chunk.line_at(offset) {
        Some(line) => line,
        None => 0,
    };
    push_padded_decimal(&mut text, line, 4, ' ');
    text.append(" ");
    let ghost head = text@;
    let code = &chunk.code;
    let len: usize = code.len();
    let instruction = match Opcode::from_byte(code[offset]) {
        Some(instruction) => instruction,
        None => {
            text.append("Invalid opcode ");
            push_padded_decimal(&mut text, code[offset] as usize, 4, '0');
            assert(text@ =~= head + instruction_text(code@, offset as int));
            return (text, offset + 1);
        },
    };
    let operands: usize = instruction.operand_count();
    if len - offset <= operands {
        text.append(instruction.name());
        text.append(" (cut off)");
        assert(text@ =~= head + instruction_text(code@, offset as int));
        return (text, len);
    }
    let body = match instruction {
        Opcode::Constant | Opcode::DefineGlobal | Opcode::GetGlobal | Opcode::SetGlobal => {
            let body = constant_instruction(chunk, instruction, offset, interner, ops);
            proof {
                let written = choose|written: Seq<char>|
                    body@ == #[trigger] constant_text(
                        instruction,
                        chunk.code@[offset + 1] as nat,
                        written,
                    ) && constant_written(
                        ops,
                        chunk.constants@,
                        chunk.code@[offset + 1] as int,
                        interner@,
                        written,
                    );
                assert(head + body@ == head + constant_text(
                    instruction,
                    chunk.code@[offset + 1] as nat,
                    written,
                ));
            }
            body
        },
        Opcode::Jump | Opcode::JumpIfFalse | Opcode::Loop => jump_instruction(
            code,
            instruction,
            offset,
        ),
        Opcode::GetLocal | Opcode::SetLocal | Opcode::Call => byte_instruction(
            code,
            instruction,
            offset,
        ),
        _ => simple_instruction(instruction),
    };
    text.append(body.as_str());
    (text, offset + 1 + operands)
}

impl Chunk {
    /// Writes the chunk out, one line for each instruction, between a
    /// heading with `name` and a closing line.
    pub fn disassemble<N: NumberOps>(&self, name: &str, interner: &Interner, ops: &N) -> (lines: Vec<
        String,
    >)
        ensures
            lines@.len() >= 2,
            lines@[0]@ == "== "@ + name@ + " =="@,
            lines@.last()@ == "===="@,
            lines@.len() == listed(self.code@, 0).len() + 2,
            forall|i: int|
                0 <= i < listed(self.code@, 0).len() ==> line_written(
                    ops,
                    self,
                    listed(self.code@, 0)[i],
                    interner@,
                    #[trigger] lines@[i + 1]@,
                ),
    {
        let mut lines: Vec<String> = Vec::new();
        let mut heading = String::from_str("== ");
        heading.append(name);
        heading.append(" ==");
        lines.push(heading);
        let mut offset: usize = 0;
        let ghost mut seen: Seq<int> = Seq::empty();
        assert(seen + listed(self.code@, 0) =~= listed(self.code@, 0));
        while offset < self.code.len()
            invariant
                offset <= self.code@.len(),
                lines@.len() == seen.len() + 1,
                lines@[0]@ == "== "@ + name@ + " =="@,
                listed(self.code@, 0) == seen + listed(self.code@, offset as int),
                forall|i: int|
                    0 <= i < seen.len() ==> line_written(
                        ops,
                        self,
                        seen[i],
                        interner@,
                        #[trigger] lines@[i + 1]@,
                    ),
            decreases self.code@.len() - offset,
        {
            let (text, next) = disassemble_instruction(self, offset, interner, ops);
            proof {
                let rest = listed(self.code@, step_end(self.code@, offset as int));
                assert(seen + (seq![offset as int] + rest) =~= seen.push(offset as int) + rest);
                seen = seen.push(offset as int);
            }
            lines.push(text);
            offset = if next > self.code.len() {
                self.code.len()
            } else {
                next
            };
        }
        lines.push(String::from_str("===="));
        proof {
            assert(seen + listed(self.code@, offset as int) =~= seen);
        }
        lines
    }
}

} // verus!
