use crate::common::Opcode;
use crate::value::Value;
use vstd::prelude::*;

verus! {

/// The length of the instruction whose opcode is at `o`: the opcode and its
/// operands. A byte that is no opcode counts as one byte.
pub open spec fn instruction_len(code: Seq<u8>, o: int) -> int {
    1 + operand_bytes(code, o) as int
}

/// How many operand bytes follow the opcode at `o`.
pub open spec fn operand_bytes(code: Seq<u8>, o: int) -> nat {
    match Opcode::decode(code[o]) {
        Some(op) => op.operands(),
        None => 0,
    }
}

/// Whether reading instruction after instruction from offset `from` comes to
/// offset `o`.
pub open spec fn scan(code: Seq<u8>, from: int, o: int) -> bool
    decreases o - from,
{
    if from >= o {
        from == o
    } else {
        0 <= from < code.len() && from + instruction_len(code, from) <= o && scan(
            code,
            from + instruction_len(code, from),
            o,
        )
    }
}

/// Whether `o` is an instruction boundary of `code`: the offset of an
/// instruction's opcode, or the end of the code, reached from offset 0.
pub open spec fn boundary(code: Seq<u8>, o: int) -> bool {
    0 <= o <= code.len() && scan(code, 0, o)
}

/// The operand of a jump at `o`: two bytes, the high one first.
pub open spec fn wide_operand(code: Seq<u8>, o: int) -> int {
    code[o + 1] as int * 256 + code[o + 2] as int
}

/// By how much an instruction changes the height of the stack, when it
/// succeeds and control goes on in the same function. `CALL` counts as the
/// whole call: the callee and its arguments leave, the result comes.
/// `RETURN` hands control on to no instruction, and counts as 0.
pub open spec fn effect(op: Opcode, operand: int) -> int {
    match op {
        Opcode::Constant | Opcode::Nil | Opcode::True | Opcode::False => 1,
        Opcode::Pop | Opcode::Print | Opcode::DefineGlobal => -1,
        Opcode::SetLocal | Opcode::SetGlobal => -1,
        Opcode::Equal | Opcode::Greater | Opcode::Less => -1,
        Opcode::Add
        | Opcode::Subtract
        | Opcode::Multiply
        | Opcode::Divide
        | Opcode::Modulo => -1,
        Opcode::Call => -operand,
        _ => 0,
    }
}

/// How many values an instruction needs on the stack.
pub open spec fn needs(op: Opcode, operand: int) -> int {
    match op {
        Opcode::Pop | Opcode::Print | Opcode::DefineGlobal | Opcode::DeclareArray => 1,
        Opcode::Negate | Opcode::Not | Opcode::JumpIfFalse => 1,
        Opcode::GetLocal | Opcode::GetGlobal => 1,
        Opcode::SetLocal | Opcode::SetGlobal => 2,
        Opcode::Equal | Opcode::Greater | Opcode::Less => 2,
        Opcode::Add
        | Opcode::Subtract
        | Opcode::Multiply
        | Opcode::Divide
        | Opcode::Modulo => 2,
        Opcode::Call => operand + 1,
        _ => 0,
    }
}

/// Whether the operand of an instruction fits where the instruction
/// stands: a constant is one of the chunk's, the name of a global is a
/// string, and a local lies below the values that the instruction takes.
/// A call fits nowhere: what it does to the stack is up to the callee,
/// which only the running machine knows.
pub open spec fn fits(op: Opcode, operand: int, height: int, constants: Seq<Value>) -> bool {
    match op {
        Opcode::Call => false,
        Opcode::Constant => operand < constants.len(),
        Opcode::DefineGlobal | Opcode::GetGlobal | Opcode::SetGlobal => operand < constants.len()
            && (constants[operand] is Str || constants[operand] is Identifier),
        Opcode::GetLocal => operand < height - 1,
        Opcode::SetLocal => operand < height - 2,
        _ => true,
    }
}

/// Whether the instruction at `o` is safe at the height that is recorded
/// for it: the stack holds what the instruction needs, and its operand
/// fits.
pub open spec fn safe_at(code: Seq<u8>, constants: Seq<Value>, heights: Map<int, int>, o: int)
    -> bool {
    match Opcode::decode(code[o]) {
        None => false,
        Some(op) => heights[o] >= needs(op, code[o + 1] as int) && fits(
            op,
            code[o + 1] as int,
            heights[o],
            constants,
        ),
    }
}

/// Whether control that arrives at offset `to` with a stack of height
/// `height` finds the height that is recorded there. At the end of the code
/// the recorded height is `end_height`, unless the end is `free`: then
/// nothing flows into it.
pub open spec fn lands(
    heights: Map<int, int>,
    len: int,
    end_height: int,
    free: bool,
    to: int,
    height: int,
) -> bool {
    if to == len {
        !free && end_height == height
    } else {
        heights.contains_key(to) && heights[to] == height
    }
}

/// Whether the instruction at `o` hands the stack on at the recorded
/// heights: wherever control goes from it, it lands. A jump in `pending`
/// has no target yet.
pub open spec fn flows(
    code: Seq<u8>,
    heights: Map<int, int>,
    pending: Set<int>,
    end_height: int,
    free: bool,
    o: int,
) -> bool {
    let len = code.len() as int;
    let h = heights[o];
    match Opcode::decode(code[o]) {
        None => false,
        Some(op) => match op {
            Opcode::Return => true,
            Opcode::Jump => pending.contains(o) || lands(
                heights,
                len,
                end_height,
                free,
                o + 3 + wide_operand(code, o),
                h,
            ),
            Opcode::JumpIfFalse => lands(heights, len, end_height, free, o + 3, h) && (
            pending.contains(o) || lands(
                heights,
                len,
                end_height,
                free,
                o + 3 + wide_operand(code, o),
                h,
            )),
            Opcode::Loop => lands(
                heights,
                len,
                end_height,
                free,
                o + 3 - wide_operand(code, o),
                h,
            ),
            _ => lands(
                heights,
                len,
                end_height,
                free,
                o + instruction_len(code, o),
                h + effect(op, code[o + 1] as int),
            ),
        },
    }
}

/// Whether `heights` records the instructions of `code` and nothing else:
/// its keys are the offsets of the opcodes, every opcode is one of the
/// machine's, and every instruction has all its operands.
pub open spec fn covers(code: Seq<u8>, heights: Map<int, int>) -> bool {
    &&& boundary(code, code.len() as int)
    &&& forall|o: int| #[trigger]
        heights.contains_key(o) <==> boundary(code, o) && o < code.len()
    &&& forall|o: int| #[trigger]
        heights.contains_key(o) ==> Opcode::decode(code[o]) is Some && o + instruction_len(
            code,
            o,
        ) <= code.len()
}

/// Whether `code` is balanced under `heights`: `heights` records its
/// instructions, and every instruction hands the stack on at the recorded
/// heights. Then every jump and loop lands on an instruction boundary, and
/// the height of the stack at an instruction does not depend on the way
/// control took to it.
pub open spec fn balanced_under(
    code: Seq<u8>,
    heights: Map<int, int>,
    end_height: int,
    free: bool,
) -> bool {
    &&& covers(code, heights)
    &&& forall|o: int| #[trigger]
        heights.contains_key(o) ==> flows(code, heights, Set::empty(), end_height, free, o)
}

/// Whether `code` is balanced under some record of heights that starts with
/// an empty stack.
pub open spec fn balanced(code: Seq<u8>) -> bool {
    exists|heights: Map<int, int>, end_height: int, free: bool|
        #![all_triggers]
        balanced_under(code, heights, end_height, free) && (code.len() > 0 ==> heights[0] == 0)
}

/// Whether `code` with these constants is sound under `heights`: it is
/// balanced, and every instruction is safe at its recorded height.
pub open spec fn sound_under(
    code: Seq<u8>,
    constants: Seq<Value>,
    heights: Map<int, int>,
    end_height: int,
    free: bool,
) -> bool {
    &&& balanced_under(code, heights, end_height, free)
    &&& forall|o: int| #[trigger] heights.contains_key(o) ==> safe_at(code, constants, heights, o)
}

/// Whether `code` with these constants is sound under some record of
/// heights that starts with an empty stack. Sound code cannot run out of
/// stack, name a constant or a local that is not there, or leave the code
/// by a jump.
pub open spec fn sound(code: Seq<u8>, constants: Seq<Value>) -> bool {
    exists|heights: Map<int, int>, end_height: int, free: bool|
        #![all_triggers]
        sound_under(code, constants, heights, end_height, free) && (code.len() > 0 ==> heights[0]
            == 0)
}

/// Reading on from a boundary that was reached comes to what lies behind
/// it.
pub proof fn lemma_scan_trans(code: Seq<u8>, from: int, mid: int, o: int)
    requires
        from <= mid <= o,
        scan(code, from, mid),
        scan(code, mid, o),
    ensures
        scan(code, from, o),
    decreases mid - from,
{
    if from < mid {
        lemma_scan_trans(code, from + instruction_len(code, from), mid, o);
    }
}

/// Of two offsets that reading from `from` comes to, the later is reached
/// from the earlier.
pub proof fn lemma_scan_linear(code: Seq<u8>, from: int, a: int, b: int)
    requires
        a <= b,
        scan(code, from, a),
        scan(code, from, b),
    ensures
        scan(code, a, b),
    decreases a - from,
{
    if from < a {
        lemma_scan_linear(code, from + instruction_len(code, from), a, b);
    }
}

/// Reading depends only on the bytes that it passes.
pub proof fn lemma_scan_agree(first: Seq<u8>, second: Seq<u8>, from: int, o: int)
    requires
        0 <= from,
        o <= first.len(),
        o <= second.len(),
        forall|p: int| from <= p < o ==> first[p] == second[p],
    ensures
        scan(first, from, o) == scan(second, from, o),
    decreases o - from,
{
    if from < o && from + instruction_len(first, from) <= o {
        lemma_scan_agree(first, second, from + instruction_len(first, from), o);
    }
}

/// No boundary lies inside an instruction.
pub proof fn lemma_boundaries_apart(code: Seq<u8>, a: int, b: int)
    requires
        boundary(code, a),
        boundary(code, b),
        a < b,
    ensures
        a + instruction_len(code, a) <= b,
{
    lemma_scan_linear(code, 0, a, b);
}

/// Whether the instruction at `o`, when it succeeds and control stays in
/// the function, can hand control to offset `to` with the stack `delta`
/// higher than it found it.
pub open spec fn steps_to(code: Seq<u8>, o: int, to: int, delta: int) -> bool {
    match Opcode::decode(code[o]) {
        None => false,
        Some(op) => match op {
            Opcode::Return => false,
            Opcode::Jump => to == o + 3 + wide_operand(code, o) && delta == 0,
            Opcode::JumpIfFalse => (to == o + 3 || to == o + 3 + wide_operand(code, o)) && delta
                == 0,
            Opcode::Loop => to == o + 3 - wide_operand(code, o) && delta == 0,
            _ => to == o + instruction_len(code, o) && delta == effect(op, code[o + 1] as int),
        },
    }
}

/// In balanced code the height of the stack goes with the place: an
/// instruction that finds the stack at the height recorded for it hands
/// control on to a place where the stack is at the height recorded there.
/// In particular every jump and loop lands on an instruction boundary.
pub proof fn lemma_step_lands(
    code: Seq<u8>,
    heights: Map<int, int>,
    end_height: int,
    free: bool,
    o: int,
    to: int,
    delta: int,
)
    requires
        balanced_under(code, heights, end_height, free),
        heights.contains_key(o),
        steps_to(code, o, to, delta),
    ensures
        lands(heights, code.len() as int, end_height, free, to, heights[o] + delta),
        boundary(code, to),
{
    assert(flows(code, heights, Set::empty(), end_height, free, o));
}

/// Whether `code` with these constants is the sound code of a script
/// under `heights`: it is sound, it starts with an empty stack, and control
/// never comes to its end, so that wherever control goes, a height is
/// recorded.
pub open spec fn script_sound_under(code: Seq<u8>, constants: Seq<Value>, heights: Map<int, int>)
    -> bool {
    &&& sound_under(code, constants, heights, 0, true)
    &&& code.len() > 0
    &&& heights[0] == 0
}

/// Whether `code` with these constants is the sound code of a script under
/// some record of heights.
pub open spec fn script_sound(code: Seq<u8>, constants: Seq<Value>) -> bool {
    exists|heights: Map<int, int>| #[trigger] script_sound_under(code, constants, heights)
}

/// The sound code of a script is sound, and sound code is balanced.
pub proof fn lemma_script_sound_is_sound(code: Seq<u8>, constants: Seq<Value>)
    requires
        script_sound(code, constants),
    ensures
        sound(code, constants),
        balanced(code),
{
    let heights = choose|heights: Map<int, int>| #[trigger]
        script_sound_under(code, constants, heights);
    assert(sound_under(code, constants, heights, 0, true));
    assert(balanced_under(code, heights, 0, true));
}

/// In balanced code every jump and every loop lands on an instruction
/// boundary, and its distance is what its two operand bytes hold: less
/// than 65536.
pub proof fn lemma_jumps_land_on_boundaries(code: Seq<u8>, o: int)
    requires
        balanced(code),
        boundary(code, o),
        o < code.len(),
        Opcode::decode(code[o]) == Some(Opcode::Jump) || Opcode::decode(code[o]) == Some(
            Opcode::JumpIfFalse,
        ) || Opcode::decode(code[o]) == Some(Opcode::Loop),
    ensures
        0 <= wide_operand(code, o) < 65536,
        Opcode::decode(code[o]) == Some(Opcode::Loop) ==> boundary(
            code,
            o + 3 - wide_operand(code, o),
        ),
        Opcode::decode(code[o]) != Some(Opcode::Loop) ==> boundary(
            code,
            o + 3 + wide_operand(code, o),
        ),
{
    let (heights, end_height, free) = choose|heights: Map<int, int>, end_height: int, free: bool|
        #![all_triggers]
        balanced_under(code, heights, end_height, free) && (code.len() > 0 ==> heights[0] == 0);
    assert(heights.contains_key(o));
    assert(flows(code, heights, Set::empty(), end_height, free, o));
}

/// In a chunk that is well formed every instruction has a source line.
pub proof fn lemma_every_instruction_has_a_line(chunk: crate::chunk::Chunk, o: int)
    requires
        chunk.wf(),
        boundary(chunk.code@, o),
        o < chunk.code@.len(),
    ensures
        chunk.lines@.contains_key(o as usize),
{
}

} // verus!
