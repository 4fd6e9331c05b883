use crate::chunk::Chunk;
use crate::common::Opcode;
use crate::layout::{
    boundary, covers, effect, fits, flows, instruction_len, lemma_boundaries_apart,
    lemma_scan_agree, lemma_scan_linear, lemma_scan_trans, needs, safe_at, scan, wide_operand,
};
use crate::value::Value;
use vstd::prelude::*;

verus! {

/// The farthest that a jump or a loop reaches: its operand is 16 bits wide.
pub const MAX_JUMP: usize = 65535;

/// A chunk under construction, together with what the compiler knows of the
/// code so far: the height of the stack at every instruction, and which
/// jumps still wait for their target.
///
/// `height` is the height at the end of the code. The end is `free` right
/// after an instruction that never hands control to its successor; the first
/// jump that is patched to a free end brings its own height along. `sound`
/// says that so far every patched jump and every loop found the height that
/// was recorded at its target, and was short enough for its operand.
pub struct Emitter {
    pub chunk: Chunk,
    pub heights: Ghost<Map<int, int>>,
    pub pending: Ghost<Set<int>>,
    pub height: Ghost<int>,
    pub free: Ghost<bool>,
    pub sound: Ghost<bool>,
}

impl Emitter {
    /// The code is a sequence of whole instructions, `heights` records each
    /// of them, every pending jump is one of them, and while the emitter is
    /// sound every instruction hands the stack on at the recorded heights.
    pub open spec fn inv(&self) -> bool {
        &&& self.chunk.wf()
        &&& covers(self.chunk.code@, self.heights@)
        &&& forall|o: int| #[trigger]
            self.pending@.contains(o) ==> self.heights@.contains_key(o) && (Opcode::decode(
                self.chunk.code@[o],
            ) == Some(Opcode::Jump) || Opcode::decode(self.chunk.code@[o]) == Some(
                Opcode::JumpIfFalse,
            ))
        &&& self.sound@ ==> forall|o: int| #[trigger]
            self.heights@.contains_key(o) ==> flows(
                self.chunk.code@,
                self.heights@,
                self.pending@,
                self.height@,
                self.free@,
                o,
            ) && safe_at(self.chunk.code@, self.chunk.constants@, self.heights@, o)
    }

    /// The length of the code so far.
    pub open spec fn len(&self) -> int {
        self.chunk.code@.len() as int
    }

    /// Whether `later` came from this emitter by appending instructions and
    /// by patching jumps that were appended in between: the code so far, its
    /// constants and its heights are kept, and what was appended first
    /// stands at the height that this emitter ended with.
    pub open spec fn grew_into(&self, later: &Emitter) -> bool {
        &&& self.len() <= later.len()
        &&& forall|p: int|
            0 <= p < self.len() ==> #[trigger] later.chunk.code@[p] == self.chunk.code@[p]
        &&& self.chunk.constants@.len() <= later.chunk.constants@.len()
        &&& forall|i: int|
            0 <= i < self.chunk.constants@.len() ==> #[trigger] later.chunk.constants@[i]
                == self.chunk.constants@[i]
        &&& forall|o: int| #[trigger]
            self.heights@.contains_key(o) ==> later.heights@.contains_key(o) && later.heights@[o]
                == self.heights@[o]
        &&& later.sound@ ==> self.sound@
        &&& later.len() > self.len() ==> later.heights@.contains_key(self.len())
            && later.heights@[self.len()] == self.height@
        &&& later.len() == self.len() ==> later.height@ == self.height@ && later.free@
            == self.free@
    }

    /// Whether `later` grew out of this emitter and the same jumps wait for
    /// their target: every jump that was appended in between is patched.
    pub open spec fn extended_by(&self, later: &Emitter) -> bool {
        &&& self.grew_into(later)
        &&& later.pending@ == self.pending@
    }

    /// An emitter without code, for a stack that starts empty.
    pub fn new() -> (emitter: Emitter)
        ensures
            emitter.inv(),
            emitter.len() == 0,
            emitter.chunk.constants@.len() == 0,
            emitter.chunk.lines@ == Map::<usize, usize>::empty(),
            emitter.heights@ == Map::<int, int>::empty(),
            emitter.pending@ == Set::<int>::empty(),
            emitter.height@ == 0,
            !emitter.free@,
            emitter.sound@,
    {
        Emitter {
            chunk: Chunk::default(),
            heights: Ghost(Map::empty()),
            pending: Ghost(Set::empty()),
            height: Ghost(0),
            free: Ghost(false),
            sound: Ghost(true),
        }
    }

    /// The length of the code so far.
    pub fn offset(&self) -> (n: usize)
        ensures
            n == self.len(),
    {
        self.chunk.code.len()
    }

    /// Appends a constant unless the chunk is full; the constant's index.
    pub fn add_constant(&mut self, value: Value) -> (index: Option<usize>)
        requires
            old(self).inv(),
        ensures
            final(self).inv(),
            final(self).chunk.code == old(self).chunk.code,
            final(self).chunk.lines == old(self).chunk.lines,
            final(self).heights == old(self).heights,
            final(self).pending == old(self).pending,
            final(self).height == old(self).height,
            final(self).free == old(self).free,
            final(self).sound == old(self).sound,
            index is Some <==> old(self).chunk.constants@.len() < 256,
            index is Some ==> index.unwrap() == old(self).chunk.constants@.len(),
            index is Some ==> final(self).chunk.constants@ == old(self).chunk.constants@.push(
                value,
            ),
            index is None ==> final(self).chunk.constants == old(self).chunk.constants,
            old(self).extended_by(final(self)),
    {
        let index = self.chunk.try_add_constant(value);
        proof {
            if self.sound@ {
                assert forall|o: int| #[trigger] self.heights@.contains_key(o) implies safe_at(
                    self.chunk.code@,
                    self.chunk.constants@,
                    self.heights@,
                    o,
                ) by {
                    assert(safe_at(
                        old(self).chunk.code@,
                        old(self).chunk.constants@,
                        old(self).heights@,
                        o,
                    ));
                }
            }
        }
        index
    }

    /// Appends an instruction without operands.
    pub fn emit_op(&mut self, op: Opcode, line: usize)
        requires
            old(self).inv(),
            op.operands() == 0,
        ensures
            final(self).inv(),
            final(self).chunk.code@ == old(self).chunk.code@.push(op.byte()),
            final(self).chunk.lines@ == old(self).chunk.lines@.insert(
                old(self).chunk.code@.len() as usize,
                line,
            ),
            final(self).chunk.constants == old(self).chunk.constants,
            final(self).heights@ == old(self).heights@.insert(old(self).len(), old(self).height@),
            final(self).pending == old(self).pending,
            final(self).height@ == old(self).height@ + effect(op, 0),
            final(self).free@ == (op == Opcode::Return),
            final(self).sound@ == (old(self).sound@ && old(self).height@ >= needs(op, 0)),
            old(self).extended_by(final(self)),
    {
        let ghost before = *self;
        self.chunk.write_opcode(op, line);
        proof {
            self.heights@ = before.heights@.insert(before.len(), before.height@);
            self.height@ = before.height@ + effect(op, 0);
            self.free@ = (op == Opcode::Return);
            self.sound@ = before.sound@ && before.height@ >= needs(op, 0);
            assert(self.chunk.code@.subrange(0, before.len()) =~= before.chunk.code@);
            lemma_appended(before, *self, op);
        }
    }

    /// Appends an instruction with one operand.
    pub fn emit_operand(&mut self, op: Opcode, operand: u8, line: usize)
        requires
            old(self).inv(),
            op.operands() == 1,
        ensures
            final(self).inv(),
            final(self).chunk.code@ == old(self).chunk.code@.push(op.byte()).push(operand),
            final(self).chunk.lines@ == old(self).chunk.lines@.insert(
                old(self).chunk.code@.len() as usize,
                line,
            ).insert((old(self).chunk.code@.len() + 1) as usize, line),
            final(self).chunk.constants == old(self).chunk.constants,
            final(self).heights@ == old(self).heights@.insert(old(self).len(), old(self).height@),
            final(self).pending == old(self).pending,
            final(self).height@ == old(self).height@ + effect(op, operand as int),
            !final(self).free@,
            final(self).sound@ == (old(self).sound@ && old(self).height@ >= needs(
                op,
                operand as int,
            ) && fits(op, operand as int, old(self).height@, old(self).chunk.constants@)),
            old(self).extended_by(final(self)),
    {
        let ghost before = *self;
        self.chunk.write_opcode(op, line);
        self.chunk.write_byte(operand, line);
        proof {
            self.heights@ = before.heights@.insert(before.len(), before.height@);
            self.height@ = before.height@ + effect(op, operand as int);
            self.free@ = false;
            self.sound@ = before.sound@ && before.height@ >= needs(op, operand as int) && fits(
                op,
                operand as int,
                before.height@,
                before.chunk.constants@,
            );
            assert(self.chunk.code@.subrange(0, before.len()) =~= before.chunk.code@);
            lemma_appended(before, *self, op);
        }
    }

    /// Appends a jump whose target is not known yet, and returns the offset
    /// of its operand, by which the jump is patched later.
    pub fn emit_jump(&mut self, op: Opcode, line: usize) -> (offset: usize)
        requires
            old(self).inv(),
            op == Opcode::Jump || op == Opcode::JumpIfFalse,
        ensures
            final(self).inv(),
            offset == old(self).len() + 1,
            final(self).chunk.code@ == old(self).chunk.code@.push(op.byte()).push(0xff).push(0xff),
            final(self).chunk.lines@ == old(self).chunk.lines@.insert(
                old(self).chunk.code@.len() as usize,
                line,
            ).insert((old(self).chunk.code@.len() + 1) as usize, line).insert(
                (old(self).chunk.code@.len() + 2) as usize,
                line,
            ),
            final(self).chunk.constants == old(self).chunk.constants,
            final(self).heights@ == old(self).heights@.insert(old(self).len(), old(self).height@),
            final(self).pending@ == old(self).pending@.insert(old(self).len()),
            !old(self).pending@.contains(old(self).len()),
            final(self).height == old(self).height,
            final(self).free@ == (op == Opcode::Jump),
            final(self).sound@ == (old(self).sound@ && old(self).height@ >= needs(op, 0)),
            old(self).grew_into(final(self)),
    {
        let ghost before = *self;
        self.chunk.write_opcode(op, line);
        self.chunk.write_byte(0xff, line);
        self.chunk.write_byte(0xff, line);
        proof {
            self.heights@ = before.heights@.insert(before.len(), before.height@);
            self.pending@ = before.pending@.insert(before.len());
            self.free@ = (op == Opcode::Jump);
            self.sound@ = before.sound@ && before.height@ >= needs(op, 0);
            assert(self.chunk.code@.subrange(0, before.len()) =~= before.chunk.code@);
            lemma_appended(before, *self, op);
        }
        self.chunk.code.len() - 2
    }

    /// Makes the jump whose operand is at `offset` land at the end of the
    /// code; `false` if that is farther than a jump reaches, and then the
    /// operand holds the distance without its upper bits.
    pub fn patch_jump(&mut self, offset: usize) -> (ok: bool)
        requires
            old(self).inv(),
            offset >= 1,
            old(self).pending@.contains(offset - 1),
        ensures
            final(self).inv(),
            ok == (old(self).len() - offset - 2 <= MAX_JUMP),
            final(self).len() == old(self).len(),
            final(self).chunk.code@ == old(self).chunk.code@.update(
                offset as int,
                (((old(self).len() - offset - 2) / 256) % 256) as u8,
            ).update(offset + 1, ((old(self).len() - offset - 2) % 256) as u8),
            final(self).chunk.constants == old(self).chunk.constants,
            final(self).chunk.lines == old(self).chunk.lines,
            final(self).heights == old(self).heights,
            final(self).pending@ == old(self).pending@.remove(offset - 1),
            final(self).height@ == (if old(self).free@ {
                old(self).heights@[offset - 1]
            } else {
                old(self).height@
            }),
            !final(self).free@,
            final(self).sound@ == (old(self).sound@ && ok && (old(self).free@ || old(self).height@
                == old(self).heights@[offset - 1])),
    {
        let ghost before = *self;
        proof {
            assert(before.heights@.contains_key(offset - 1));
        }
        let jump: usize = self.chunk.code.len() - offset - 2;
        let ok = jump <= MAX_JUMP;
        let high: u8 = ((jump / 256) % 256) as u8;
        let low: u8 = (jump % 256) as u8;
        self.chunk.code.set(offset, high);
        self.chunk.code.set(offset + 1, low);
        proof {
            self.pending@ = before.pending@.remove(offset - 1);
            if before.free@ {
                self.height@ = before.heights@[offset - 1];
            }
            self.free@ = false;
            self.sound@ = before.sound@ && ok && (before.free@ || before.height@
                == before.heights@[offset - 1]);
            lemma_patched(before, *self, offset - 1);
        }
        ok
    }

    /// Appends a loop back to `loop_start`; `false` if that is farther than
    /// a loop reaches, and then the operand holds the distance without its
    /// upper bits.
    pub fn emit_loop(&mut self, loop_start: usize, line: usize) -> (ok: bool)
        requires
            old(self).inv(),
            loop_start <= old(self).len(),
        ensures
            final(self).inv(),
            ok == (old(self).len() + 3 - loop_start <= MAX_JUMP),
            final(self).chunk.code@ == old(self).chunk.code@.push(Opcode::Loop.byte()).push(
                (((old(self).len() + 3 - loop_start) / 256) % 256) as u8,
            ).push(((old(self).len() + 3 - loop_start) % 256) as u8),
            final(self).chunk.lines@ == old(self).chunk.lines@.insert(
                old(self).chunk.code@.len() as usize,
                line,
            ).insert((old(self).chunk.code@.len() + 1) as usize, line).insert(
                (old(self).chunk.code@.len() + 2) as usize,
                line,
            ),
            final(self).chunk.constants == old(self).chunk.constants,
            final(self).heights@ == old(self).heights@.insert(old(self).len(), old(self).height@),
            final(self).pending == old(self).pending,
            final(self).height == old(self).height,
            final(self).free@,
            final(self).sound@ == (old(self).sound@ && ok && old(self).height@ >= 0 && (loop_start
                == old(self).len() || (old(self).heights@.contains_key(loop_start as int) && old(self).heights@[loop_start as int] == old(self).height@))),
            old(self).extended_by(final(self)),
    {
        let ghost before = *self;
        self.chunk.write_opcode(Opcode::Loop, line);
        self.chunk.write_byte(0xff, line);
        self.chunk.write_byte(0xff, line);
        let len: usize = self.chunk.code.len();
        let distance: usize = len - loop_start;
        let ok = distance <= MAX_JUMP;
        let high: u8 = ((distance / 256) % 256) as u8;
        let low: u8 = (distance % 256) as u8;
        self.chunk.code.set(len - 2, high);
        self.chunk.code.set(len - 1, low);
        proof {
            assert(self.chunk.code@ =~= before.chunk.code@.push(Opcode::Loop.byte()).push(
                high,
            ).push(low));
            assert(self.chunk.code@.subrange(0, before.len()) =~= before.chunk.code@);
            self.heights@ = before.heights@.insert(before.len(), before.height@);
            self.free@ = true;
            self.sound@ = before.sound@ && ok && before.height@ >= 0 && (loop_start
                == before.len() || (before.heights@.contains_key(loop_start as int)
                && before.heights@[loop_start as int] == before.height@));
            lemma_appended(before, *self, Opcode::Loop);
        }
        ok
    }
}

/// Appending an instruction keeps the emitter's invariant.
proof fn lemma_appended(before: Emitter, after: Emitter, op: Opcode)
    requires
        before.inv(),
        after.chunk.wf(),
        after.len() == before.len() + 1 + op.operands(),
        after.chunk.code@.subrange(0, before.len()) == before.chunk.code@,
        after.chunk.code@[before.len()] == op.byte(),
        after.heights@ == before.heights@.insert(before.len(), before.height@),
        after.pending@ == before.pending@ || ((op == Opcode::Jump || op == Opcode::JumpIfFalse)
            && after.pending@ == before.pending@.insert(before.len())),
        after.chunk.constants == before.chunk.constants,
        after.sound@ ==> before.sound@,
        after.sound@ ==> flows(
            after.chunk.code@,
            after.heights@,
            after.pending@,
            after.height@,
            after.free@,
            before.len(),
        ) && safe_at(after.chunk.code@, after.chunk.constants@, after.heights@, before.len()),
    ensures
        after.inv(),
        !before.pending@.contains(before.len()),
{
    let old_code = before.chunk.code@;
    let code = after.chunk.code@;
    let n = before.len();
    assert(forall|p: int| 0 <= p < n ==> code[p] == old_code[p]) by {
        assert(forall|p: int| 0 <= p < n ==> code.subrange(0, n)[p] == code[p]);
    }
    assert(Opcode::decode(code[n]) == Some(op));
    assert(instruction_len(code, n) == 1 + op.operands());
    // The old boundaries are boundaries still.
    assert forall|o: int| 0 <= o <= n implies scan(code, 0, o) == scan(old_code, 0, o) by {
        lemma_scan_agree(code, old_code, 0, o);
    }
    assert(scan(code, after.len(), after.len()));
    assert(scan(code, n, after.len()));
    lemma_scan_trans(code, 0, n, after.len());
    assert forall|o: int| #[trigger]
        after.heights@.contains_key(o) <==> boundary(code, o) && o < code.len() by {
        if n < o < code.len() && boundary(code, o) {
            lemma_scan_linear(code, 0, n, o);
        }
    }
    assert forall|o: int| #[trigger] after.heights@.contains_key(o) implies Opcode::decode(
        code[o],
    ) is Some && o + instruction_len(code, o) <= code.len() by {
        if o < n {
            assert(before.heights@.contains_key(o));
        }
    }
    assert(!before.pending@.contains(n)) by {
        if before.pending@.contains(n) {
            assert(before.heights@.contains_key(n));
        }
    }
    assert forall|o: int| #[trigger] after.pending@.contains(o) implies after.heights@.contains_key(
        o,
    ) && (Opcode::decode(code[o]) == Some(Opcode::Jump) || Opcode::decode(code[o]) == Some(
        Opcode::JumpIfFalse,
    )) by {
        if o != n {
            assert(before.pending@.contains(o));
        }
    }
    if after.sound@ {
        assert forall|o: int| #[trigger] after.heights@.contains_key(o) implies flows(
            code,
            after.heights@,
            after.pending@,
            after.height@,
            after.free@,
            o,
        ) && safe_at(code, after.chunk.constants@, after.heights@, o) by {
            if o < n {
                assert(before.heights@.contains_key(o));
                assert(flows(
                    old_code,
                    before.heights@,
                    before.pending@,
                    before.height@,
                    before.free@,
                    o,
                ));
                assert(safe_at(old_code, before.chunk.constants@, before.heights@, o));
                assert(o + instruction_len(old_code, o) <= n);
                assert(wide_operand(code, o) == wide_operand(old_code, o) || instruction_len(
                    old_code,
                    o,
                ) < 3);
                lemma_safe_agree(old_code, code, after.chunk.constants@, after.heights@, o);
            }
        }
    }
}

/// Whether an instruction is safe depends only on its opcode, and on its
/// first operand if it has one.
proof fn lemma_safe_agree(
    first: Seq<u8>,
    second: Seq<u8>,
    constants: Seq<Value>,
    heights: Map<int, int>,
    o: int,
)
    requires
        first[o] == second[o],
        instruction_len(first, o) >= 2 ==> first[o + 1] == second[o + 1],
    ensures
        safe_at(first, constants, heights, o) == safe_at(second, constants, heights, o),
{
}

/// Patching a pending jump keeps the emitter's invariant.
proof fn lemma_patched(before: Emitter, after: Emitter, jump: int)
    requires
        before.inv(),
        before.pending@.contains(jump),
        after.chunk.wf(),
        after.len() == before.len(),
        forall|p: int|
            0 <= p < before.len() && p != jump + 1 && p != jump + 2 ==> after.chunk.code@[p]
                == before.chunk.code@[p],
        after.heights == before.heights,
        after.chunk.constants == before.chunk.constants,
        after.pending@ == before.pending@.remove(jump),
        !after.free@,
        after.height@ == (if before.free@ {
            before.heights@[jump]
        } else {
            before.height@
        }),
        after.sound@ ==> before.sound@ && (before.free@ || before.height@ == before.heights@[jump])
            && jump + 3 + wide_operand(after.chunk.code@, jump) == before.len(),
    ensures
        after.inv(),
{
    let old_code = before.chunk.code@;
    let code = after.chunk.code@;
    let n = before.len();
    assert(before.heights@.contains_key(jump));
    assert(instruction_len(old_code, jump) == 3);
    assert(jump + 3 <= n);
    // No instruction starts inside the jump.
    assert forall|o: int| #[trigger] before.heights@.contains_key(o) && o != jump implies (o + 3
        <= jump || jump + 3 <= o || (o < jump && instruction_len(old_code, o) < 3 && o
        + instruction_len(old_code, o) <= jump)) by {
        if o < jump {
            lemma_boundaries_apart(old_code, o, jump);
        } else {
            lemma_boundaries_apart(old_code, jump, o);
        }
    }
    assert forall|o: int| 0 <= o <= n implies (scan(code, 0, o) == scan(old_code, 0, o)) by {
        if o <= jump {
            lemma_scan_agree(code, old_code, 0, o);
        } else if o < jump + 3 {
            if scan(old_code, 0, o) {
                lemma_scan_linear(old_code, 0, jump, o);
            }
            lemma_scan_agree(code, old_code, 0, jump);
            if scan(code, 0, o) {
                lemma_scan_linear(code, 0, jump, o);
            }
        } else {
            lemma_scan_agree(code, old_code, 0, jump);
            lemma_scan_agree(code, old_code, jump + 3, o);
            if scan(old_code, 0, o) {
                lemma_scan_linear(old_code, 0, jump, o);
                lemma_scan_trans(code, 0, jump, o);
            }
            if scan(code, 0, o) {
                lemma_scan_linear(code, 0, jump, o);
                lemma_scan_trans(old_code, 0, jump, o);
            }
        }
    }
    assert forall|o: int| #[trigger] after.heights@.contains_key(o) implies Opcode::decode(
        code[o],
    ) is Some && o + instruction_len(code, o) <= code.len() by {
        assert(code[o] == old_code[o]);
    }
    assert forall|o: int| #[trigger] after.pending@.contains(o) implies after.heights@.contains_key(
        o,
    ) && (Opcode::decode(code[o]) == Some(Opcode::Jump) || Opcode::decode(code[o]) == Some(
        Opcode::JumpIfFalse,
    )) by {
        assert(before.pending@.contains(o));
        assert(code[o] == old_code[o]);
    }
    if after.sound@ {
        assert forall|o: int| #[trigger] after.heights@.contains_key(o) implies flows(
            code,
            after.heights@,
            after.pending@,
            after.height@,
            after.free@,
            o,
        ) && safe_at(code, after.chunk.constants@, after.heights@, o) by {
            assert(flows(
                old_code,
                before.heights@,
                before.pending@,
                before.height@,
                before.free@,
                o,
            ));
            assert(safe_at(old_code, before.chunk.constants@, before.heights@, o));
            assert(code[o] == old_code[o]);
            if o != jump {
                assert(instruction_len(old_code, o) == 3 ==> wide_operand(code, o) == wide_operand(
                    old_code,
                    o,
                ));
                assert(instruction_len(old_code, o) == 2 ==> code[o + 1] == old_code[o + 1]);
            }
        }
    }
}

} // verus!
