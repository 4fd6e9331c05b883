use crate::common::Opcode;
use crate::value::{Value, ValueArray};
use std::collections::HashMap;
use vstd::prelude::*;

verus! {

broadcast use vstd::std_specs::hash::group_hash_axioms;

/// The most constants that one chunk holds: an instruction names a constant
/// by one byte.
pub const MAX_CONSTANTS: usize = 256;

/// A compiled unit of bytecode: the code, the constants that the code names
/// by index, and the source line of each byte of code.
#[derive(Debug)]
pub struct Chunk {
    pub code: Vec<u8>,
    pub lines: HashMap<usize, usize>,
    pub constants: ValueArray,
}

impl Default for Chunk {
    fn default() -> (chunk: Chunk)
        ensures
            chunk.wf(),
            chunk.code@.len() == 0,
            chunk.constants@.len() == 0,
            chunk.lines@ == Map::<usize, usize>::empty(),
    {
        Chunk { code: Vec::new(), lines: HashMap::new(), constants: Vec::new() }
    }
}

impl Chunk {
    /// Every byte of code has a source line, and every constant an index of
    /// one byte.
    pub open spec fn wf(&self) -> bool {
        &&& self.constants@.len() <= MAX_CONSTANTS
        &&& forall|offset: usize| offset < self.code@.len() ==> self.lines@.contains_key(offset)
    }

    /// Appends one byte of code that comes from source line `line`.
    pub fn write_byte(&mut self, data: u8, line: usize)
        requires
            old(self).wf(),
        ensures
            final(self).wf(),
            final(self).code@ == old(self).code@.push(data),
            final(self).lines@ == old(self).lines@.insert(old(self).code@.len() as usize, line),
            final(self).constants == old(self).constants,
    {
        self.lines.insert(self.code.len(), line);
        self.code.push(data);
    }

    /// Appends an opcode that comes from source line `line`.
    pub fn write_opcode(&mut self, opcode: Opcode, line: usize)
        requires
            old(self).wf(),
        ensures
            final(self).wf(),
            final(self).code@ == old(self).code@.push(opcode.byte()),
            final(self).lines@ == old(self).lines@.insert(old(self).code@.len() as usize, line),
            final(self).constants == old(self).constants,
    {
        self.write_byte(opcode.to_byte(), line);
    }

    /// Appends a constant and returns its index.
    pub fn add_constant(&mut self, value: Value) -> (index: usize)
        requires
            old(self).wf(),
            old(self).constants@.len() < MAX_CONSTANTS,
        ensures
            final(self).wf(),
            index == old(self).constants@.len(),
            final(self).constants@ == old(self).constants@.push(value),
            final(self).code == old(self).code,
            final(self).lines == old(self).lines,
    {
        self.constants.push(value);
        self.constants.len() - 1
    }

    /// Appends a constant unless the chunk is full; the constant's index, or
    /// `None` from a full chunk, which stays as it is.
    pub fn try_add_constant(&mut self, value: Value) -> (index: Option<usize>)
        requires
            old(self).wf(),
        ensures
            final(self).wf(),
            final(self).code == old(self).code,
            final(self).lines == old(self).lines,
            index is Some <==> old(self).constants@.len() < MAX_CONSTANTS,
            index is Some ==> index.unwrap() == old(self).constants@.len(),
            index is Some ==> final(self).constants@ == old(self).constants@.push(value),
            index is None ==> final(self).constants == old(self).constants,
    {
        if self.constants.len() < MAX_CONSTANTS {
            Some(self.add_constant(value))
        } else {
            None
        }
    }

    /// The source line of the byte at `offset`, if the chunk records one.
    pub fn line_at(&self, offset: usize) -> (line: Option<usize>)
        ensures
            line == (if self.lines@.contains_key(offset) {
                Some(self.lines@[offset])
            } else {
                None
            }),
    {
        match self.lines.get(&offset) {
            Some(line) => Some(*line),
            None => None,
        }
    }
}

} // verus!
