use crate::chunk::Chunk;
use crate::interner::StrId;
use vstd::prelude::*;

verus! {

/// A compiled function: how many arguments it takes, its code, and its name
/// (the top-level script has none).
#[derive(Debug)]
pub struct Fun {
    pub arity: usize,
    pub chunk: Chunk,
    pub name: Option<StrId>,
}

impl Default for Fun {
    fn default() -> (fun: Fun)
        ensures
            fun.arity == 0,
            fun.name is None,
            fun.chunk.wf(),
            fun.chunk.code@.len() == 0,
            fun.chunk.constants@.len() == 0,
    {
        Fun::new()
    }
}

impl Fun {
    /// A function without arguments, code or name.
    pub fn new() -> (fun: Fun)
        ensures
            fun.arity == 0,
            fun.name is None,
            fun.chunk.wf(),
            fun.chunk.code@.len() == 0,
            fun.chunk.constants@.len() == 0,
    {
        Fun { arity: 0, chunk: Chunk::default(), name: None }
    }
}

/// What a compilation produces: a function's body, or the top-level script.
#[derive(Clone, Copy, PartialEq, Eq, Structural, Debug)]
pub enum FunType {
    Function,
    Script,
}

} // verus!
