use crate::common::Opcode;
use crate::fun::Fun;
use crate::interner::{handle_of, has_room, interned, Interner, StrId};
use crate::layout::{effect, instruction_len, needs, steps_to, wide_operand};
use crate::native::Native;
use crate::number::{Arithmetic, Comparison, Number, NumberOps, Unary};
use crate::text::{decimal, push_decimal, push_padded_decimal};
use crate::value::{
    equal_under, equal_values, falsey, falsey_under, is_falsey, value_as_string, values_equal, Heap,
    Value,
};
use crate::globals::{globals_get, globals_insert, globals_new, Globals};
use vstd::prelude::*;

verus! {

/// The call of one function that is under way: which function, where in
/// its code, how long the stack was before the callee was pushed, and
/// where on the stack the call's slots start.
#[derive(Debug, Default, Clone, Copy, PartialEq, Eq, Structural)]
pub struct CallFrame {
    pub fun_idx: usize,
    pub ip: usize,
    pub start_len: usize,
    pub slot_offset: usize,
}

/// For how many values and calls a machine sets room aside at its start.
pub const RESERVED: usize = 10240;

/// The name of the global that tells a script why a native failed.
pub const ERR_STRING: &'static str = "errString";

/// Why a script cannot go on.
#[derive(Debug, Clone, Copy, PartialEq, Eq, Structural)]
pub enum Fault {
    /// An arithmetic operator or a comparison met these two operands, of
    /// which one is no number.
    OperandsMustBeNumbers(Value, Value),
    /// `-` met an operand that is no number.
    OperandMustBeNumber(Value),
    /// A global of this name is read or assigned, and none is defined.
    UndefinedVariable(StrId),
    /// An array has no element at this index.
    IndexOutOfBounds { index: usize, writing: bool },
    /// An array is indexed with a number that is negative or not whole.
    IndexNotWhole { writing: bool },
    /// A value that is no array is indexed, or the index is no number.
    NotIndexable { target: Value, key: Value, writing: bool },
    /// The size of an array is no number.
    ExpectedNumber(Value),
    /// A value that is no function is called.
    NotCallable(Value),
    /// A function is called with the wrong number of arguments.
    WrongArity { expected: usize, got: usize },
    /// The stack holds fewer values than an instruction takes.
    StackUnderflow,
    /// A byte of code is no opcode.
    InvalidOpcode(u8),
    /// The code ends inside an instruction, or control left the code.
    CodeOverrun,
    /// An instruction names a constant that the chunk does not hold.
    BadConstant(u8),
    /// The constant that names a global is no string.
    BadName(Value),
    /// An instruction names a local beyond the stack.
    BadSlot(u8),
    /// A function value names no function.
    BadFunction(usize),
    /// The interner holds as many strings as it can.
    OutOfStrings,
    /// A string value names no string of the interner.
    UnknownString(Value),
}

impl Fault {
    /// Whether the fault lies in the code rather than in the values that
    /// the script computes: an instruction that is cut off or no
    /// instruction, that finds the stack too low, or that names a constant
    /// or a local that is not there.
    pub open spec fn structural(self) -> bool {
        self is StackUnderflow || self is InvalidOpcode || self is CodeOverrun
            || self is BadConstant || self is BadName || self is BadSlot
    }
}

/// A line of a traceback: a call that was under way, by the source line it
/// had come to and the name of its function (`None` for the script).
#[derive(Debug, Clone, Copy, PartialEq, Eq, Structural)]
pub struct TraceLine {
    pub line: usize,
    pub function: Option<StrId>,
}

/// A runtime error: the fault, and the calls that were under way, the
/// innermost first.
#[derive(Debug, PartialEq, Eq)]
pub struct RuntimeError {
    pub fault: Fault,
    pub trace: Vec<TraceLine>,
}

/// What the machine asks of its embedder when it stops.
#[derive(Debug, PartialEq, Eq)]
pub enum Signal {
    /// Write this text and a line break, then run on.
    Print(String),
    /// Show this prompt, read a line, hand it to `provide_input`, then
    /// run on.
    Read(String),
    /// Wait this many milliseconds, then run on.
    Sleep(u64),
    /// The steps that were granted are used up; run on at will.
    Paused,
    /// The script has ended.
    Done,
    /// The script failed; the machine has halted.
    Error(RuntimeError),
}

/// A native call that waits for a line of input.
#[derive(Debug)]
pub struct Awaiting {
    pub native: Native,
    pub arg_count: usize,
    pub prompt: String,
}

/// The virtual machine: the functions of a program, the stack of values,
/// the calls under way, the arrays, and the globals by the handle of their
/// name.
///
/// The machine has halted when no call is under way.
pub struct Vm {
    pub frames: Vec<CallFrame>,
    pub functions: Vec<Fun>,
    pub stack: Vec<Value>,
    pub heap: Heap,
    pub globals: Globals,
    pub global_error_id: Option<StrId>,
    pub awaiting: Option<Awaiting>,
}

impl Vm {
    /// Every call under way is of a function of the program.
    pub open spec fn wf(&self) -> bool {
        &&& forall|i: int|
            0 <= i < self.frames@.len() ==> (#[trigger] self.frames@[i]).fun_idx
                < self.functions@.len()
        &&& self.awaiting is Some ==> self.frames@.len() > 0 && self.awaiting.unwrap().arg_count
            < self.stack@.len() && self.awaiting.unwrap().arg_count
            == self.awaiting.unwrap().native.arity_spec()
    }

    /// Whether the machine can take a step: a call is under way and no
    /// input is awaited.
    pub open spec fn running(&self) -> bool {
        self.frames@.len() > 0 && self.awaiting is None
    }

    /// The innermost call.
    pub open spec fn frame(&self) -> CallFrame {
        self.frames@.last()
    }

    /// The code of the function that is being executed.
    pub open spec fn code(&self) -> Seq<u8> {
        self.functions@[self.frame().fun_idx as int].chunk.code@
    }

    /// The constants of the function that is being executed.
    pub open spec fn constants(&self) -> Seq<Value> {
        self.functions@[self.frame().fun_idx as int].chunk.constants@
    }

    /// Whether all but the stack is as in `earlier`.
    pub open spec fn same_but_stack(&self, earlier: &Vm) -> bool {
        &&& self.frames == earlier.frames
        &&& self.functions == earlier.functions
        &&& self.heap == earlier.heap
        &&& self.globals == earlier.globals
        &&& self.global_error_id == earlier.global_error_id
        &&& self.awaiting == earlier.awaiting
    }

    /// A machine that is about to run the last of `functions`, the script,
    /// with an empty stack and no globals. The name of the error global is
    /// interned.
    pub fn new(interner: &mut Interner, functions: Vec<Fun>) -> (vm: Vm)
        requires
            old(interner).wf(),
            functions@.len() > 0,
        ensures
            final(interner).wf(),
            old(interner).kept_by(final(interner)),
            vm.wf(),
            vm.running(),
            vm.functions == functions,
            vm.frames@.len() == 1,
            vm.frame().fun_idx == functions@.len() - 1,
            vm.frame().ip == 0,
            vm.frame().start_len == 0,
            vm.frame().slot_offset == 0,
            vm.stack@.len() == 0,
            vm.heap@.len() == 0,
            vm.globals@ == Map::<u32, Value>::empty(),
            vm.global_error_id is Some ==> final(interner).knows(vm.global_error_id.unwrap())
                && final(interner)@[vm.global_error_id.unwrap().index()] == ERR_STRING@,
            vm.awaiting is None,
            final(interner)@ == interned(old(interner)@, ERR_STRING@),
            vm.global_error_id == (if has_room(old(interner)@, ERR_STRING@) {
                Some(handle_of(old(interner)@, ERR_STRING@))
            } else {
                None
            }),
    {
        let global_error_id = interner.try_intern(ERR_STRING);
        let mut frames: Vec<CallFrame> = Vec::with_capacity(RESERVED);
        frames.push(
            CallFrame { fun_idx: functions.len() - 1, ip: 0, start_len: 0, slot_offset: 0 },
        );
        Vm {
            frames,
            functions,
            stack: Vec::with_capacity(RESERVED),
            heap: Heap::new(),
            globals: globals_new(),
            global_error_id,
            awaiting: None,
        }
    }

    /// Takes the top value off the stack.
    pub fn pop(&mut self) -> (r: Result<Value, Fault>)
        ensures
            final(self).same_but_stack(old(self)),
            match r {
                Ok(value) => old(self).stack@.len() > 0 && value == old(self).stack@.last()
                    && final(self).stack@ == old(self).stack@.drop_last(),
                Err(fault) => old(self).stack@.len() == 0 && fault == Fault::StackUnderflow
                    && final(self).stack@ == old(self).stack@,
            },
    {
        match self.stack.pop() {
            Some(value) => {
                assert(self.stack@ =~= old(self).stack@.drop_last());
                Ok(value)
            },
            None => Err(Fault::StackUnderflow),
        }
    }

    /// Takes the two top values off the stack: the lower one, then the top.
    fn pop_pair(&mut self) -> (r: Result<(Value, Value), Fault>)
        ensures
            final(self).same_but_stack(old(self)),
            match r {
                Ok(pair) => old(self).stack@.len() >= 2 && pair.0 == old(self).stack@[old(self).stack@.len() - 2] && pair.1 == old(self).stack@.last() && final(self).stack@
                    == old(self).stack@.subrange(0, old(self).stack@.len() - 2),
                Err(fault) => old(self).stack@.len() < 2 && fault == Fault::StackUnderflow,
            },
    {
        let top = self.pop()?;
        let below = self.pop()?;
        assert(self.stack@ =~= old(self).stack@.subrange(0, old(self).stack@.len() - 2));
        Ok((below, top))
    }

    /// Puts a value on the stack.
    pub fn push(&mut self, value: Value)
        ensures
            final(self).same_but_stack(old(self)),
            final(self).stack@ == old(self).stack@.push(value),
    {
        self.stack.push(value);
    }

    /// The value `distance` below the top of the stack.
    pub fn peek(&self, distance: usize) -> (r: Result<Value, Fault>)
        ensures
            match r {
                Ok(value) => distance < self.stack@.len() && value == self.stack@[self.stack@.len()
                    - 1 - distance],
                Err(fault) => distance >= self.stack@.len() && fault == Fault::StackUnderflow,
            },
    {
        if distance < self.stack.len() {
            Ok(self.stack[self.stack.len() - 1 - distance])
        } else {
            Err(Fault::StackUnderflow)
        }
    }

    /// Moves the innermost call to offset `ip` of its code.
    fn jump_to(&mut self, ip: usize)
        requires
            old(self).wf(),
            old(self).frames@.len() > 0,
        ensures
            final(self).wf(),
            final(self).frames@ == old(self).frames@.update(
                old(self).frames@.len() - 1,
                CallFrame { ip, ..old(self).frame() },
            ),
            final(self).functions == old(self).functions,
            final(self).stack == old(self).stack,
            final(self).heap == old(self).heap,
            final(self).globals == old(self).globals,
            final(self).global_error_id == old(self).global_error_id,
            final(self).awaiting == old(self).awaiting,
    {
        let last: usize = self.frames.len() - 1;
        let frame = self.frames[last];
        self.frames.set(last, CallFrame { ip, ..frame });
    }

    /// Whether this machine came from `earlier` by an instruction that
    /// stayed in its function, did not move in the code, and left the
    /// stack `delta` higher.
    pub open spec fn kept(&self, earlier: &Vm, delta: int) -> bool {
        &&& self.held(earlier)
        &&& self.stack@.len() == earlier.stack@.len() + delta
    }

    /// Whether the calls under way, the program and the awaited input are
    /// as in `earlier`.
    pub open spec fn held(&self, earlier: &Vm) -> bool {
        &&& self.wf()
        &&& self.frames == earlier.frames
        &&& self.functions == earlier.functions
        &&& self.awaiting == earlier.awaiting
        &&& self.global_error_id == earlier.global_error_id
    }

    /// `CONSTANT`: pushes the constant with this index.
    pub fn op_constant(&mut self, index: u8) -> (r: Result<(), Fault>)
        requires
            old(self).wf(),
            old(self).awaiting is None,
            old(self).frames@.len() > 0,
        ensures
            r is Err ==> arises(old(self), Opcode::Constant, index as int, r->Err_0),
            fault_of(old(self), Opcode::Constant, index as int) is Some ==> r is Err,
            final(self).held(old(self)),
            final(self).heap == old(self).heap,
            final(self).globals == old(self).globals,
            r is Ok <==> index < old(self).constants().len(),
            r is Ok ==> final(self).stack@ == old(self).stack@.push(
                old(self).constants()[index as int],
            ),
            r is Err ==> r == Err::<(), Fault>(Fault::BadConstant(index)),
    {
        let value = self.read_constant(index)?;
        self.push(value);
        Ok(())
    }

    /// The constant with this index of the function that is being
    /// executed.
    pub fn read_constant(&self, index: u8) -> (r: Result<Value, Fault>)
        requires
            self.wf(),
            self.frames@.len() > 0,
        ensures
            r is Ok <==> index < self.constants().len(),
            r is Ok ==> r.unwrap() == self.constants()[index as int],
            r is Err ==> r == Err::<Value, Fault>(Fault::BadConstant(index)),
    {
        let frame = self.frames[self.frames.len() - 1];
        let constants = &self.functions[frame.fun_idx].chunk.constants;
        if (index as usize) < constants.len() {
            Ok(constants[index as usize])
        } else {
            Err(Fault::BadConstant(index))
        }
    }

    /// The handle of the name that the constant with this index holds.
    pub fn read_string_or_id(&self, index: u8) -> (r: Result<StrId, Fault>)
        requires
            self.wf(),
            self.frames@.len() > 0,
        ensures
            match r {
                Ok(id) => index < self.constants().len() && (self.constants()[index as int]
                    == Value::Str(id) || self.constants()[index as int] == Value::Identifier(id)),
                Err(fault) => if index < self.constants().len() {
                    fault == Fault::BadName(self.constants()[index as int])
                        && !(self.constants()[index as int] is Str)
                        && !(self.constants()[index as int] is Identifier)
                } else {
                    fault == Fault::BadConstant(index)
                },
            },
    {
        match self.read_constant(index)? {
            Value::Str(id) => Ok(id),
            Value::Identifier(id) => Ok(id),
            other => Err(Fault::BadName(other)),
        }
    }

    /// `POP`: drops the top of the stack.
    pub fn op_pop(&mut self) -> (r: Result<(), Fault>)
        requires
            old(self).wf(),
            old(self).awaiting is None,
        ensures
            r is Err ==> arises(old(self), Opcode::Pop, 0, r->Err_0),
            fault_of(old(self), Opcode::Pop, 0) is Some ==> r is Err,
            final(self).held(old(self)),
            final(self).heap == old(self).heap,
            final(self).globals == old(self).globals,
            r is Ok <==> old(self).stack@.len() > 0,
            r is Ok ==> final(self).stack@ == old(self).stack@.drop_last(),
            r is Err ==> r == Err::<(), Fault>(Fault::StackUnderflow),
    {
        let _ = self.pop()?;
        Ok(())
    }

    /// `NEGATE`: replaces the number on top of the stack by its negative.
    pub fn op_negate<N: NumberOps>(&mut self, ops: &N) -> (r: Result<(), Fault>)
        requires
            old(self).wf(),
            old(self).awaiting is None,
        ensures
            r is Err ==> arises(old(self), Opcode::Negate, 0, r->Err_0),
            fault_of(old(self), Opcode::Negate, 0) is Some ==> r is Err,
            final(self).held(old(self)),
            final(self).heap == old(self).heap,
            final(self).globals == old(self).globals,
            r is Ok <==> old(self).stack@.len() > 0 && old(self).stack@.last() is Number,
            r is Ok ==> final(self).stack@.len() == old(self).stack@.len() && final(self).stack@.last() is Number && final(self).stack@.drop_last() == old(self).stack@.drop_last(),
            r is Ok ==> ops.unary_gives(
                Unary::Negate,
                old(self).stack@.last()->Number_0,
                final(self).stack@.last()->Number_0,
            ),
            r is Err ==> r == Err::<(), Fault>(
                if old(self).stack@.len() == 0 {
                    Fault::StackUnderflow
                } else {
                    Fault::OperandMustBeNumber(old(self).stack@.last())
                },
            ),
    {
        let value = self.pop()?;
        match value {
            Value::Number(n) => {
                self.push(Value::Number(ops.unary(Unary::Negate, n)));
                assert(self.stack@.drop_last() =~= old(self).stack@.drop_last());
                Ok(())
            },
            other => Err(Fault::OperandMustBeNumber(other)),
        }
    }

    /// `NOT`: replaces the top of the stack by whether it counts as false.
    pub fn op_not<N: NumberOps>(&mut self, ops: &N) -> (r: Result<(), Fault>)
        requires
            old(self).wf(),
            old(self).awaiting is None,
        ensures
            r is Err ==> arises(old(self), Opcode::Not, 0, r->Err_0),
            fault_of(old(self), Opcode::Not, 0) is Some ==> r is Err,
            final(self).held(old(self)),
            final(self).heap == old(self).heap,
            final(self).globals == old(self).globals,
            r is Ok <==> old(self).stack@.len() > 0,
            r is Ok ==> final(self).stack@.len() == old(self).stack@.len() && final(self).stack@.drop_last() == old(self).stack@.drop_last() && exists|zero: bool|
                final(self).stack@.last() == Value::Bool(
                    falsey(old(self).stack@.last(), old(self).heap@, zero),
                ),
            r is Ok ==> final(self).stack@.last() is Bool && falsey_under(
                ops,
                old(self).stack@.last(),
                old(self).heap@,
                final(self).stack@.last()->Bool_0,
            ),
            r is Err ==> r == Err::<(), Fault>(Fault::StackUnderflow),
    {
        let value = self.pop()?;
        let answer = is_falsey(&value, &self.heap, ops);
        self.push(Value::Bool(answer));
        proof {
            assert(self.stack@.drop_last() =~= old(self).stack@.drop_last());
            let zero = choose|zero: bool| answer == falsey(value, self.heap@, zero);
            assert(self.stack@.last() == Value::Bool(falsey(value, old(self).heap@, zero)));
            assert(zero == true || zero == false);
        }
        Ok(())
    }

    /// `EQUAL`: replaces the two top values by whether they are equal.
    pub fn op_equal<N: NumberOps>(&mut self, ops: &N) -> (r: Result<(), Fault>)
        requires
            old(self).wf(),
            old(self).awaiting is None,
        ensures
            r is Err ==> arises(old(self), Opcode::Equal, 0, r->Err_0),
            fault_of(old(self), Opcode::Equal, 0) is Some ==> r is Err,
            final(self).held(old(self)),
            final(self).heap == old(self).heap,
            final(self).globals == old(self).globals,
            r is Ok <==> old(self).stack@.len() >= 2,
            r is Ok ==> final(self).stack@.len() == old(self).stack@.len() - 1 && final(self).stack@.drop_last() == old(self).stack@.subrange(0, old(self).stack@.len() - 2)
                && (final(self).stack@.last() == Value::Bool(
                equal_values(
                    old(self).stack@[old(self).stack@.len() - 2],
                    old(self).stack@.last(),
                    true,
                ),
            ) || final(self).stack@.last() == Value::Bool(
                equal_values(
                    old(self).stack@[old(self).stack@.len() - 2],
                    old(self).stack@.last(),
                    false,
                ),
            )),
            r is Err ==> r == Err::<(), Fault>(Fault::StackUnderflow),
            r is Ok ==> final(self).stack@.last() is Bool && equal_under(
                ops,
                old(self).stack@[old(self).stack@.len() - 2],
                old(self).stack@.last(),
                final(self).stack@.last()->Bool_0,
            ),
    {
        let (left, right) = self.pop_pair()?;
        let answer = values_equal(&left, &right, ops);
        self.push(Value::Bool(answer));
        proof {
            assert(self.stack@.drop_last() =~= old(self).stack@.subrange(
                0,
                old(self).stack@.len() - 2,
            ));
            let near = choose|near: bool| answer == equal_values(left, right, near);
            assert(self.stack@.last() == Value::Bool(equal_values(left, right, near)));
            assert(near == true || near == false);
        }
        Ok(())
    }

    /// `SUBTRACT`, `MULTIPLY`, `DIVIDE`, `MODULO`: replaces the two numbers
    /// on top of the stack by the result of the operator.
    pub fn op_arithmetic<N: NumberOps>(&mut self, op: Arithmetic, ops: &N) -> (r: Result<(), Fault>)
        requires
            old(self).wf(),
            old(self).awaiting is None,
        ensures
            r is Err ==> arises(old(self), Opcode::Subtract, 0, r->Err_0),
            fault_of(old(self), Opcode::Subtract, 0) is Some ==> r is Err,
            final(self).held(old(self)),
            final(self).heap == old(self).heap,
            final(self).globals == old(self).globals,
            r is Ok <==> old(self).stack@.len() >= 2 && old(self).stack@.last() is Number && old(self).stack@[old(self).stack@.len() - 2] is Number,
            r is Ok ==> final(self).stack@.len() == old(self).stack@.len() - 1 && final(self).stack@.drop_last() == old(self).stack@.subrange(0, old(self).stack@.len() - 2)
                && final(self).stack@.last() is Number,
            r is Ok ==> ops.binary_gives(
                op,
                old(self).stack@[old(self).stack@.len() - 2]->Number_0,
                old(self).stack@.last()->Number_0,
                final(self).stack@.last()->Number_0,
            ),
            r is Err ==> r == Err::<(), Fault>(
                if old(self).stack@.len() < 2 {
                    Fault::StackUnderflow
                } else {
                    Fault::OperandsMustBeNumbers(
                        old(self).stack@[old(self).stack@.len() - 2],
                        old(self).stack@.last(),
                    )
                },
            ),
    {
        let (left, right) = self.pop_pair()?;
        match (left, right) {
            (Value::Number(a), Value::Number(b)) => {
                self.push(Value::Number(ops.binary(op, a, b)));
                assert(self.stack@.drop_last() =~= old(self).stack@.subrange(
                    0,
                    old(self).stack@.len() - 2,
                ));
                Ok(())
            },
            _ => Err(Fault::OperandsMustBeNumbers(left, right)),
        }
    }

    /// `GREATER`, `LESS`: replaces the two numbers on top of the stack by
    /// whether the comparison holds of them.
    pub fn op_compare<N: NumberOps>(&mut self, op: Comparison, ops: &N) -> (r: Result<(), Fault>)
        requires
            old(self).wf(),
            old(self).awaiting is None,
        ensures
            r is Err ==> arises(old(self), Opcode::Greater, 0, r->Err_0),
            fault_of(old(self), Opcode::Greater, 0) is Some ==> r is Err,
            final(self).held(old(self)),
            final(self).heap == old(self).heap,
            final(self).globals == old(self).globals,
            r is Ok <==> old(self).stack@.len() >= 2 && old(self).stack@.last() is Number && old(self).stack@[old(self).stack@.len() - 2] is Number,
            r is Ok ==> final(self).stack@.len() == old(self).stack@.len() - 1 && final(self).stack@.drop_last() == old(self).stack@.subrange(0, old(self).stack@.len() - 2)
                && final(self).stack@.last() is Bool,
            r is Ok ==> ops.compare_gives(
                op,
                old(self).stack@[old(self).stack@.len() - 2]->Number_0,
                old(self).stack@.last()->Number_0,
                final(self).stack@.last()->Bool_0,
            ),
            r is Err ==> r == Err::<(), Fault>(
                if old(self).stack@.len() < 2 {
                    Fault::StackUnderflow
                } else {
                    Fault::OperandsMustBeNumbers(
                        old(self).stack@[old(self).stack@.len() - 2],
                        old(self).stack@.last(),
                    )
                },
            ),
    {
        let (left, right) = self.pop_pair()?;
        match (left, right) {
            (Value::Number(a), Value::Number(b)) => {
                self.push(Value::Bool(ops.compare(op, a, b)));
                assert(self.stack@.drop_last() =~= old(self).stack@.subrange(
                    0,
                    old(self).stack@.len() - 2,
                ));
                Ok(())
            },
            _ => Err(Fault::OperandsMustBeNumbers(left, right)),
        }
    }

    /// `ADD`: replaces the two top values by their sum if they are numbers,
    /// and by the string that joins them if they are two strings, or a
    /// string and a number.
    pub fn op_add<N: NumberOps>(&mut self, interner: &mut Interner, ops: &N) -> (r: Result<(), Fault>)
        requires
            old(self).wf(),
            old(self).awaiting is None,
            old(interner).wf(),
        ensures
            r is Err ==> arises(old(self), Opcode::Add, 0, r->Err_0),
            fault_of(old(self), Opcode::Add, 0) is Some ==> r is Err,
            final(self).held(old(self)),
            final(self).heap == old(self).heap,
            final(self).globals == old(self).globals,
            final(interner).wf(),
            old(interner).kept_by(final(interner)),
            old(self).stack@.len() < 2 ==> r == Err::<(), Fault>(Fault::StackUnderflow),
            r is Ok ==> old(self).stack@.len() >= 2 && final(self).stack@.len() == old(self).stack@.len() - 1 && final(self).stack@.drop_last() == old(self).stack@.subrange(
                0,
                old(self).stack@.len() - 2,
            ) && added(
                old(self).stack@[old(self).stack@.len() - 2],
                old(self).stack@.last(),
                final(self).stack@.last(),
                old(interner)@,
                final(interner)@,
            ),
            old(self).stack@.len() >= 2 && !addable(
                old(self).stack@[old(self).stack@.len() - 2],
                old(self).stack@.last(),
            ) ==> r == Err::<(), Fault>(
                Fault::OperandsMustBeNumbers(
                    old(self).stack@[old(self).stack@.len() - 2],
                    old(self).stack@.last(),
                ),
            ),
            old(self).stack@.len() >= 2 ==> exists|number: Number, written: Seq<char>| #[trigger]
                summed(
                    ops,
                    old(self).stack@[old(self).stack@.len() - 2],
                    old(self).stack@.last(),
                    old(interner)@,
                    number,
                    written,
                    final(interner)@,
                    final(self).stack@.last(),
                    fault_from(r),
                ),
            old(self).stack@.len() < 2 ==> final(interner)@ == old(interner)@,
    {
        let (left, right) = self.pop_pair()?;
        let ghost strings = interner@;
        let added = add_values(left, right, interner, ops);
        let ghost (number, written) = choose|number: Number, written: Seq<char>|
            added == #[trigger] sum(left, right, strings, number, written) && interner@
                == strings_after_sum(left, right, strings, written) && told(
                ops,
                left,
                right,
                number,
                written,
            );
        let sum = match added {
            Ok(sum) => sum,
            Err(fault) => {
                assert(summed(
                    ops,
                    left,
                    right,
                    strings,
                    number,
                    written,
                    interner@,
                    self.stack@.last(),
                    fault_from(Err::<(), Fault>(fault)),
                ));
                return Err(fault);
            },
        };
        self.push(sum);
        assert(summed(
            ops,
            left,
            right,
            strings,
            number,
            written,
            interner@,
            self.stack@.last(),
            fault_from(Ok::<(), Fault>(())),
        ));
        assert(self.stack@.drop_last() =~= old(self).stack@.subrange(
            0,
            old(self).stack@.len() - 2,
        ));
        Ok(())
    }

    /// The stack position of local `slot` of the innermost call, if the
    /// stack reaches that far.
    fn slot_position(&self, slot: u8) -> (r: Result<usize, Fault>)
        requires
            self.wf(),
            self.frames@.len() > 0,
        ensures
            r is Ok <==> self.frame().slot_offset + slot < self.stack@.len(),
            r is Ok ==> r.unwrap() == self.frame().slot_offset + slot,
            r is Err ==> r == Err::<usize, Fault>(Fault::BadSlot(slot)),
    {
        let frame = self.frames[self.frames.len() - 1];
        if frame.slot_offset < self.stack.len() && (slot as usize) < self.stack.len()
            - frame.slot_offset {
            Ok(frame.slot_offset + slot as usize)
        } else {
            Err(Fault::BadSlot(slot))
        }
    }

    /// `GET_LOCAL`: takes the index off the stack and pushes the local in
    /// this slot, or its element at the index unless the index is `Nil`.
    pub fn op_get_local<N: NumberOps>(&mut self, slot: u8, ops: &N) -> (r: Result<(), Fault>)
        requires
            old(self).wf(),
            old(self).awaiting is None,
            old(self).frames@.len() > 0,
        ensures
            r is Err ==> arises(old(self), Opcode::GetLocal, slot as int, r->Err_0),
            fault_of(old(self), Opcode::GetLocal, slot as int) is Some ==> r is Err,
            final(self).held(old(self)),
            final(self).heap == old(self).heap,
            final(self).globals == old(self).globals,
            r is Ok ==> old(self).stack@.len() > 0 && final(self).stack@.len() == old(self).stack@.len() && final(self).stack@.drop_last() == old(self).stack@.drop_last()
                && old(self).frame().slot_offset + slot < old(self).stack@.len() - 1 && read(
                old(self).stack@[old(self).frame().slot_offset + slot],
                old(self).stack@.last(),
                old(self).heap@,
                final(self).stack@.last(),
            ),
            old(self).stack@.len() == 0 ==> r == Err::<(), Fault>(Fault::StackUnderflow),
            old(self).stack@.len() > 0 && old(self).frame().slot_offset + slot >= old(self).stack@.len() - 1 ==> r == Err::<(), Fault>(Fault::BadSlot(slot)),
            old(self).stack@.len() > 0 && old(self).frame().slot_offset + slot < old(self).stack@.len() - 1 ==> got(
                ops,
                old(self).stack@[old(self).frame().slot_offset + slot],
                old(self).stack@.last(),
                old(self).heap@,
                outcome_of(r, final(self).stack@.last()),
            ),
    {
        let index = self.pop()?;
        let position = self.slot_position(slot)?;
        let value = self.stack[position];
        let found = read_variable(&value, &index, &self.heap, ops)?;
        self.push(found);
        assert(self.stack@.drop_last() =~= old(self).stack@.drop_last());
        Ok(())
    }

    /// `SET_LOCAL`: takes the new value and the index off the stack,
    /// pushes the new value back, and assigns it to the local in this
    /// slot, or to its element at the index unless the index is `Nil`.
    pub fn op_set_local<N: NumberOps>(&mut self, slot: u8, ops: &N) -> (r: Result<(), Fault>)
        requires
            old(self).wf(),
            old(self).awaiting is None,
            old(self).frames@.len() > 0,
        ensures
            r is Err ==> arises(old(self), Opcode::SetLocal, slot as int, r->Err_0),
            fault_of(old(self), Opcode::SetLocal, slot as int) is Some ==> r is Err,
            final(self).held(old(self)),
            final(self).globals == old(self).globals,
            old(self).stack@.len() < 2 ==> r == Err::<(), Fault>(Fault::StackUnderflow),
            old(self).stack@.len() >= 2 && old(self).frame().slot_offset + slot >= old(self).stack@.len() - 1 ==> r == Err::<(), Fault>(Fault::BadSlot(slot)),
            r is Ok ==> old(self).stack@.len() >= 2 && final(self).stack@.len() == old(self).stack@.len() - 1 && final(self).stack@.last() == old(self).stack@.last() && old(self).frame().slot_offset + slot < old(self).stack@.len() - 1,
            r is Ok && old(self).stack@[old(self).stack@.len() - 2] == Value::Nil ==> final(self).heap == old(self).heap && final(self).stack@ == old(self).stack@.subrange(
                0,
                old(self).stack@.len() - 2,
            ).push(old(self).stack@.last()).update(
                old(self).frame().slot_offset + slot,
                old(self).stack@.last(),
            ),
            r is Ok && old(self).stack@[old(self).stack@.len() - 2] != Value::Nil ==> final(self).stack@ == old(self).stack@.subrange(0, old(self).stack@.len() - 2).push(
                old(self).stack@.last(),
            ) && written(
                final(self).stack@[old(self).frame().slot_offset + slot],
                old(self).stack@[old(self).stack@.len() - 2],
                old(self).stack@.last(),
                old(self).heap@,
                final(self).heap@,
            ),
            old(self).stack@.len() >= 2 && old(self).frame().slot_offset + slot < old(self).stack@.len() - 1 && old(self).stack@[old(self).stack@.len() - 2] != Value::Nil ==> put(
                ops,
                old(self).stack@.subrange(0, old(self).stack@.len() - 2).push(
                    old(self).stack@.last(),
                )[old(self).frame().slot_offset + slot],
                old(self).stack@[old(self).stack@.len() - 2],
                old(self).stack@.last(),
                old(self).heap@,
                final(self).heap@,
                fault_from(r),
            ),
    {
        let (index, new_value) = self.pop_pair()?;
        self.push(new_value);
        let position = self.slot_position(slot)?;
        if index.is_nil() {
            self.stack.set(position, new_value);
        } else {
            let target = self.stack[position];
            set_array(&mut self.heap, &target, &index, new_value, ops)?;
        }
        Ok(())
    }

    /// `GET_GLOBAL`: takes the index off the stack and pushes the global
    /// that the constant names, or its element at the index unless the
    /// index is `Nil`.
    pub fn op_get_global<N: NumberOps>(&mut self, constant: u8, ops: &N) -> (r: Result<(), Fault>)
        requires
            old(self).wf(),
            old(self).awaiting is None,
            old(self).frames@.len() > 0,
        ensures
            r is Err ==> arises(old(self), Opcode::GetGlobal, constant as int, r->Err_0),
            fault_of(old(self), Opcode::GetGlobal, constant as int) is Some ==> r is Err,
            final(self).held(old(self)),
            final(self).heap == old(self).heap,
            final(self).globals == old(self).globals,
            r is Ok ==> old(self).stack@.len() > 0 && final(self).stack@.len() == old(self).stack@.len() && final(self).stack@.drop_last() == old(self).stack@.drop_last()
                && constant < old(self).constants().len() && exists|name: StrId|
                #![trigger old(self).globals@.contains_key(name.0)]
                names(old(self).constants()[constant as int], name) && old(self).globals@.contains_key(name.0) && read(
                    old(self).globals@[name.0],
                    old(self).stack@.last(),
                    old(self).heap@,
                    final(self).stack@.last(),
                ),
            forall|name: StrId|
                constant < old(self).constants().len() && names(
                    old(self).constants()[constant as int],
                    name,
                ) && old(self).stack@.len() > 0 && !old(self).globals@.contains_key(name.0) ==> r
                    == Err::<(), Fault>(Fault::UndefinedVariable(name)),
            bad_name(old(self), constant as int) is None && old(self).stack@.len() > 0 && old(self).globals@.contains_key(name_of(old(self).constants()[constant as int]).0) ==> got(
                ops,
                old(self).globals@[name_of(old(self).constants()[constant as int]).0],
                old(self).stack@.last(),
                old(self).heap@,
                outcome_of(r, final(self).stack@.last()),
            ),
    {
        let name = self.read_string_or_id(constant)?;
        let index = self.pop()?;
        match globals_get(&self.globals, name.0) {
            Some(value) => {
                let found = read_variable(&value, &index, &self.heap, ops)?;
                self.push(found);
                assert(self.stack@.drop_last() =~= old(self).stack@.drop_last());
                assert(names(old(self).constants()[constant as int], name));
                Ok(())
            },
            None => Err(Fault::UndefinedVariable(name)),
        }
    }

    /// `SET_GLOBAL`: takes the new value and the index off the stack,
    /// pushes the new value back, and assigns it to the global that the
    /// constant names, or to its element at the index unless the index is
    /// `Nil`. The global must be defined.
    pub fn op_set_global<N: NumberOps>(&mut self, constant: u8, ops: &N) -> (r: Result<(), Fault>)
        requires
            old(self).wf(),
            old(self).awaiting is None,
            old(self).frames@.len() > 0,
        ensures
            r is Err ==> arises(old(self), Opcode::SetGlobal, constant as int, r->Err_0),
            fault_of(old(self), Opcode::SetGlobal, constant as int) is Some ==> r is Err,
            final(self).held(old(self)),
            forall|name: StrId|
                constant < old(self).constants().len() && names(
                    old(self).constants()[constant as int],
                    name,
                ) && !old(self).globals@.contains_key(name.0) ==> r == Err::<(), Fault>(
                    Fault::UndefinedVariable(name),
                ),
            r is Ok ==> old(self).stack@.len() >= 2 && final(self).stack@ == old(self).stack@.subrange(0, old(self).stack@.len() - 2).push(old(self).stack@.last())
                && constant < old(self).constants().len() && exists|name: StrId|
                #![trigger old(self).globals@.contains_key(name.0)]
                names(old(self).constants()[constant as int], name) && old(self).globals@.contains_key(name.0) && (if old(self).stack@[old(self).stack@.len()
                    - 2] == Value::Nil {
                    final(self).heap == old(self).heap && final(self).globals@ == old(self).globals@.insert(name.0, old(self).stack@.last())
                } else {
                    final(self).globals == old(self).globals && written(
                        old(self).globals@[name.0],
                        old(self).stack@[old(self).stack@.len() - 2],
                        old(self).stack@.last(),
                        old(self).heap@,
                        final(self).heap@,
                    )
                }),
            bad_name(old(self), constant as int) is None && old(self).stack@.len() >= 2 && old(self).globals@.contains_key(name_of(old(self).constants()[constant as int]).0) && old(self).stack@[old(self).stack@.len() - 2] != Value::Nil ==> put(
                ops,
                old(self).globals@[name_of(old(self).constants()[constant as int]).0],
                old(self).stack@[old(self).stack@.len() - 2],
                old(self).stack@.last(),
                old(self).heap@,
                final(self).heap@,
                fault_from(r),
            ),
    {
        let name = self.read_string_or_id(constant)?;
        let current = match globals_get(&self.globals, name.0) {
            Some(value) => value,
            None => { return Err(Fault::UndefinedVariable(name)); },
        };
        let (index, new_value) = self.pop_pair()?;
        self.push(new_value);
        if index.is_nil() {
            globals_insert(&mut self.globals, name.0, new_value);
        } else {
            set_array(&mut self.heap, &current, &index, new_value, ops)?;
        }
        assert(names(old(self).constants()[constant as int], name));
        Ok(())
    }

    /// `DEFINE_GLOBAL`: takes the top of the stack and defines the global
    /// that the constant names as it.
    pub fn op_define_global(&mut self, constant: u8) -> (r: Result<(), Fault>)
        requires
            old(self).wf(),
            old(self).awaiting is None,
            old(self).frames@.len() > 0,
        ensures
            r is Err ==> arises(old(self), Opcode::DefineGlobal, constant as int, r->Err_0),
            fault_of(old(self), Opcode::DefineGlobal, constant as int) is Some ==> r is Err,
            final(self).held(old(self)),
            final(self).heap == old(self).heap,
            r is Ok <==> old(self).stack@.len() > 0 && constant < old(self).constants().len() && (
            old(self).constants()[constant as int] is Str || old(self).constants()[constant as int] is Identifier),
            r is Ok ==> final(self).stack@ == old(self).stack@.drop_last() && exists|name: StrId|
                #![trigger final(self).globals@.contains_key(name.0)]
                names(old(self).constants()[constant as int], name) && final(self).globals@ == old(self).globals@.insert(name.0, old(self).stack@.last()),
    {
        let name = self.read_string_or_id(constant)?;
        let value = self.pop()?;
        globals_insert(&mut self.globals, name.0, value);
        assert(names(old(self).constants()[constant as int], name));
        assert(self.globals@.contains_key(name.0));
        Ok(())
    }

    /// `DECLARE_ARRAY`: takes the size off the stack and pushes a new
    /// array of that many elements, all `Nil`.
    pub fn op_declare_array<N: NumberOps>(&mut self, ops: &N) -> (r: Result<(), Fault>)
        requires
            old(self).wf(),
            old(self).awaiting is None,
        ensures
            r is Err ==> arises(old(self), Opcode::DeclareArray, 0, r->Err_0),
            fault_of(old(self), Opcode::DeclareArray, 0) is Some ==> r is Err,
            final(self).held(old(self)),
            final(self).globals == old(self).globals,
            r is Ok <==> old(self).stack@.len() > 0 && old(self).stack@.last() is Number,
            r is Ok ==> final(self).stack@ == old(self).stack@.drop_last().push(
                Value::Array(old(self).heap@.len() as usize),
            ) && final(self).heap@.len() == old(self).heap@.len() + 1 && final(self).heap@.drop_last() == old(self).heap@ && (forall|i: int|
                0 <= i < final(self).heap@.last().len() ==> #[trigger] final(self).heap@.last()[i]
                    == Value::Nil),
            r is Err ==> r == Err::<(), Fault>(
                if old(self).stack@.len() == 0 {
                    Fault::StackUnderflow
                } else {
                    Fault::ExpectedNumber(old(self).stack@.last())
                },
            ),
            r is Ok ==> exists|whole: Option<u64>| #[trigger]
                ops.integer_gives(old(self).stack@.last()->Number_0, whole) && final(self).heap@
                    == old(self).heap@.push(new_array(whole)),
    {
        let size = self.pop()?;
        match size {
            Value::Number(n) => {
                let found = to_index(n, ops);
                let ghost whole = choose|whole: Option<u64>| #[trigger]
                    ops.integer_gives(n, whole) && found == (match whole {
                        Some(wide) => Some(within(wide) as usize),
                        None => None,
                    });
                let len: usize = match found {
                    Some(len) => len,
                    None => 0,
                };
                assert(Seq::new(len as nat, |i: int| Value::Nil) =~= new_array(whole));
                let handle = self.heap.allocate(len);
                self.push(Value::Array(handle));
                assert(self.heap@.drop_last() =~= old(self).heap@);
                Ok(())
            },
            other => Err(Fault::ExpectedNumber(other)),
        }
    }

    /// `PRINT`: takes the top of the stack and hands its text back for the
    /// embedder to print.
    pub fn op_print<N: NumberOps>(&mut self, interner: &Interner, ops: &N) -> (r: Result<Signal, Fault>)
        requires
            old(self).wf(),
            old(self).awaiting is None,
        ensures
            r is Err ==> arises(old(self), Opcode::Print, 0, r->Err_0),
            fault_of(old(self), Opcode::Print, 0) is Some ==> r is Err,
            final(self).held(old(self)),
            final(self).heap == old(self).heap,
            final(self).globals == old(self).globals,
            r is Ok <==> old(self).stack@.len() > 0,
            r is Ok ==> final(self).stack@ == old(self).stack@.drop_last() && (match r.unwrap() {
                Signal::Print(text) => crate::value::array_written(
                    ops,
                    old(self).stack@.last(),
                    interner@,
                    old(self).heap@,
                    crate::value::MAX_TEXT_DEPTH as nat,
                    text@,
                ),
                _ => false,
            }),
            r is Err ==> r == Err::<Signal, Fault>(Fault::StackUnderflow),
    {
        let value = self.pop()?;
        Ok(Signal::Print(value_as_string(&value, interner, &self.heap, ops)))
    }

    /// `JUMP_IF_FALSE`: moves `offset` bytes forward if the top of the
    /// stack counts as false. The stack stays as it is.
    pub fn op_jump_if_false<N: NumberOps>(&mut self, offset: u16, ops: &N) -> (r: Result<(), Fault>)
        requires
            old(self).wf(),
            old(self).frames@.len() > 0,
            old(self).awaiting is None,
        ensures
            r is Err ==> (r->Err_0 == Fault::StackUnderflow && old(self).stack@.len() == 0) || (
            r->Err_0 == Fault::CodeOverrun && old(self).frame().ip + offset > usize::MAX),
            final(self).wf(),
            final(self).functions == old(self).functions,
            final(self).stack == old(self).stack,
            final(self).heap == old(self).heap,
            final(self).globals == old(self).globals,
            final(self).global_error_id == old(self).global_error_id,
            final(self).awaiting == old(self).awaiting,
            final(self).frames@.len() == old(self).frames@.len(),
            r is Ok ==> old(self).stack@.len() > 0 && (final(self).frames == old(self).frames
                || final(self).frames@ == old(self).frames@.update(
                old(self).frames@.len() - 1,
                CallFrame { ip: (old(self).frame().ip + offset) as usize, ..old(self).frame() },
            ) && old(self).frame().ip + offset <= usize::MAX),
            r is Ok && !(old(self).stack@.last() is Number) ==> final(self).frame().ip == old(self).frame().ip + (if falsey(old(self).stack@.last(), old(self).heap@, false) {
                offset as int
            } else {
                0
            }),
            old(self).stack@.len() == 0 ==> r == Err::<(), Fault>(Fault::StackUnderflow),
            old(self).stack@.len() > 0 && !(old(self).stack@.last() is Number) && falsey(
                old(self).stack@.last(),
                old(self).heap@,
                false,
            ) && old(self).frame().ip + offset > usize::MAX ==> r is Err,
            r is Err ==> final(self).frames == old(self).frames,
            old(self).stack@.len() > 0 ==> exists|counts: bool| #[trigger]
                falsey_under(ops, old(self).stack@.last(), old(self).heap@, counts) && (if counts {
                    r is Ok <==> old(self).frame().ip + offset <= usize::MAX
                } else {
                    r is Ok && final(self).frames == old(self).frames
                }) && (r is Ok && counts ==> final(self).frames@ == old(self).frames@.update(
                    old(self).frames@.len() - 1,
                    CallFrame {
                        ip: (old(self).frame().ip + offset) as usize,
                        ..old(self).frame()
                    },
                )),
            r is Err && old(self).stack@.len() > 0 ==> old(self).stack@.last() is Number || falsey(
                old(self).stack@.last(),
                old(self).heap@,
                false,
            ),
    {
        let condition = self.peek(0)?;
        if is_falsey(&condition, &self.heap, ops) {
            self.op_jump(offset)
        } else {
            Ok(())
        }
    }

    /// `JUMP`: moves `offset` bytes forward.
    pub fn op_jump(&mut self, offset: u16) -> (r: Result<(), Fault>)
        requires
            old(self).wf(),
            old(self).frames@.len() > 0,
            old(self).awaiting is None,
        ensures
            final(self).wf(),
            final(self).functions == old(self).functions,
            final(self).stack == old(self).stack,
            final(self).heap == old(self).heap,
            final(self).globals == old(self).globals,
            final(self).global_error_id == old(self).global_error_id,
            final(self).awaiting == old(self).awaiting,
            final(self).frames@.len() == old(self).frames@.len(),
            r is Ok <==> old(self).frame().ip + offset <= usize::MAX,
            r is Ok ==> final(self).frames@ == old(self).frames@.update(
                old(self).frames@.len() - 1,
                CallFrame { ip: (old(self).frame().ip + offset) as usize, ..old(self).frame() },
            ),
            r is Err ==> r == Err::<(), Fault>(Fault::CodeOverrun) && final(self).frames == old(self).frames,
    {
        let ip: usize = self.frames[self.frames.len() - 1].ip;
        if ip > usize::MAX - offset as usize {
            return Err(Fault::CodeOverrun);
        }
        self.jump_to(ip + offset as usize);
        Ok(())
    }

    /// `LOOP`: moves `offset` bytes back.
    pub fn op_loop(&mut self, offset: u16) -> (r: Result<(), Fault>)
        requires
            old(self).wf(),
            old(self).frames@.len() > 0,
            old(self).awaiting is None,
        ensures
            final(self).wf(),
            final(self).functions == old(self).functions,
            final(self).stack == old(self).stack,
            final(self).heap == old(self).heap,
            final(self).globals == old(self).globals,
            final(self).global_error_id == old(self).global_error_id,
            final(self).awaiting == old(self).awaiting,
            final(self).frames@.len() == old(self).frames@.len(),
            r is Ok <==> offset <= old(self).frame().ip,
            r is Ok ==> final(self).frames@ == old(self).frames@.update(
                old(self).frames@.len() - 1,
                CallFrame { ip: (old(self).frame().ip - offset) as usize, ..old(self).frame() },
            ),
            r is Err ==> r == Err::<(), Fault>(Fault::CodeOverrun) && final(self).frames == old(self).frames,
    {
        let ip: usize = self.frames[self.frames.len() - 1].ip;
        if (offset as usize) > ip {
            return Err(Fault::CodeOverrun);
        }
        self.jump_to(ip - offset as usize);
        Ok(())
    }

    /// `RETURN`: takes the result off the stack (`Nil` from an empty
    /// stack) and ends the innermost call. If it was the last, the machine
    /// has halted; else the stack is cut back to where the call began, and
    /// the result pushed. Says whether the machine has halted.
    pub fn op_return(&mut self) -> (halted: bool)
        requires
            old(self).wf(),
            old(self).frames@.len() > 0,
            old(self).awaiting is None,
        ensures
            final(self).wf(),
            final(self).functions == old(self).functions,
            final(self).heap == old(self).heap,
            final(self).globals == old(self).globals,
            final(self).global_error_id == old(self).global_error_id,
            final(self).awaiting is None,
            final(self).frames@ == old(self).frames@.drop_last(),
            halted == (old(self).frames@.len() == 1),
            !halted ==> final(self).stack@ == returned(old(self).stack@, old(self).frame()),
    {
        let value = match self.stack.pop() {
            Some(value) => value,
            None => Value::Nil,
        };
        let frame = self.frames[self.frames.len() - 1];
        self.frames.pop();
        assert(self.frames@ =~= old(self).frames@.drop_last());
        if self.frames.len() == 0 {
            return true;
        }
        self.stack.truncate(frame.start_len);
        self.push(value);
        proof {
            if old(self).stack@.len() > 0 {
                assert(old(self).stack@.subrange(0, old(self).stack@.len() - 1) =~= old(self).stack@.drop_last());
            }
        }
        false
    }

    /// Sets the error global to `Nil`.
    pub fn reset_err_string(&mut self)
        requires
            old(self).wf(),
            old(self).awaiting is None,
        ensures
            final(self).held(old(self)),
            final(self).stack == old(self).stack,
            final(self).heap == old(self).heap,
            final(self).globals@ == (match old(self).global_error_id {
                Some(id) => old(self).globals@.insert(id.0, Value::Nil),
                None => old(self).globals@,
            }),
    {
        match self.global_error_id {
            Some(id) => globals_insert(&mut self.globals, id.0, Value::Nil),
            None => {},
        }
    }

    /// Carries out the call of a native whose `arg_count` arguments are on
    /// top of the stack, above the native itself: resets the error global,
    /// calls the native, and replaces the native and its arguments by the
    /// result.
    pub fn finish_native<N: NumberOps>(
        &mut self,
        native: Native,
        arg_count: usize,
        input: Option<&str>,
        interner: &mut Interner,
        ops: &N,
    ) -> (signal: Option<Signal>)
        requires
            old(self).wf(),
            old(self).awaiting is None,
            old(interner).wf(),
            arg_count == native.arity_spec(),
            arg_count < old(self).stack@.len(),
        ensures
            final(self).held(old(self)),
            final(interner).wf(),
            old(interner).kept_by(final(interner)),
            final(self).stack@.len() == old(self).stack@.len() - arg_count,
            final(self).stack@.drop_last() == old(self).stack@.take(
                old(self).stack@.len() - arg_count - 1,
            ),
            signal is Some ==> signal.unwrap() is Print || signal.unwrap() is Sleep,
            final(self).heap@.len() == old(self).heap@.len(),
            native.keeps_heap() ==> final(self).heap@ == old(self).heap@,
            finished(
                ops,
                old(self),
                old(self).stack@,
                old(interner)@,
                native,
                match input {
                    Some(line) => Some(line@),
                    None => None,
                },
                final(self),
                final(interner)@,
                signal,
            ),
    {
        self.reset_err_string();
        let len: usize = self.stack.len();
        let mut args: Vec<Value> = Vec::new();
        let mut i: usize = len - arg_count;
        assert(args@ =~= self.stack@.subrange(len - arg_count, i as int));
        while i < len
            invariant
                len == self.stack@.len(),
                arg_count <= len,
                len - arg_count <= i <= len,
                args@.len() == i - (len - arg_count),
                args@ == self.stack@.subrange(len - arg_count, i as int),
            decreases len - i,
        {
            args.push(self.stack[i]);
            i += 1;
            assert(args@ =~= self.stack@.subrange(len - arg_count, i as int));
        }
        let outcome = native.call(interner, &mut self.globals, &mut self.heap, &args, input, ops);
        self.stack.truncate(len - 1 - arg_count);
        self.push(outcome.value);
        assert(self.stack@.drop_last() =~= old(self).stack@.take(
            old(self).stack@.len() - arg_count - 1,
        ));
        outcome.signal
    }

    /// `CALL`: calls the value that lies below `arg_count` arguments on the
    /// stack. A function gets a new call frame. A native is carried out at
    /// once, unless it reads: then the machine waits for a line of input.
    pub fn call_value<N: NumberOps>(&mut self, arg_count: u8, interner: &mut Interner, ops: &N) -> (r:
        Result<Option<Signal>, Fault>)
        requires
            old(self).wf(),
            old(self).frames@.len() > 0,
            old(self).awaiting is None,
            old(interner).wf(),
        ensures
            r is Err ==> arises(old(self), Opcode::Call, arg_count as int, r->Err_0),
            fault_of(old(self), Opcode::Call, arg_count as int) is Some ==> r is Err,
            final(self).wf(),
            final(self).functions == old(self).functions,
            final(interner).wf(),
            old(interner).kept_by(final(interner)),
            old(self).stack@.len() <= arg_count ==> r == Err::<Option<Signal>, Fault>(
                Fault::StackUnderflow,
            ),
            r is Err ==> final(self).frames == old(self).frames && final(self).awaiting is None,
            r is Ok ==> arg_count < old(self).stack@.len() && called(
                ops,
                old(self),
                old(interner)@,
                old(self).stack@[old(self).stack@.len() - 1 - arg_count],
                arg_count as int,
                final(self),
                final(interner)@,
                r.unwrap(),
            ),
            r is Err ==> final(interner)@ == old(interner)@ && final(self).stack == old(self).stack
                && final(self).heap == old(self).heap && final(self).globals == old(self).globals
                && final(self).global_error_id == old(self).global_error_id,
            r is Ok && r.unwrap() is Some ==> r.unwrap().unwrap() is Read
                || r.unwrap().unwrap() is Print || r.unwrap().unwrap() is Sleep,
            r is Ok ==> (final(self).awaiting is Some <==> r.unwrap() is Some
                && r.unwrap().unwrap() is Read),
    {
        let callee = self.peek(arg_count as usize)?;
        match callee {
            Value::Function(index) => {
                if index >= self.functions.len() {
                    return Err(Fault::BadFunction(index));
                }
                let arity: usize = self.functions[index].arity;
                if arg_count as usize != arity {
                    return Err(Fault::WrongArity { expected: arity, got: arg_count as usize });
                }
                let len: usize = self.stack.len();
                let frame = CallFrame {
                    fun_idx: index,
                    ip: 0,
                    start_len: len - 1 - arg_count as usize,
                    slot_offset: len - arg_count as usize,
                };
                self.frames.push(frame);
                Ok(None)
            },
            Value::NativeFunction(native) => {
                let arity: usize = native.arity();
                if arg_count as usize != arity {
                    return Err(Fault::WrongArity { expected: arity, got: arg_count as usize });
                }
                if native.takes_input() {
                    let prompt: Option<String> = if arity == 0 {
                        Some(String::new())
                    } else {
                        let first = self.stack[self.stack.len() - arity];
                        match first {
                            Value::Str(id) => match interner.get(id) {
                                Some(s) => Some(s.to_owned()),
                                None => None,
                            },
                            _ => None,
                        }
                    };
                    match prompt {
                        Some(prompt) => {
                            let shown = prompt.clone();
                            self.awaiting = Some(Awaiting { native, arg_count: arity, prompt });
                            assert(prompt_of(old(self).stack@, native, old(interner)@) == Some(
                                shown@,
                            ));
                            return Ok(Some(Signal::Read(shown)));
                        },
                        None => {
                            let position: usize = self.stack.len() - arity;
                            self.stack.set(position, Value::Nil);
                        },
                    }
                }
                let ghost middle = self.stack@;
                let signal = self.finish_native(native, arity, None, interner, ops);
                proof {
                    assert(middle.take(middle.len() - arity - 1) =~= old(self).stack@.take(
                        old(self).stack@.len() - arity - 1,
                    ));
                }
                Ok(signal)
            },
            other => Err(Fault::NotCallable(other)),
        }
    }

    /// Halts the machine on a fault: the runtime error with the calls that
    /// were under way, the innermost first, each with the source line it
    /// had come to.
    fn fail(&mut self, fault: Fault) -> (signal: Signal)
        requires
            old(self).wf(),
        ensures
            final(self).wf(),
            final(self).functions == old(self).functions,
            final(self).frames@.len() == 0,
            final(self).awaiting is None,
            match signal {
                Signal::Error(error) => error.fault == fault && error.trace@.len() == old(self).frames@.len() && forall|k: int|
                    0 <= k < error.trace@.len() ==> (#[trigger] error.trace@[k]) == trace_line(
                        old(self).functions@,
                        old(self).frames@[old(self).frames@.len() - 1 - k],
                    ),
                _ => false,
            },
            halted_by(old(self), final(self), Some(signal), fault),
    {
        let mut trace: Vec<TraceLine> = Vec::new();
        let mut i: usize = self.frames.len();
        while i > 0
            invariant
                self.wf(),
                *self == *old(self),
                i <= self.frames@.len(),
                trace@.len() == self.frames@.len() - i,
                forall|k: int|
                    0 <= k < trace@.len() ==> (#[trigger] trace@[k]) == trace_line(
                        self.functions@,
                        self.frames@[self.frames@.len() - 1 - k],
                    ),
            decreases i,
        {
            i -= 1;
            let frame = self.frames[i];
            let fun = &self.functions[frame.fun_idx];
            let line = match fun.chunk.line_at(frame.ip) {
                Some(line) => line,
                None => 0,
            };
            trace.push(TraceLine { line, function: fun.name });
        }
        self.frames.clear();
        self.awaiting = None;
        assert(trace@ =~= trace_of(old(self).functions@, old(self).frames@));
        Signal::Error(RuntimeError { fault, trace })
    }

    /// Reads the instruction that the innermost call has come to: its
    /// opcode, its operand bytes (0 where it has none), and the offset of
    /// the instruction after it.
    pub fn fetch(&self) -> (r: Result<(Opcode, u8, u8, usize), Fault>)
        requires
            self.wf(),
            self.frames@.len() > 0,
        ensures
            self.code().len() <= usize::MAX,
            match r {
                Ok(fetched) => {
                    let ip = self.frame().ip as int;
                    &&& ip < self.code().len()
                    &&& Opcode::decode(self.code()[ip]) == Some(fetched.0)
                    &&& fetched.3 == ip + instruction_len(self.code(), ip)
                    &&& fetched.3 <= self.code().len()
                    &&& fetched.0.operands() >= 1 ==> fetched.1 == self.code()[ip + 1]
                    &&& fetched.0.operands() == 2 ==> fetched.2 == self.code()[ip + 2]
                },
                Err(fault) => {
                    let ip = self.frame().ip as int;
                    if ip >= self.code().len() {
                        fault == Fault::CodeOverrun
                    } else if Opcode::decode(self.code()[ip]) is None {
                        fault == Fault::InvalidOpcode(self.code()[ip])
                    } else {
                        fault == Fault::CodeOverrun && ip + instruction_len(self.code(), ip)
                            > self.code().len()
                    }
                },
            },
    {
        let frame = self.frames[self.frames.len() - 1];
        let code = &self.functions[frame.fun_idx].chunk.code;
        if frame.ip >= code.len() {
            return Err(Fault::CodeOverrun);
        }
        let op = match Opcode::from_byte(code[frame.ip]) {
            Some(op) => op,
            None => { return Err(Fault::InvalidOpcode(code[frame.ip])); },
        };
        let operands: usize = op.operand_count();
        if code.len() - frame.ip <= operands {
            return Err(Fault::CodeOverrun);
        }
        let first: u8 = if operands >= 1 {
            code[frame.ip + 1]
        } else {
            0
        };
        let second: u8 = if operands == 2 {
            code[frame.ip + 2]
        } else {
            0
        };
        Ok((op, first, second, frame.ip + 1 + operands))
    }

    /// Executes instruction `op`, which was read, with its operand bytes:
    /// see [`performed`].
    #[verifier::rlimit(100)]
    pub fn execute<N: NumberOps>(
        &mut self,
        op: Opcode,
        first: u8,
        second: u8,
        interner: &mut Interner,
        ops: &N,
    ) -> (r: Result<Option<Signal>, Fault>)
        requires
            old(self).wf(),
            old(self).running(),
            old(interner).wf(),
        ensures
            final(interner).wf(),
            old(interner).kept_by(final(interner)),
            performed(
                ops,
                old(self),
                old(interner)@,
                op,
                first as int,
                first * 256 + second,
                final(self),
                final(interner)@,
                r,
            ),
    {
        let wide: u16 = first as u16 * 256 + second as u16;
        let r: Result<Option<Signal>, Fault> = match op {
            Opcode::Return => if self.op_return() {
                Ok(Some(Signal::Done))
            } else {
                Ok(None)
            },
            Opcode::Constant => quiet(self.op_constant(first)),
            Opcode::Not => quiet(self.op_not(ops)),
            Opcode::Print => match self.op_print(interner, ops) {
                Ok(signal) => Ok(Some(signal)),
                Err(fault) => Err(fault),
            },
            Opcode::Negate => quiet(self.op_negate(ops)),
            Opcode::Add => quiet(self.op_add(interner, ops)),
            Opcode::Subtract => quiet(self.op_arithmetic(Arithmetic::Subtract, ops)),
            Opcode::Multiply => quiet(self.op_arithmetic(Arithmetic::Multiply, ops)),
            Opcode::Modulo => quiet(self.op_arithmetic(Arithmetic::Modulo, ops)),
            Opcode::Divide => quiet(self.op_arithmetic(Arithmetic::Divide, ops)),
            Opcode::Nil => {
                self.push(Value::Nil);
                Ok(None)
            },
            Opcode::True => {
                self.push(Value::Bool(true));
                Ok(None)
            },
            Opcode::False => {
                self.push(Value::Bool(false));
                Ok(None)
            },
            Opcode::Greater => quiet(self.op_compare(Comparison::Greater, ops)),
            Opcode::Pop => quiet(self.op_pop()),
            Opcode::Equal => quiet(self.op_equal(ops)),
            Opcode::Less => quiet(self.op_compare(Comparison::Less, ops)),
            Opcode::DefineGlobal => quiet(self.op_define_global(first)),
            Opcode::DeclareArray => quiet(self.op_declare_array(ops)),
            Opcode::SetGlobal => quiet(self.op_set_global(first, ops)),
            Opcode::GetGlobal => quiet(self.op_get_global(first, ops)),
            Opcode::GetLocal => quiet(self.op_get_local(first, ops)),
            Opcode::SetLocal => quiet(self.op_set_local(first, ops)),
            Opcode::JumpIfFalse => {
                let r = quiet(self.op_jump_if_false(wide, ops));
                proof {
                    assert(self.frames == old(self).frames ==> self.frames@ =~= old(self).frames@.update(old(self).frames@.len() - 1, old(self).frame()));
                }
                r
            },
            Opcode::Jump => quiet(self.op_jump(wide)),
            Opcode::Loop => quiet(self.op_loop(wide)),
            Opcode::Call => self.call_value(first, interner, ops),
        };
        r
    }

    /// Executes one instruction of the innermost call.
    ///
    /// Returns what the embedder has to do before the machine goes on, if
    /// anything: print a line, read one, sleep, or stop, because the script
    /// has ended or failed. A machine that has halted signals `Done`, and
    /// one that waits for input signals `Read` again; neither changes.
    ///
    /// What the step makes of the machine and of the interner, and which
    /// signal it gives, is laid down by [`took`].
    #[verifier::rlimit(100)]
    pub fn step<N: NumberOps>(&mut self, interner: &mut Interner, ops: &N) -> (signal: Option<
        Signal,
    >)
        requires
            old(self).wf(),
            old(interner).wf(),
        ensures
            final(self).wf(),
            final(self).functions == old(self).functions,
            final(interner).wf(),
            old(interner).kept_by(final(interner)),
            secure(old(self)) ==> secure_or_halted(final(self)) && !(signal is Some
                && structural_error(signal.unwrap())),
            took(ops, old(self), old(interner)@, final(self), final(interner)@, signal),
    {
        if self.frames.len() == 0 {
            return Some(Signal::Done);
        }
        match &self.awaiting {
            Some(awaiting) => { return Some(Signal::Read(awaiting.prompt.clone())); },
            None => {},
        }
        let (op, first, second, next) = match self.fetch() {
            Ok(fetched) => fetched,
            Err(fault) => {
                proof {
                    assert(fails_with(old(self), fault));
                    if secure(old(self)) {
                        let heights = choose|heights: Map<int, int>| #[trigger]
                            secure_under(old(self), heights);
                        lemma_sound_code_raises_no_structural_fault(
                            *old(self),
                            heights,
                            0,
                            true,
                            fault,
                        );
                    }
                }
                return Some(self.fail(fault));
            },
        };
        self.jump_to(next);
        let ghost fetched = *self;
        let ghost o = old(self).frame().ip as int;
        let ghost code = old(self).code();
        let ghost wide = wide_operand(code, o);
        proof {
            assert(fetched.frames@.drop_last() =~= old(self).frames@.drop_last());
            assert(fetched_from(old(self), &fetched));
            assert(fetched.constants() == old(self).constants());
            assert(op.operands() == 0 || first == code[o + 1]);
            assert(op.operands() < 2 || first * 256 + second == wide);
        }
        let result = self.execute(op, first, second, interner, ops);
        let ghost done = *self;
        proof {
            lemma_performed_agrees(
                ops,
                &fetched,
                old(interner)@,
                op,
                first as int,
                code[o + 1] as int,
                first * 256 + second,
                wide,
                &done,
                interner@,
                result,
            );
            assert(fault_at(old(self)) == fault_in(&fetched, op, code[o + 1] as int, wide));
            if result is Err {
                assert(fails_with(old(self), result->Err_0));
            }
            if result is Ok && self.running() && self.frames@.len() == old(self).frames@.len() {
                assert(self.frames@.drop_last() =~= old(self).frames@.drop_last());
                assert(op != Opcode::Return);
                assert(self.frame().fun_idx == old(self).frame().fun_idx);
                assert(steps_to(
                    code,
                    o,
                    self.frame().ip as int,
                    self.stack@.len() - old(self).stack@.len(),
                ));
                assert(stepped(old(self), self));
            }
            if secure(old(self)) {
                let heights = choose|heights: Map<int, int>| #[trigger]
                    secure_under(old(self), heights);
                assert(crate::layout::safe_at(code, old(self).constants(), heights, o));
                assert(op != Opcode::Call);
                if result is Err {
                    lemma_sound_code_raises_no_structural_fault(
                        *old(self),
                        heights,
                        0,
                        true,
                        result->Err_0,
                    );
                } else if self.frames@.len() > 0 {
                    assert(self.running());
                    assert(self.frames@.len() == 1);
                    lemma_height_goes_with_place(*old(self), *self, heights, 0, true, 0);
                    assert(self.constants() == old(self).constants());
                    assert(secure_under(self, heights));
                }
            }
        }
        let signal = match result {
            Ok(signal) => signal,
            Err(fault) => Some(self.fail(fault)),
        };
        proof {
            assert(carried(
                ops,
                old(self),
                old(interner)@,
                fetched,
                done,
                result,
                self,
                interner@,
                signal,
            ));
        }
        signal
    }

    /// Executes instructions until the embedder has something to do, but
    /// `max_steps` at most: then the signal is `Paused`. What the run
    /// makes of the machine is laid down step by step: see [`ran`].
    pub fn run<N: NumberOps>(&mut self, interner: &mut Interner, ops: &N, max_steps: usize) -> (signal:
        Signal)
        requires
            old(self).wf(),
            old(interner).wf(),
        ensures
            final(self).wf(),
            final(self).functions == old(self).functions,
            final(interner).wf(),
            old(interner).kept_by(final(interner)),
            signal is Error || signal is Done ==> final(self).frames@.len() == 0,
            signal is Read ==> final(self).awaiting is Some,
            old(self).frames@.len() == 0 && max_steps > 0 ==> signal == Signal::Done,
            secure_or_halted(old(self)) ==> secure_or_halted(final(self)) && !structural_error(
                signal,
            ),
            exists|trace: Seq<Vm>, texts: Seq<Seq<Seq<char>>>|
                texts[0] == old(interner)@ && #[trigger] ran(
                    ops,
                    trace,
                    texts,
                    old(self),
                    final(self),
                    final(interner)@,
                    signal,
                    max_steps,
                ),
    {
        let mut steps: usize = 0;
        let ghost mut trace: Seq<Vm> = seq![*self];
        let ghost mut texts: Seq<Seq<Seq<char>>> = seq![interner@];
        while steps < max_steps
            invariant
                steps <= max_steps,
                trace.len() == steps + 1,
                texts.len() == steps + 1,
                trace[0] == *old(self),
                texts[0] == old(interner)@,
                trace.last() == *self,
                texts.last() == interner@,
                forall|i: int|
                    #![trigger trace[i]]
                    0 <= i < trace.len() - 1 ==> took(
                        ops,
                        &trace[i],
                        texts[i],
                        &trace[i + 1],
                        texts[i + 1],
                        None,
                    ),
                self.wf(),
                self.functions == old(self).functions,
                interner.wf(),
                old(interner).kept_by(interner),
                steps > 0 ==> self.running(),
                steps > 0 ==> old(self).frames@.len() > 0,
                steps == 0 ==> self.frames == old(self).frames,
                secure_or_halted(old(self)) ==> secure_or_halted(self),
            decreases max_steps - steps,
        {
            let ghost before = *interner;
            match self.step(interner, ops) {
                Some(signal) => {
                    proof {
                        lemma_kept_trans(*old(interner), before, *interner);
                        assert(ran(
                            ops,
                            trace,
                            texts,
                            old(self),
                            self,
                            interner@,
                            signal,
                            max_steps,
                        ));
                    }
                    return signal;
                },
                None => {},
            }
            proof {
                lemma_kept_trans(*old(interner), before, *interner);
                trace = trace.push(*self);
                texts = texts.push(interner@);
            }
            steps += 1;
        }
        proof {
            assert(ran(ops, trace, texts, old(self), self, interner@, Signal::Paused, max_steps));
        }
        Signal::Paused
    }

    /// Hands the machine the line of input that it waits for, and carries
    /// out the native that asked for it: the line, interned, takes the
    /// place of the native's first argument, and the native is finished
    /// as [`finished`] lays down. A machine that does not wait for input
    /// ignores the line.
    pub fn provide_input<N: NumberOps>(&mut self, line: &str, interner: &mut Interner, ops: &N) -> (signal:
        Option<Signal>)
        requires
            old(self).wf(),
            old(interner).wf(),
        ensures
            final(self).wf(),
            final(self).functions == old(self).functions,
            final(self).frames == old(self).frames,
            final(self).awaiting is None,
            final(interner).wf(),
            old(interner).kept_by(final(interner)),
            old(self).awaiting is None ==> signal is None && final(self).stack == old(self).stack
                && final(self).heap == old(self).heap && final(self).globals == old(self).globals && final(interner)@ == old(interner)@,
            old(self).awaiting is Some ==> final(self).stack@.len() == old(self).stack@.len() - old(self).awaiting.unwrap().arg_count,
            old(self).awaiting is Some ==> finished(
                ops,
                old(self),
                with_line(old(self).stack@, old(self).awaiting.unwrap().arg_count as int, old(interner)@, line@),
                if old(self).awaiting.unwrap().arg_count >= 1 {
                    interned(old(interner)@, line@)
                } else {
                    old(interner)@
                },
                old(self).awaiting.unwrap().native,
                Some(line@),
                final(self),
                final(interner)@,
                signal,
            ),
    {
        let awaiting = match self.awaiting.take() {
            Some(awaiting) => awaiting,
            None => { return None; },
        };
        let ghost before = *interner;
        if awaiting.arg_count >= 1 {
            let value = match interner.try_intern(line) {
                Some(id) => Value::Str(id),
                None => Value::Nil,
            };
            let position: usize = self.stack.len() - awaiting.arg_count;
            self.stack.set(position, value);
        }
        let ghost middle = *interner;
        let signal = self.finish_native(
            awaiting.native,
            awaiting.arg_count,
            Some(line),
            interner,
            ops,
        );
        proof {
            lemma_kept_trans(before, middle, *interner);
        }
        signal
    }

    /// Defines the global with the native's name as the native.
    pub fn register_native(&mut self, native: Native, interner: &mut Interner)
        requires
            old(self).wf(),
            old(interner).wf(),
        ensures
            final(self).held(old(self)),
            final(self).stack == old(self).stack,
            final(self).heap == old(self).heap,
            final(interner).wf(),
            old(interner).kept_by(final(interner)),
            final(interner)@.contains(native.name_spec()) ==> final(self).globals@ == old(self).globals@.insert(
                final(interner)@.index_of(native.name_spec()) as u32,
                Value::NativeFunction(native),
            ),
            !final(interner)@.contains(native.name_spec()) ==> final(self).globals == old(self).globals,
            final(interner)@ == interned(old(interner)@, native.name_spec()),
            final(self).globals@ == defined(
                old(self).globals@,
                old(interner)@,
                native.name_spec(),
                Value::NativeFunction(native),
            ),
    {
        proof {
            old(interner).lemma_distinct();
        }
        match interner.try_intern(native.name()) {
            Some(name) => {
                proof {
                    interner.lemma_distinct();

                    assert(interner@[name.index()] == native.name_spec());
                    assert(interner@.index_of(native.name_spec()) == name.index());
                }
                globals_insert(&mut self.globals, name.0, Value::NativeFunction(native));
            },
            None => {},
        }
    }

    /// Makes a machine for `functions`, of which the last is the script,
    /// sets the error global to `Nil` and defines the natives: see
    /// [`booted`].
    pub fn boot(functions: Vec<Fun>, interner: &mut Interner) -> (vm: Vm)
        requires
            old(interner).wf(),
            functions@.len() > 0,
        ensures
            final(interner).wf(),
            old(interner).kept_by(final(interner)),
            booted(&vm, functions, old(interner)@),
            final(interner)@ == boot_strings(old(interner)@),
            crate::layout::script_sound(
                functions@.last().chunk.code@,
                functions@.last().chunk.constants@,
            ) ==> secure(&vm),
    {
        let ghost first = *interner;
        let mut vm = Vm::new(interner, functions);
        proof {
            if crate::layout::script_sound(
                functions@.last().chunk.code@,
                functions@.last().chunk.constants@,
            ) {
                let heights = choose|heights: Map<int, int>| #[trigger]
                    crate::layout::script_sound_under(
                        functions@.last().chunk.code@,
                        functions@.last().chunk.constants@,
                        heights,
                    );
                assert(vm.frame().fun_idx == functions@.len() - 1);
                assert(vm.code() == functions@.last().chunk.code@);
                assert(vm.constants() == functions@.last().chunk.constants@);
                assert(crate::layout::scan(vm.code(), 0, 0));
                assert(crate::layout::boundary(vm.code(), 0));
                assert(heights.contains_key(0));
                assert(secure_under(&vm, heights));
            }
        }
        let ghost machine = vm;
        vm.reset_err_string();
        proof {
            if secure(&machine) {
                let heights = choose|heights: Map<int, int>| #[trigger]
                    secure_under(&machine, heights);
                assert(secure_under(&vm, heights));
            }
        }
        let ghost start = Defined { globals: vm.globals@, strings: interner@ };
        let natives = Native::all();
        let mut i: usize = 0;
        while i < natives.len()
            invariant
                vm.wf(),
                vm.functions == functions,
                vm.awaiting is None,
                vm.frames == machine.frames,
                vm.stack == machine.stack,
                vm.heap == machine.heap,
                vm.global_error_id == machine.global_error_id,
                interner.wf(),
                first.kept_by(interner),
                i <= natives@.len(),
                natives@ == Native::all_spec(),
                functions@.len() > 0,
                (Defined { globals: vm.globals@, strings: interner@ }) == natives_defined(
                    start,
                    natives@,
                    i as int,
                ),
                crate::layout::script_sound(
                    functions@.last().chunk.code@,
                    functions@.last().chunk.constants@,
                ) ==> secure(&vm),
            decreases natives@.len() - i,
        {
            let ghost before = *interner;
            let ghost entered = vm;
            vm.register_native(natives[i], interner);
            proof {
                lemma_kept_trans(first, before, *interner);
                if secure(&entered) {
                    let heights = choose|heights: Map<int, int>| #[trigger]
                        secure_under(&entered, heights);
                    assert(secure_under(&vm, heights));
                }
            }
            i += 1;
        }
        vm
    }

    /// Boots a machine for `functions`, of which the last is the script,
    /// and runs the script until the embedder has something to do, but
    /// `max_steps` instructions at most.
    pub fn interpret<N: NumberOps>(
        functions: Vec<Fun>,
        interner: &mut Interner,
        ops: &N,
        max_steps: usize,
    ) -> (started: (Vm, Signal))
        requires
            old(interner).wf(),
            functions@.len() > 0,
        ensures
            final(interner).wf(),
            old(interner).kept_by(final(interner)),
            started.0.wf(),
            started.0.functions == functions,
            started.1 is Error || started.1 is Done ==> started.0.frames@.len() == 0,
            started.1 is Read ==> started.0.awaiting is Some,
            crate::layout::script_sound(
                functions@.last().chunk.code@,
                functions@.last().chunk.constants@,
            ) ==> secure_or_halted(&started.0) && !structural_error(started.1),
            exists|trace: Seq<Vm>, texts: Seq<Seq<Seq<char>>>|
                #![trigger trace[0], texts[0]]
                trace.len() > 0 && booted(&trace[0], functions, old(interner)@) && texts[0]
                    == boot_strings(old(interner)@) && ran(
                    ops,
                    trace,
                    texts,
                    &trace[0],
                    &started.0,
                    final(interner)@,
                    started.1,
                    max_steps,
                ),
    {
        let ghost first = *interner;
        let mut vm = Vm::boot(functions, interner);
        let ghost machine = vm;
        let ghost before = *interner;
        let signal = vm.run(interner, ops, max_steps);
        proof {
            lemma_kept_trans(first, before, *interner);
            let (trace, texts) = choose|trace: Seq<Vm>, texts: Seq<Seq<Seq<char>>>|
                texts[0] == before@ && #[trigger] ran(
                    ops,
                    trace,
                    texts,
                    &machine,
                    &vm,
                    interner@,
                    signal,
                    max_steps,
                );
            assert(trace[0] == machine);
            assert(ran(ops, trace, texts, &trace[0], &vm, interner@, signal, max_steps));
        }
        (vm, signal)
    }
}

/// An instruction that has nothing to tell the embedder.
fn quiet(r: Result<(), Fault>) -> (q: Result<Option<Signal>, Fault>)
    ensures
        r is Ok ==> q == Ok::<Option<Signal>, Fault>(None),
        r is Err ==> q == Err::<Option<Signal>, Fault>(r->Err_0),
{
    match r {
        Ok(()) => Ok(None),
        Err(fault) => Err(fault),
    }
}

/// Whether machine `vm` runs a script whose code is sound under `heights`,
/// and has come to an instruction for which `heights` records the height
/// that the stack has.
pub open spec fn secure_under(vm: &Vm, heights: Map<int, int>) -> bool {
    &&& vm.wf()
    &&& vm.frames@.len() == 1
    &&& vm.awaiting is None
    &&& vm.frame().slot_offset == 0
    &&& crate::layout::script_sound_under(vm.code(), vm.constants(), heights)
    &&& heights.contains_key(vm.frame().ip as int)
    &&& vm.stack@.len() == heights[vm.frame().ip as int]
}

/// Whether machine `vm` runs a script whose code is sound, and has come to
/// an instruction of it with the stack at the height that is recorded
/// there.
pub open spec fn secure(vm: &Vm) -> bool {
    exists|heights: Map<int, int>| #[trigger] secure_under(vm, heights)
}

/// Whether a signal tells of a structural fault.
pub open spec fn structural_error(signal: Signal) -> bool {
    signal is Error && signal->Error_0.fault.structural()
}

/// Whether machine `vm` runs a script in a way that is secure, or has
/// halted.
pub open spec fn secure_or_halted(vm: &Vm) -> bool {
    vm.frames@.len() == 0 || secure(vm)
}

/// The globals after the global `name` was defined as `value`, if the name
/// can be interned.
pub open spec fn defined(
    globals: Map<u32, Value>,
    strings: Seq<Seq<char>>,
    name: Seq<char>,
    value: Value,
) -> Map<u32, Value> {
    if has_room(strings, name) {
        globals.insert(handle_of(strings, name).0, value)
    } else {
        globals
    }
}

/// Globals, and the strings that are interned.
pub struct Defined {
    pub globals: Map<u32, Value>,
    pub strings: Seq<Seq<char>>,
}

/// The globals and strings after the natives `natives[..upto]` were
/// defined, one after the other.
pub open spec fn natives_defined(start: Defined, natives: Seq<Native>, upto: int) -> Defined
    decreases upto,
{
    if upto <= 0 || upto > natives.len() {
        start
    } else {
        let before = natives_defined(start, natives, upto - 1);
        Defined {
            globals: defined(
                before.globals,
                before.strings,
                natives[upto - 1].name_spec(),
                Value::NativeFunction(natives[upto - 1]),
            ),
            strings: interned(before.strings, natives[upto - 1].name_spec()),
        }
    }
}

/// The globals and strings of a machine that was booted with `strings`
/// interned: the error global is `Nil`, and every native is defined under
/// its name.
pub open spec fn boot_state(strings: Seq<Seq<char>>) -> Defined {
    natives_defined(
        Defined {
            globals: defined(Map::empty(), strings, ERR_STRING@, Value::Nil),
            strings: interned(strings, ERR_STRING@),
        },
        Native::all_spec(),
        Native::all_spec().len() as int,
    )
}

/// The strings that are interned after a machine was booted with
/// `strings` interned.
pub open spec fn boot_strings(strings: Seq<Seq<char>>) -> Seq<Seq<char>> {
    boot_state(strings).strings
}

/// Whether `vm` is a machine that was just booted for `functions`, with
/// `strings` interned before: it is about to execute the first
/// instruction of the last function, the script; its stack and its heap
/// are empty; and its globals are the error global and the natives.
pub open spec fn booted(vm: &Vm, functions: Vec<Fun>, strings: Seq<Seq<char>>) -> bool {
    &&& vm.wf()
    &&& vm.functions == functions
    &&& vm.frames@.len() == 1
    &&& vm.frame().fun_idx == functions@.len() - 1
    &&& vm.frame().ip == 0
    &&& vm.frame().start_len == 0
    &&& vm.frame().slot_offset == 0
    &&& vm.stack@.len() == 0
    &&& vm.heap@.len() == 0
    &&& vm.awaiting is None
    &&& vm.global_error_id == (if has_room(strings, ERR_STRING@) {
        Some(handle_of(strings, ERR_STRING@))
    } else {
        None
    })
    &&& vm.globals@ == boot_state(strings).globals
}

/// The operator of an arithmetic instruction.
pub open spec fn arithmetic_of(op: Opcode) -> Arithmetic {
    match op {
        Opcode::Subtract => Arithmetic::Subtract,
        Opcode::Multiply => Arithmetic::Multiply,
        Opcode::Divide => Arithmetic::Divide,
        Opcode::Modulo => Arithmetic::Modulo,
        _ => Arithmetic::Add,
    }
}

/// The comparison of a comparing instruction.
pub open spec fn comparison_of(op: Opcode) -> Comparison {
    match op {
        Opcode::Greater => Comparison::Greater,
        _ => Comparison::Less,
    }
}

/// The lines of a traceback for the calls `frames`, the innermost first.
pub open spec fn trace_of(functions: Seq<Fun>, frames: Seq<CallFrame>) -> Seq<TraceLine> {
    Seq::new(frames.len(), |k: int| trace_line(functions, frames[frames.len() - 1 - k]))
}

/// Whether `later` is machine `before` once it was halted by `fault`, and
/// `signal` tells of it: no call is under way any more, the signal is the
/// runtime error with this fault and the traceback of the calls that were
/// under way, and stack, arrays and globals are as they were.
pub open spec fn halted_by(before: &Vm, later: &Vm, signal: Option<Signal>, fault: Fault) -> bool {
    &&& later.frames@.len() == 0
    &&& later.awaiting is None
    &&& later.functions == before.functions
    &&& later.stack == before.stack
    &&& later.heap == before.heap
    &&& later.globals == before.globals
    &&& later.global_error_id == before.global_error_id
    &&& match signal {
        Some(Signal::Error(error)) => error.fault == fault && error.trace@ == trace_of(
            before.functions@,
            before.frames@,
        ),
        _ => false,
    }
}

/// Whether `fetched` is machine `earlier` once it has read the
/// instruction that it had come to: the innermost call stands behind that
/// instruction, and nothing else changed.
pub open spec fn fetched_from(earlier: &Vm, fetched: &Vm) -> bool {
    &&& fetched.functions == earlier.functions
    &&& fetched.stack == earlier.stack
    &&& fetched.heap == earlier.heap
    &&& fetched.globals == earlier.globals
    &&& fetched.global_error_id == earlier.global_error_id
    &&& fetched.awaiting == earlier.awaiting
    &&& fetched.frames@ == earlier.frames@.update(
        earlier.frames@.len() - 1,
        CallFrame {
            ip: (earlier.frame().ip + instruction_len(earlier.code(), earlier.frame().ip as int))
                as usize,
            ..earlier.frame()
        },
    )
}

/// Whether `after` is machine `before` once its innermost call went to
/// offset `to` of its code, and nothing else changed.
pub open spec fn jumped(before: &Vm, after: &Vm, to: int) -> bool {
    &&& 0 <= to <= usize::MAX
    &&& after.functions == before.functions
    &&& after.stack == before.stack
    &&& after.heap == before.heap
    &&& after.globals == before.globals
    &&& after.global_error_id == before.global_error_id
    &&& after.awaiting == before.awaiting
    &&& after.frames@ == before.frames@.update(
        before.frames@.len() - 1,
        CallFrame { ip: to as usize, ..before.frame() },
    )
}

/// The fault that instruction `op` raises in machine `before`, which has
/// read it, whatever the embedder's arithmetic gives and whatever the
/// interner holds, if there is one. `first` is the first operand byte and
/// `wide` the operand of a jump.
pub open spec fn fault_in(before: &Vm, op: Opcode, first: int, wide: int) -> Option<Fault> {
    let ip = before.frame().ip as int;
    let stack = before.stack@;
    if op == Opcode::Jump && ip + wide > usize::MAX {
        Some(Fault::CodeOverrun)
    } else if op == Opcode::Loop && wide > ip {
        Some(Fault::CodeOverrun)
    } else if op == Opcode::JumpIfFalse && stack.len() > 0 && !(stack.last() is Number) && falsey(
        stack.last(),
        before.heap@,
        false,
    ) && ip + wide > usize::MAX {
        Some(Fault::CodeOverrun)
    } else {
        fault_of(before, op, first)
    }
}

/// Whether `fault` is one that instruction `op` raises in machine
/// `before` where [`fault_in`] names none: the fault of an index that the
/// whole number which `ops` may give for it puts outside its array; a
/// jump that leaves the code, taken for a number that `ops` may take for
/// zero; a string that the interner does not know; or an interner that
/// is full.
pub open spec fn fault_by_host<N: NumberOps>(
    ops: &N,
    before: &Vm,
    op: Opcode,
    first: int,
    wide: int,
    fault: Fault,
) -> bool {
    let stack = before.stack@;
    let n = stack.len() as int;
    let slot = before.frame().slot_offset + first;
    let name = name_of(before.constants()[first]);
    match op {
        Opcode::JumpIfFalse => fault == Fault::CodeOverrun && stack.last() is Number
            && before.frame().ip + wide > usize::MAX && falsey_under(
            ops,
            stack.last(),
            before.heap@,
            true,
        ),
        Opcode::GetLocal => got(
            ops,
            stack[slot],
            stack.last(),
            before.heap@,
            Err::<Value, Fault>(fault),
        ),
        Opcode::GetGlobal => got(
            ops,
            before.globals@[name.0],
            stack.last(),
            before.heap@,
            Err::<Value, Fault>(fault),
        ),
        Opcode::SetLocal => stack[n - 2] != Value::Nil && put(
            ops,
            stack.subrange(0, n - 2).push(stack.last())[slot],
            stack[n - 2],
            stack.last(),
            before.heap@,
            before.heap@,
            Some(fault),
        ),
        Opcode::SetGlobal => stack[n - 2] != Value::Nil && put(
            ops,
            before.globals@[name.0],
            stack[n - 2],
            stack.last(),
            before.heap@,
            before.heap@,
            Some(fault),
        ),
        _ => host_fault(before, op, fault),
    }
}

/// Whether `after`, `later` and `signal` are what instruction `op` leaves
/// of machine `before` and of the strings `strings` of the interner, and
/// what it tells the embedder, when it succeeds. `first` is the first
/// operand byte and `wide` the operand of a jump. Where the arithmetic of
/// numbers decides, the result is one that `ops` may give for the
/// operands, the one that was pushed first on the left.
pub open spec fn effected<N: NumberOps>(
    ops: &N,
    before: &Vm,
    strings: Seq<Seq<char>>,
    op: Opcode,
    first: int,
    wide: int,
    after: &Vm,
    later: Seq<Seq<char>>,
    signal: Option<Signal>,
) -> bool {
    let ip = before.frame().ip as int;
    let stack = before.stack@;
    let n = stack.len() as int;
    let kept = after.heap == before.heap && after.globals == before.globals;
    let quiet = signal is None && after.held(before) && later == strings;
    let slot = before.frame().slot_offset + first;
    let name = name_of(before.constants()[first]);
    match op {
        Opcode::Return => {
            &&& later == strings
            &&& kept
            &&& after.global_error_id == before.global_error_id
            &&& after.awaiting is None
            &&& after.frames@ == before.frames@.drop_last()
            &&& if before.frames@.len() == 1 {
                signal == Some(Signal::Done)
            } else {
                signal is None && after.stack@ == returned(stack, before.frame())
            }
        },
        Opcode::Constant => quiet && kept && after.stack@ == stack.push(before.constants()[first]),
        Opcode::Nil => quiet && kept && after.stack@ == stack.push(Value::Nil),
        Opcode::True => quiet && kept && after.stack@ == stack.push(Value::Bool(true)),
        Opcode::False => quiet && kept && after.stack@ == stack.push(Value::Bool(false)),
        Opcode::Pop => quiet && kept && after.stack@ == stack.drop_last(),
        Opcode::Print => {
            &&& after.held(before)
            &&& later == strings
            &&& kept
            &&& after.stack@ == stack.drop_last()
            &&& match signal {
                Some(Signal::Print(text)) => crate::value::array_written(
                    ops,
                    stack.last(),
                    strings,
                    before.heap@,
                    crate::value::MAX_TEXT_DEPTH as nat,
                    text@,
                ),
                _ => false,
            }
        },
        Opcode::Not => quiet && kept && after.stack@.len() == n && after.stack@.drop_last()
            == stack.drop_last() && (match after.stack@.last() {
            Value::Bool(counts) => falsey_under(ops, stack.last(), before.heap@, counts),
            _ => false,
        }),
        Opcode::Negate => quiet && kept && after.stack@.len() == n && after.stack@.drop_last()
            == stack.drop_last() && (match (stack.last(), after.stack@.last()) {
            (Value::Number(a), Value::Number(r)) => ops.unary_gives(Unary::Negate, a, r),
            _ => false,
        }),
        Opcode::Equal => quiet && kept && after.stack@.len() == n - 1 && after.stack@.drop_last()
            == stack.subrange(0, n - 2) && (match after.stack@.last() {
            Value::Bool(equal) => equal_under(ops, stack[n - 2], stack.last(), equal),
            _ => false,
        }),
        Opcode::Subtract | Opcode::Multiply | Opcode::Divide | Opcode::Modulo => quiet && kept
            && after.stack@.len() == n - 1 && after.stack@.drop_last() == stack.subrange(0, n - 2)
            && (match (stack[n - 2], stack.last(), after.stack@.last()) {
            (Value::Number(a), Value::Number(b), Value::Number(r)) => ops.binary_gives(
                arithmetic_of(op),
                a,
                b,
                r,
            ),
            _ => false,
        }),
        Opcode::Greater | Opcode::Less => quiet && kept && after.stack@.len() == n - 1
            && after.stack@.drop_last() == stack.subrange(0, n - 2) && (match (
            stack[n - 2],
            stack.last(),
            after.stack@.last(),
        ) {
            (Value::Number(a), Value::Number(b), Value::Bool(r)) => ops.compare_gives(
                comparison_of(op),
                a,
                b,
                r,
            ),
            _ => false,
        }),
        Opcode::Add => signal is None && after.held(before) && kept && after.stack@.len() == n - 1
            && after.stack@.drop_last() == stack.subrange(0, n - 2) && exists|
            number: Number,
            written: Seq<char>,
        | #[trigger]
            summed(
                ops,
                stack[n - 2],
                stack.last(),
                strings,
                number,
                written,
                later,
                after.stack@.last(),
                None,
            ),
        Opcode::DefineGlobal => quiet && after.stack@ == stack.drop_last() && after.heap
            == before.heap && after.globals@ == before.globals@.insert(name.0, stack.last()),
        Opcode::DeclareArray => quiet && after.globals == before.globals && after.stack@
            == stack.drop_last().push(Value::Array(before.heap@.len() as usize)) && exists|
            whole: Option<u64>,
        | #[trigger]
            ops.integer_gives(stack.last()->Number_0, whole) && after.heap@ == before.heap@.push(
                new_array(whole),
            ),
        Opcode::GetLocal => quiet && kept && after.stack@.len() == n && after.stack@.drop_last()
            == stack.drop_last() && got(
            ops,
            stack[slot],
            stack.last(),
            before.heap@,
            Ok::<Value, Fault>(after.stack@.last()),
        ),
        Opcode::GetGlobal => quiet && kept && after.stack@.len() == n && after.stack@.drop_last()
            == stack.drop_last() && got(
            ops,
            before.globals@[name.0],
            stack.last(),
            before.heap@,
            Ok::<Value, Fault>(after.stack@.last()),
        ),
        Opcode::SetLocal => quiet && after.globals == before.globals && (if stack[n - 2]
            == Value::Nil {
            after.heap == before.heap && after.stack@ == stack.subrange(0, n - 2).push(
                stack.last(),
            ).update(slot, stack.last())
        } else {
            after.stack@ == stack.subrange(0, n - 2).push(stack.last()) && put(
                ops,
                after.stack@[slot],
                stack[n - 2],
                stack.last(),
                before.heap@,
                after.heap@,
                None,
            )
        }),
        Opcode::SetGlobal => quiet && after.stack@ == stack.subrange(0, n - 2).push(stack.last())
            && (if stack[n - 2] == Value::Nil {
            after.heap == before.heap && after.globals@ == before.globals@.insert(
                name.0,
                stack.last(),
            )
        } else {
            after.globals == before.globals && put(
                ops,
                before.globals@[name.0],
                stack[n - 2],
                stack.last(),
                before.heap@,
                after.heap@,
                None,
            )
        }),
        Opcode::Jump => signal is None && later == strings && jumped(before, after, ip + wide),
        Opcode::Loop => signal is None && later == strings && jumped(before, after, ip - wide),
        Opcode::JumpIfFalse => signal is None && later == strings && exists|counts: bool|
            #[trigger] falsey_under(ops, stack.last(), before.heap@, counts) && jumped(
                before,
                after,
                ip + (if counts {
                    wide
                } else {
                    0
                }),
            ),
        Opcode::Call => called(ops, before, strings, stack[n - 1 - first], first, after, later, signal),
    }
}

/// Whether `after`, `later` and `r` are what executing instruction `op`
/// makes of machine `before`, which has read it, and of the strings
/// `strings` of the interner. The instruction fails with the fault that
/// [`fault_in`] names; where that names none, it fails only as
/// [`fault_by_host`] allows, and else succeeds as [`effected`] lays
/// down. An instruction that fails leaves the calls as they were.
pub open spec fn performed<N: NumberOps>(
    ops: &N,
    before: &Vm,
    strings: Seq<Seq<char>>,
    op: Opcode,
    first: int,
    wide: int,
    after: &Vm,
    later: Seq<Seq<char>>,
    r: Result<Option<Signal>, Fault>,
) -> bool {
    &&& after.wf()
    &&& after.functions == before.functions
    &&& match fault_in(before, op, first, wide) {
        Some(fault) => r == Err::<Option<Signal>, Fault>(fault),
        None => true,
    }
    &&& match r {
        Err(fault) => {
            &&& after.frames == before.frames
            &&& after.awaiting is None
            &&& fault_in(before, op, first, wide) is None ==> fault_by_host(ops, before, op, first, wide, fault)
        },
        Ok(signal) => effected(ops, before, strings, op, first, wide, after, later, signal),
    }
}

/// Whether machine `earlier`, which is running and can read its
/// instruction, gets to machine `later` with this signal by way of
/// `fetched`, the machine that has read the instruction, `done`, the
/// machine that has executed it, and `r`, the outcome: an instruction
/// that succeeds leaves `done` and its signal, and one that fails halts
/// the machine.
pub open spec fn carried<N: NumberOps>(
    ops: &N,
    earlier: &Vm,
    strings: Seq<Seq<char>>,
    fetched: Vm,
    done: Vm,
    r: Result<Option<Signal>, Fault>,
    later: &Vm,
    later_strings: Seq<Seq<char>>,
    signal: Option<Signal>,
) -> bool {
    let code = earlier.code();
    let ip = earlier.frame().ip as int;
    &&& fetched_from(earlier, &fetched)
    &&& performed(
        ops,
        &fetched,
        strings,
        Opcode::decode(code[ip]).unwrap(),
        code[ip + 1] as int,
        wide_operand(code, ip),
        &done,
        later_strings,
        r,
    )
    &&& match r {
        Ok(told) => *later == done && signal == told,
        Err(fault) => halted_by(&done, later, signal, fault),
    }
}

/// Whether one step leads from machine `earlier` to machine `later` with
/// this signal, and from the strings `strings` of the interner to
/// `later_strings`.
///
/// A machine that has halted says `Done`, one that waits for input says
/// `Read` with its prompt, and both stay as they are. A machine that runs
/// and cannot read its instruction is halted by that fault. Any other
/// executes the instruction: see [`carried`]. So it fails exactly as
/// [`fails_with`] lays down; it says `Done` only at the `RETURN` that
/// ends the last call; and it says `Print` only at a `PRINT` or at the
/// call of the native that prints.
pub open spec fn took<N: NumberOps>(
    ops: &N,
    earlier: &Vm,
    strings: Seq<Seq<char>>,
    later: &Vm,
    later_strings: Seq<Seq<char>>,
    signal: Option<Signal>,
) -> bool {
    &&& later.wf()
    &&& later.functions == earlier.functions
    &&& !earlier.running() ==> later.frames == earlier.frames && later.stack == earlier.stack
        && later.heap == earlier.heap && later.globals == earlier.globals && later.awaiting
        == earlier.awaiting && signal is Some && later_strings == strings
    &&& earlier.frames@.len() == 0 ==> signal == Some(Signal::Done)
    &&& earlier.frames@.len() > 0 && earlier.awaiting is Some ==> (match signal {
        Some(Signal::Read(prompt)) => prompt@ == earlier.awaiting.unwrap().prompt@,
        _ => false,
    })
    &&& signal is Some && (signal.unwrap() is Error || signal.unwrap() is Done)
        ==> later.frames@.len() == 0
    &&& earlier.running() ==> (later.awaiting is Some <==> signal is Some && signal.unwrap()
        is Read)
    &&& !(signal is Some && signal.unwrap() is Paused)
    &&& signal is None ==> later.running()
    &&& earlier.running() ==> (fault_at(earlier) is Some ==> signal is Some && signal.unwrap()
        is Error)
    &&& earlier.running() && signal is Some && signal.unwrap() is Error ==> fails_with(
        earlier,
        signal.unwrap()->Error_0.fault,
    )
    &&& earlier.running() && later.running() && later.frames@.len() == earlier.frames@.len()
        ==> stepped(earlier, later)
    &&& earlier.running() ==> if unreadable(earlier) {
        halted_by(earlier, later, signal, fault_at(earlier).unwrap()) && later_strings == strings
    } else {
        exists|fetched: Vm, done: Vm, r: Result<Option<Signal>, Fault>| #[trigger]
            carried(ops, earlier, strings, fetched, done, r, later, later_strings, signal)
    }
}

/// Whether `trace` is a run of at most `max_steps` steps from machine
/// `first` to machine `last` that ends with this signal, and `texts` the
/// strings that the interner held at each machine of the trace: every
/// machine of the trace but the last took a quiet step to the next; and
/// the run either used up its steps, or its last machine took the step
/// that gave the signal and left the interner with `last_strings`.
pub open spec fn ran<N: NumberOps>(
    ops: &N,
    trace: Seq<Vm>,
    texts: Seq<Seq<Seq<char>>>,
    first: &Vm,
    last: &Vm,
    last_strings: Seq<Seq<char>>,
    signal: Signal,
    max_steps: usize,
) -> bool {
    &&& 1 <= trace.len() <= max_steps + 1
    &&& texts.len() == trace.len()
    &&& trace[0] == *first
    &&& forall|i: int|
        #![trigger trace[i]]
        0 <= i < trace.len() - 1 ==> took(ops, &trace[i], texts[i], &trace[i + 1], texts[i + 1], None)
    &&& if signal is Paused {
        trace.len() == max_steps + 1 && trace.last() == *last && texts.last() == last_strings
    } else {
        trace.len() <= max_steps && took(
            ops,
            &trace.last(),
            texts.last(),
            last,
            last_strings,
            Some(signal),
        )
    }
}

/// Whether machine `vm`, which is running, cannot read the instruction
/// that it has come to: control has left the code or stands on a byte
/// that is no opcode, or the instruction is cut off.
pub open spec fn unreadable(vm: &Vm) -> bool {
    let code = vm.code();
    let ip = vm.frame().ip as int;
    ip >= code.len() || Opcode::decode(code[ip]) is None || ip + instruction_len(code, ip)
        > code.len()
}

/// The fault that machine `vm`, which is running, raises at the
/// instruction that it has come to, whatever the embedder's arithmetic
/// gives and whatever the interner holds, if there is one.
pub open spec fn fault_at(vm: &Vm) -> Option<Fault> {
    let code = vm.code();
    let ip = vm.frame().ip as int;
    if ip >= code.len() {
        Some(Fault::CodeOverrun)
    } else {
        match Opcode::decode(code[ip]) {
            None => Some(Fault::InvalidOpcode(code[ip])),
            Some(op) => if ip + instruction_len(code, ip) > code.len() {
                Some(Fault::CodeOverrun)
            } else if op == Opcode::Jump && ip + 3 + wide_operand(code, ip) > usize::MAX {
                Some(Fault::CodeOverrun)
            } else if op == Opcode::Loop && wide_operand(code, ip) > ip + 3 {
                Some(Fault::CodeOverrun)
            } else if op == Opcode::JumpIfFalse && vm.stack@.len() > 0 && !(vm.stack@.last()
                is Number) && falsey(vm.stack@.last(), vm.heap@, false) && ip + 3 + wide_operand(
                code,
                ip,
            ) > usize::MAX {
                Some(Fault::CodeOverrun)
            } else {
                fault_of(vm, op, code[ip + 1] as int)
            },
        }
    }
}

/// Whether machine `vm`, which is running, fails with `fault` at the
/// instruction that it has come to: with the fault that [`fault_at`]
/// names; and where it names none, with one that rests on the
/// embedder's arithmetic or on the interner.
pub open spec fn fails_with(vm: &Vm, fault: Fault) -> bool {
    let code = vm.code();
    let ip = vm.frame().ip as int;
    match fault_at(vm) {
        Some(first) => fault == first,
        None => {
            let op = Opcode::decode(code[ip]).unwrap();
            if op == Opcode::JumpIfFalse {
                fault == Fault::CodeOverrun && vm.stack@.last() is Number && ip + 3 + wide_operand(
                    code,
                    ip,
                ) > usize::MAX
            } else {
                host_fault(vm, op, fault)
            }
        },
    }
}

/// Whether `later` is the machine after `earlier` executed an instruction
/// that stayed in its function: only the innermost call moved, to where
/// the instruction hands control on, and the height of the stack changed
/// by the instruction's effect.
pub open spec fn stepped(earlier: &Vm, later: &Vm) -> bool {
    &&& later.frames@.len() == earlier.frames@.len()
    &&& later.frames@.drop_last() == earlier.frames@.drop_last()
    &&& later.frame().fun_idx == earlier.frame().fun_idx
    &&& later.frame().slot_offset == earlier.frame().slot_offset
    &&& later.frame().start_len == earlier.frame().start_len
    &&& later.functions == earlier.functions
    &&& steps_to(
        earlier.code(),
        earlier.frame().ip as int,
        later.frame().ip as int,
        later.stack@.len() - earlier.stack@.len(),
    )
}

/// What an instruction does depends on its operand bytes only as far as
/// it has them: an instruction without operands does the same whatever
/// bytes follow it, and one with a single operand whatever byte follows
/// that.
pub proof fn lemma_performed_agrees<N: NumberOps>(
    ops: &N,
    before: &Vm,
    strings: Seq<Seq<char>>,
    op: Opcode,
    first: int,
    other_first: int,
    wide: int,
    other_wide: int,
    after: &Vm,
    later: Seq<Seq<char>>,
    r: Result<Option<Signal>, Fault>,
)
    requires
        performed(ops, before, strings, op, first, wide, after, later, r),
        op.operands() == 0 || first == other_first,
        op.operands() < 2 || wide == other_wide,
        before.frames@.len() > 0,
    ensures
        performed(ops, before, strings, op, other_first, other_wide, after, later, r),
{
}

/// An interner that keeps the strings of one that kept those of another
/// keeps those of that other.
pub proof fn lemma_kept_trans(first: Interner, second: Interner, third: Interner)
    requires
        first.kept_by(&second),
        second.kept_by(&third),
    ensures
        first.kept_by(&third),
{
    assert forall|i: int| 0 <= i < first@.len() implies #[trigger] third@[i] == first@[i] by {
        assert(second@[i] == first@[i]);
    }
}

/// The stack after a call returned: the result, which was on top (`Nil`
/// if nothing was), above what the stack held where the call began.
pub open spec fn returned(stack: Seq<Value>, frame: CallFrame) -> Seq<Value> {
    if stack.len() == 0 {
        seq![Value::Nil]
    } else {
        stack.drop_last().take(
            if frame.start_len < stack.len() - 1 {
                frame.start_len as int
            } else {
                stack.len() - 1
            },
        ).push(stack.last())
    }
}

/// The line of a traceback for a call: the source line of the byte that
/// the call had come to (0 if the chunk records none), and the name of the
/// function.
pub open spec fn trace_line(functions: Seq<Fun>, frame: CallFrame) -> TraceLine {
    let fun = functions[frame.fun_idx as int];
    TraceLine {
        line: if fun.chunk.lines@.contains_key(frame.ip) {
            fun.chunk.lines@[frame.ip]
        } else {
            0
        },
        function: fun.name,
    }
}

/// The stack of a machine that waited for input once the line `line` was
/// handed to it: the line, interned, takes the place of the first of the
/// native's `taken` arguments (`Nil` if the interner is full); a native
/// without arguments leaves the stack as it is.
pub open spec fn with_line(
    stack: Seq<Value>,
    taken: int,
    strings: Seq<Seq<char>>,
    line: Seq<char>,
) -> Seq<Value> {
    if taken >= 1 {
        stack.update(
            stack.len() - taken,
            if has_room(strings, line) {
                Value::Str(handle_of(strings, line))
            } else {
                Value::Nil
            },
        )
    } else {
        stack
    }
}

/// The globals of a machine once its error global is set to `Nil`, as it
/// is before a native is called.
pub open spec fn reset_error(vm: &Vm) -> Map<u32, Value> {
    match vm.global_error_id {
        Some(id) => vm.globals@.insert(id.0, Value::Nil),
        None => vm.globals@,
    }
}

/// Whether `after` is machine `before` once `native` was carried out on
/// the arguments that lie on top of `stack`, with the native below them:
/// the error global was reset and the native called with these arguments;
/// its result took the place of the native and its arguments on the
/// stack; and what it hands back and leaves is as [`Native::performed`]
/// lays down.
pub open spec fn finished<N: NumberOps>(
    ops: &N,
    before: &Vm,
    stack: Seq<Value>,
    strings: Seq<Seq<char>>,
    native: Native,
    input: Option<Seq<char>>,
    after: &Vm,
    later_strings: Seq<Seq<char>>,
    signal: Option<Signal>,
) -> bool {
    let n = stack.len() as int;
    let taken = native.arity_spec() as int;
    &&& after.frames == before.frames
    &&& after.functions == before.functions
    &&& after.global_error_id == before.global_error_id
    &&& after.awaiting is None
    &&& after.stack@.len() == n - taken
    &&& after.stack@.drop_last() == stack.take(n - taken - 1)
    &&& native.performed(
        ops,
        stack.subrange(n - taken, n),
        input,
        strings,
        later_strings,
        reset_error(before),
        after.globals@,
        before.heap@,
        after.heap@,
        after.stack@.last(),
        signal,
    )
}

/// The prompt of a native that reads, whose arguments lie on top of
/// `stack`: none for a native without arguments, and else the string
/// that is its first argument. `None` where that is no string of the
/// interner: then nothing is read.
pub open spec fn prompt_of(stack: Seq<Value>, native: Native, strings: Seq<Seq<char>>) -> Option<
    Seq<char>,
> {
    if native.arity_spec() == 0 {
        Some(Seq::empty())
    } else {
        match stack[stack.len() - native.arity_spec()] {
            Value::Str(id) => if 0 <= id.index() < strings.len() {
                Some(strings[id.index()])
            } else {
                None
            },
            _ => None,
        }
    }
}

/// Whether `after` is machine `before` once it called `callee` with
/// `arg_count` arguments, and `signal` what the call tells the embedder.
/// A function gets a new call frame above its arguments. A native that
/// reads and has a prompt is awaited, and the signal is `Read` with the
/// prompt. Any other native is carried out at once: see [`finished`]; one
/// that reads and has no prompt gets `Nil` for its argument.
pub open spec fn called<N: NumberOps>(
    ops: &N,
    before: &Vm,
    strings: Seq<Seq<char>>,
    callee: Value,
    arg_count: int,
    after: &Vm,
    later_strings: Seq<Seq<char>>,
    signal: Option<Signal>,
) -> bool {
    let n = before.stack@.len() as int;
    match callee {
        Value::Function(index) => {
            &&& index < before.functions@.len()
            &&& before.functions@[index as int].arity == arg_count
            &&& signal is None
            &&& later_strings == strings
            &&& after.functions == before.functions
            &&& after.stack == before.stack
            &&& after.heap == before.heap
            &&& after.globals == before.globals
            &&& after.global_error_id == before.global_error_id
            &&& after.awaiting is None
            &&& after.frames@ == before.frames@.push(
                CallFrame {
                    fun_idx: index,
                    ip: 0,
                    start_len: (n - 1 - arg_count) as usize,
                    slot_offset: (n - arg_count) as usize,
                },
            )
        },
        Value::NativeFunction(native) => {
            &&& native.arity_spec() == arg_count
            &&& if native.reads_input() && prompt_of(before.stack@, native, strings) is Some {
                &&& match signal {
                    Some(Signal::Read(text)) => text@ == prompt_of(
                        before.stack@,
                        native,
                        strings,
                    ).unwrap(),
                    _ => false,
                }
                &&& later_strings == strings
                &&& after.functions == before.functions
                &&& after.frames == before.frames
                &&& after.stack == before.stack
                &&& after.heap == before.heap
                &&& after.globals == before.globals
                &&& after.global_error_id == before.global_error_id
                &&& match after.awaiting {
                    Some(awaiting) => awaiting.native == native && awaiting.arg_count == arg_count
                        && awaiting.prompt@ == prompt_of(before.stack@, native, strings).unwrap(),
                    None => false,
                }
            } else {
                finished(
                    ops,
                    before,
                    if native.reads_input() {
                        before.stack@.update(n - arg_count, Value::Nil)
                    } else {
                        before.stack@
                    },
                    strings,
                    native,
                    None,
                    after,
                    later_strings,
                    signal,
                )
            }
        },
        _ => false,
    }
}

/// The fault of a stack that holds fewer than `needed` values.
pub open spec fn underflow(height: int, needed: int) -> Option<Fault> {
    if height < needed {
        Some(Fault::StackUnderflow)
    } else {
        None
    }
}

/// The fault of an operand that is to name a global and does not: it is
/// no constant of the chunk, or the constant is no name.
pub open spec fn bad_name(vm: &Vm, operand: int) -> Option<Fault> {
    if operand >= vm.constants().len() {
        Some(Fault::BadConstant(operand as u8))
    } else if !(vm.constants()[operand] is Str) && !(vm.constants()[operand] is Identifier) {
        Some(Fault::BadName(vm.constants()[operand]))
    } else {
        None
    }
}

/// The fault of indexing `target` with `index`, where `Nil` stands for no
/// index: a value that is no array, or an index that is no number.
pub open spec fn unindexable(target: Value, index: Value, writing: bool) -> Option<Fault> {
    if index == Value::Nil || (target is Array && index is Number) {
        None
    } else {
        Some(Fault::NotIndexable { target, key: index, writing })
    }
}

/// The fault that instruction `op` with this operand raises in machine
/// `vm` whatever the embedder's arithmetic gives and whatever the
/// interner holds, if there is one: the first of the checks that the
/// instruction makes and that fails.
pub open spec fn fault_of(vm: &Vm, op: Opcode, operand: int) -> Option<Fault> {
    let stack = vm.stack@;
    let n = stack.len() as int;
    let slot = vm.frame().slot_offset + operand;
    let name = name_of(vm.constants()[operand]);
    match op {
        Opcode::Return | Opcode::Nil | Opcode::True | Opcode::False | Opcode::Jump | Opcode::Loop => None,
        Opcode::Constant => if operand >= vm.constants().len() {
            Some(Fault::BadConstant(operand as u8))
        } else {
            None
        },
        Opcode::Pop | Opcode::Print | Opcode::Not | Opcode::JumpIfFalse => underflow(n, 1),
        Opcode::Equal => underflow(n, 2),
        Opcode::Negate => if n < 1 {
            Some(Fault::StackUnderflow)
        } else if !(stack.last() is Number) {
            Some(Fault::OperandMustBeNumber(stack.last()))
        } else {
            None
        },
        Opcode::Subtract
        | Opcode::Multiply
        | Opcode::Divide
        | Opcode::Modulo
        | Opcode::Greater
        | Opcode::Less => if n < 2 {
            Some(Fault::StackUnderflow)
        } else if !(stack[n - 2] is Number && stack.last() is Number) {
            Some(Fault::OperandsMustBeNumbers(stack[n - 2], stack.last()))
        } else {
            None
        },
        Opcode::Add => if n < 2 {
            Some(Fault::StackUnderflow)
        } else if !addable(stack[n - 2], stack.last()) {
            Some(Fault::OperandsMustBeNumbers(stack[n - 2], stack.last()))
        } else {
            None
        },
        Opcode::DefineGlobal => if bad_name(vm, operand) is Some {
            bad_name(vm, operand)
        } else {
            underflow(n, 1)
        },
        Opcode::DeclareArray => if n < 1 {
            Some(Fault::StackUnderflow)
        } else if !(stack.last() is Number) {
            Some(Fault::ExpectedNumber(stack.last()))
        } else {
            None
        },
        Opcode::GetLocal => if n < 1 {
            Some(Fault::StackUnderflow)
        } else if slot >= n - 1 {
            Some(Fault::BadSlot(operand as u8))
        } else {
            unindexable(stack[slot], stack.last(), false)
        },
        Opcode::SetLocal => if n < 2 {
            Some(Fault::StackUnderflow)
        } else if slot >= n - 1 {
            Some(Fault::BadSlot(operand as u8))
        } else {
            unindexable(stack.subrange(0, n - 2).push(stack.last())[slot], stack[n - 2], true)
        },
        Opcode::GetGlobal => if bad_name(vm, operand) is Some {
            bad_name(vm, operand)
        } else if n < 1 {
            Some(Fault::StackUnderflow)
        } else if !vm.globals@.contains_key(name.0) {
            Some(Fault::UndefinedVariable(name))
        } else {
            unindexable(vm.globals@[name.0], stack.last(), false)
        },
        Opcode::SetGlobal => if bad_name(vm, operand) is Some {
            bad_name(vm, operand)
        } else if !vm.globals@.contains_key(name.0) {
            Some(Fault::UndefinedVariable(name))
        } else if n < 2 {
            Some(Fault::StackUnderflow)
        } else {
            unindexable(vm.globals@[name.0], stack[n - 2], true)
        },
        Opcode::Call => if n <= operand {
            Some(Fault::StackUnderflow)
        } else {
            match stack[n - 1 - operand] {
                Value::Function(index) => if index >= vm.functions@.len() {
                    Some(Fault::BadFunction(index))
                } else if vm.functions@[index as int].arity != operand {
                    Some(
                        Fault::WrongArity {
                            expected: vm.functions@[index as int].arity,
                            got: operand as usize,
                        },
                    )
                } else {
                    None
                },
                Value::NativeFunction(native) => if native.arity_spec() != operand {
                    Some(
                        Fault::WrongArity {
                            expected: native.arity_spec() as usize,
                            got: operand as usize,
                        },
                    )
                } else {
                    None
                },
                other => Some(Fault::NotCallable(other)),
            }
        },
    }
}

/// Whether `fault` is one that instruction `op` may raise in machine `vm`
/// where [`fault_of`] names none: an index that the embedder's
/// arithmetic puts outside its array, a string that the interner does
/// not know, or an interner that is full.
pub open spec fn host_fault(vm: &Vm, op: Opcode, fault: Fault) -> bool {
    match op {
        Opcode::Add => fault == Fault::OutOfStrings || fault == Fault::UnknownString(
            vm.stack@.last(),
        ) || fault == Fault::UnknownString(vm.stack@[vm.stack@.len() - 2]),
        Opcode::GetLocal | Opcode::GetGlobal => vm.stack@.last() is Number && (match fault {
            Fault::IndexOutOfBounds { index, writing } => !writing,
            Fault::IndexNotWhole { writing } => !writing,
            _ => false,
        }),
        Opcode::SetLocal | Opcode::SetGlobal => vm.stack@[vm.stack@.len() - 2] is Number && (
        match fault {
            Fault::IndexOutOfBounds { index, writing } => writing,
            Fault::IndexNotWhole { writing } => writing,
            _ => false,
        }),
        _ => false,
    }
}

/// Whether `fault` is the fault that instruction `op` with this operand
/// raises in machine `vm`: the one that [`fault_of`] names, and where it
/// names none, one that [`host_fault`] allows.
pub open spec fn arises(vm: &Vm, op: Opcode, operand: int, fault: Fault) -> bool {
    match fault_of(vm, op, operand) {
        Some(first) => fault == first,
        None => host_fault(vm, op, fault),
    }
}

/// Whether the constant `constant` names the string with handle `name`.
pub open spec fn names(constant: Value, name: StrId) -> bool {
    constant == Value::Str(name) || constant == Value::Identifier(name)
}

/// The handle of the string that a constant names: its own where it is
/// a string or an identifier.
pub open spec fn name_of(constant: Value) -> StrId {
    match constant {
        Value::Str(name) => name,
        Value::Identifier(name) => name,
        _ => StrId(0),
    }
}

/// Whether `+` takes these two operands.
pub open spec fn addable(left: Value, right: Value) -> bool {
    (left is Number || left is Str) && (right is Number || right is Str)
}

/// Whether `sum` is what `+` makes of `left` and `right`: a number for two
/// numbers, and else a string that the interner holds afterwards; for two
/// strings it is the first followed by the second.
pub open spec fn added(
    left: Value,
    right: Value,
    sum: Value,
    strings: Seq<Seq<char>>,
    later: Seq<Seq<char>>,
) -> bool {
    &&& addable(left, right)
    &&& left is Number && right is Number ==> sum is Number
    &&& !(left is Number && right is Number) ==> match sum {
        Value::Str(id) => 0 <= id.index() < later.len() && (match (left, right) {
            (Value::Str(a), Value::Str(b)) => 0 <= a.index() < strings.len() && 0 <= b.index()
                < strings.len() && later[id.index()] == strings[a.index()] + strings[b.index()],
            (Value::Str(a), _) => 0 <= a.index() < strings.len() && later[id.index()].len()
                >= strings[a.index()].len() && later[id.index()].subrange(
                0,
                strings[a.index()].len() as int,
            ) == strings[a.index()],
            (_, Value::Str(b)) => 0 <= b.index() < strings.len() && later[id.index()].len()
                >= strings[b.index()].len() && later[id.index()].subrange(
                later[id.index()].len() - strings[b.index()].len(),
                later[id.index()].len() as int,
            ) == strings[b.index()],
            _ => false,
        }),
        _ => false,
    }
}

/// The text of an operand of `+`: the string of a string value, and for a
/// number the text `written` that the embedder writes for it. `None` for
/// a string that the interner does not know.
pub open spec fn operand_text(
    value: Value,
    strings: Seq<Seq<char>>,
    written: Seq<char>,
) -> Option<Seq<char>> {
    match value {
        Value::Str(id) => if 0 <= id.index() < strings.len() {
            Some(strings[id.index()])
        } else {
            None
        },
        _ => Some(written),
    }
}

/// What `+` makes of `left` and `right`, where `number` is the sum that
/// the embedder computes for two numbers and `written` the text that it
/// writes for a number that is added to a string: the number; or the
/// string that joins the texts of the operands, the left one first,
/// interned; or the fault.
pub open spec fn sum(
    left: Value,
    right: Value,
    strings: Seq<Seq<char>>,
    number: Number,
    written: Seq<char>,
) -> Result<Value, Fault> {
    if !addable(left, right) {
        Err(Fault::OperandsMustBeNumbers(left, right))
    } else if left is Number && right is Number {
        Ok(Value::Number(number))
    } else if operand_text(left, strings, written) is None {
        Err(Fault::UnknownString(left))
    } else if operand_text(right, strings, written) is None {
        Err(Fault::UnknownString(right))
    } else {
        let joined = operand_text(left, strings, written).unwrap() + operand_text(
            right,
            strings,
            written,
        ).unwrap();
        if has_room(strings, joined) {
            Ok(Value::Str(handle_of(strings, joined)))
        } else {
            Err(Fault::OutOfStrings)
        }
    }
}

/// An outcome with the value that it left on top of the stack.
pub open spec fn outcome_of(r: Result<(), Fault>, top: Value) -> Result<Value, Fault> {
    match r {
        Ok(_) => Ok(top),
        Err(fault) => Err(fault),
    }
}

/// Whether `number` and `written` are what `ops` may give where `+` asks
/// for them: for two numbers `number` is a sum of the left and the right
/// one; for a number and a string `written` is a text of the number.
pub open spec fn told<N: NumberOps>(
    ops: &N,
    left: Value,
    right: Value,
    number: Number,
    written: Seq<char>,
) -> bool {
    match (left, right) {
        (Value::Number(a), Value::Number(b)) => ops.binary_gives(Arithmetic::Add, a, b, number),
        (Value::Number(a), Value::Str(_)) => ops.format_gives(a, written),
        (Value::Str(_), Value::Number(b)) => ops.format_gives(b, written),
        _ => true,
    }
}

/// The fault of an outcome, if it is one.
pub open spec fn fault_from(r: Result<(), Fault>) -> Option<Fault> {
    match r {
        Ok(_) => None,
        Err(fault) => Some(fault),
    }
}

/// Whether `fault`, `top` and `later` are the fault that `+` raises for
/// `left` and `right`, if any, the new top of the stack if none, and the
/// strings that the interner holds afterwards, where `number` and
/// `written` are what the embedder computes and writes: see [`sum`].
pub open spec fn summed<N: NumberOps>(
    ops: &N,
    left: Value,
    right: Value,
    strings: Seq<Seq<char>>,
    number: Number,
    written: Seq<char>,
    later: Seq<Seq<char>>,
    top: Value,
    fault: Option<Fault>,
) -> bool {
    &&& told(ops, left, right, number, written)
    &&& later == strings_after_sum(left, right, strings, written)
    &&& match sum(left, right, strings, number, written) {
        Ok(value) => fault is None && top == value,
        Err(raised) => fault == Some(raised),
    }
}

/// The strings that the interner holds after `+` was applied to `left`
/// and `right`: the joined text is interned where the operands have
/// texts and at least one is a string.
pub open spec fn strings_after_sum(
    left: Value,
    right: Value,
    strings: Seq<Seq<char>>,
    written: Seq<char>,
) -> Seq<Seq<char>> {
    if addable(left, right) && !(left is Number && right is Number) && operand_text(
        left,
        strings,
        written,
    ) is Some && operand_text(right, strings, written) is Some {
        interned(
            strings,
            operand_text(left, strings, written).unwrap() + operand_text(
                right,
                strings,
                written,
            ).unwrap(),
        )
    } else {
        strings
    }
}

/// Adds two values: see [`added`]. Operands that `+` does not take, a
/// string that the interner does not know, and an interner that is full
/// are faults.
pub fn add_values<N: NumberOps>(left: Value, right: Value, interner: &mut Interner, ops: &N) -> (r:
    Result<Value, Fault>)
    requires
        old(interner).wf(),
    ensures
        final(interner).wf(),
        old(interner).kept_by(final(interner)),
        r is Ok ==> added(left, right, r.unwrap(), old(interner)@, final(interner)@),
        !addable(left, right) ==> r == Err::<Value, Fault>(
            Fault::OperandsMustBeNumbers(left, right),
        ),
        r is Err ==> !r->Err_0.structural(),
        r is Err && addable(left, right) ==> r->Err_0 == Fault::OutOfStrings || r->Err_0
            == Fault::UnknownString(left) || r->Err_0 == Fault::UnknownString(right),
        exists|number: Number, written: Seq<char>|
            r == #[trigger] sum(left, right, old(interner)@, number, written) && final(interner)@
                == strings_after_sum(left, right, old(interner)@, written) && told(
                ops,
                left,
                right,
                number,
                written,
            ),
{
    let ghost strings = interner@;
    match (left, right) {
        (Value::Number(a), Value::Number(b)) => {
            let number = ops.binary(Arithmetic::Add, a, b);
            assert(Ok::<Value, Fault>(Value::Number(number)) == sum(
                left,
                right,
                strings,
                number,
                Seq::empty(),
            ));
            Ok(Value::Number(number))
        },
        (Value::Str(a), Value::Str(b)) => {
            let ghost number = Number { bits: 0 };
            let mut text = String::new();
            match interner.get(a) {
                Some(s) => text.append(s),
                None => {
                    assert(Err::<Value, Fault>(Fault::UnknownString(left)) == sum(
                        left,
                        right,
                        strings,
                        number,
                        Seq::empty(),
                    ));
                    return Err(Fault::UnknownString(left));
                },
            }
            match interner.get(b) {
                Some(s) => text.append(s),
                None => {
                    assert(Err::<Value, Fault>(Fault::UnknownString(right)) == sum(
                        left,
                        right,
                        strings,
                        number,
                        Seq::empty(),
                    ));
                    return Err(Fault::UnknownString(right));
                },
            }
            assert(text@ =~= interner@[a.index()] + interner@[b.index()]);
            let r = match interner.try_intern(text.as_str()) {
                Some(id) => Ok(Value::Str(id)),
                None => Err(Fault::OutOfStrings),
            };
            assert(r == sum(left, right, strings, number, Seq::empty()));
            r
        },
        (Value::Str(a), Value::Number(b)) => {
            let ghost zero = Number { bits: 0 };
            let number = ops.format(b);
            let mut text = String::new();
            match interner.get(a) {
                Some(s) => text.append(s),
                None => {
                    assert(Err::<Value, Fault>(Fault::UnknownString(left)) == sum(
                        left,
                        right,
                        strings,
                        zero,
                        number@,
                    ));
                    return Err(Fault::UnknownString(left));
                },
            }
            text.append(number.as_str());
            assert(text@.subrange(0, interner@[a.index()].len() as int) =~= interner@[a.index()]);
            assert(text@ =~= interner@[a.index()] + number@);
            let r = match interner.try_intern(text.as_str()) {
                Some(id) => Ok(Value::Str(id)),
                None => Err(Fault::OutOfStrings),
            };
            assert(r == sum(left, right, strings, zero, number@));
            r
        },
        (Value::Number(a), Value::Str(b)) => {
            let ghost zero = Number { bits: 0 };
            let mut text = ops.format(a);
            let ghost written = text@;
            match interner.get(b) {
                Some(s) => text.append(s),
                None => {
                    assert(Err::<Value, Fault>(Fault::UnknownString(right)) == sum(
                        left,
                        right,
                        strings,
                        zero,
                        written,
                    ));
                    return Err(Fault::UnknownString(right));
                },
            }
            assert(text@.subrange(text@.len() - interner@[b.index()].len(), text@.len() as int)
                =~= interner@[b.index()]);
            assert(text@ =~= written + interner@[b.index()]);
            let r = match interner.try_intern(text.as_str()) {
                Some(id) => Ok(Value::Str(id)),
                None => Err(Fault::OutOfStrings),
            };
            assert(r == sum(left, right, strings, zero, written));
            r
        },
        _ => {
            assert(Err::<Value, Fault>(Fault::OperandsMustBeNumbers(left, right)) == sum(
                left,
                right,
                strings,
                Number { bits: 0 },
                Seq::empty(),
            ));
            Err(Fault::OperandsMustBeNumbers(left, right))
        },
    }
}

/// The index that a whole number means: the number itself, as far as
/// `usize` holds it, and else the greatest `usize`.
pub fn index_within(wide: u64) -> (index: usize)
    ensures
        index == (if wide > usize::MAX {
            usize::MAX as int
        } else {
            wide as int
        }),
        index == within(wide),
{
    if wide > usize::MAX as u64 {
        usize::MAX
    } else {
        wide as usize
    }
}

/// The index that a number means: the whole number that it is, as `ops`
/// gives it, as far as `usize` holds it; `None` for a number that `ops`
/// takes for negative or not whole.
pub(crate) fn to_index<N: NumberOps>(n: Number, ops: &N) -> (index: Option<usize>)
    ensures
        exists|whole: Option<u64>| #[trigger]
            ops.integer_gives(n, whole) && index == (match whole {
                Some(wide) => Some(within(wide) as usize),
                None => None,
            }),
{
    match ops.to_integer(n) {
        Some(wide) => Some(index_within(wide)),
        None => None,
    }
}

/// The array that is declared with the size `whole`: as many elements
/// as the whole number says, all `Nil`; none for a size that is negative
/// or not whole.
pub open spec fn new_array(whole: Option<u64>) -> Seq<Value> {
    match whole {
        Some(wide) => Seq::new(within(wide) as nat, |i: int| Value::Nil),
        None => Seq::empty(),
    }
}

/// The index that a whole number means: the number itself, as far as
/// `usize` holds it, and else the greatest `usize`.
pub open spec fn within(wide: u64) -> int {
    if wide > usize::MAX {
        usize::MAX as int
    } else {
        wide as int
    }
}

/// Where in the array with this handle the index lies that the whole
/// number `whole` means, or the fault of an index that lies nowhere in
/// it: `whole` is `None` for a number that is negative or not whole.
pub open spec fn place(handle: usize, whole: Option<u64>, heap: Seq<Seq<Value>>, writing: bool)
    -> Result<int, Fault> {
    match whole {
        None => Err(Fault::IndexNotWhole { writing }),
        Some(wide) => if handle < heap.len() && within(wide) < heap[handle as int].len() {
            Ok(within(wide))
        } else {
            Err(Fault::IndexOutOfBounds { index: within(wide) as usize, writing })
        },
    }
}

/// Whether `r` is what reading the element of `target` under `index`
/// gives: for an array and a number the element at the place of the
/// whole number that `ops` may give for the index, or the fault of that
/// index; and else the fault of a value that is no array or an index
/// that is no number.
pub open spec fn element<N: NumberOps>(
    ops: &N,
    target: Value,
    index: Value,
    heap: Seq<Seq<Value>>,
    r: Result<Value, Fault>,
) -> bool {
    match (target, index) {
        (Value::Array(handle), Value::Number(n)) => exists|whole: Option<u64>| #[trigger]
            ops.integer_gives(n, whole) && r == element_at(handle, whole, heap),
        _ => r == Err::<Value, Fault>(Fault::NotIndexable { target, key: index, writing: false }),
    }
}

/// The element of the array with this handle at the place of `whole`, or
/// the fault of that index.
pub open spec fn element_at(handle: usize, whole: Option<u64>, heap: Seq<Seq<Value>>) -> Result<
    Value,
    Fault,
> {
    match place(handle, whole, heap, false) {
        Ok(at) => Ok(heap[handle as int][at]),
        Err(fault) => Err(fault),
    }
}

/// Whether `r` is what reading a variable with value `value` under
/// `index` gives: the value itself for the index `Nil`, and else its
/// element under the index: see [`element`].
pub open spec fn got<N: NumberOps>(
    ops: &N,
    value: Value,
    index: Value,
    heap: Seq<Seq<Value>>,
    r: Result<Value, Fault>,
) -> bool {
    if index == Value::Nil {
        r == Ok::<Value, Fault>(value)
    } else {
        element(ops, value, index, heap, r)
    }
}

/// Whether `later` and `fault` are the heap after `new_value` was
/// assigned to the element of `target` under `index`, and the fault of
/// that if it failed: for an array and a number the element at the place
/// of the whole number that `ops` may give for the index is `new_value`
/// now, and nothing else changed; a failed assignment changes nothing.
pub open spec fn put<N: NumberOps>(
    ops: &N,
    target: Value,
    index: Value,
    new_value: Value,
    heap: Seq<Seq<Value>>,
    later: Seq<Seq<Value>>,
    fault: Option<Fault>,
) -> bool {
    match (target, index) {
        (Value::Array(handle), Value::Number(n)) => exists|whole: Option<u64>| #[trigger]
            ops.integer_gives(n, whole) && put_at(handle, whole, new_value, heap, later, fault),
        _ => fault == Some(Fault::NotIndexable { target, key: index, writing: true }) && later
            == heap,
    }
}

/// Whether `later` and `fault` are the heap and the fault after
/// `new_value` was assigned to the array with this handle at the place
/// of `whole`.
pub open spec fn put_at(
    handle: usize,
    whole: Option<u64>,
    new_value: Value,
    heap: Seq<Seq<Value>>,
    later: Seq<Seq<Value>>,
    fault: Option<Fault>,
) -> bool {
    match place(handle, whole, heap, true) {
        Ok(at) => fault is None && later == heap.update(
            handle as int,
            heap[handle as int].update(at, new_value),
        ),
        Err(raised) => fault == Some(raised) && later == heap,
    }
}

/// Whether `found` is what reading a variable with value `value` under
/// `index` gives: the value itself for the index `Nil`, and else an
/// element of the array that the value is.
pub open spec fn read(value: Value, index: Value, heap: Seq<Seq<Value>>, found: Value) -> bool {
    if index == Value::Nil {
        found == value
    } else {
        match (value, index) {
            (Value::Array(handle), Value::Number(_)) => handle < heap.len() && heap[handle as int].contains(
                found,
            ),
            _ => false,
        }
    }
}

/// Whether `later` is the heap after `new_value` was assigned to an
/// element of the array that `target` is, under `index`: one element of
/// that array is `new_value` now, and nothing else changed.
pub open spec fn written(
    target: Value,
    index: Value,
    new_value: Value,
    heap: Seq<Seq<Value>>,
    later: Seq<Seq<Value>>,
) -> bool {
    match (target, index) {
        (Value::Array(handle), Value::Number(_)) => handle < heap.len() && exists|at: int|
            0 <= at < heap[handle as int].len() && later == #[trigger] heap.update(
                handle as int,
                heap[handle as int].update(at, new_value),
            ),
        _ => false,
    }
}

/// Reads a variable with value `value` under `index`: see [`read`]. A
/// value that is no array, an index that is no number, and an index
/// outside the array are faults.
pub fn read_variable<N: NumberOps>(
    value: &Value,
    index: &Value,
    heap: &Heap,
    ops: &N,
) -> (r: Result<Value, Fault>)
    ensures
        r is Ok ==> read(*value, *index, heap@, r.unwrap()),
        *index == Value::Nil ==> r is Ok,
        *index != Value::Nil && !(value is Array && index is Number) ==> r == Err::<Value, Fault>(
            Fault::NotIndexable { target: *value, key: *index, writing: false },
        ),
        r is Err ==> !r->Err_0.structural(),
        r is Err && value is Array && index is Number ==> r == Err::<Value, Fault>(
            Fault::IndexNotWhole { writing: false },
        ) || exists|at: usize| r == Err::<Value, Fault>(#[trigger] out_of_bounds(at, false)),
        got(ops, *value, *index, heap@, r),
{
    if index.is_nil() {
        Ok(*value)
    } else {
        get_array(value, index, heap, ops)
    }
}

/// The element of the array `arr` at `index`. A value that is no array, an
/// index that is no number, and an index outside the array are faults.
pub fn get_array<N: NumberOps>(arr: &Value, index: &Value, heap: &Heap, ops: &N) -> (r: Result<
    Value,
    Fault,
>)
    ensures
        !(arr is Array && index is Number) <==> r == Err::<Value, Fault>(
            Fault::NotIndexable { target: *arr, key: *index, writing: false },
        ),
        r is Ok ==> arr is Array && index is Number && arr->Array_0 < heap@.len()
            && heap@[arr->Array_0 as int].contains(r.unwrap()),
        arr is Array && index is Number && r is Err ==> r == Err::<Value, Fault>(
            Fault::IndexNotWhole { writing: false },
        ) || exists|at: usize|
            r == Err::<Value, Fault>(#[trigger] out_of_bounds(at, false)) && (arr->Array_0
                >= heap@.len() || at >= heap@[arr->Array_0 as int].len()),
        r is Err ==> !r->Err_0.structural(),
        element(ops, *arr, *index, heap@, r),
{
    match (arr, index) {
        (Value::Array(handle), Value::Number(n)) => {
            let found = to_index(*n, ops);
            let ghost whole = choose|whole: Option<u64>| #[trigger]
                ops.integer_gives(*n, whole) && found == (match whole {
                    Some(wide) => Some(within(wide) as usize),
                    None => None,
                });
            let at: usize = match found {
                Some(at) => at,
                None => {
                    assert(Err::<Value, Fault>(Fault::IndexNotWhole { writing: false })
                        == element_at(*handle, whole, heap@));
                    return Err(Fault::IndexNotWhole { writing: false });
                },
            };
            match heap.get(*handle, at) {
                Some(value) => {
                    assert(heap@[*handle as int][at as int] == value);
                    assert(Ok::<Value, Fault>(value) == element_at(*handle, whole, heap@));
                    Ok(value)
                },
                None => {
                    assert(Err::<Value, Fault>(Fault::IndexOutOfBounds { index: at, writing: false })
                        == Err::<Value, Fault>(out_of_bounds(at, false)));
                    assert(Err::<Value, Fault>(Fault::IndexOutOfBounds { index: at, writing: false })
                        == element_at(*handle, whole, heap@));
                    Err(Fault::IndexOutOfBounds { index: at, writing: false })
                },
            }
        },
        _ => Err(Fault::NotIndexable { target: *arr, key: *index, writing: false }),
    }
}

/// The fault of an index outside its array.
pub open spec fn out_of_bounds(at: usize, writing: bool) -> Fault {
    Fault::IndexOutOfBounds { index: at, writing }
}

/// Assigns `new_value` to the element of the array `arr` at `index`: see
/// [`written`]. A value that is no array, an index that is no number, and
/// an index outside the array are faults, and then the heap stays as it is.
pub fn set_array<N: NumberOps>(
    heap: &mut Heap,
    arr: &Value,
    index: &Value,
    new_value: Value,
    ops: &N,
) -> (r: Result<(), Fault>)
    ensures
        !(arr is Array && index is Number) <==> r == Err::<(), Fault>(
            Fault::NotIndexable { target: *arr, key: *index, writing: true },
        ),
        r is Ok ==> written(*arr, *index, new_value, old(heap)@, final(heap)@),
        r is Err ==> final(heap)@ == old(heap)@,
        arr is Array && index is Number && r is Err ==> r == Err::<(), Fault>(
            Fault::IndexNotWhole { writing: true },
        ) || exists|at: usize|
            r == Err::<(), Fault>(#[trigger] out_of_bounds(at, true)) && (arr->Array_0 >= old(heap)@.len() || at >= old(heap)@[arr->Array_0 as int].len()),
        r is Err ==> !r->Err_0.structural(),
        put(ops, *arr, *index, new_value, old(heap)@, final(heap)@, fault_from(r)),
{
    match (arr, index) {
        (Value::Array(handle), Value::Number(n)) => {
            let found = to_index(*n, ops);
            let ghost whole = choose|whole: Option<u64>| #[trigger]
                ops.integer_gives(*n, whole) && found == (match whole {
                    Some(wide) => Some(within(wide) as usize),
                    None => None,
                });
            let at: usize = match found {
                Some(at) => at,
                None => {
                    assert(put_at(
                        *handle,
                        whole,
                        new_value,
                        old(heap)@,
                        heap@,
                        fault_from(Err::<(), Fault>(Fault::IndexNotWhole { writing: true })),
                    ));
                    return Err(Fault::IndexNotWhole { writing: true });
                },
            };
            if heap.set(*handle, at, new_value) {
                assert(put_at(
                    *handle,
                    whole,
                    new_value,
                    old(heap)@,
                    heap@,
                    fault_from(Ok::<(), Fault>(())),
                ));
                Ok(())
            } else {
                assert(Err::<(), Fault>(Fault::IndexOutOfBounds { index: at, writing: true })
                    == Err::<(), Fault>(out_of_bounds(at, true)));
                assert(put_at(
                    *handle,
                    whole,
                    new_value,
                    old(heap)@,
                    heap@,
                    fault_from(
                        Err::<(), Fault>(Fault::IndexOutOfBounds { index: at, writing: true }),
                    ),
                ));
                Err(Fault::IndexOutOfBounds { index: at, writing: true })
            }
        },
        _ => Err(Fault::NotIndexable { target: *arr, key: *index, writing: true }),
    }
}

/// The string of a handle, or no text for a handle that the interner does
/// not know.
pub open spec fn string_of(strings: Seq<Seq<char>>, id: StrId) -> Seq<char> {
    if 0 <= id.index() < strings.len() {
        strings[id.index()]
    } else {
        Seq::empty()
    }
}

/// How an array fault begins: by what was tried.
pub open spec fn array_fault_prefix(writing: bool) -> Seq<char> {
    if writing {
        "Error setting array: "@
    } else {
        "Error getting array: "@
    }
}

impl Fault {
    /// The message of the fault, given the strings of the interner.
    pub open spec fn message_spec(self, strings: Seq<Seq<char>>) -> Seq<char> {
        match self {
            Fault::OperandsMustBeNumbers(left, right) => "Operands must be numbers, but got "@
                + left.kind_name_spec() + " and "@ + right.kind_name_spec(),
            Fault::OperandMustBeNumber(_) => "Operand must be a number"@,
            Fault::UndefinedVariable(name) => "Undefined variable "@ + string_of(strings, name),
            Fault::IndexOutOfBounds { index, writing } => array_fault_prefix(writing)
                + "Index out of bounds: "@ + decimal(index as nat),
            Fault::IndexNotWhole { writing } => array_fault_prefix(writing)
                + "Index must be a whole number that is not negative"@,
            Fault::NotIndexable { target, key, writing } => array_fault_prefix(writing)
                + "Tried to index value of type "@ + target.kind_name_spec() + " with index "@
                + key.kind_name_spec(),
            Fault::ExpectedNumber(value) => "Expected number, got "@ + value.kind_name_spec(),
            Fault::NotCallable(value) => "Can only call functions, got "@
                + value.kind_name_spec(),
            Fault::WrongArity { expected, got } => "Expected "@ + decimal(expected as nat)
                + " arguments but got "@ + decimal(got as nat) + " instead"@,
            Fault::StackUnderflow => "Nothing in stack to pop"@,
            Fault::InvalidOpcode(byte) => "Invalid opcode "@ + decimal(byte as nat),
            Fault::CodeOverrun => "Ran past the end of the code"@,
            Fault::BadConstant(index) => "No constant "@ + decimal(index as nat),
            Fault::BadName(value) => "Found "@ + value.kind_name_spec() + " instead"@,
            Fault::BadSlot(slot) => "No local in slot "@ + decimal(slot as nat),
            Fault::BadFunction(index) => "No function "@ + decimal(index as nat),
            Fault::OutOfStrings => "Too many strings"@,
            Fault::UnknownString(value) => "No string behind "@ + value.kind_name_spec(),
        }
    }

    /// The message of the fault.
    pub fn message(&self, interner: &Interner) -> (text: String)
        ensures
            text@ == self.message_spec(interner@),
    {
        let mut text = String::new();
        match self {
            Fault::OperandsMustBeNumbers(left, right) => {
                text.append("Operands must be numbers, but got ");
                text.append(left.kind_name());
                text.append(" and ");
                text.append(right.kind_name());
            },
            Fault::OperandMustBeNumber(_) => {
                text.append("Operand must be a number");
            },
            Fault::UndefinedVariable(name) => {
                text.append("Undefined variable ");
                match interner.get(*name) {
                    Some(s) => text.append(s),
                    None => {},
                }
            },
            Fault::IndexOutOfBounds { index, writing } => {
                if *writing {
                    text.append("Error setting array: ");
                } else {
                    text.append("Error getting array: ");
                }
                text.append("Index out of bounds: ");
                push_decimal(&mut text, *index);
            },
            Fault::IndexNotWhole { writing } => {
                if *writing {
                    text.append("Error setting array: ");
                } else {
                    text.append("Error getting array: ");
                }
                text.append("Index must be a whole number that is not negative");
            },
            Fault::NotIndexable { target, key, writing } => {
                if *writing {
                    text.append("Error setting array: ");
                } else {
                    text.append("Error getting array: ");
                }
                text.append("Tried to index value of type ");
                text.append(target.kind_name());
                text.append(" with index ");
                text.append(key.kind_name());
            },
            Fault::ExpectedNumber(value) => {
                text.append("Expected number, got ");
                text.append(value.kind_name());
            },
            Fault::NotCallable(value) => {
                text.append("Can only call functions, got ");
                text.append(value.kind_name());
            },
            Fault::WrongArity { expected, got } => {
                text.append("Expected ");
                push_decimal(&mut text, *expected);
                text.append(" arguments but got ");
                push_decimal(&mut text, *got);
                text.append(" instead");
            },
            Fault::StackUnderflow => {
                text.append("Nothing in stack to pop");
            },
            Fault::InvalidOpcode(byte) => {
                text.append("Invalid opcode ");
                push_decimal(&mut text, *byte as usize);
            },
            Fault::CodeOverrun => {
                text.append("Ran past the end of the code");
            },
            Fault::BadConstant(index) => {
                text.append("No constant ");
                push_decimal(&mut text, *index as usize);
            },
            Fault::BadName(value) => {
                text.append("Found ");
                text.append(value.kind_name());
                text.append(" instead");
            },
            Fault::BadSlot(slot) => {
                text.append("No local in slot ");
                push_decimal(&mut text, *slot as usize);
            },
            Fault::BadFunction(index) => {
                text.append("No function ");
                push_decimal(&mut text, *index);
            },
            Fault::OutOfStrings => {
                text.append("Too many strings");
            },
            Fault::UnknownString(value) => {
                text.append("No string behind ");
                text.append(value.kind_name());
            },
        }
        assert(text@ =~= self.message_spec(interner@));
        text
    }
}

/// A line of a traceback as text: `[line   7] in name`, with `<script>`
/// for the script.
pub open spec fn trace_text(line: TraceLine, strings: Seq<Seq<char>>) -> Seq<char> {
    "[line "@ + crate::text::padded_decimal(line.line as nat, 3, ' ') + "] in "@ + (
    match line.function {
        Some(name) => string_of(strings, name),
        None => "<script>"@,
    })
}

impl RuntimeError {
    /// The report of the error, line by line, given the strings of the
    /// interner: the message, a heading, and the calls that were under
    /// way, the innermost first.
    pub open spec fn report_spec(&self, strings: Seq<Seq<char>>) -> Seq<Seq<char>> {
        seq!["Runtime error: "@ + self.fault.message_spec(strings), "Traceback (most recent call first):"@]
            + Seq::new(self.trace@.len(), |k: int| trace_text(self.trace@[k], strings))
    }

    /// The report of the error, line by line.
    pub fn report(&self, interner: &Interner) -> (lines: Vec<String>)
        ensures
            lines@.len() == self.report_spec(interner@).len(),
            forall|k: int|
                0 <= k < lines@.len() ==> (#[trigger] lines@[k])@ == self.report_spec(interner@)[k],
    {
        let mut lines: Vec<String> = Vec::new();
        let mut first = String::from_str("Runtime error: ");
        let message = self.fault.message(interner);
        first.append(message.as_str());
        lines.push(first);
        lines.push(String::from_str("Traceback (most recent call first):"));
        let mut i: usize = 0;
        while i < self.trace.len()
            invariant
                i <= self.trace@.len(),
                lines@.len() == i + 2,
                forall|k: int|
                    0 <= k < lines@.len() ==> (#[trigger] lines@[k])@ == self.report_spec(
                        interner@,
                    )[k],
            decreases self.trace@.len() - i,
        {
            let entry = self.trace[i];
            let mut text = String::from_str("[line ");
            push_padded_decimal(&mut text, entry.line, 3, ' ');
            text.append("] in ");
            match entry.function {
                Some(name) => match interner.get(name) {
                    Some(s) => text.append(s),
                    None => {},
                },
                None => text.append("<script>"),
            }
            assert(text@ =~= trace_text(self.trace@[i as int], interner@));
            lines.push(text);
            i += 1;
        }
        lines
    }
}

/// At run time the height of the stack goes with the place in the code.
///
/// Let the code of the function that is being executed be balanced under
/// `heights`, and let the stack stand `base` above the height that is
/// recorded for the instruction at hand. Then after a step that stays in
/// the function the stack stands `base` above the height that is recorded
/// where control went, and control is on an instruction boundary.
///
/// The compiler records equal heights before and after every statement,
/// and so before and after every expression statement and every scope:
/// whenever control comes to the end of one, the stack is as high as it
/// was at its start.
pub proof fn lemma_height_goes_with_place(
    earlier: Vm,
    later: Vm,
    heights: Map<int, int>,
    end_height: int,
    free: bool,
    base: int,
)
    requires
        stepped(&earlier, &later),
        crate::layout::balanced_under(earlier.code(), heights, end_height, free),
        heights.contains_key(earlier.frame().ip as int),
        earlier.stack@.len() == base + heights[earlier.frame().ip as int],
    ensures
        later.code() == earlier.code(),
        crate::layout::boundary(later.code(), later.frame().ip as int),
        crate::layout::lands(
            heights,
            later.code().len() as int,
            end_height,
            free,
            later.frame().ip as int,
            later.stack@.len() - base,
        ),
{
    crate::layout::lemma_step_lands(
        earlier.code(),
        heights,
        end_height,
        free,
        earlier.frame().ip as int,
        later.frame().ip as int,
        later.stack@.len() - earlier.stack@.len(),
    );
}

/// A quiet step of a machine that runs sound code leaves the stack at
/// the height that is recorded for the place that control went to.
///
/// Let machine `earlier` run a script whose code is sound under
/// `heights`, with the stack at the height that is recorded for the
/// instruction at hand, and let it take a step to `later` that tells the
/// embedder nothing. Then the same holds of `later`.
pub proof fn lemma_quiet_step_keeps_depth<N: NumberOps>(
    ops: &N,
    earlier: Vm,
    strings: Seq<Seq<char>>,
    later: Vm,
    later_strings: Seq<Seq<char>>,
    heights: Map<int, int>,
)
    requires
        earlier.wf(),
        earlier.code().len() <= usize::MAX,
        secure_under(&earlier, heights),
        took(ops, &earlier, strings, &later, later_strings, None),
    ensures
        secure_under(&later, heights),
{
    let code = earlier.code();
    let o = earlier.frame().ip as int;
    assert(crate::layout::flows(code, heights, Set::empty(), 0, true, o));
    assert(crate::layout::safe_at(code, earlier.constants(), heights, o));
    assert(crate::layout::boundary(code, o));
    assert(!unreadable(&earlier));
    let (fetched, done, r) = choose|fetched: Vm, done: Vm, r: Result<Option<Signal>, Fault>|
        #[trigger] carried(ops, &earlier, strings, fetched, done, r, &later, later_strings, None);
    let op = Opcode::decode(code[o]).unwrap();
    assert(op != Opcode::Call);
    assert(r is Ok);
    assert(later == done);
    assert(op != Opcode::Return);
    assert(later.frames@.len() == earlier.frames@.len());
    assert(stepped(&earlier, &later));
    lemma_height_goes_with_place(earlier, later, heights, 0, true, 0);
    assert(later.constants() == earlier.constants());
}

/// In a secure run the height of the stack goes with the place in the
/// code: whenever control comes to a place, the stack is as high as is
/// recorded for that place. The compiler records equal heights before and
/// after every expression statement and every scope; so the stack is as
/// high after each of them as it was before.
///
/// Let `trace` be a run that starts with a machine that runs a script
/// whose code is sound under `heights`, with the stack at the recorded
/// height. Then every machine of the trace has the stack at the height
/// that `heights` records for the instruction that it has come to, and
/// two machines of the trace that have come to places of equal recorded
/// heights have stacks of equal height.
pub proof fn lemma_run_keeps_depth<N: NumberOps>(
    ops: &N,
    trace: Seq<Vm>,
    texts: Seq<Seq<Seq<char>>>,
    last: Vm,
    last_strings: Seq<Seq<char>>,
    signal: Signal,
    max_steps: usize,
    heights: Map<int, int>,
    i: int,
    j: int,
)
    requires
        ran(ops, trace, texts, &trace[0], &last, last_strings, signal, max_steps),
        secure_under(&trace[0], heights),
        trace[0].code().len() <= usize::MAX,
        0 <= i < trace.len(),
        0 <= j < trace.len(),
    ensures
        secure_under(&trace[i], heights),
        trace[i].stack@.len() == heights[trace[i].frame().ip as int],
        heights[trace[i].frame().ip as int] == heights[trace[j].frame().ip as int]
            ==> trace[i].stack@.len() == trace[j].stack@.len(),
{
    lemma_run_is_secure(ops, trace, texts, heights, i);
    lemma_run_is_secure(ops, trace, texts, heights, j);
}

/// Every machine of a run of quiet steps that starts securely is secure.
proof fn lemma_run_is_secure<N: NumberOps>(
    ops: &N,
    trace: Seq<Vm>,
    texts: Seq<Seq<Seq<char>>>,
    heights: Map<int, int>,
    i: int,
)
    requires
        forall|k: int|
            #![trigger trace[k]]
            0 <= k < trace.len() - 1 ==> took(ops, &trace[k], texts[k], &trace[k + 1], texts[k + 1], None),
        secure_under(&trace[0], heights),
        trace[0].code().len() <= usize::MAX,
        0 <= i < trace.len(),
    ensures
        secure_under(&trace[i], heights),
        trace[i].code() == trace[0].code(),
    decreases i,
{
    if i > 0 {
        lemma_run_is_secure(ops, trace, texts, heights, i - 1);
        assert(took(ops, &trace[i - 1], texts[i - 1], &trace[i], texts[i], None));
        lemma_quiet_step_keeps_depth(ops, trace[i - 1], texts[i - 1], trace[i], texts[i], heights);
    }
}

/// Sound code raises no structural fault.
///
/// Let the code of the function that is being executed be sound under
/// `heights`, and let the stack stand at the height that is recorded for
/// the instruction at hand, above the slots of the call. Then any fault of
/// that instruction is one of the language's runtime errors: an operand of
/// the wrong kind, an index outside its array, a variable that is not
/// defined, a value that cannot be called.
pub proof fn lemma_sound_code_raises_no_structural_fault(
    vm: Vm,
    heights: Map<int, int>,
    end_height: int,
    free: bool,
    fault: Fault,
)
    requires
        vm.wf(),
        vm.running(),
        vm.code().len() <= usize::MAX,
        crate::layout::sound_under(vm.code(), vm.constants(), heights, end_height, free),
        heights.contains_key(vm.frame().ip as int),
        vm.stack@.len() == vm.frame().slot_offset + heights[vm.frame().ip as int],
        fails_with(&vm, fault),
    ensures
        !fault.structural(),
{
    let code = vm.code();
    let ip = vm.frame().ip as int;
    assert(crate::layout::flows(code, heights, Set::empty(), end_height, free, ip));
    assert(crate::layout::safe_at(code, vm.constants(), heights, ip));
    assert(crate::layout::boundary(code, ip));
}

} // verus!
