use crate::scanner::Token;
use vstd::prelude::*;

verus! {

/// One instruction of the virtual machine.
///
/// An instruction is one byte of opcode followed by zero, one or two operand
/// bytes (see [`Opcode::operands`]).
#[derive(Clone, Copy, PartialEq, Eq, Structural, Debug)]
pub enum Opcode {
    Return,
    Constant,
    Not,
    Print,
    Negate,
    Add,
    Subtract,
    Multiply,
    Modulo,
    Divide,
    Nil,
    True,
    False,
    Greater,
    Pop,
    Equal,
    Less,
    DefineGlobal,
    DeclareArray,
    SetGlobal,
    GetGlobal,
    GetLocal,
    SetLocal,
    JumpIfFalse,
    Jump,
    Loop,
    Call,
}

/// The number of opcodes; every byte below it encodes one.
pub const OPCODE_COUNT: u8 = 27;

impl Opcode {
    /// The byte that encodes this opcode.
    pub open spec fn byte(self) -> u8 {
        match self {
            Opcode::Return => 0u8,
            Opcode::Constant => 1u8,
            Opcode::Not => 2u8,
            Opcode::Print => 3u8,
            Opcode::Negate => 4u8,
            Opcode::Add => 5u8,
            Opcode::Subtract => 6u8,
            Opcode::Multiply => 7u8,
            Opcode::Modulo => 8u8,
            Opcode::Divide => 9u8,
            Opcode::Nil => 10u8,
            Opcode::True => 11u8,
            Opcode::False => 12u8,
            Opcode::Greater => 13u8,
            Opcode::Pop => 14u8,
            Opcode::Equal => 15u8,
            Opcode::Less => 16u8,
            Opcode::DefineGlobal => 17u8,
            Opcode::DeclareArray => 18u8,
            Opcode::SetGlobal => 19u8,
            Opcode::GetGlobal => 20u8,
            Opcode::GetLocal => 21u8,
            Opcode::SetLocal => 22u8,
            Opcode::JumpIfFalse => 23u8,
            Opcode::Jump => 24u8,
            Opcode::Loop => 25u8,
            Opcode::Call => 26u8,
        }
    }

    /// The opcode that a byte encodes, if it encodes one.
    pub open spec fn decode(b: u8) -> Option<Opcode> {
        if b == 0 {
            Some(Opcode::Return)
        } else if b == 1 {
            Some(Opcode::Constant)
        } else if b == 2 {
            Some(Opcode::Not)
        } else if b == 3 {
            Some(Opcode::Print)
        } else if b == 4 {
            Some(Opcode::Negate)
        } else if b == 5 {
            Some(Opcode::Add)
        } else if b == 6 {
            Some(Opcode::Subtract)
        } else if b == 7 {
            Some(Opcode::Multiply)
        } else if b == 8 {
            Some(Opcode::Modulo)
        } else if b == 9 {
            Some(Opcode::Divide)
        } else if b == 10 {
            Some(Opcode::Nil)
        } else if b == 11 {
            Some(Opcode::True)
        } else if b == 12 {
            Some(Opcode::False)
        } else if b == 13 {
            Some(Opcode::Greater)
        } else if b == 14 {
            Some(Opcode::Pop)
        } else if b == 15 {
            Some(Opcode::Equal)
        } else if b == 16 {
            Some(Opcode::Less)
        } else if b == 17 {
            Some(Opcode::DefineGlobal)
        } else if b == 18 {
            Some(Opcode::DeclareArray)
        } else if b == 19 {
            Some(Opcode::SetGlobal)
        } else if b == 20 {
            Some(Opcode::GetGlobal)
        } else if b == 21 {
            Some(Opcode::GetLocal)
        } else if b == 22 {
            Some(Opcode::SetLocal)
        } else if b == 23 {
            Some(Opcode::JumpIfFalse)
        } else if b == 24 {
            Some(Opcode::Jump)
        } else if b == 25 {
            Some(Opcode::Loop)
        } else if b == 26 {
            Some(Opcode::Call)
        } else {
            None
        }
    }

    /// How many operand bytes follow this opcode.
    pub open spec fn operands(self) -> nat {
        match self {
            Opcode::Constant
            | Opcode::DefineGlobal
            | Opcode::SetGlobal
            | Opcode::GetGlobal
            | Opcode::GetLocal
            | Opcode::SetLocal
            | Opcode::Call => 1,
            Opcode::JumpIfFalse | Opcode::Jump | Opcode::Loop => 2,
            _ => 0,
        }
    }

    /// The byte that encodes this opcode.
    pub fn to_byte(self) -> (b: u8)
        ensures
            b == self.byte(),
            b < OPCODE_COUNT,
            Opcode::decode(b) == Some(self),
    {
        match self {
            Opcode::Return => 0u8,
            Opcode::Constant => 1u8,
            Opcode::Not => 2u8,
            Opcode::Print => 3u8,
            Opcode::Negate => 4u8,
            Opcode::Add => 5u8,
            Opcode::Subtract => 6u8,
            Opcode::Multiply => 7u8,
            Opcode::Modulo => 8u8,
            Opcode::Divide => 9u8,
            Opcode::Nil => 10u8,
            Opcode::True => 11u8,
            Opcode::False => 12u8,
            Opcode::Greater => 13u8,
            Opcode::Pop => 14u8,
            Opcode::Equal => 15u8,
            Opcode::Less => 16u8,
            Opcode::DefineGlobal => 17u8,
            Opcode::DeclareArray => 18u8,
            Opcode::SetGlobal => 19u8,
            Opcode::GetGlobal => 20u8,
            Opcode::GetLocal => 21u8,
            Opcode::SetLocal => 22u8,
            Opcode::JumpIfFalse => 23u8,
            Opcode::Jump => 24u8,
            Opcode::Loop => 25u8,
            Opcode::Call => 26u8,
        }
    }

    /// Reads a byte as an opcode; `None` for a byte that encodes none.
    pub fn from_byte(b: u8) -> (op: Option<Opcode>)
        ensures
            op == Opcode::decode(b),
            op is Some <==> b < OPCODE_COUNT,
            op is Some ==> op->0.byte() == b,
    {
        if b == 0 {
            Some(Opcode::Return)
        } else if b == 1 {
            Some(Opcode::Constant)
        } else if b == 2 {
            Some(Opcode::Not)
        } else if b == 3 {
            Some(Opcode::Print)
        } else if b == 4 {
            Some(Opcode::Negate)
        } else if b == 5 {
            Some(Opcode::Add)
        } else if b == 6 {
            Some(Opcode::Subtract)
        } else if b == 7 {
            Some(Opcode::Multiply)
        } else if b == 8 {
            Some(Opcode::Modulo)
        } else if b == 9 {
            Some(Opcode::Divide)
        } else if b == 10 {
            Some(Opcode::Nil)
        } else if b == 11 {
            Some(Opcode::True)
        } else if b == 12 {
            Some(Opcode::False)
        } else if b == 13 {
            Some(Opcode::Greater)
        } else if b == 14 {
            Some(Opcode::Pop)
        } else if b == 15 {
            Some(Opcode::Equal)
        } else if b == 16 {
            Some(Opcode::Less)
        } else if b == 17 {
            Some(Opcode::DefineGlobal)
        } else if b == 18 {
            Some(Opcode::DeclareArray)
        } else if b == 19 {
            Some(Opcode::SetGlobal)
        } else if b == 20 {
            Some(Opcode::GetGlobal)
        } else if b == 21 {
            Some(Opcode::GetLocal)
        } else if b == 22 {
            Some(Opcode::SetLocal)
        } else if b == 23 {
            Some(Opcode::JumpIfFalse)
        } else if b == 24 {
            Some(Opcode::Jump)
        } else if b == 25 {
            Some(Opcode::Loop)
        } else if b == 26 {
            Some(Opcode::Call)
        } else {
            None
        }
    }

    /// How many operand bytes follow this opcode.
    pub fn operand_count(self) -> (n: usize)
        ensures
            n == self.operands(),
            n <= 2,
    {
        match self {
            Opcode::Constant
            | Opcode::DefineGlobal
            | Opcode::SetGlobal
            | Opcode::GetGlobal
            | Opcode::GetLocal
            | Opcode::SetLocal
            | Opcode::Call => 1,
            Opcode::JumpIfFalse | Opcode::Jump | Opcode::Loop => 2,
            _ => 0,
        }
    }

    /// The opcode's name, as the disassembler prints it.
    pub fn name(self) -> (s: &'static str)
        ensures
            s@ == self.name_spec(),
    {
        match self {
            Opcode::Return => "Return",
            Opcode::Constant => "Constant",
            Opcode::Not => "Not",
            Opcode::Print => "Print",
            Opcode::Negate => "Negate",
            Opcode::Add => "Add",
            Opcode::Subtract => "Subtract",
            Opcode::Multiply => "Multiply",
            Opcode::Modulo => "Modulo",
            Opcode::Divide => "Divide",
            Opcode::Nil => "Nil",
            Opcode::True => "True",
            Opcode::False => "False",
            Opcode::Greater => "Greater",
            Opcode::Pop => "Pop",
            Opcode::Equal => "Equal",
            Opcode::Less => "Less",
            Opcode::DefineGlobal => "DefineGlobal",
            Opcode::DeclareArray => "DeclareArray",
            Opcode::SetGlobal => "SetGlobal",
            Opcode::GetGlobal => "GetGlobal",
            Opcode::GetLocal => "GetLocal",
            Opcode::SetLocal => "SetLocal",
            Opcode::JumpIfFalse => "JumpIfFalse",
            Opcode::Jump => "Jump",
            Opcode::Loop => "Loop",
            Opcode::Call => "Call",
        }
    }

    /// The opcode's name.
    pub open spec fn name_spec(self) -> Seq<char> {
        match self {
            Opcode::Return => "Return"@,
            Opcode::Constant => "Constant"@,
            Opcode::Not => "Not"@,
            Opcode::Print => "Print"@,
            Opcode::Negate => "Negate"@,
            Opcode::Add => "Add"@,
            Opcode::Subtract => "Subtract"@,
            Opcode::Multiply => "Multiply"@,
            Opcode::Modulo => "Modulo"@,
            Opcode::Divide => "Divide"@,
            Opcode::Nil => "Nil"@,
            Opcode::True => "True"@,
            Opcode::False => "False"@,
            Opcode::Greater => "Greater"@,
            Opcode::Pop => "Pop"@,
            Opcode::Equal => "Equal"@,
            Opcode::Less => "Less"@,
            Opcode::DefineGlobal => "DefineGlobal"@,
            Opcode::DeclareArray => "DeclareArray"@,
            Opcode::SetGlobal => "SetGlobal"@,
            Opcode::GetGlobal => "GetGlobal"@,
            Opcode::GetLocal => "GetLocal"@,
            Opcode::SetLocal => "SetLocal"@,
            Opcode::JumpIfFalse => "JumpIfFalse"@,
            Opcode::Jump => "Jump"@,
            Opcode::Loop => "Loop"@,
            Opcode::Call => "Call"@,
        }
    }
}

/// Encoding an opcode and decoding the byte gives the opcode back, and a byte
/// that decodes to an opcode is that opcode's encoding.
pub proof fn lemma_opcode_round_trip(op: Opcode, b: u8)
    ensures
        Opcode::decode(op.byte()) == Some(op),
        Opcode::decode(b) == Some(op) ==> op.byte() == b,
        Opcode::decode(b) is Some <==> b < OPCODE_COUNT,
{
}

/// Whether two tokens have the same text.
pub fn identifiers_equal(a: &Token, b: &Token) -> (r: bool)
    ensures
        r == (a.source@ == b.source@),
{
    a.source == b.source
}

/// `std::mem::discriminant`, compared: whether two values of an enum are of
/// the same variant. Nothing is claimed of the result.
#[verifier::external_body]
pub fn variant_eq<T>(a: &T, b: &T) -> (r: bool) {
    std::mem::discriminant(a) == std::mem::discriminant(b)
}

} // verus!
