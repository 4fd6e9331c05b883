use crate::common::{identifiers_equal, Opcode};
use crate::emitter::Emitter;
use crate::interner::Interner;
use crate::layout::{effect, fits, needs};
use crate::parser::lemma_next_token_progress;
use crate::translation::{
    next_precedence, t_add_constant, t_advance, t_clashes, t_consume, t_declare_local,
    t_define_variable, t_emit, t_emit_constant, t_emit_operand, t_end_scope, t_identifier_constant,
    t_jump, t_loop, t_patch, t_pop_locals, t_resolve, Draft, Named, Tok,
};
use crate::parser::Parser;
use crate::scanner::{Token, TokenType};
use crate::value::Value;
use vstd::prelude::*;

verus! {

/// How tightly an operator binds, from loosest to tightest.
#[derive(Clone, Copy, PartialEq, Eq, Structural, Debug)]
pub enum Precedence {
    Lowest,
    Assignment,
    Or,
    And,
    Equality,
    Comparison,
    Term,
    Factor,
    Unary,
    Call,
    Primary,
}

impl Precedence {
    /// The rank of the precedence: 0 for `Lowest`, 10 for `Primary`.
    pub open spec fn level_spec(self) -> int {
        match self {
            Precedence::Lowest => 0,
            Precedence::Assignment => 1,
            Precedence::Or => 2,
            Precedence::And => 3,
            Precedence::Equality => 4,
            Precedence::Comparison => 5,
            Precedence::Term => 6,
            Precedence::Factor => 7,
            Precedence::Unary => 8,
            Precedence::Call => 9,
            Precedence::Primary => 10,
        }
    }

    /// The rank of the precedence: 0 for `Lowest`, 10 for `Primary`.
    pub fn level(self) -> (n: u8)
        ensures
            n == self.level_spec(),
    {
        match self {
            Precedence::Lowest => 0,
            Precedence::Assignment => 1,
            Precedence::Or => 2,
            Precedence::And => 3,
            Precedence::Equality => 4,
            Precedence::Comparison => 5,
            Precedence::Term => 6,
            Precedence::Factor => 7,
            Precedence::Unary => 8,
            Precedence::Call => 9,
            Precedence::Primary => 10,
        }
    }
}

/// The next tighter precedence. `Primary` has none.
pub fn increment_prec(prec: Precedence) -> (next: Precedence)
    requires
        prec != Precedence::Primary,
    ensures
        next.level_spec() == prec.level_spec() + 1,
        next == next_precedence(prec),
{
    match prec {
        Precedence::Lowest => Precedence::Assignment,
        Precedence::Assignment => Precedence::Or,
        Precedence::Or => Precedence::And,
        Precedence::And => Precedence::Equality,
        Precedence::Equality => Precedence::Comparison,
        Precedence::Comparison => Precedence::Term,
        Precedence::Term => Precedence::Factor,
        Precedence::Factor => Precedence::Unary,
        Precedence::Unary => Precedence::Call,
        _ => Precedence::Primary,
    }
}

/// The ways to compile an expression that starts with a token, or goes on
/// with one.
#[derive(Clone, Copy, PartialEq, Eq, Structural, Debug)]
pub enum ParseFn {
    Grouping,
    Unary,
    Binary,
    Variable,
    String,
    Number,
    Literal,
    And,
    Or,
}

impl ParseFn {
    /// Whether this compiles what follows a left operand, which is on the
    /// stack already.
    pub open spec fn is_infix(self) -> bool {
        self == ParseFn::Binary || self == ParseFn::And || self == ParseFn::Or
    }
}

/// What a kind of token means to the expression parser: how to compile an
/// expression that starts with it, how to go on with it after a left
/// operand, and how tightly it binds as an operator.
#[derive(Clone, Copy, PartialEq, Eq, Structural, Debug)]
pub struct ParseRule {
    pub prefix: Option<ParseFn>,
    pub infix: Option<ParseFn>,
    pub precedence: Precedence,
}

/// The rule of each kind of token.
pub open spec fn rule_of(typ: TokenType) -> ParseRule {
    match typ {
        TokenType::LeftParen => ParseRule {
            prefix: Some(ParseFn::Grouping),
            infix: None,
            precedence: Precedence::Lowest,
        },
        TokenType::Minus => ParseRule {
            prefix: Some(ParseFn::Unary),
            infix: Some(ParseFn::Binary),
            precedence: Precedence::Term,
        },
        TokenType::Plus => ParseRule {
            prefix: None,
            infix: Some(ParseFn::Binary),
            precedence: Precedence::Term,
        },
        TokenType::Slash | TokenType::Star | TokenType::Modulo => ParseRule {
            prefix: None,
            infix: Some(ParseFn::Binary),
            precedence: Precedence::Factor,
        },
        TokenType::Bang => ParseRule {
            prefix: Some(ParseFn::Unary),
            infix: None,
            precedence: Precedence::Lowest,
        },
        TokenType::BangEqual | TokenType::EqualEqual => ParseRule {
            prefix: None,
            infix: Some(ParseFn::Binary),
            precedence: Precedence::Equality,
        },
        TokenType::Greater
        | TokenType::GreaterEqual
        | TokenType::Less
        | TokenType::LessEqual => ParseRule {
            prefix: None,
            infix: Some(ParseFn::Binary),
            precedence: Precedence::Comparison,
        },
        TokenType::Identifier => ParseRule {
            prefix: Some(ParseFn::Variable),
            infix: None,
            precedence: Precedence::Lowest,
        },
        TokenType::String => ParseRule {
            prefix: Some(ParseFn::String),
            infix: None,
            precedence: Precedence::Lowest,
        },
        TokenType::Number => ParseRule {
            prefix: Some(ParseFn::Number),
            infix: None,
            precedence: Precedence::Lowest,
        },
        TokenType::And => ParseRule {
            prefix: None,
            infix: Some(ParseFn::And),
            precedence: Precedence::And,
        },
        TokenType::Or => ParseRule {
            prefix: None,
            infix: Some(ParseFn::Or),
            precedence: Precedence::Or,
        },
        TokenType::False | TokenType::Nil | TokenType::True => ParseRule {
            prefix: Some(ParseFn::Literal),
            infix: None,
            precedence: Precedence::Lowest,
        },
        _ => ParseRule { prefix: None, infix: None, precedence: Precedence::Lowest },
    }
}

/// The rule of a kind of token.
pub fn get_rule(typ: TokenType) -> (rule: ParseRule)
    ensures
        rule == rule_of(typ),
        rule.precedence.level_spec() <= 7,
        rule.prefix is Some ==> !rule.prefix.unwrap().is_infix(),
        rule.infix is Some ==> rule.infix.unwrap().is_infix(),
        typ == TokenType::EOF ==> rule.prefix is None && rule.infix is None,
{
    match typ {
        TokenType::LeftParen => ParseRule {
            prefix: Some(ParseFn::Grouping),
            infix: None,
            precedence: Precedence::Lowest,
        },
        TokenType::Minus => ParseRule {
            prefix: Some(ParseFn::Unary),
            infix: Some(ParseFn::Binary),
            precedence: Precedence::Term,
        },
        TokenType::Plus => ParseRule {
            prefix: None,
            infix: Some(ParseFn::Binary),
            precedence: Precedence::Term,
        },
        TokenType::Slash | TokenType::Star | TokenType::Modulo => ParseRule {
            prefix: None,
            infix: Some(ParseFn::Binary),
            precedence: Precedence::Factor,
        },
        TokenType::Bang => ParseRule {
            prefix: Some(ParseFn::Unary),
            infix: None,
            precedence: Precedence::Lowest,
        },
        TokenType::BangEqual | TokenType::EqualEqual => ParseRule {
            prefix: None,
            infix: Some(ParseFn::Binary),
            precedence: Precedence::Equality,
        },
        TokenType::Greater
        | TokenType::GreaterEqual
        | TokenType::Less
        | TokenType::LessEqual => ParseRule {
            prefix: None,
            infix: Some(ParseFn::Binary),
            precedence: Precedence::Comparison,
        },
        TokenType::Identifier => ParseRule {
            prefix: Some(ParseFn::Variable),
            infix: None,
            precedence: Precedence::Lowest,
        },
        TokenType::String => ParseRule {
            prefix: Some(ParseFn::String),
            infix: None,
            precedence: Precedence::Lowest,
        },
        TokenType::Number => ParseRule {
            prefix: Some(ParseFn::Number),
            infix: None,
            precedence: Precedence::Lowest,
        },
        TokenType::And => ParseRule {
            prefix: None,
            infix: Some(ParseFn::And),
            precedence: Precedence::And,
        },
        TokenType::Or => ParseRule {
            prefix: None,
            infix: Some(ParseFn::Or),
            precedence: Precedence::Or,
        },
        TokenType::False | TokenType::Nil | TokenType::True => ParseRule {
            prefix: Some(ParseFn::Literal),
            infix: None,
            precedence: Precedence::Lowest,
        },
        _ => ParseRule { prefix: None, infix: None, precedence: Precedence::Lowest },
    }
}

/// A local variable while its scope is being compiled. `depth` is the depth
/// of the scope that declared it, or -1 until its initialiser is compiled.
#[derive(Debug)]
pub struct Local {
    pub name: Token,
    pub depth: isize,
}

/// The most local variables that are alive at once: an instruction names a
/// local by one byte.
pub const MAX_LOCALS: usize = 256;

/// The compiler of one function: the code so far, the token stream, and the
/// local variables of the scopes that are open.
///
/// `declared` counts the locals that were declared, `popped` the `POP`s that
/// were emitted where a scope ended.
pub struct Compiler {
    pub emitter: Emitter,
    pub parser: Parser,
    pub locals: Vec<Local>,
    pub scope_depth: isize,
    pub declared: Ghost<nat>,
    pub popped: Ghost<nat>,
}

impl Compiler {
    /// No error was reported so far.
    pub open spec fn ok(&self) -> bool {
        !self.parser.had_error
    }

    /// The height of the stack at the end of the code so far.
    pub open spec fn height(&self) -> int {
        self.emitter.height@
    }

    /// The parts are well formed; no local is declared deeper than the
    /// scope that is open; every local that was declared and is not popped
    /// is alive; and while no error was reported, the emitter is sound.
    pub open spec fn wf(&self) -> bool {
        &&& self.emitter.inv()
        &&& self.parser.wf()
        &&& 0 <= self.scope_depth
        &&& self.scope_depth + self.parser.left() <= isize::MAX
        &&& forall|i: int|
            0 <= i < self.locals@.len() ==> -1 <= (#[trigger] self.locals@[i]).depth
                <= self.scope_depth
        &&& forall|i: int, j: int|
            0 <= i < j < self.locals@.len() ==> 0 <= (#[trigger] self.locals@[i]).depth && ((
            #[trigger] self.locals@[j]).depth == -1 || self.locals@[i].depth
                <= self.locals@[j].depth)
        &&& self.declared@ == self.popped@ + self.locals@.len()
        &&& self.ok() ==> self.emitter.sound@
        &&& self.ok() ==> self.height() >= self.ready()
        &&& self.ok() ==> self.locals@.len() <= MAX_LOCALS
    }

    /// How many locals are initialised: all, or all but the last. Their
    /// values lie at the bottom of the stack.
    pub open spec fn ready(&self) -> int {
        if self.locals@.len() > 0 && self.locals@.last().depth == -1 {
            self.locals@.len() - 1
        } else {
            self.locals@.len() as int
        }
    }

    /// Whether this compiler came from `earlier` by compiling on: the code
    /// grew, every jump emitted in between is patched, the tokens went
    /// forward, the errors were kept, and the same scope is open.
    pub open spec fn follows(&self, earlier: &Compiler) -> bool {
        &&& earlier.emitter.extended_by(&self.emitter)
        &&& self.parser.follows(&earlier.parser)
        &&& self.scope_depth == earlier.scope_depth
        &&& earlier.declared@ <= self.declared@
        &&& earlier.popped@ <= self.popped@
    }

    /// Whether all but the emitter and the reported errors is as in
    /// `earlier`: the tokens, the locals and the scope.
    pub open spec fn same_place(&self, earlier: &Compiler) -> bool {
        &&& self.parser.scanner == earlier.parser.scanner
        &&& self.parser.current == earlier.parser.current
        &&& self.parser.previous == earlier.parser.previous
        &&& self.locals@ == earlier.locals@
        &&& self.scope_depth == earlier.scope_depth
        &&& self.declared == earlier.declared
        &&& self.popped == earlier.popped
    }

    /// Whether every local's initialiser is compiled.
    pub open spec fn settled(&self) -> bool {
        forall|i: int| 0 <= i < self.locals@.len() ==> 0 <= (#[trigger] self.locals@[i]).depth
    }

    /// Whether all but the tokens and the reported errors is as in
    /// `earlier`: the code, the locals and the scope.
    pub open spec fn same_code(&self, earlier: &Compiler) -> bool {
        &&& self.emitter == earlier.emitter
        &&& self.locals@ == earlier.locals@
        &&& self.scope_depth == earlier.scope_depth
        &&& self.declared == earlier.declared
        &&& self.popped == earlier.popped
    }

    /// The state of the translation that this compiler has come to, with
    /// `strings` interned.
    pub open spec fn draft(&self, strings: Seq<Seq<char>>) -> Draft {
        Draft {
            source: self.parser.scanner.source@,
            pos: self.parser.scanner.current as int,
            line: self.parser.scanner.line as int,
            current: tok(self.parser.current),
            previous: tok(self.parser.previous),
            code: self.emitter.chunk.code@,
            lines: self.emitter.chunk.lines@,
            constants: self.emitter.chunk.constants@,
            locals: named(self.locals@),
            scope_depth: self.scope_depth as int,
            strings,
        }
    }

    /// Whether this compiler has done what the translation lays down: if
    /// no error was reported before, it has come to the draft `expected`
    /// without an error, or it has reported an error where there is none.
    pub open spec fn translated(
        &self,
        strings: Seq<Seq<char>>,
        was_ok: bool,
        expected: Option<Draft>,
    ) -> bool {
        was_ok ==> match expected {
            Some(draft) => self.ok() && self.draft(strings) == draft,
            None => !self.ok(),
        }
    }

    /// Takes the next token.
    pub(crate) fn advance(&mut self, Ghost(strings): Ghost<Seq<Seq<char>>>)
        requires
            old(self).wf(),
        ensures
            final(self).wf(),
            final(self).follows(old(self)),
            final(self).same_code(old(self)),
            final(self).parser.advanced(&old(self).parser),
            old(self).parser.current.typ != TokenType::EOF ==> final(self).parser.left() < old(self).parser.left(),
            final(self).translated(strings, old(self).ok(), t_advance(old(self).draft(strings))),
    {
        self.parser.advance();
        proof {
            lemma_next_token_progress(
                old(self).parser.scanner.source@,
                old(self).parser.scanner.current as int,
                old(self).parser.scanner.line as int,
            );
        }
    }

    /// Takes the token at hand if it is of kind `typ`, and reports
    /// `message` at it if it is not.
    pub(crate) fn consume(&mut self, typ: TokenType, message: &str, Ghost(strings): Ghost<Seq<Seq<char>>>)
        requires
            old(self).wf(),
        ensures
            final(self).wf(),
            final(self).follows(old(self)),
            final(self).same_code(old(self)),
            final(self).translated(
                strings,
                old(self).ok(),
                t_consume(old(self).draft(strings), typ),
            ),
    {
        self.parser.consume(typ, message);
        proof {
            lemma_next_token_progress(
                old(self).parser.scanner.source@,
                old(self).parser.scanner.current as int,
                old(self).parser.scanner.line as int,
            );
        }
    }

    /// Takes the token at hand if it is of kind `typ`; says whether it
    /// did.
    pub(crate) fn match_tt(&mut self, typ: TokenType, Ghost(strings): Ghost<Seq<Seq<char>>>) -> (r: bool)
        requires
            old(self).wf(),
        ensures
            final(self).wf(),
            final(self).follows(old(self)),
            final(self).same_code(old(self)),
            r == (old(self).parser.current.typ == typ),
            !r ==> final(self).parser == old(self).parser,
            r && typ != TokenType::EOF ==> final(self).parser.left() < old(self).parser.left(),
            r ==> final(self).translated(strings, old(self).ok(), t_advance(old(self).draft(strings))),
            r ==> final(self).parser.advanced(&old(self).parser),
    {
        let r = self.parser.match_tt(typ);
        proof {
            lemma_next_token_progress(
                old(self).parser.scanner.source@,
                old(self).parser.scanner.current as int,
                old(self).parser.scanner.line as int,
            );
        }
        r
    }

    /// Appends an instruction without operands, from the line of the token
    /// that was taken last.
    pub(crate) fn emit_op(&mut self, op: Opcode)
        requires
            old(self).wf(),
            op.operands() == 0,
            old(self).ok() ==> old(self).height() >= needs(op, 0) && old(self).height() + effect(
                op,
                0,
            ) >= old(self).ready(),
        ensures
            final(self).wf(),
            final(self).follows(old(self)),
            final(self).same_place(old(self)),
            final(self).parser == old(self).parser,
            final(self).emitter.len() == old(self).emitter.len() + 1,
            final(self).emitter.chunk.code@ == old(self).emitter.chunk.code@.push(op.byte()),
            final(self).height() == old(self).height() + effect(op, 0),
            final(self).emitter.free@ == (op == Opcode::Return),
            final(self).emitter.chunk.constants == old(self).emitter.chunk.constants,
            forall|strings: Seq<Seq<char>>| #[trigger]
                final(self).draft(strings) == t_emit(old(self).draft(strings), op),
    {
        let line = self.parser.previous.line;
        self.emitter.emit_op(op, line);
    }

    /// Appends an instruction with one operand.
    pub(crate) fn emit_operand(&mut self, op: Opcode, operand: u8)
        requires
            old(self).wf(),
            op.operands() == 1,
            old(self).ok() ==> old(self).height() >= needs(op, operand as int) && old(self).height() + effect(op, operand as int) >= old(self).ready() && fits(
                op,
                operand as int,
                old(self).height(),
                old(self).emitter.chunk.constants@,
            ),
        ensures
            final(self).wf(),
            final(self).follows(old(self)),
            final(self).same_place(old(self)),
            final(self).parser == old(self).parser,
            final(self).emitter.len() == old(self).emitter.len() + 2,
            final(self).emitter.chunk.code@ == old(self).emitter.chunk.code@.push(op.byte()).push(
                operand,
            ),
            final(self).height() == old(self).height() + effect(op, operand as int),
            !final(self).emitter.free@,
            final(self).emitter.chunk.constants == old(self).emitter.chunk.constants,
            forall|strings: Seq<Seq<char>>| #[trigger]
                final(self).draft(strings) == t_emit_operand(old(self).draft(strings), op, operand),
    {
        let line = self.parser.previous.line;
        self.emitter.emit_operand(op, operand, line);
    }

    /// Appends `RETURN`.
    pub(crate) fn emit_return(&mut self)
        requires
            old(self).wf(),
        ensures
            final(self).wf(),
            final(self).follows(old(self)),
            final(self).same_place(old(self)),
            final(self).parser == old(self).parser,
            final(self).emitter.chunk.code@ == old(self).emitter.chunk.code@.push(
                Opcode::Return.byte(),
            ),
            final(self).emitter.free@,
            forall|strings: Seq<Seq<char>>| #[trigger]
                final(self).draft(strings) == t_emit(old(self).draft(strings), Opcode::Return),
    {
        self.emit_op(Opcode::Return);
    }

    /// Adds a constant to the chunk and returns its index. A full chunk is
    /// an error, and then the index is 0.
    pub(crate) fn make_constant(&mut self, value: Value) -> (index: u8)
        requires
            old(self).wf(),
        ensures
            final(self).wf(),
            final(self).follows(old(self)),
            final(self).same_place(old(self)),
            final(self).emitter.chunk.code == old(self).emitter.chunk.code,
            final(self).height() == old(self).height(),
            final(self).emitter.free == old(self).emitter.free,
            final(self).ok() ==> index == old(self).emitter.chunk.constants@.len()
                && final(self).emitter.chunk.constants@ == old(self).emitter.chunk.constants@.push(
                value,
            ),
            old(self).emitter.chunk.constants@.len() >= 256 ==> !final(self).ok(),
            forall|strings: Seq<Seq<char>>|
                #![trigger final(self).draft(strings)]
                final(self).translated(
                    strings,
                    old(self).ok(),
                    t_add_constant(old(self).draft(strings), value),
                ),
    {
        match self.emitter.add_constant(value) {
            Some(index) => index as u8,
            None => {
                self.parser.error_at_current("Too many constants in one chunk");
                0
            },
        }
    }

    /// Adds a constant and appends the instruction that loads it.
    pub(crate) fn emit_constant(&mut self, value: Value)
        requires
            old(self).wf(),
        ensures
            final(self).wf(),
            final(self).follows(old(self)),
            final(self).same_place(old(self)),
            final(self).emitter.len() == old(self).emitter.len() + 2,
            final(self).height() == old(self).height() + 1,
            !final(self).emitter.free@,
            final(self).ok() ==> final(self).emitter.chunk.code@ == old(self).emitter.chunk.code@.push(Opcode::Constant.byte()).push(
                old(self).emitter.chunk.constants@.len() as u8,
            ) && final(self).emitter.chunk.constants@ == old(self).emitter.chunk.constants@.push(
                value,
            ),
            forall|strings: Seq<Seq<char>>|
                #![trigger final(self).draft(strings)]
                final(self).translated(
                    strings,
                    old(self).ok(),
                    t_emit_constant(old(self).draft(strings), value),
                ),
    {
        let index = self.make_constant(value);
        let ghost middle = *self;
        self.emit_operand(Opcode::Constant, index);
        proof {
            lemma_follows_trans(*old(self), middle, *self);
        }
    }

    /// Appends a jump whose target is not known yet; returns the offset of
    /// its operand.
    pub(crate) fn emit_jump(&mut self, op: Opcode) -> (offset: usize)
        requires
            old(self).wf(),
            op == Opcode::Jump || op == Opcode::JumpIfFalse,
            old(self).ok() ==> old(self).height() >= needs(op, 0),
        ensures
            final(self).wf(),
            final(self).same_place(old(self)),
            final(self).parser == old(self).parser,
            old(self).emitter.grew_into(&final(self).emitter),
            offset == old(self).emitter.len() + 1,
            final(self).emitter.len() == old(self).emitter.len() + 3,
            final(self).emitter.heights@ == old(self).emitter.heights@.insert(
                old(self).emitter.len(),
                old(self).height(),
            ),
            final(self).emitter.pending@ == old(self).emitter.pending@.insert(
                old(self).emitter.len(),
            ),
            !old(self).emitter.pending@.contains(old(self).emitter.len()),
            final(self).height() == old(self).height(),
            final(self).emitter.free@ == (op == Opcode::Jump),
            final(self).emitter.chunk.constants == old(self).emitter.chunk.constants,
            forall|strings: Seq<Seq<char>>| #[trigger]
                final(self).draft(strings) == t_jump(old(self).draft(strings), op),
    {
        let line = self.parser.previous.line;
        self.emitter.emit_jump(op, line)
    }

    /// Makes the jump whose operand is at `offset` land at the end of the
    /// code. A jump over more than 65535 bytes is an error.
    pub(crate) fn patch_jump(&mut self, offset: usize)
        requires
            old(self).wf(),
            offset >= 1,
            old(self).emitter.pending@.contains(offset - 1),
            old(self).ok() ==> old(self).emitter.free@ || old(self).height() == old(self).emitter.heights@[offset - 1],
            old(self).ok() ==> old(self).emitter.heights@[offset - 1] >= old(self).ready(),
        ensures
            final(self).wf(),
            final(self).same_place(old(self)),
            final(self).parser.follows(&old(self).parser),
            final(self).emitter.len() == old(self).emitter.len(),
            forall|p: int|
                0 <= p < old(self).emitter.len() && p != offset && p != offset + 1
                    ==> #[trigger] final(self).emitter.chunk.code@[p] == old(self).emitter.chunk.code@[p],
            final(self).emitter.chunk.constants == old(self).emitter.chunk.constants,
            final(self).emitter.heights == old(self).emitter.heights,
            final(self).emitter.pending@ == old(self).emitter.pending@.remove(offset - 1),
            final(self).height() == (if old(self).emitter.free@ {
                old(self).emitter.heights@[offset - 1]
            } else {
                old(self).height()
            }),
            !final(self).emitter.free@,
            final(self).emitter.sound@ ==> old(self).emitter.sound@,
            old(self).emitter.len() - offset - 2 > 65535 ==> !final(self).ok(),
            forall|strings: Seq<Seq<char>>|
                #![trigger final(self).draft(strings)]
                final(self).translated(
                    strings,
                    old(self).ok(),
                    t_patch(old(self).draft(strings), offset as int),
                ),
    {
        let fits = self.emitter.patch_jump(offset);
        if !fits {
            self.parser.error_at_current("Too much code to jump over");
        }
    }

    /// Appends a loop back to `loop_start`. A loop over more than 65535
    /// bytes is an error.
    pub(crate) fn emit_loop(&mut self, loop_start: usize)
        requires
            old(self).wf(),
            loop_start <= old(self).emitter.len(),
            old(self).ok() ==> loop_start == old(self).emitter.len() || (old(self).emitter.heights@.contains_key(loop_start as int) && old(self).emitter.heights@[loop_start as int] == old(self).height()),
        ensures
            final(self).wf(),
            final(self).follows(old(self)),
            final(self).same_place(old(self)),
            final(self).emitter.len() == old(self).emitter.len() + 3,
            final(self).height() == old(self).height(),
            final(self).emitter.free@,
            final(self).emitter.chunk.constants == old(self).emitter.chunk.constants,
            old(self).emitter.len() + 3 - loop_start > 65535 ==> !final(self).ok(),
            forall|strings: Seq<Seq<char>>|
                #![trigger final(self).draft(strings)]
                final(self).translated(
                    strings,
                    old(self).ok(),
                    t_loop(old(self).draft(strings), loop_start as int),
                ),
    {
        let line = self.parser.previous.line;
        let fits = self.emitter.emit_loop(loop_start, line);
        if !fits {
            self.parser.error_at_current("Loop body too large");
        }
    }

    /// Opens a scope.
    pub(crate) fn begin_scope(&mut self)
        requires
            old(self).wf(),
            old(self).scope_depth + old(self).parser.left() < isize::MAX,
        ensures
            final(self).wf(),
            final(self).scope_depth == old(self).scope_depth + 1,
            final(self).emitter == old(self).emitter,
            final(self).parser == old(self).parser,
            final(self).locals == old(self).locals,
            final(self).declared == old(self).declared,
            final(self).popped == old(self).popped,
            forall|strings: Seq<Seq<char>>| #[trigger]
                final(self).draft(strings) == (Draft {
                    scope_depth: old(self).scope_depth + 1,
                    ..old(self).draft(strings)
                }),
    {
        self.scope_depth += 1;
    }

    /// Closes the innermost scope: appends one `POP` for each local that
    /// the scope declared, the last first, and forgets the local.
    pub(crate) fn end_scope(&mut self)
        requires
            old(self).wf(),
            old(self).settled(),
            old(self).scope_depth > 0,
        ensures
            final(self).wf(),
            final(self).settled(),
            final(self).scope_depth == old(self).scope_depth - 1,
            final(self).parser == old(self).parser,
            old(self).emitter.extended_by(&final(self).emitter),
            final(self).locals@.len() <= old(self).locals@.len(),
            final(self).locals@ == old(self).locals@.subrange(0, final(self).locals@.len() as int),
            forall|i: int|
                final(self).locals@.len() <= i < old(self).locals@.len() ==> (#[trigger] old(self).locals@[i]).depth == old(self).scope_depth,
            final(self).emitter.len() == old(self).emitter.len() + (old(self).locals@.len()
                - final(self).locals@.len()),
            forall|p: int|
                old(self).emitter.len() <= p < final(self).emitter.len() ==> #[trigger] final(self).emitter.chunk.code@[p] == Opcode::Pop.byte(),
            final(self).height() == old(self).height() - (old(self).locals@.len() - final(self).locals@.len()),
            final(self).declared == old(self).declared,
            final(self).popped@ == old(self).popped@ + (old(self).locals@.len() - final(self).locals@.len()),
            final(self).emitter.chunk.constants == old(self).emitter.chunk.constants,
            forall|strings: Seq<Seq<char>>| #[trigger]
                final(self).draft(strings) == t_end_scope(old(self).draft(strings)),
    {
        self.scope_depth -= 1;
        while self.locals.len() > 0 && self.locals[self.locals.len() - 1].depth > self.scope_depth
            invariant
                self.emitter.inv(),
                self.parser.wf(),
                self.parser == old(self).parser,
                self.ok() ==> self.emitter.sound@,
                self.ok() ==> self.height() >= self.locals@.len(),
                self.ok() ==> self.locals@.len() <= MAX_LOCALS,
                self.scope_depth == old(self).scope_depth - 1,
                0 <= self.scope_depth,
                old(self).wf(),
                old(self).settled(),
                self.locals@.len() <= old(self).locals@.len(),
                self.locals@ == old(self).locals@.subrange(0, self.locals@.len() as int),
                forall|i: int|
                    self.locals@.len() <= i < old(self).locals@.len() ==> (#[trigger] old(self).locals@[i]).depth == old(self).scope_depth,
                old(self).emitter.extended_by(&self.emitter),
                self.emitter.len() == old(self).emitter.len() + (old(self).locals@.len()
                    - self.locals@.len()),
                forall|p: int|
                    old(self).emitter.len() <= p < self.emitter.len()
                        ==> #[trigger] self.emitter.chunk.code@[p] == Opcode::Pop.byte(),
                self.height() == old(self).height() - (old(self).locals@.len()
                    - self.locals@.len()),
                self.declared == old(self).declared,
                self.popped@ == old(self).popped@ + (old(self).locals@.len()
                    - self.locals@.len()),
                self.emitter.chunk.constants == old(self).emitter.chunk.constants,
                forall|strings: Seq<Seq<char>>| #[trigger]
                    t_pop_locals(self.draft(strings)) == t_end_scope(old(self).draft(strings)),
            decreases self.locals@.len(),
        {
            let line = self.parser.previous.line;
            let ghost before = self.emitter;
            let ghost entered = *self;
            self.emitter.emit_op(Opcode::Pop, line);
            self.locals.pop();
            proof {
                self.popped@ = self.popped@ + 1;
                lemma_grew_trans(old(self).emitter, before, self.emitter);
                assert(self.locals@ =~= old(self).locals@.subrange(0, self.locals@.len() as int));
                assert(named(self.locals@) =~= named(entered.locals@).drop_last());
                assert forall|strings: Seq<Seq<char>>| #[trigger]
                    t_pop_locals(self.draft(strings)) == t_end_scope(
                        old(self).draft(strings),
                    ) by {
                    assert(self.draft(strings) == (Draft {
                        locals: entered.draft(strings).locals.drop_last(),
                        ..t_emit(entered.draft(strings), Opcode::Pop)
                    }));
                    assert(t_pop_locals(entered.draft(strings)) == t_end_scope(
                        old(self).draft(strings),
                    ));
                }
            }
        }
        proof {
            assert forall|strings: Seq<Seq<char>>| #[trigger]
                self.draft(strings) == t_end_scope(old(self).draft(strings)) by {
                assert(t_pop_locals(self.draft(strings)) == t_end_scope(old(self).draft(strings)));
            }
            let k = self.locals@.len() as int;
            assert forall|i: int| 0 <= i < k implies (#[trigger] self.locals@[i]).depth
                <= self.scope_depth by {
                assert(self.locals@[i] == old(self).locals@[i]);
                assert(self.locals@[k - 1] == old(self).locals@[k - 1]);
                if i < k - 1 {
                    assert(old(self).locals@[i].depth <= old(self).locals@[k - 1].depth);
                }
            }
            assert forall|i: int, j: int| 0 <= i < j < k implies 0 <= (
            #[trigger] self.locals@[i]).depth && ((#[trigger] self.locals@[j]).depth == -1
                || self.locals@[i].depth <= self.locals@[j].depth) by {
                assert(self.locals@[i] == old(self).locals@[i]);
                assert(self.locals@[j] == old(self).locals@[j]);
            }
            assert forall|i: int| 0 <= i < k implies 0 <= (#[trigger] self.locals@[i]).depth by {
                assert(self.locals@[i] == old(self).locals@[i]);
            }
        }
    }

    /// Declares a local with this name, not yet initialised. More than 256
    /// locals at once are an error.
    pub(crate) fn add_local(&mut self, name: Token)
        requires
            old(self).wf(),
            old(self).settled(),
        ensures
            final(self).wf(),
            final(self).locals@ == old(self).locals@.push(Local { name, depth: -1isize }),
            final(self).declared@ == old(self).declared@ + 1,
            final(self).popped == old(self).popped,
            final(self).emitter == old(self).emitter,
            final(self).scope_depth == old(self).scope_depth,
            final(self).parser.follows(&old(self).parser),
            final(self).parser.scanner == old(self).parser.scanner,
            final(self).parser.current == old(self).parser.current,
            final(self).parser.previous == old(self).parser.previous,
            old(self).locals@.len() >= MAX_LOCALS ==> !final(self).ok(),
            old(self).locals@.len() < MAX_LOCALS ==> final(self).parser == old(self).parser,
            old(self).locals@.len() >= MAX_LOCALS ==> final(self).parser.reported(
                &old(self).parser,
                old(self).parser.current,
                "Too many local variables"@,
            ),
    {
        if self.locals.len() >= MAX_LOCALS {
            self.parser.error_at_current("Too many local variables");
        }
        let local = Local { name, depth: -1 };
        self.locals.push(local);
        proof {
            self.declared@ = self.declared@ + 1;
            let n = old(self).locals@.len() as int;
            assert forall|i: int, j: int| 0 <= i < j < self.locals@.len() implies 0 <= (
            #[trigger] self.locals@[i]).depth && ((#[trigger] self.locals@[j]).depth == -1
                || self.locals@[i].depth <= self.locals@[j].depth) by {
                assert(self.locals@[i] == old(self).locals@[i]);
                if j < n {
                    assert(self.locals@[j] == old(self).locals@[j]);
                }
            }
        }
    }

    /// Marks the local that was declared last as initialised in the scope
    /// that is open.
    pub(crate) fn mark_initialized(&mut self)
        requires
            old(self).wf(),
            old(self).locals@.len() > 0,
            old(self).ok() ==> old(self).height() >= old(self).locals@.len(),
        ensures
            final(self).wf(),
            final(self).settled(),
            final(self).locals@.len() == old(self).locals@.len(),
            forall|i: int|
                0 <= i < old(self).locals@.len() - 1 ==> #[trigger] final(self).locals@[i] == old(self).locals@[i],
            final(self).locals@.last().name == old(self).locals@.last().name,
            final(self).locals@.last().depth == old(self).scope_depth,
            final(self).emitter == old(self).emitter,
            final(self).parser == old(self).parser,
            final(self).scope_depth == old(self).scope_depth,
            final(self).declared == old(self).declared,
            final(self).popped == old(self).popped,
            named(final(self).locals@) == named(old(self).locals@).update(
                old(self).locals@.len() - 1,
                Named {
                    name: old(self).locals@.last().name.source@,
                    depth: old(self).scope_depth as int,
                },
            ),
    {
        let last: usize = self.locals.len() - 1;
        let ghost n = self.locals@.len() as int;
        match self.locals.pop() {
            Some(local) => {
                self.locals.push(Local { name: local.name, depth: self.scope_depth });
            },
            None => {},
        }
        proof {
            assert forall|i: int| 0 <= i < n - 1 implies #[trigger] self.locals@[i] == old(self).locals@[i] by {}
            assert(named(self.locals@) =~= named(old(self).locals@).update(
                n - 1,
                Named {
                    name: old(self).locals@.last().name.source@,
                    depth: old(self).scope_depth as int,
                },
            ));
            assert forall|i: int, j: int| 0 <= i < j < self.locals@.len() implies 0 <= (
            #[trigger] self.locals@[i]).depth && ((#[trigger] self.locals@[j]).depth == -1
                || self.locals@[i].depth <= self.locals@[j].depth) by {
                assert(self.locals@[i] == old(self).locals@[i]);
                assert(old(self).locals@[i].depth <= old(self).scope_depth);
                if j < n - 1 {
                    assert(self.locals@[j] == old(self).locals@[j]);
                }
            }
            assert forall|i: int| 0 <= i < self.locals@.len() implies 0 <= (
            #[trigger] self.locals@[i]).depth by {
                if i < n - 1 {
                    assert(self.locals@[i] == old(self).locals@[i]);
                    assert(0 <= old(self).locals@[i].depth);
                }
            }
        }
    }

    /// The slot of the local that `name` means: the one declared last
    /// among the initialised locals with this name, or `None` where there
    /// is none. A local is not in scope in its own initialiser.
    pub(crate) fn resolve_local(&self, name: &Token) -> (slot: Option<usize>)
        requires
            self.wf(),
        ensures
            slot is Some ==> slot.unwrap() < self.locals@.len() && self.locals@[slot.unwrap() as int].name.source@
                == name.source@ && self.locals@[slot.unwrap() as int].depth != -1,
            forall|i: int|
                (match slot {
                    Some(found) => found < i,
                    None => 0 <= i,
                }) && i < self.locals@.len() ==> (#[trigger] self.locals@[i]).name.source@
                    != name.source@ || self.locals@[i].depth == -1,
            t_resolve(named(self.locals@), name.source@, self.locals@.len() as int) == (match slot {
                Some(found) => Some(found as int),
                None => None,
            }),
    {
        let mut i: usize = self.locals.len();
        while i > 0
            invariant
                i <= self.locals@.len(),
                forall|k: int|
                    i <= k < self.locals@.len() ==> (#[trigger] self.locals@[k]).name.source@
                        != name.source@ || self.locals@[k].depth == -1,
                t_resolve(named(self.locals@), name.source@, self.locals@.len() as int)
                    == t_resolve(named(self.locals@), name.source@, i as int),
            decreases i,
        {
            i -= 1;
            if self.locals[i].depth != -1 && identifiers_equal(&self.locals[i].name, name) {
                return Some(i);
            }
        }
        None
    }

    /// Declares the variable whose name was just taken (or `array`, the name
    /// of an array) as a local, unless it is a global: a name at the top
    /// level that is no array. A second local of one name in one scope is an
    /// error.
    pub(crate) fn declare_local_variable(&mut self, array: Option<Token>)
        requires
            old(self).wf(),
            old(self).settled(),
        ensures
            final(self).wf(),
            final(self).emitter == old(self).emitter,
            final(self).scope_depth == old(self).scope_depth,
            final(self).popped == old(self).popped,
            final(self).parser.follows(&old(self).parser),
            final(self).parser.scanner == old(self).parser.scanner,
            final(self).parser.current == old(self).parser.current,
            final(self).parser.previous == old(self).parser.previous,
            old(self).scope_depth == 0 && array is None ==> final(self).locals@ == old(self).locals@ && final(self).declared == old(self).declared && final(self).parser == old(self).parser,
            !(old(self).scope_depth == 0 && array is None) ==> final(self).locals@ == old(self).locals@.push(
                Local {
                    name: if array is Some {
                        array.unwrap()
                    } else {
                        old(self).parser.previous
                    },
                    depth: -1isize,
                },
            ) && final(self).declared@ == old(self).declared@ + 1,
            !(old(self).scope_depth == 0 && array is None) && (exists|i: int|
                0 <= i < old(self).locals@.len() && (#[trigger] old(self).locals@[i]).depth == old(self).scope_depth && old(self).locals@[i].name.source@ == (if array is Some {
                    array.unwrap()
                } else {
                    old(self).parser.previous
                }).source@) ==> !final(self).ok(),
            !(old(self).scope_depth == 0 && array is None) ==> if t_clashes(
                named(old(self).locals@),
                (if array is Some {
                    array.unwrap()
                } else {
                    old(self).parser.previous
                }).source@,
                old(self).scope_depth as int,
                old(self).locals@.len() as int,
            ) {
                final(self).parser.reported(
                    &old(self).parser,
                    old(self).parser.current,
                    "Already a variable with this name in this scope"@,
                )
            } else if old(self).locals@.len() >= MAX_LOCALS {
                final(self).parser.reported(
                    &old(self).parser,
                    old(self).parser.current,
                    "Too many local variables"@,
                )
            } else {
                final(self).parser == old(self).parser
            },
            forall|strings: Seq<Seq<char>>|
                #![trigger final(self).draft(strings)]
                final(self).translated(
                    strings,
                    old(self).ok(),
                    t_declare_local(
                        old(self).draft(strings),
                        match array {
                            Some(token) => Some(token.source@),
                            None => None,
                        },
                    ),
                ),
    {
        if self.scope_depth == 0 && array.is_none() {
            return;
        }
        let name = match array {
            Some(token) => token,
            None => self.parser.previous.clone(),
        };
        let ghost mut clash: bool = false;
        let ghost wanted = name.source@;
        let ghost locals = named(self.locals@);
        let mut i: usize = self.locals.len();
        while i > 0
            invariant_except_break
                forall|k: int|
                    i <= k < self.locals@.len() && (#[trigger] self.locals@[k]).name.source@
                        == name.source@ ==> clash,
                t_clashes(locals, wanted, self.scope_depth as int, self.locals@.len() as int) == (
                clash || t_clashes(locals, wanted, self.scope_depth as int, i as int)),
            invariant
                self.wf(),
                self.settled(),
                i <= self.locals@.len(),
                self.same_code(old(self)),
                self.parser.follows(&old(self).parser),
                self.parser.scanner == old(self).parser.scanner,
                self.parser.current == old(self).parser.current,
                self.parser.previous == old(self).parser.previous,
                clash ==> !self.ok(),
                clash ==> self.parser.reported(
                    &old(self).parser,
                    old(self).parser.current,
                    "Already a variable with this name in this scope"@,
                ),
                !clash ==> self.parser == old(self).parser,
                wanted == name.source@,
                locals == named(self.locals@),
            ensures
                forall|k: int|
                    0 <= k < self.locals@.len() && (#[trigger] self.locals@[k]).depth
                        == self.scope_depth && self.locals@[k].name.source@ == name.source@
                        ==> clash,
                t_clashes(locals, wanted, self.scope_depth as int, self.locals@.len() as int)
                    == clash,
            decreases i,
        {
            i -= 1;
            if self.locals[i].depth != -1 && self.locals[i].depth < self.scope_depth {
                proof {
                    assert forall|k: int|
                        0 <= k < self.locals@.len() && (#[trigger] self.locals@[k]).depth
                            == self.scope_depth && self.locals@[k].name.source@
                            == name.source@ implies clash by {
                        if k < i {
                            assert(self.locals@[k].depth <= self.locals@[i as int].depth);
                        }
                    }
                }
                break;
            }
            if identifiers_equal(&name, &self.locals[i].name) {
                self.parser.error_at_current("Already a variable with this name in this scope");
                proof {
                    clash = true;
                }
            }
        }
        let ghost checked = *self;
        self.add_local(name);
        proof {
            assert(named(self.locals@) =~= named(checked.locals@).push(
                Named { name: wanted, depth: -1 },
            ));
        }
    }

    /// Ends the declaration of a variable: a local is marked as
    /// initialised, and its value stays on the stack as the local; a global
    /// is defined from the value, which leaves the stack.
    pub(crate) fn define_variable(&mut self, global: u8, is_array: bool)
        requires
            old(self).wf(),
            old(self).scope_depth > 0 || is_array ==> old(self).locals@.len() > 0,
            old(self).ok() ==> old(self).height() >= old(self).locals@.len(),
            old(self).ok() && !(old(self).scope_depth > 0 || is_array) ==> old(self).height()
                >= old(self).ready() + 1 && fits(
                Opcode::DefineGlobal,
                global as int,
                old(self).height(),
                old(self).emitter.chunk.constants@,
            ),
        ensures
            final(self).wf(),
            final(self).follows(old(self)),
            final(self).parser == old(self).parser,
            final(self).emitter.chunk.constants == old(self).emitter.chunk.constants,
            final(self).declared == old(self).declared,
            final(self).popped == old(self).popped,
            final(self).locals@.len() == old(self).locals@.len(),
            if old(self).scope_depth > 0 || is_array {
                &&& final(self).emitter == old(self).emitter
                &&& final(self).settled()
                &&& forall|i: int|
                    0 <= i < old(self).locals@.len() - 1 ==> #[trigger] final(self).locals@[i]
                        == old(self).locals@[i]
                &&& final(self).locals@.last().name == old(self).locals@.last().name
                &&& final(self).locals@.last().depth == old(self).scope_depth
            } else {
                &&& final(self).locals@ == old(self).locals@
                &&& final(self).emitter.chunk.code@ == old(self).emitter.chunk.code@.push(
                    Opcode::DefineGlobal.byte(),
                ).push(global)
                &&& final(self).height() == old(self).height() - 1
            },
            forall|strings: Seq<Seq<char>>| #[trigger]
                final(self).draft(strings) == t_define_variable(
                    old(self).draft(strings),
                    global,
                    is_array,
                ),
    {
        if self.scope_depth > 0 || is_array {
            self.mark_initialized();
            return;
        }
        self.emit_operand(Opcode::DefineGlobal, global);
    }

    /// Interns the text of `name` and adds it to the constants as an
    /// identifier; returns the constant's index.
    pub(crate) fn identifier_constant(&mut self, name: &Token, interner: &mut Interner) -> (index: u8)
        requires
            old(self).wf(),
            old(interner).wf(),
        ensures
            final(self).wf(),
            final(interner).wf(),
            old(interner).kept_by(final(interner)),
            final(self).follows(old(self)),
            final(self).same_place(old(self)),
            final(self).emitter.chunk.code == old(self).emitter.chunk.code,
            final(self).height() == old(self).height(),
            final(self).emitter.free == old(self).emitter.free,
            final(self).ok() ==> index == old(self).emitter.chunk.constants@.len()
                && final(self).emitter.chunk.constants@.len() == index + 1 && (match final(self).emitter.chunk.constants@[index as int] {
                Value::Identifier(id) => final(interner).knows(id) && final(interner)@[id.index()]
                    == name.source@,
                _ => false,
            }),
            final(self).translated(
                final(interner)@,
                old(self).ok(),
                t_identifier_constant(old(self).draft(old(interner)@), name.source@),
            ),
    {
        proof {
            old(interner).lemma_distinct();
        }
        match interner.try_intern(name.source.as_str()) {
            Some(id) => {
                self.make_constant(Value::Identifier(id))
            },
            None => {
                self.parser.error_at_current("Too many strings");
                0
            },
        }
    }
}

/// Compiling on from a compiler that followed another follows that other.
pub proof fn lemma_follows_trans(first: Compiler, second: Compiler, third: Compiler)
    requires
        second.follows(&first),
        third.follows(&second),
    ensures
        third.follows(&first),
{
    lemma_grew_trans(first.emitter, second.emitter, third.emitter);
}

/// Growing on from an emitter that grew out of another grows out of that
/// other.
pub proof fn lemma_grew_trans(first: Emitter, second: Emitter, third: Emitter)
    requires
        first.grew_into(&second),
        second.grew_into(&third),
    ensures
        first.grew_into(&third),
{
    assert forall|p: int| 0 <= p < first.len() implies #[trigger] third.chunk.code@[p]
        == first.chunk.code@[p] by {
        assert(second.chunk.code@[p] == first.chunk.code@[p]);
    }
    assert forall|i: int| 0 <= i < first.chunk.constants@.len() implies #[trigger]
        third.chunk.constants@[i] == first.chunk.constants@[i] by {
        assert(second.chunk.constants@[i] == first.chunk.constants@[i]);
    }
    assert forall|o: int| #[trigger] first.heights@.contains_key(o) implies third.heights@.contains_key(
        o,
    ) && third.heights@[o] == first.heights@[o] by {
        assert(second.heights@.contains_key(o));
    }
}

/// Patching a jump that was appended to an emitter keeps what grew out of
/// that emitter.
pub proof fn lemma_patch_grew(base: Emitter, before: Emitter, after: Emitter, offset: int)
    requires
        base.grew_into(&before),
        base.len() < offset,
        base.len() < before.len(),
        after.len() == before.len(),
        forall|p: int|
            0 <= p < before.len() && p != offset && p != offset + 1
                ==> #[trigger] after.chunk.code@[p] == before.chunk.code@[p],
        after.chunk.constants == before.chunk.constants,
        after.heights == before.heights,
        after.sound@ ==> before.sound@,
    ensures
        base.grew_into(&after),
{
    assert forall|p: int| 0 <= p < base.len() implies #[trigger] after.chunk.code@[p]
        == base.chunk.code@[p] by {
        assert(before.chunk.code@[p] == base.chunk.code@[p]);
    }
}

/// A scope that is closed forgets exactly the locals that were declared in
/// it: after `begin_scope`, declarations and `end_scope` the locals are as
/// before, and as many were popped as were declared.
pub proof fn lemma_scope_closed(outer: Compiler, opened: Compiler, inner: Compiler, closed: Compiler)
    requires
        outer.wf(),
        outer.settled(),
        opened.scope_depth == outer.scope_depth + 1,
        opened.emitter == outer.emitter,
        opened.parser == outer.parser,
        opened.locals == outer.locals,
        opened.declared == outer.declared,
        opened.popped == outer.popped,
        inner.compiled_declarations(&opened),
        closed.wf(),
        closed.settled(),
        closed.scope_depth == inner.scope_depth - 1,
        closed.parser == inner.parser,
        inner.emitter.extended_by(&closed.emitter),
        closed.locals@.len() <= inner.locals@.len(),
        closed.locals@ == inner.locals@.subrange(0, closed.locals@.len() as int),
        forall|i: int|
            closed.locals@.len() <= i < inner.locals@.len() ==> (#[trigger] inner.locals@[i]).depth
                == inner.scope_depth,
        closed.height() == inner.height() - (inner.locals@.len() - closed.locals@.len()),
        closed.declared == inner.declared,
        closed.popped@ == inner.popped@ + (inner.locals@.len() - closed.locals@.len()),
    ensures
        closed.compiled_statement(&outer),
{
    let n = outer.locals@.len() as int;
    let k = closed.locals@.len() as int;
    if k < n {
        assert(inner.locals@[k] == opened.locals@[k]);
        assert(outer.locals@[k].depth <= outer.scope_depth);
    }
    if k > n {
        assert(closed.locals@[n] == inner.locals@[n]);
        assert(inner.locals@[n].depth == inner.scope_depth);
        assert(closed.locals@[n].depth <= closed.scope_depth);
    }
    assert(closed.locals@ =~= outer.locals@) by {
        assert forall|i: int| 0 <= i < n implies closed.locals@[i] == outer.locals@[i] by {
            assert(inner.locals@[i] == opened.locals@[i]);
        }
    }
    lemma_grew_trans(outer.emitter, inner.emitter, closed.emitter);
}

/// Parsing on from a parser that followed another follows that other.
pub proof fn lemma_parser_follows_trans(first: Parser, second: Parser, third: Parser)
    requires
        second.follows(&first),
        third.follows(&second),
    ensures
        third.follows(&first),
{
    assert forall|i: int| 0 <= i < first.errors@.len() implies #[trigger] third.errors@[i]
        == first.errors@[i] by {
        assert(second.errors@[i] == first.errors@[i]);
    }
}

/// A token as the translation sees it.
pub open spec fn tok(token: Token) -> Tok {
    Tok { typ: token.typ, text: token.source@, line: token.line }
}

/// The locals as the translation sees them.
pub open spec fn named(locals: Seq<Local>) -> Seq<Named> {
    Seq::new(locals.len(), |i: int| Named { name: locals[i].name.source@, depth: locals[i].depth as int })
}

} // verus!
