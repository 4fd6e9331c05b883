use crate::common::Opcode;
use crate::compiler::{
    get_rule, increment_prec, lemma_follows_trans, lemma_grew_trans, lemma_patch_grew, rule_of,
    Compiler, ParseFn, Precedence, MAX_LOCALS,
};
use crate::interner::Interner;
use crate::number::{find_numeral, Numeral};
use crate::parser::Parser;
use crate::scanner::{Token, TokenType};
use crate::translation::{
    t_access, t_identifier_constant, t_resolve, t_and, t_binary, t_expression, t_finish, t_grouping, t_index, t_infix, t_literal,
    t_named_variable, t_number, t_operators, t_or, t_parse_precedence, t_prefix, t_string,
    t_unary, unquoted,
};
use crate::value::Value;
use vstd::prelude::*;

verus! {

impl Compiler {
    /// What an expression's code does to a compiler: the code grew by it,
    /// the locals are as before, and unless an error was reported the stack
    /// is `pushes` higher at its end.
    pub open spec fn compiled(&self, earlier: &Compiler, pushes: int) -> bool {
        &&& self.wf()
        &&& self.follows(earlier)
        &&& self.locals@ == earlier.locals@
        &&& self.declared == earlier.declared
        &&& self.popped == earlier.popped
        &&& self.ok() ==> self.height() == earlier.height() + pushes
    }

    /// Compiles a number: the constant that `numbers` gives for the
    /// token's text.
    pub(crate) fn number(&mut self, numbers: &Vec<Numeral>)
        requires
            old(self).wf(),
        ensures
            final(self).compiled(old(self), 1),
            final(self).parser.left() == old(self).parser.left(),
            forall|strings: Seq<Seq<char>>|
                #![trigger final(self).draft(strings)]
                final(self).translated(
                    strings,
                    old(self).ok(),
                    t_number(old(self).draft(strings), numbers@),
                ),
    {
        match find_numeral(numbers, self.parser.previous.source.as_str()) {
            Some(value) => {
                self.emit_constant(Value::Number(value));
            },
            None => {
                self.parser.error_at_previous("Invalid number");
            },
        }
    }

    /// Compiles a string literal: the constant of the text between the
    /// quotes, interned.
    pub(crate) fn string(&mut self, interner: &mut Interner)
        requires
            old(self).wf(),
            old(interner).wf(),
        ensures
            final(self).compiled(old(self), 1),
            final(self).parser.left() == old(self).parser.left(),
            final(interner).wf(),
            old(interner).kept_by(final(interner)),
            final(self).translated(
                final(interner)@,
                old(self).ok(),
                t_string(old(self).draft(old(interner)@)),
            ),
    {
        let text = self.parser.previous.source.as_str();
        let n: usize = text.unicode_len();
        let inner = if n >= 2 {
            text.substring_char(1, n - 1)
        } else {
            text.substring_char(0, 0)
        };
        proof {
            assert(inner@ =~= unquoted(self.parser.previous.source@));
            old(interner).lemma_distinct();
        }
        match interner.try_intern(inner) {
            Some(id) => {
                self.emit_constant(Value::Str(id));
            },
            None => {
                self.parser.error_at_previous("Too many strings");
            },
        }
    }

    /// Compiles `false`, `nil` or `true`.
    pub(crate) fn literal(&mut self)
        requires
            old(self).wf(),
            rule_of(old(self).parser.previous.typ).prefix == Some(ParseFn::Literal),
        ensures
            final(self).parser == old(self).parser,
            final(self).compiled(old(self), 1),
            final(self).parser.left() == old(self).parser.left(),
            forall|strings: Seq<Seq<char>>| #[trigger]
                final(self).draft(strings) == t_literal(old(self).draft(strings)),
    {
        match self.parser.previous.typ {
            TokenType::False => self.emit_op(Opcode::False),
            TokenType::Nil => self.emit_op(Opcode::Nil),
            _ => self.emit_op(Opcode::True),
        }
    }

    /// Compiles an expression.
    pub(crate) fn expression(&mut self, interner: &mut Interner, numbers: &Vec<Numeral>)
        requires
            old(self).wf(),
            old(interner).wf(),
        ensures
            final(self).compiled(old(self), 1),
            old(self).parser.current.typ != TokenType::EOF ==> final(self).parser.left() < old(self).parser.left(),
            final(interner).wf(),
            old(interner).kept_by(final(interner)),
            final(self).translated(
                final(interner)@,
                old(self).ok(),
                t_expression(old(self).draft(old(interner)@), numbers@),
            ),
        decreases old(self).parser.left(), 2int,
    {
        self.parse_precedence(Precedence::Assignment, interner, numbers);
    }

    /// Compiles an expression in parentheses, after the `(`.
    pub(crate) fn grouping(&mut self, interner: &mut Interner, numbers: &Vec<Numeral>)
        requires
            old(self).wf(),
            old(interner).wf(),
        ensures
            final(self).compiled(old(self), 1),
            final(interner).wf(),
            old(interner).kept_by(final(interner)),
            final(self).translated(
                final(interner)@,
                old(self).ok(),
                t_grouping(old(self).draft(old(interner)@), numbers@),
            ),
        decreases old(self).parser.left(), 3int,
    {
        self.expression(interner, numbers);
        let ghost middle = *self;
        self.consume(TokenType::RightParen, "Expect ')' after expression.", Ghost(interner@));
        proof {
            lemma_follows_trans(*old(self), middle, *self);
        }
    }

    /// Compiles the operand of `-` or `!` and then the operator.
    pub(crate) fn unary(&mut self, interner: &mut Interner, numbers: &Vec<Numeral>)
        requires
            old(self).wf(),
            old(interner).wf(),
        ensures
            final(self).compiled(old(self), 1),
            final(interner).wf(),
            old(interner).kept_by(final(interner)),
            final(self).translated(
                final(interner)@,
                old(self).ok(),
                t_unary(old(self).draft(old(interner)@), numbers@),
            ),
        decreases old(self).parser.left(), 2int,
    {
        let operator_type = self.parser.previous.typ;
        self.parse_precedence(Precedence::Unary, interner, numbers);
        let ghost middle = *self;
        match operator_type {
            TokenType::Minus => self.emit_op(Opcode::Negate),
            _ => self.emit_op(Opcode::Not),
        }
        proof {
            lemma_follows_trans(*old(self), middle, *self);
        }
    }

    /// Compiles the right operand of a binary operator and then the
    /// operator; the left operand is on the stack.
    pub(crate) fn binary(&mut self, interner: &mut Interner, numbers: &Vec<Numeral>)
        requires
            old(self).wf(),
            old(interner).wf(),
            rule_of(old(self).parser.previous.typ).infix == Some(ParseFn::Binary),
            old(self).ok() ==> old(self).height() >= old(self).ready() + 1,
        ensures
            final(self).compiled(old(self), 0),
            final(interner).wf(),
            old(interner).kept_by(final(interner)),
            final(self).translated(
                final(interner)@,
                old(self).ok(),
                t_binary(old(self).draft(old(interner)@), numbers@),
            ),
        decreases old(self).parser.left(), 2int,
    {
        let operator_type = self.parser.previous.typ;
        let rule = get_rule(operator_type);
        self.parse_precedence(increment_prec(rule.precedence), interner, numbers);
        let ghost middle = *self;
        match operator_type {
            TokenType::Plus => self.emit_op(Opcode::Add),
            TokenType::Minus => self.emit_op(Opcode::Subtract),
            TokenType::Star => self.emit_op(Opcode::Multiply),
            TokenType::Modulo => self.emit_op(Opcode::Modulo),
            TokenType::Slash => self.emit_op(Opcode::Divide),
            TokenType::BangEqual => {
                self.emit_op(Opcode::Equal);
                let ghost inner = *self;
                self.emit_op(Opcode::Not);
                proof {
                    lemma_follows_trans(middle, inner, *self);
                }
            },
            TokenType::EqualEqual => self.emit_op(Opcode::Equal),
            TokenType::Greater => self.emit_op(Opcode::Greater),
            TokenType::GreaterEqual => {
                self.emit_op(Opcode::Less);
                let ghost inner = *self;
                self.emit_op(Opcode::Not);
                proof {
                    lemma_follows_trans(middle, inner, *self);
                }
            },
            TokenType::Less => self.emit_op(Opcode::Less),
            _ => {
                self.emit_op(Opcode::Greater);
                let ghost inner = *self;
                self.emit_op(Opcode::Not);
                proof {
                    lemma_follows_trans(middle, inner, *self);
                }
            },
        }
        proof {
            lemma_follows_trans(*old(self), middle, *self);
        }
    }

    /// Compiles the index of a variable: the expression in brackets if one
    /// follows, and the constant `Nil`, which stands for no index, if none
    /// does. Says whether there was an index.
    pub(crate) fn array_access_index(&mut self, interner: &mut Interner, numbers: &Vec<Numeral>) -> (indexed:
        bool)
        requires
            old(self).wf(),
            old(interner).wf(),
        ensures
            final(self).compiled(old(self), 1),
            final(interner).wf(),
            old(interner).kept_by(final(interner)),
            final(self).translated(
                final(interner)@,
                old(self).ok(),
                t_index(old(self).draft(old(interner)@), numbers@),
            ),
        decreases old(self).parser.left(), 3int,
    {
        if self.match_tt(TokenType::LeftBracket, Ghost(interner@)) {
            let ghost first = *self;
            self.expression(interner, numbers);
            let ghost middle = *self;
            self.consume(TokenType::RightBracket, "Expect ']' after array index", Ghost(interner@));
            proof {
                lemma_follows_trans(first, middle, *self);
                lemma_follows_trans(*old(self), first, *self);
            }
            true
        } else {
            self.emit_constant(Value::Nil);
            false
        }
    }

    /// Compiles the use of a variable, after its name: its index, and then
    /// a read of it, or an assignment to it if `=` follows and an
    /// assignment may stand here.
    pub(crate) fn access(
        &mut self,
        local: bool,
        arg: u8,
        can_assign: bool,
        interner: &mut Interner,
        numbers: &Vec<Numeral>,
    )
        requires
            old(self).wf(),
            old(interner).wf(),
            old(self).ok() ==> if local {
                arg < old(self).ready()
            } else {
                arg < old(self).emitter.chunk.constants@.len() && old(self).emitter.chunk.constants@[arg as int] is Identifier
            },
        ensures
            final(self).compiled(old(self), 1),
            final(interner).wf(),
            old(interner).kept_by(final(interner)),
            final(self).translated(
                final(interner)@,
                old(self).ok(),
                t_access(old(self).draft(old(interner)@), local, arg, can_assign, numbers@),
            ),
        decreases old(self).parser.left(), 4int,
    {
        let get_op = if local {
            Opcode::GetLocal
        } else {
            Opcode::GetGlobal
        };
        let set_op = if local {
            Opcode::SetLocal
        } else {
            Opcode::SetGlobal
        };
        let _ = self.array_access_index(interner, numbers);
        let ghost second = *self;
        if can_assign && self.match_tt(TokenType::Equal, Ghost(interner@)) {
            let ghost third = *self;
            self.expression(interner, numbers);
            let ghost fourth = *self;
            self.emit_operand(set_op, arg);
            proof {
                lemma_follows_trans(third, fourth, *self);
                lemma_follows_trans(second, third, *self);
                lemma_follows_trans(*old(self), second, *self);
            }
        } else {
            let ghost third = *self;
            self.emit_operand(get_op, arg);
            proof {
                lemma_follows_trans(second, third, *self);
                lemma_follows_trans(*old(self), second, *self);
            }
        }
    }

    /// Compiles a read of the variable `token`, or an assignment to it if
    /// `=` follows and an assignment may stand here. The variable is the
    /// local of this name that was declared last, or else a global.
    pub(crate) fn named_variable(
        &mut self,
        token: &Token,
        can_assign: bool,
        interner: &mut Interner,
        numbers: &Vec<Numeral>,
    )
        requires
            old(self).wf(),
            old(interner).wf(),
        ensures
            final(self).compiled(old(self), 1),
            final(interner).wf(),
            old(interner).kept_by(final(interner)),
            final(self).translated(
                final(interner)@,
                old(self).ok(),
                t_named_variable(
                    old(self).draft(old(interner)@),
                    token.source@,
                    can_assign,
                    numbers@,
                ),
            ),
        decreases old(self).parser.left(), 5int,
    {
        match self.resolve_local(token) {
            Some(slot) => {
                let arg: u8 = if slot < MAX_LOCALS {
                    slot as u8
                } else {
                    0
                };
                proof {
                    if self.ok() {
                        assert(slot < MAX_LOCALS);
                        assert(arg == (slot as int) as u8);
                    }
                }
                self.access(true, arg, can_assign, interner, numbers);
                proof {
                    let d = old(self).draft(old(interner)@);
                    assert(t_resolve(d.locals, token.source@, d.locals.len() as int) == Some(
                        slot as int,
                    ));
                }
            },
            None => {
                let arg = self.identifier_constant(token, interner);
                let ghost first = *self;
                let ghost middle = *interner;
                self.access(false, arg, can_assign, interner, numbers);
                proof {
                    lemma_follows_trans(*old(self), first, *self);
                    crate::vm::lemma_kept_trans(*old(interner), middle, *interner);
                    let d = old(self).draft(old(interner)@);
                    assert(t_resolve(d.locals, token.source@, d.locals.len() as int) is None);
                    if old(self).ok() {
                        let named = t_identifier_constant(d, token.source@);
                        if named is Some {
                            assert(first.ok());
                            assert(first.draft(middle@) == named.unwrap());
                            assert(named.unwrap().valid());
                            assert(named.unwrap().left() == d.left());
                            assert(arg == d.constants.len() as u8);
                        } else {
                            assert(!first.ok());
                        }
                    }
                }
            },
        }
    }

    /// Compiles the variable whose name was just taken.
    pub(crate) fn variable(&mut self, can_assign: bool, interner: &mut Interner, numbers: &Vec<Numeral>)
        requires
            old(self).wf(),
            old(interner).wf(),
        ensures
            final(self).compiled(old(self), 1),
            final(interner).wf(),
            old(interner).kept_by(final(interner)),
            final(self).translated(
                final(interner)@,
                old(self).ok(),
                t_named_variable(old(self).draft(old(interner)@), old(self).parser.previous.source@, can_assign, numbers@),
            ),
        decreases old(self).parser.left(), 6int,
    {
        let token = self.parser.previous.clone();
        self.named_variable(&token, can_assign, interner, numbers);
    }

    /// Compiles the right operand of `and`: it is evaluated only if the left
    /// operand, which is on the stack, is not false; else the left operand
    /// is the result.
    pub(crate) fn and(&mut self, interner: &mut Interner, numbers: &Vec<Numeral>)
        requires
            old(self).wf(),
            old(interner).wf(),
            old(self).ok() ==> old(self).height() >= old(self).ready() + 1,
        ensures
            final(self).compiled(old(self), 0),
            final(interner).wf(),
            old(interner).kept_by(final(interner)),
            final(self).translated(
                final(interner)@,
                old(self).ok(),
                t_and(old(self).draft(old(interner)@), numbers@),
            ),
        decreases old(self).parser.left(), 2int,
    {
        let end_jump = self.emit_jump(Opcode::JumpIfFalse);
        let ghost first = *self;
        self.emit_op(Opcode::Pop);
        let ghost second = *self;
        self.parse_precedence(Precedence::And, interner, numbers);
        let ghost third = *self;
        proof {
            lemma_follows_trans(first, second, third);
        }
        self.patch_jump(end_jump);
        proof {
            lemma_grew_trans(old(self).emitter, first.emitter, third.emitter);
            lemma_patch_grew(old(self).emitter, third.emitter, self.emitter, end_jump as int);
            assert(self.emitter.pending@ =~= old(self).emitter.pending@);
        }
    }

    /// Compiles the right operand of `or`: it is evaluated only if the left
    /// operand, which is on the stack, is false; else the left operand is
    /// the result.
    #[verifier::rlimit(50)]
    pub(crate) fn or(&mut self, interner: &mut Interner, numbers: &Vec<Numeral>)
        requires
            old(self).wf(),
            old(interner).wf(),
            old(self).ok() ==> old(self).height() >= old(self).ready() + 1,
        ensures
            final(self).compiled(old(self), 0),
            final(interner).wf(),
            old(interner).kept_by(final(interner)),
            final(self).translated(
                final(interner)@,
                old(self).ok(),
                t_or(old(self).draft(old(interner)@), numbers@),
            ),
        decreases old(self).parser.left(), 2int,
    {
        let else_jump = self.emit_jump(Opcode::JumpIfFalse);
        let ghost first = *self;
        let end_jump = self.emit_jump(Opcode::Jump);
        let ghost second = *self;
        self.patch_jump(else_jump);
        let ghost third = *self;
        self.emit_op(Opcode::Pop);
        let ghost fourth = *self;
        self.parse_precedence(Precedence::Or, interner, numbers);
        let ghost fifth = *self;
        proof {
            lemma_grew_trans(old(self).emitter, first.emitter, second.emitter);
            lemma_patch_grew(old(self).emitter, second.emitter, third.emitter, else_jump as int);
            lemma_follows_trans(third, fourth, fifth);
            lemma_grew_trans(old(self).emitter, third.emitter, fifth.emitter);
        }
        self.patch_jump(end_jump);
        proof {
            lemma_patch_grew(old(self).emitter, fifth.emitter, self.emitter, end_jump as int);
            assert(self.emitter.pending@ =~= old(self).emitter.pending@);
        }
    }

    /// Compiles what starts with the token that was just taken.
    pub(crate) fn apply_prefix(
        &mut self,
        rule: ParseFn,
        can_assign: bool,
        interner: &mut Interner,
        numbers: &Vec<Numeral>,
    )
        requires
            old(self).wf(),
            old(interner).wf(),
            rule_of(old(self).parser.previous.typ).prefix == Some(rule),
        ensures
            final(self).compiled(old(self), 1),
            final(interner).wf(),
            old(interner).kept_by(final(interner)),
            final(self).translated(
                final(interner)@,
                old(self).ok(),
                t_prefix(old(self).draft(old(interner)@), rule, can_assign, numbers@),
            ),
        decreases old(self).parser.left(), 7int,
    {
        match rule {
            ParseFn::Grouping => self.grouping(interner, numbers),
            ParseFn::Unary => self.unary(interner, numbers),
            ParseFn::Variable => self.variable(can_assign, interner, numbers),
            ParseFn::String => self.string(interner),
            ParseFn::Number => self.number(numbers),
            _ => self.literal(),
        }
    }

    /// Compiles what goes on, after a left operand, with the token that was
    /// just taken.
    pub(crate) fn apply_infix(&mut self, rule: ParseFn, interner: &mut Interner, numbers: &Vec<Numeral>)
        requires
            old(self).wf(),
            old(interner).wf(),
            rule_of(old(self).parser.previous.typ).infix == Some(rule),
            old(self).ok() ==> old(self).height() >= old(self).ready() + 1,
        ensures
            final(self).compiled(old(self), 0),
            final(interner).wf(),
            old(interner).kept_by(final(interner)),
            final(self).translated(
                final(interner)@,
                old(self).ok(),
                t_infix(old(self).draft(old(interner)@), rule, numbers@),
            ),
        decreases old(self).parser.left(), 7int,
    {
        match rule {
            ParseFn::And => self.and(interner, numbers),
            ParseFn::Or => self.or(interner, numbers),
            _ => self.binary(interner, numbers),
        }
    }

    /// Compiles an expression whose operators bind at least as tightly as
    /// `precedence`: what the next token starts, and then every operator of
    /// that precedence or a tighter one with its right operand.
    pub(crate) fn parse_precedence(
        &mut self,
        precedence: Precedence,
        interner: &mut Interner,
        numbers: &Vec<Numeral>,
    )
        requires
            old(self).wf(),
            old(interner).wf(),
        ensures
            final(self).compiled(old(self), 1),
            old(self).parser.current.typ != TokenType::EOF ==> final(self).parser.left() < old(self).parser.left(),
            final(interner).wf(),
            old(interner).kept_by(final(interner)),
            final(self).translated(
                final(interner)@,
                old(self).ok(),
                t_parse_precedence(old(self).draft(old(interner)@), precedence, numbers@),
            ),
            exists|before: Parser| #[trigger]
                ended(&before, &final(self).parser, precedence),
        decreases old(self).parser.left(), 1int,
    {
        let ghost whole = t_parse_precedence(old(self).draft(old(interner)@), precedence, numbers@);
        self.advance(Ghost(interner@));
        let ghost first = *self;
        let prefix_rule = get_rule(self.parser.previous.typ).prefix;
        let can_assign = precedence.level() <= Precedence::Assignment.level();
        match prefix_rule {
            Some(rule) => self.apply_prefix(rule, can_assign, interner, numbers),
            None => {
                self.parser.error_at_previous("Expect expression");
                assert(ended(&first.parser, &self.parser, precedence));
                return;
            },
        }
        proof {
            lemma_follows_trans(*old(self), first, *self);
        }
        while precedence.level() <= get_rule(self.parser.current.typ).precedence.level()
            invariant
                self.compiled(old(self), 1),
                self.ok() ==> self.height() >= self.ready() + 1,
                self.parser.left() <= first.parser.left(),
                first.parser.left() <= old(self).parser.left(),
                old(self).parser.current.typ != TokenType::EOF,
                first.parser.left() < old(self).parser.left(),
                interner.wf(),
                old(interner).kept_by(interner),
                can_assign == (precedence.level_spec() <= Precedence::Assignment.level_spec()),
                whole == t_parse_precedence(old(self).draft(old(interner)@), precedence, numbers@),
                old(self).ok() ==> if self.ok() {
                    whole == t_finish(
                        t_operators(self.draft(interner@), precedence, numbers@),
                        can_assign,
                    )
                } else {
                    whole is None
                },
            decreases self.parser.left(),
        {
            let ghost second = *self;
            let ghost second_interner = *interner;
            self.advance(Ghost(interner@));
            let ghost third = *self;
            let infix_rule = get_rule(self.parser.previous.typ).infix;
            match infix_rule {
                Some(rule) => self.apply_infix(rule, interner, numbers),
                None => {
                    self.parser.error_at_previous("Expect expression");
                    proof {
                        lemma_follows_trans(*old(self), second, *self);
                        assert(ended(&third.parser, &self.parser, precedence));
                    }
                    return;
                },
            }
            proof {
                lemma_follows_trans(second, third, *self);
                lemma_follows_trans(*old(self), second, *self);
                crate::vm::lemma_kept_trans(*old(interner), second_interner, *interner);
            }
        }
        let ghost last = *self;
        if can_assign && self.match_tt(TokenType::Equal, Ghost(interner@)) {
            let ghost second = *self;
            self.parser.error_at_current("Invalid assignment target");
            proof {
                lemma_follows_trans(*old(self), second, *self);
                assert(second.parser.advanced(&last.parser));
            }
        }
        assert(ended(&last.parser, &self.parser, precedence));
    }
}

/// Whether parser `after` is what the end of an expression makes of
/// parser `before`. An expression ends in one of three ways. Where a
/// token cannot start or continue an expression, the error "Expect
/// expression" is reported at the token that was taken last. Where an
/// assignment may stand, at a precedence up to that of assignment, and
/// `=` follows an expression that is no variable, the `=` is taken and
/// the error "Invalid assignment target" is reported at the token behind
/// it. Else nothing happens.
pub open spec fn ended(before: &Parser, after: &Parser, precedence: Precedence) -> bool {
    let can_assign = precedence.level_spec() <= Precedence::Assignment.level_spec();
    ||| after.reported(before, before.previous, "Expect expression"@)
    ||| can_assign && before.current.typ == TokenType::Equal && exists|taken: Parser|
        #[trigger] taken.advanced(before) && after.reported(
            &taken,
            taken.current,
            "Invalid assignment target"@,
        )
    ||| !(can_assign && before.current.typ == TokenType::Equal) && *after == *before
}

} // verus!
