use crate::common::Opcode;
use crate::compiler::{lemma_follows_trans, lemma_scope_closed, Compiler};
use crate::interner::Interner;
use crate::number::Numeral;
use crate::scanner::{Token, TokenType};
use crate::translation::{
    t_block, t_declaration, t_expression_statement, t_parse_variable, t_print_statement,
    t_scoped_block, t_statement, t_var_declaration,
};
use vstd::prelude::*;

verus! {

impl Compiler {
    /// What a statement's code does to a compiler: the code grew by it, the
    /// locals are as before, as many locals were popped as were declared,
    /// and unless an error was reported the stack is as high at its end as
    /// at its start.
    pub open spec fn compiled_statement(&self, earlier: &Compiler) -> bool {
        &&& self.wf()
        &&& self.settled()
        &&& self.follows(earlier)
        &&& self.locals@ == earlier.locals@
        &&& self.declared@ - earlier.declared@ == self.popped@ - earlier.popped@
        &&& self.ok() ==> self.height() == earlier.height()
    }

    /// What the code of declarations does to a compiler: the code grew by
    /// it, the locals that they declared in the open scope were added, and
    /// unless an error was reported the stack is higher by one value for
    /// each of these locals.
    pub open spec fn compiled_declarations(&self, earlier: &Compiler) -> bool {
        &&& self.wf()
        &&& self.settled()
        &&& self.follows(earlier)
        &&& earlier.locals@.len() <= self.locals@.len()
        &&& forall|i: int|
            0 <= i < earlier.locals@.len() ==> #[trigger] self.locals@[i] == earlier.locals@[i]
        &&& forall|i: int|
            earlier.locals@.len() <= i < self.locals@.len() ==> (#[trigger] self.locals@[i]).depth
                == self.scope_depth
        &&& self.declared@ - earlier.declared@ == self.popped@ - earlier.popped@ + (
        self.locals@.len() - earlier.locals@.len())
        &&& self.ok() ==> self.height() - earlier.height() == self.locals@.len()
            - earlier.locals@.len()
    }

    /// Takes the name of a variable that is being declared, and declares
    /// it as a local if it is one. Returns the index of the constant with a
    /// global's name (0 for a local), and whether `[` follows the name.
    pub(crate) fn parse_variable(&mut self, error_message: &str, interner: &mut Interner) -> (r: (u8, bool))
        requires
            old(self).wf(),
            old(self).settled(),
            old(interner).wf(),
        ensures
            final(self).wf(),
            final(self).follows(old(self)),
            final(self).emitter.chunk.code == old(self).emitter.chunk.code,
            final(self).height() == old(self).height(),
            final(self).emitter.free == old(self).emitter.free,
            final(self).popped == old(self).popped,
            final(interner).wf(),
            old(interner).kept_by(final(interner)),
            final(self).ok() && !(old(self).scope_depth > 0 || r.1) ==> r.0 < final(self).emitter.chunk.constants@.len() && final(self).emitter.chunk.constants@[r.0 as int]
                is Identifier,
            if old(self).scope_depth > 0 || r.1 {
                &&& final(self).locals@.len() == old(self).locals@.len() + 1
                &&& final(self).locals@.last().depth == -1
                &&& final(self).declared@ == old(self).declared@ + 1
                &&& forall|i: int|
                    0 <= i < old(self).locals@.len() ==> #[trigger] final(self).locals@[i] == old(self).locals@[i]
            } else {
                &&& final(self).locals@ == old(self).locals@
                &&& final(self).declared == old(self).declared
            },
            old(self).ok() ==> match t_parse_variable(old(self).draft(old(interner)@)) {
                Some(variable) => final(self).ok() && final(self).draft(final(interner)@)
                    == variable.draft && r.0 == variable.global && r.1 == variable.is_array,
                None => !final(self).ok(),
            },
    {
        self.consume(TokenType::Identifier, error_message, Ghost(interner@));
        let array_name: Token = self.parser.previous.clone();
        let is_array = self.match_tt(TokenType::LeftBracket, Ghost(interner@));
        let ghost first = *self;
        if is_array {
            self.declare_local_variable(Some(array_name));
        } else {
            self.declare_local_variable(None);
        }
        let ghost second = *self;
        proof {
            lemma_follows_trans(*old(self), first, second);
        }
        if self.scope_depth > 0 || is_array {
            return (0, is_array);
        }
        let previous = self.parser.previous.clone();
        let index = self.identifier_constant(&previous, interner);
        proof {
            lemma_follows_trans(*old(self), second, *self);
        }
        (index, false)
    }

    /// Compiles the declaration of a variable, after `var`: a name, then
    /// the size of an array in brackets, or `=` and an initialiser, or
    /// neither, and `;`.
    #[verifier::rlimit(100)]
    pub(crate) fn var_declaration(&mut self, interner: &mut Interner, numbers: &Vec<Numeral>)
        requires
            old(self).wf(),
            old(self).settled(),
            old(interner).wf(),
        ensures
            final(self).compiled_declarations(old(self)),
            final(self).locals@.len() <= old(self).locals@.len() + 1,
            final(interner).wf(),
            old(interner).kept_by(final(interner)),
            final(self).translated(
                final(interner)@,
                old(self).ok(),
                t_var_declaration(old(self).draft(old(interner)@), numbers@),
            ),
        decreases old(self).parser.left(), 3int,
    {
        let (global, is_array) = self.parse_variable("Expect variable name", interner);
        let ghost first = *self;
        if is_array {
            self.expression(interner, numbers);
            let ghost second = *self;
            self.emit_op(Opcode::DeclareArray);
            let ghost third = *self;
            self.consume(TokenType::RightBracket, "Expect ']' after array size", Ghost(interner@));
            proof {
                lemma_follows_trans(second, third, *self);
                lemma_follows_trans(first, second, *self);
            }
        } else if self.match_tt(TokenType::Equal, Ghost(interner@)) {
            let ghost second = *self;
            self.expression(interner, numbers);
            proof {
                lemma_follows_trans(first, second, *self);
            }
        } else {
            self.emit_op(Opcode::Nil);
        }
        let ghost fourth = *self;
        self.consume(
            TokenType::Semicolon,
            "Expect ';' after variable declaration",
            Ghost(interner@),
        );
        let ghost fifth = *self;
        self.define_variable(global, is_array);
        proof {
            lemma_follows_trans(fourth, fifth, *self);
            lemma_follows_trans(first, fourth, *self);
            lemma_follows_trans(*old(self), first, *self);
            assert forall|i: int| 0 <= i < old(self).locals@.len() implies #[trigger] self.locals@[i]
                == old(self).locals@[i] by {
                assert(first.locals@[i] == old(self).locals@[i]);
                assert(fifth.locals@[i] == first.locals@[i]);
            }
        }
    }

    /// Compiles an expression statement: the expression, `;`, and a `POP`
    /// that drops its value.
    pub(crate) fn expression_statement(&mut self, interner: &mut Interner, numbers: &Vec<Numeral>)
        requires
            old(self).wf(),
            old(self).settled(),
            old(interner).wf(),
        ensures
            final(self).compiled_statement(old(self)),
            old(self).parser.current.typ != TokenType::EOF ==> final(self).parser.left() < old(self).parser.left(),
            final(interner).wf(),
            old(interner).kept_by(final(interner)),
            final(self).translated(
                final(interner)@,
                old(self).ok(),
                t_expression_statement(old(self).draft(old(interner)@), numbers@),
            ),
        decreases old(self).parser.left(), 3int,
    {
        self.expression(interner, numbers);
        let ghost first = *self;
        self.consume(TokenType::Semicolon, "Expect ';' after expression", Ghost(interner@));
        let ghost second = *self;
        self.emit_op(Opcode::Pop);
        proof {
            lemma_follows_trans(first, second, *self);
            lemma_follows_trans(*old(self), first, *self);
        }
    }

    /// Compiles a print statement, after `print`: the expression, `;`, and
    /// `PRINT`.
    pub(crate) fn print_statement(&mut self, interner: &mut Interner, numbers: &Vec<Numeral>)
        requires
            old(self).wf(),
            old(self).settled(),
            old(interner).wf(),
        ensures
            final(self).compiled_statement(old(self)),
            final(interner).wf(),
            old(interner).kept_by(final(interner)),
            final(self).translated(
                final(interner)@,
                old(self).ok(),
                t_print_statement(old(self).draft(old(interner)@), numbers@),
            ),
        decreases old(self).parser.left(), 3int,
    {
        self.expression(interner, numbers);
        let ghost first = *self;
        self.consume(TokenType::Semicolon, "Expect ';' after expression", Ghost(interner@));
        let ghost second = *self;
        self.emit_op(Opcode::Print);
        proof {
            lemma_follows_trans(first, second, *self);
            lemma_follows_trans(*old(self), first, *self);
        }
    }

    /// Compiles the declarations of a block up to its `}`.
    pub(crate) fn block(&mut self, interner: &mut Interner, numbers: &Vec<Numeral>)
        requires
            old(self).wf(),
            old(self).settled(),
            old(interner).wf(),
        ensures
            final(self).compiled_declarations(old(self)),
            final(interner).wf(),
            old(interner).kept_by(final(interner)),
            final(self).translated(
                final(interner)@,
                old(self).ok(),
                t_block(old(self).draft(old(interner)@), numbers@),
            ),
        decreases old(self).parser.left(), 6int,
    {
        while !self.parser.check_tt(TokenType::RightBrace) && !self.parser.check_tt(TokenType::EOF)
            invariant
                self.compiled_declarations(old(self)),
                interner.wf(),
                old(interner).kept_by(interner),
                old(self).ok() ==> if self.ok() {
                    t_block(old(self).draft(old(interner)@), numbers@) == t_block(
                        self.draft(interner@),
                        numbers@,
                    )
                } else {
                    t_block(old(self).draft(old(interner)@), numbers@) is None
                },
            decreases self.parser.left(),
        {
            let ghost first = *self;
            let ghost first_interner = *interner;
            self.declaration(interner, numbers);
            proof {
                crate::vm::lemma_kept_trans(*old(interner), first_interner, *interner);
                lemma_follows_trans(*old(self), first, *self);
                assert forall|i: int| 0 <= i < old(self).locals@.len() implies #[trigger] self.locals@[i]
                    == old(self).locals@[i] by {
                    assert(first.locals@[i] == old(self).locals@[i]);
                }
                assert forall|i: int|
                    old(self).locals@.len() <= i < self.locals@.len() implies (
                #[trigger] self.locals@[i]).depth == self.scope_depth by {
                    if i < first.locals@.len() {
                        assert(self.locals@[i] == first.locals@[i]);
                    }
                }
            }
        }
        let ghost second = *self;
        self.consume(TokenType::RightBrace, "Expect '}' after block", Ghost(interner@));
        proof {
            lemma_follows_trans(*old(self), second, *self);
        }
    }

    /// Compiles a declaration: of a variable after `var`, or else a
    /// statement. After an error it drops tokens up to where a statement
    /// may start.
    pub(crate) fn declaration(&mut self, interner: &mut Interner, numbers: &Vec<Numeral>)
        requires
            old(self).wf(),
            old(self).settled(),
            old(interner).wf(),
        ensures
            final(self).compiled_declarations(old(self)),
            final(self).locals@.len() <= old(self).locals@.len() + 1,
            old(self).parser.current.typ != TokenType::EOF ==> final(self).parser.left() < old(self).parser.left(),
            final(interner).wf(),
            old(interner).kept_by(final(interner)),
            final(self).translated(
                final(interner)@,
                old(self).ok(),
                t_declaration(old(self).draft(old(interner)@), numbers@),
            ),
        decreases old(self).parser.left(), 5int,
    {
        if self.match_tt(TokenType::Var, Ghost(interner@)) {
            let ghost first = *self;
            self.var_declaration(interner, numbers);
            proof {
                lemma_follows_trans(*old(self), first, *self);
            }
        } else {
            self.statement(interner, numbers);
        }
        if self.parser.panic_mode {
            let ghost second = *self;
            self.parser.synchronize();
            proof {
                lemma_follows_trans(*old(self), second, *self);
            }
        }
    }

    /// Compiles a statement: `print`, `if`, `while`, `for`, a block in
    /// braces, or an expression statement.
    pub(crate) fn statement(&mut self, interner: &mut Interner, numbers: &Vec<Numeral>)
        requires
            old(self).wf(),
            old(self).settled(),
            old(interner).wf(),
        ensures
            final(self).compiled_statement(old(self)),
            old(self).parser.current.typ != TokenType::EOF ==> final(self).parser.left() < old(self).parser.left(),
            final(interner).wf(),
            old(interner).kept_by(final(interner)),
            final(self).translated(
                final(interner)@,
                old(self).ok(),
                t_statement(old(self).draft(old(interner)@), numbers@),
            ),
        decreases old(self).parser.left(), 4int,
    {
        if self.match_tt(TokenType::Print, Ghost(interner@)) {
            let ghost first = *self;
            self.print_statement(interner, numbers);
            proof {
                lemma_follows_trans(*old(self), first, *self);
            }
        } else if self.match_tt(TokenType::If, Ghost(interner@)) {
            let ghost first = *self;
            self.if_statement(interner, numbers);
            proof {
                lemma_follows_trans(*old(self), first, *self);
            }
        } else if self.match_tt(TokenType::While, Ghost(interner@)) {
            let ghost first = *self;
            self.while_statement(interner, numbers);
            proof {
                lemma_follows_trans(*old(self), first, *self);
            }
        } else if self.match_tt(TokenType::For, Ghost(interner@)) {
            let ghost first = *self;
            self.for_statement(interner, numbers);
            proof {
                lemma_follows_trans(*old(self), first, *self);
            }
        } else if self.match_tt(TokenType::LeftBrace, Ghost(interner@)) {
            let ghost first = *self;
            self.scoped_block(interner, numbers);
            proof {
                lemma_follows_trans(*old(self), first, *self);
            }
        } else {
            self.expression_statement(interner, numbers);
        }
    }

    /// Compiles a block in a scope of its own, after the `{`: when the
    /// block ends, one `POP` is emitted for each local that it declared.
    pub(crate) fn scoped_block(&mut self, interner: &mut Interner, numbers: &Vec<Numeral>)
        requires
            old(self).wf(),
            old(self).settled(),
            old(self).scope_depth + old(self).parser.left() < isize::MAX,
            old(interner).wf(),
        ensures
            final(self).compiled_statement(old(self)),
            final(interner).wf(),
            old(interner).kept_by(final(interner)),
            final(self).translated(
                final(interner)@,
                old(self).ok(),
                t_scoped_block(old(self).draft(old(interner)@), numbers@),
            ),
        decreases old(self).parser.left(), 7int,
    {
        self.begin_scope();
        let ghost first = *self;
        self.block(interner, numbers);
        let ghost second = *self;
        self.end_scope();
        proof {
            lemma_scope_closed(*old(self), first, second, *self);
        }
    }
}

} // verus!
