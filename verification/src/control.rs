use crate::common::Opcode;
use crate::compiler::{
    lemma_follows_trans, lemma_grew_trans, lemma_parser_follows_trans, lemma_patch_grew,
    lemma_scope_closed, Compiler,
};
use crate::interner::Interner;
use crate::number::Numeral;
use crate::scanner::TokenType;
use crate::translation::{
    t_consume, within, Draft, t_for_clauses, t_for_condition, t_for_increment, t_for_initializer,
    t_for_statement, t_guarded, t_if_statement, t_while_statement, LoopHead,
};
use vstd::prelude::*;

verus! {

impl Compiler {
    /// What a condition and the statement that it guards do to a compiler:
    /// the code grew by them, and of the jumps in it only the one for a
    /// condition that is false (its operand is at `jump`) waits for its
    /// target. The locals are as before, and as many locals were popped as
    /// were declared. Unless an error was reported, the stack is as high
    /// as before, and one higher where the jump is taken.
    pub open spec fn guarded(&self, earlier: &Compiler, jump: usize) -> bool {
        &&& self.wf()
        &&& self.settled()
        &&& earlier.emitter.grew_into(&self.emitter)
        &&& self.parser.follows(&earlier.parser)
        &&& self.scope_depth == earlier.scope_depth
        &&& self.locals@ == earlier.locals@
        &&& earlier.declared@ <= self.declared@
        &&& earlier.popped@ <= self.popped@
        &&& self.declared@ - earlier.declared@ == self.popped@ - earlier.popped@
        &&& earlier.emitter.len() < jump
        &&& jump + 2 <= self.emitter.len()
        &&& !earlier.emitter.pending@.contains(jump - 1)
        &&& self.emitter.pending@ == earlier.emitter.pending@.insert(jump - 1)
        &&& self.ok() ==> {
            &&& self.height() == earlier.height()
            &&& self.emitter.heights@.contains_key(jump - 1)
            &&& self.emitter.heights@[jump - 1] == earlier.height() + 1
        }
    }

    /// Compiles a condition in parentheses and the statement that it
    /// guards: the condition, a jump for a condition that is false, a
    /// `POP` that drops the condition, and the statement. Returns the
    /// offset of the jump's operand.
    #[verifier::rlimit(100)]
    pub(crate) fn guarded_statement(
        &mut self,
        open_message: &str,
        close_message: &str,
        interner: &mut Interner,
        numbers: &Vec<Numeral>,
    ) -> (jump: usize)
        requires
            old(self).wf(),
            old(self).settled(),
            old(interner).wf(),
        ensures
            final(self).guarded(old(self), jump),
            final(interner).wf(),
            old(interner).kept_by(final(interner)),
            old(self).ok() ==> match t_guarded(old(self).draft(old(interner)@), numbers@) {
                Some(guarded) => final(self).ok() && final(self).draft(final(interner)@)
                    == guarded.draft && guarded.jump == jump,
                None => !final(self).ok(),
            },
        decreases old(self).parser.left(), 5int,
    {
        self.consume(TokenType::LeftParen, open_message, Ghost(interner@));
        let ghost s1 = *self;
        self.expression(interner, numbers);
        let ghost s2 = *self;
        let ghost i2 = *interner;
        self.consume(TokenType::RightParen, close_message, Ghost(interner@));
        let ghost s3 = *self;
        proof {
            lemma_follows_trans(s1, s2, s3);
            lemma_follows_trans(*old(self), s1, s3);
        }
        let jump = self.emit_jump(Opcode::JumpIfFalse);
        let ghost s4 = *self;
        self.emit_op(Opcode::Pop);
        let ghost s5 = *self;
        self.statement(interner, numbers);
        proof {
            lemma_follows_trans(s4, s5, *self);
            lemma_grew_trans(s3.emitter, s4.emitter, self.emitter);
            lemma_grew_trans(old(self).emitter, s3.emitter, self.emitter);
            lemma_parser_follows_trans(old(self).parser, s3.parser, s5.parser);
            lemma_parser_follows_trans(old(self).parser, s5.parser, self.parser);
            crate::vm::lemma_kept_trans(*old(interner), i2, *interner);
        }
        jump
    }

    /// Compiles an `if` statement, after `if`: the condition in
    /// parentheses, the statement for a condition that is not false, and
    /// after `else` the statement for one that is.
    #[verifier::rlimit(100)]
    pub(crate) fn if_statement(&mut self, interner: &mut Interner, numbers: &Vec<Numeral>)
        requires
            old(self).wf(),
            old(self).settled(),
            old(interner).wf(),
        ensures
            final(self).compiled_statement(old(self)),
            final(interner).wf(),
            old(interner).kept_by(final(interner)),
            final(self).translated(
                final(interner)@,
                old(self).ok(),
                t_if_statement(old(self).draft(old(interner)@), numbers@),
            ),
        decreases old(self).parser.left(), 6int,
    {
        let then_jump = self.guarded_statement(
            "Expect '(' after 'if'",
            "Expect ')' after condition",
            interner,
            numbers,
        );
        let ghost s6 = *self;
        let ghost i6 = *interner;
        let else_jump = self.emit_jump(Opcode::Jump);
        let ghost s7 = *self;
        proof {
            lemma_grew_trans(old(self).emitter, s6.emitter, s7.emitter);
        }
        self.patch_jump(then_jump);
        let ghost s8 = *self;
        proof {
            lemma_patch_grew(old(self).emitter, s7.emitter, s8.emitter, then_jump as int);
        }
        self.emit_op(Opcode::Pop);
        let ghost s9 = *self;
        proof {
            lemma_grew_trans(old(self).emitter, s8.emitter, s9.emitter);
        }
        if self.match_tt(TokenType::Else, Ghost(interner@)) {
            let ghost s10 = *self;
            self.statement(interner, numbers);
            proof {
                lemma_follows_trans(s9, s10, *self);
                crate::vm::lemma_kept_trans(*old(interner), i6, *interner);
            }
        }
        let ghost s11 = *self;
        proof {
            lemma_grew_trans(old(self).emitter, s9.emitter, s11.emitter);
            lemma_parser_follows_trans(old(self).parser, s6.parser, s9.parser);
            lemma_parser_follows_trans(old(self).parser, s9.parser, s11.parser);
        }
        self.patch_jump(else_jump);
        proof {
            lemma_patch_grew(old(self).emitter, s11.emitter, self.emitter, else_jump as int);
            lemma_parser_follows_trans(old(self).parser, s11.parser, self.parser);
            assert(self.emitter.pending@ =~= old(self).emitter.pending@);
        }
    }

    /// Compiles a `while` statement, after `while`: the condition in
    /// parentheses and the statement that is repeated while the condition
    /// is not false.
    pub(crate) fn while_statement(&mut self, interner: &mut Interner, numbers: &Vec<Numeral>)
        requires
            old(self).wf(),
            old(self).settled(),
            old(interner).wf(),
        ensures
            final(self).compiled_statement(old(self)),
            final(interner).wf(),
            old(interner).kept_by(final(interner)),
            final(self).translated(
                final(interner)@,
                old(self).ok(),
                t_while_statement(old(self).draft(old(interner)@), numbers@),
            ),
        decreases old(self).parser.left(), 6int,
    {
        let loop_start = self.emitter.offset();
        let exit_jump = self.guarded_statement(
            "Expect '(' after 'while'",
            "Expect ')' after condition",
            interner,
            numbers,
        );
        let ghost s6 = *self;
        self.emit_loop(loop_start);
        let ghost s7 = *self;
        proof {
            lemma_grew_trans(old(self).emitter, s6.emitter, s7.emitter);
        }
        self.patch_jump(exit_jump);
        let ghost s8 = *self;
        proof {
            lemma_patch_grew(old(self).emitter, s7.emitter, s8.emitter, exit_jump as int);
        }
        self.emit_op(Opcode::Pop);
        proof {
            lemma_grew_trans(old(self).emitter, s8.emitter, self.emitter);
            lemma_parser_follows_trans(old(self).parser, s6.parser, s7.parser);
            lemma_parser_follows_trans(old(self).parser, s7.parser, s8.parser);
            assert(self.emitter.pending@ =~= old(self).emitter.pending@);
        }
    }

    /// What the clauses of a `for` loop do to a compiler: the code grew by
    /// them, and of the jumps in it only the one that leaves the loop
    /// (its operand is at `exit`) waits for its target. Unless an error
    /// was reported, the stack is as high as before, one higher where the
    /// loop is left, and as high as before where the loop starts again, at
    /// `loop_start`.
    pub open spec fn looped(&self, earlier: &Compiler, exit: Option<usize>, loop_start: int)
        -> bool {
        &&& self.wf()
        &&& earlier.emitter.grew_into(&self.emitter)
        &&& self.parser.follows(&earlier.parser)
        &&& self.scope_depth == earlier.scope_depth
        &&& self.locals@ == earlier.locals@
        &&& self.declared == earlier.declared
        &&& self.popped == earlier.popped
        &&& match exit {
            Some(jump) => {
                &&& earlier.emitter.len() < jump
                &&& jump + 2 <= self.emitter.len()
                &&& !earlier.emitter.pending@.contains(jump - 1)
                &&& self.emitter.pending@ == earlier.emitter.pending@.insert(jump - 1)
            },
            None => self.emitter.pending@ == earlier.emitter.pending@,
        }
        &&& earlier.emitter.len() <= loop_start <= self.emitter.len()
        &&& self.ok() ==> {
            &&& self.height() == earlier.height()
            &&& exit is Some ==> self.emitter.heights@.contains_key(exit.unwrap() - 1)
                && self.emitter.heights@[exit.unwrap() - 1] == earlier.height() + 1
            &&& loop_start == self.emitter.len() || (self.emitter.heights@.contains_key(
                loop_start,
            ) && self.emitter.heights@[loop_start] == earlier.height())
        }
    }

    /// Compiles the condition of a `for` loop and its `;`: the condition,
    /// a jump out of the loop if it is false, and a `POP` that drops it.
    /// Returns the offset of the jump's operand, or `None` if the loop has
    /// no condition.
    pub(crate) fn for_condition(&mut self, interner: &mut Interner, numbers: &Vec<Numeral>) -> (exit: Option<
        usize,
    >)
        requires
            old(self).wf(),
            old(interner).wf(),
        ensures
            final(self).looped(old(self), exit, old(self).emitter.len()),
            final(interner).wf(),
            old(interner).kept_by(final(interner)),
            old(self).ok() ==> match t_for_condition(old(self).draft(old(interner)@), numbers@) {
                Some(head) => final(self).ok() && final(self).draft(final(interner)@) == head.draft
                    && head.exit == (match exit {
                    Some(jump) => Some(jump as int),
                    None => None,
                }),
                None => !final(self).ok(),
            },
        decreases old(self).parser.left(), 3int,
    {
        if !self.match_tt(TokenType::Semicolon, Ghost(interner@)) {
            let ghost s1 = *self;
            self.expression(interner, numbers);
            let ghost s2 = *self;
            self.consume(
                TokenType::Semicolon,
                "Expect ';' after loop condition",
                Ghost(interner@),
            );
            let ghost s3 = *self;
            proof {
                lemma_follows_trans(s1, s2, s3);
            }
            let jump = self.emit_jump(Opcode::JumpIfFalse);
            let ghost s4 = *self;
            self.emit_op(Opcode::Pop);
            proof {
                lemma_grew_trans(s3.emitter, s4.emitter, self.emitter);
                lemma_grew_trans(s1.emitter, s3.emitter, self.emitter);
            }
            Some(jump)
        } else {
            None
        }
    }

    /// Compiles the increment of a `for` loop and the `)`: a jump over the
    /// increment to the body, the increment with a `POP` that drops its
    /// value, and a loop back to `loop_start`. Returns where the loop
    /// starts again after its body: at the increment, or at `loop_start`
    /// if there is none.
    pub(crate) fn for_increment(
        &mut self,
        loop_start: usize,
        Ghost(base): Ghost<Compiler>,
        Ghost(exit): Ghost<Option<usize>>,
        interner: &mut Interner,
        numbers: &Vec<Numeral>,
    ) -> (next_start: usize)
        requires
            old(self).looped(&base, exit, loop_start as int),
            old(interner).wf(),
        ensures
            !old(self).ok() ==> !final(self).ok(),
            final(self).looped(&base, exit, next_start as int),
            final(interner).wf(),
            old(interner).kept_by(final(interner)),
            old(self).ok() ==> match t_for_increment(
                LoopHead {
                    draft: old(self).draft(old(interner)@),
                    exit: match exit {
                        Some(jump) => Some(jump as int),
                        None => None,
                    },
                    start: loop_start as int,
                },
                numbers@,
            ) {
                Some(head) => final(self).ok() && final(self).draft(final(interner)@) == head.draft
                    && head.start == next_start && head.exit == (match exit {
                    Some(jump) => Some(jump as int),
                    None => None,
                }),
                None => !final(self).ok(),
            },
        decreases old(self).parser.left(), 3int,
    {
        if !self.match_tt(TokenType::RightParen, Ghost(interner@)) {
            let ghost s1 = *self;
            let body_jump = self.emit_jump(Opcode::Jump);
            let ghost s2 = *self;
            let increment_start = self.emitter.offset();
            self.expression(interner, numbers);
            let ghost s3 = *self;
            self.emit_op(Opcode::Pop);
            let ghost s4 = *self;
            self.consume(TokenType::RightParen, "Expect ')' after for clauses", Ghost(interner@));
            let ghost s5 = *self;
            proof {
                lemma_follows_trans(s3, s4, s5);
                lemma_follows_trans(s2, s3, s5);
                lemma_grew_trans(s1.emitter, s2.emitter, s5.emitter);
                lemma_grew_trans(base.emitter, s1.emitter, s5.emitter);
            }
            self.emit_loop(loop_start);
            let ghost s6 = *self;
            proof {
                lemma_grew_trans(base.emitter, s5.emitter, s6.emitter);
                lemma_grew_trans(s2.emitter, s5.emitter, s6.emitter);
            }
            self.patch_jump(body_jump);
            proof {
                lemma_patch_grew(base.emitter, s6.emitter, self.emitter, body_jump as int);
                lemma_grew_trans(s1.emitter, s5.emitter, s6.emitter);
                lemma_patch_grew(s1.emitter, s6.emitter, self.emitter, body_jump as int);
                lemma_grew_trans(s3.emitter, s4.emitter, s5.emitter);
                lemma_grew_trans(s3.emitter, s5.emitter, s6.emitter);
                assert(self.emitter.pending@ =~= s1.emitter.pending@);
                assert(base.emitter.grew_into(&self.emitter));
                lemma_parser_follows_trans(base.parser, old(self).parser, s1.parser);
                lemma_parser_follows_trans(base.parser, s1.parser, s5.parser);
                lemma_parser_follows_trans(base.parser, s5.parser, s6.parser);
                lemma_parser_follows_trans(base.parser, s6.parser, self.parser);
                assert(self.parser.follows(&base.parser));
                assert(self.locals@ == base.locals@);
                assert(self.ok() ==> self.height() == base.height());
                assert(self.ok() ==> self.emitter.heights@.contains_key(increment_start as int)
                    && self.emitter.heights@[increment_start as int] == base.height());
                assert(self.ok() && exit is Some ==> self.emitter.heights@.contains_key(
                    exit.unwrap() - 1,
                ) && self.emitter.heights@[exit.unwrap() - 1] == base.height() + 1);
            }
            increment_start
        } else {
            proof {
                lemma_parser_follows_trans(base.parser, old(self).parser, self.parser);
            }
            loop_start
        }
    }

    /// Compiles the initialiser of a `for` loop, after the `(`: the
    /// declaration of a variable, an expression statement, or nothing but
    /// the `;`.
    pub(crate) fn for_initializer(&mut self, interner: &mut Interner, numbers: &Vec<Numeral>)
        requires
            old(self).wf(),
            old(self).settled(),
            old(interner).wf(),
        ensures
            final(self).compiled_declarations(old(self)),
            final(self).locals@.len() <= old(self).locals@.len() + 1,
            final(interner).wf(),
            old(interner).kept_by(final(interner)),
            final(self).translated(
                final(interner)@,
                old(self).ok(),
                t_for_initializer(old(self).draft(old(interner)@), numbers@),
            ),
        decreases old(self).parser.left(), 4int,
    {
        if self.match_tt(TokenType::Semicolon, Ghost(interner@)) {
            // No initialiser.
        } else if self.match_tt(TokenType::Var, Ghost(interner@)) {
            let ghost taken = *self;
            self.var_declaration(interner, numbers);
            proof {
                lemma_follows_trans(*old(self), taken, *self);
            }
        } else {
            self.expression_statement(interner, numbers);
        }
    }

    /// Compiles the clauses of a `for` statement in parentheses, after
    /// `for`, in a scope of their own. Returns the offset of the operand of
    /// the jump that leaves the loop, if the loop has a condition, and
    /// where the loop starts again after its body.
    pub(crate) fn for_clauses(&mut self, interner: &mut Interner, numbers: &Vec<Numeral>) -> (r: (
        Option<usize>,
        usize,
        Ghost<Compiler>,
        Ghost<Compiler>,
    ))
        requires
            old(self).wf(),
            old(self).settled(),
            old(self).scope_depth + old(self).parser.left() < isize::MAX,
            old(interner).wf(),
        ensures
            final(interner).wf(),
            old(interner).kept_by(final(interner)),
            r.2@.scope_depth == old(self).scope_depth + 1,
            r.2@.emitter == old(self).emitter,
            r.2@.parser == old(self).parser,
            r.2@.locals == old(self).locals,
            r.2@.declared == old(self).declared,
            r.2@.popped == old(self).popped,
            r.3@.compiled_declarations(&r.2@),
            final(self).looped(&r.3@, r.0, r.1 as int),
            final(self).parser.left() <= old(self).parser.left(),
            old(self).ok() ==> match t_for_clauses(old(self).draft(old(interner)@), numbers@) {
                Some(head) => final(self).ok() && final(self).draft(final(interner)@) == head.draft
                    && head.start == r.1 && head.exit == (match r.0 {
                    Some(jump) => Some(jump as int),
                    None => None,
                }),
                None => !final(self).ok(),
            },
        decreases old(self).parser.left(), 5int,
    {
        proof {
            reveal(t_for_clauses);
        }
        self.begin_scope();
        let ghost opened = *self;
        self.consume(TokenType::LeftParen, "Expect '(' after for", Ghost(interner@));
        let ghost s1 = *self;
        let ghost i1 = *interner;
        self.for_initializer(interner, numbers);
        let ghost s2 = *self;
        let ghost i2 = *interner;
        proof {
            lemma_follows_trans(opened, s1, s2);
        }
        let first_start = self.emitter.offset();
        let exit_jump = self.for_condition(interner, numbers);
        let ghost i3 = *interner;
        let ghost s3 = *self;
        let loop_start = self.for_increment(
            first_start,
            Ghost(s2),
            Ghost(exit_jump),
            interner,
            numbers,
        );
        proof {
            crate::vm::lemma_kept_trans(*old(interner), i2, i3);
            crate::vm::lemma_kept_trans(*old(interner), i3, *interner);
            if old(self).ok() {
                let d = old(self).draft(old(interner)@);
                let bound = d.left() as int;
                let scoped = Draft { scope_depth: d.scope_depth + 1, ..d };
                assert(opened.draft(old(interner)@) == scoped);
                let consumed = t_consume(scoped, TokenType::LeftParen);
                if consumed is Some {
                    assert(s1.ok() && s1.draft(i1@) == consumed.unwrap());
                    assert(within(consumed, bound) == consumed);
                    let initialised = t_for_initializer(consumed.unwrap(), numbers@);
                    if initialised is Some {
                        assert(s2.ok() && s2.draft(i2@) == initialised.unwrap());
                        assert(within(initialised, bound) == initialised);
                        let head = t_for_condition(initialised.unwrap(), numbers@);
                        if head is Some {
                            assert(s3.ok() && s3.draft(i3@) == head.unwrap().draft);
                            assert(head.unwrap().start == first_start);
                            assert(within(Some(head.unwrap().draft), bound) is Some);
                            assert(head.unwrap() == (LoopHead {
                                draft: s3.draft(i3@),
                                exit: match exit_jump {
                                    Some(jump) => Some(jump as int),
                                    None => None,
                                },
                                start: first_start as int,
                            }));
                            assert(t_for_clauses(d, numbers@) == t_for_increment(
                                head.unwrap(),
                                numbers@,
                            ));
                        } else {
                            assert(!s3.ok());
                            assert(t_for_clauses(d, numbers@) is None);
                        }
                    } else {
                        assert(!s2.ok());
                        assert(t_for_clauses(d, numbers@) is None);
                    }
                } else {
                    assert(!s1.ok());
                    assert(t_for_clauses(d, numbers@) is None);
                }
            }
        }
        (exit_jump, loop_start, Ghost(opened), Ghost(s2))
    }

    /// Compiles a `for` statement, after `for`, in a scope of its own: in
    /// parentheses an initialiser, a condition and an increment, each of
    /// which may be missing, and then the statement that is repeated.
    pub(crate) fn for_statement(&mut self, interner: &mut Interner, numbers: &Vec<Numeral>)
        requires
            old(self).wf(),
            old(self).settled(),
            old(self).scope_depth + old(self).parser.left() < isize::MAX,
            old(interner).wf(),
        ensures
            final(self).compiled_statement(old(self)),
            final(interner).wf(),
            old(interner).kept_by(final(interner)),
            final(self).translated(
                final(interner)@,
                old(self).ok(),
                t_for_statement(old(self).draft(old(interner)@), numbers@),
            ),
        decreases old(self).parser.left(), 6int,
    {
        let (exit_jump, loop_start, Ghost(opened), Ghost(s2)) = self.for_clauses(interner, numbers);
        let ghost s4 = *self;
        let ghost i4 = *interner;
        self.statement(interner, numbers);
        let ghost s5 = *self;
        proof {
            lemma_grew_trans(s2.emitter, s4.emitter, s5.emitter);
            crate::vm::lemma_kept_trans(*old(interner), i4, *interner);
        }
        self.emit_loop(loop_start);
        let ghost s6 = *self;
        proof {
            lemma_grew_trans(s2.emitter, s5.emitter, s6.emitter);
        }
        match exit_jump {
            Some(jump) => {
                self.patch_jump(jump);
                let ghost s7 = *self;
                proof {
                    lemma_patch_grew(s2.emitter, s6.emitter, s7.emitter, jump as int);
                }
                self.emit_op(Opcode::Pop);
                proof {
                    lemma_grew_trans(s2.emitter, s7.emitter, self.emitter);
                    assert(self.emitter.pending@ =~= s2.emitter.pending@);
                }
            },
            None => {},
        }
        let ghost s8 = *self;
        proof {
            lemma_grew_trans(opened.emitter, s2.emitter, s8.emitter);
            lemma_parser_follows_trans(opened.parser, s2.parser, s4.parser);
            lemma_parser_follows_trans(opened.parser, s4.parser, s5.parser);
            lemma_parser_follows_trans(opened.parser, s5.parser, s8.parser);
            assert(s8.compiled_declarations(&opened));
        }
        self.end_scope();
        proof {
            lemma_scope_closed(*old(self), opened, s8, *self);
        }
    }
}

} // verus!
