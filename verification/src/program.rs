use crate::common::Opcode;
use crate::compiler::{lemma_grew_trans, Compiler};
use crate::emitter::Emitter;
use crate::fun::Fun;
use crate::interner::Interner;
use crate::layout::{flows, script_sound, script_sound_under};
use crate::number::Numeral;
use crate::parser::{CompileError, Parser};
use crate::scanner::{Scanner, TokenType};
use crate::translation::{first_draft, t_emit, t_program, translation};
use vstd::prelude::*;

verus! {

impl Compiler {
    /// Ends the compilation: appends the `RETURN` that ends the script.
    pub(crate) fn end(&mut self)
        requires
            old(self).wf(),
        ensures
            final(self).wf(),
            final(self).follows(old(self)),
            final(self).same_place(old(self)),
            final(self).parser == old(self).parser,
            final(self).emitter.chunk.code@ == old(self).emitter.chunk.code@.push(
                Opcode::Return.byte(),
            ),
            final(self).emitter.free@,
            forall|strings: Seq<Seq<char>>| #[trigger]
                final(self).draft(strings) == t_emit(old(self).draft(strings), Opcode::Return),
    {
        self.emit_return();
    }

    /// Compiles declarations up to the end of the text, and ends the code
    /// with `RETURN`.
    pub(crate) fn program(&mut self, interner: &mut Interner, numbers: &Vec<Numeral>)
        requires
            old(self).wf(),
            old(self).settled(),
            old(interner).wf(),
        ensures
            final(self).wf(),
            old(self).emitter.extended_by(&final(self).emitter),
            final(self).emitter.free@,
            final(self).emitter.len() > 0,
            final(self).emitter.chunk.code@.last() == Opcode::Return.byte(),
            !old(self).ok() ==> !final(self).ok(),
            final(interner).wf(),
            old(interner).kept_by(final(interner)),
            final(self).translated(
                final(interner)@,
                old(self).ok(),
                t_program(old(self).draft(old(interner)@), numbers@),
            ),
    {
        let ghost whole = t_program(old(self).draft(old(interner)@), numbers@);
        while !self.parser.check_tt(TokenType::EOF)
            invariant
                self.wf(),
                self.settled(),
                old(self).emitter.extended_by(&self.emitter),
                !old(self).ok() ==> !self.ok(),
                interner.wf(),
                old(interner).kept_by(interner),
                whole == t_program(old(self).draft(old(interner)@), numbers@),
                old(self).ok() ==> if self.ok() {
                    whole == t_program(self.draft(interner@), numbers@)
                } else {
                    whole is None
                },
            decreases self.parser.left(),
        {
            let ghost before = *self;
            let ghost before_interner = *interner;
            self.declaration(interner, numbers);
            proof {
                lemma_grew_trans(old(self).emitter, before.emitter, self.emitter);
                crate::vm::lemma_kept_trans(*old(interner), before_interner, *interner);
            }
        }
        let ghost before = *self;
        self.advance(Ghost(interner@));
        let ghost taken = *self;
        self.end();
        proof {
            lemma_grew_trans(old(self).emitter, before.emitter, taken.emitter);
            lemma_grew_trans(old(self).emitter, taken.emitter, self.emitter);
        }
    }

    /// Compiles `source` into the function of the top-level script.
    /// `numbers` says what the numerals of the source mean.
    ///
    /// The result is what the translation lays down: for a source that has
    /// a translation, the function with the code, the lines and the
    /// constants of the translation, and the interner holds the strings of
    /// the translation afterwards; for a source that has none, the errors
    /// that the compiler reported on its way through the whole source.
    ///
    /// The function's code ends with `RETURN`, has a source line for every
    /// byte, and is the sound code of a script: every jump and loop of it
    /// lands on an instruction, the height of the stack at each instruction
    /// does not depend on the way that control took to it, every
    /// instruction finds on the stack what it needs, and every operand
    /// names a constant or a local that is there. The interner keeps its
    /// strings.
    pub fn compile(source: &str, interner: &mut Interner, numbers: &Vec<Numeral>) -> (result: Result<
        Fun,
        Vec<CompileError>,
    >)
        requires
            old(interner).wf(),
        ensures
            final(interner).wf(),
            old(interner).kept_by(final(interner)),
            match result {
                Ok(fun) => {
                    &&& fun.arity == 0
                    &&& fun.name is None
                    &&& fun.chunk.wf()
                    &&& script_sound(fun.chunk.code@, fun.chunk.constants@)
                    &&& fun.chunk.code@.len() > 0
                    &&& fun.chunk.code@.last() == Opcode::Return.byte()
                },
                Err(errors) => errors@.len() > 0,
            },
            match translation(source@, old(interner)@, numbers@) {
                Some(draft) => match result {
                    Ok(fun) => {
                        &&& fun.chunk.code@ == draft.code
                        &&& fun.chunk.lines@ == draft.lines
                        &&& fun.chunk.constants@ == draft.constants
                        &&& final(interner)@ == draft.strings
                    },
                    Err(_) => false,
                },
                None => result is Err,
            },
    {
        let scanner = Scanner::new(source);
        let mut parser = Parser::new(scanner);
        if parser.scanner.source.len() >= isize::MAX as usize {
            parser.error_at_current("Source text too long");
            return Err(parser.errors);
        }
        let mut compiler = Compiler {
            emitter: Emitter::new(),
            parser,
            locals: Vec::new(),
            scope_depth: 0,
            declared: Ghost(0),
            popped: Ghost(0),
        };
        proof {
            assert(crate::compiler::named(compiler.locals@) =~= Seq::empty());
            assert(compiler.parser.current.source@ =~= Seq::empty());
            assert(compiler.parser.previous.source@ =~= Seq::empty());
            assert(compiler.emitter.chunk.code@ =~= Seq::empty());
            assert(compiler.emitter.chunk.constants@ =~= Seq::empty());
            assert(compiler.draft(interner@) == first_draft(source@, interner@));
        }
        let ghost start = compiler;
        compiler.advance(Ghost(interner@));
        let ghost first = compiler;
        compiler.program(interner, numbers);
        proof {
            lemma_grew_trans(start.emitter, first.emitter, compiler.emitter);
        }
        if compiler.parser.had_error {
            Err(compiler.parser.errors)
        } else {
            proof {
                let code = compiler.emitter.chunk.code@;
                let constants = compiler.emitter.chunk.constants@;
                let heights = compiler.emitter.heights@;
                assert(heights[0] == 0);
                assert forall|o: int| #[trigger] heights.contains_key(o) implies flows(
                    code,
                    heights,
                    Set::empty(),
                    0,
                    true,
                    o,
                ) by {
                    assert(flows(
                        code,
                        heights,
                        Set::empty(),
                        compiler.emitter.height@,
                        compiler.emitter.free@,
                        o,
                    ));
                }
                assert(script_sound_under(code, constants, heights));
            }
            Ok(Fun { arity: 0, chunk: compiler.emitter.chunk, name: None })
        }
    }
}

} // verus!
