//! A single-pass bytecode compiler and stack-based virtual machine for a small
//! dynamically typed scripting language.
//!
//! Source text is scanned on demand, compiled by precedence climbing straight
//! into bytecode, and executed by a virtual machine that hands every effect on
//! the outside world (printing, reading a line, sleeping) back to its embedder.

pub mod chunk;
pub mod common;
pub mod compiler;
pub mod control;
pub mod debug;
pub mod emitter;
pub mod expression;
pub mod fun;
pub mod globals;
pub mod interner;
pub mod layout;
pub mod native;
pub mod number;
pub mod parser;
pub mod program;
pub mod scanner;
pub mod statement;
pub mod text;
pub mod translation;
pub mod value;
pub mod vm;

use crate::compiler::Compiler;
use crate::fun::Fun;
use crate::interner::Interner;
use crate::number::{read_numerals, NumberOps, Numeral};
use crate::parser::CompileError;
use crate::scanner::number_literals;
use crate::vm::{Signal, Vm};
use vstd::prelude::*;

verus! {

/// Whether `started` is what compiling a source with these numerals and
/// running it gives: the errors of a source that has no translation; and
/// for a source that has one, the machine that was booted for the script
/// of the translation and then ran for at most `max_steps` steps, the
/// signal that it stopped with, and the strings `later` that the interner
/// holds then.
pub open spec fn started_as<N: NumberOps>(
    ops: &N,
    code: Seq<char>,
    strings: Seq<Seq<char>>,
    numerals: Seq<Numeral>,
    started: Result<(Vm, Signal), Vec<CompileError>>,
    max_steps: usize,
    later: Seq<Seq<char>>,
) -> bool {
    match crate::translation::translation(code, strings, numerals) {
        None => started is Err,
        Some(draft) => match started {
            Ok(running) => {
                &&& running.0.functions@.len() == 1
                &&& running.0.functions@[0].chunk.code@ == draft.code
                &&& running.0.functions@[0].chunk.lines@ == draft.lines
                &&& running.0.functions@[0].chunk.constants@ == draft.constants
                &&& exists|trace: Seq<Vm>, texts: Seq<Seq<Seq<char>>>|
                    #![trigger trace[0], texts[0]]
                    trace.len() > 0 && crate::vm::booted(
                        &trace[0],
                        running.0.functions,
                        draft.strings,
                    ) && texts[0] == crate::vm::boot_strings(draft.strings) && crate::vm::ran(
                        ops,
                        trace,
                        texts,
                        &trace[0],
                        &running.0,
                        later,
                        running.1,
                        max_steps,
                    )
            },
            Err(_) => false,
        },
    }
}

/// Whether `numerals` are the numerals of the source `code` as `ops` may
/// read them: the texts of its number tokens that `ops` may take for
/// numerals, in their order, each with a number that `ops` may read from
/// it.
pub open spec fn numerals_of<N: NumberOps>(ops: &N, code: Seq<char>, numerals: Seq<Numeral>)
    -> bool {
    exists|parsed: Seq<Option<crate::number::Number>>| #[trigger]
        was_read(ops, code, numerals, parsed)
}

/// Whether `numerals` are the numerals of the source `code`, where
/// `parsed` holds for each number token what `ops` read from it.
pub open spec fn was_read<N: NumberOps>(
    ops: &N,
    code: Seq<char>,
    numerals: Seq<Numeral>,
    parsed: Seq<Option<crate::number::Number>>,
) -> bool {
    let texts = crate::scanner::number_texts(code, 0, 1);
    &&& parsed.len() == texts.len()
    &&& crate::number::entries(numerals) == crate::number::numerals_read(
        texts,
        parsed,
        texts.len() as int,
    )
    &&& forall|k: int|
        0 <= k < parsed.len() ==> crate::number::read_as(ops, texts[k], #[trigger] parsed[k])
}

/// Compiles `code` and starts to run it: the machine, and the first thing
/// that it asks of the embedder. A script that does not compile is not run,
/// and its errors are returned.
///
/// The numerals of the source are read by `ops` first. With what they
/// mean, the result is laid down: see [`started_as`].
///
/// The embedder acts on the signal and calls [`Vm::run`] to go on, until the
/// signal is `Done` or `Error`. The script's code is sound, and the machine
/// runs it securely: it never fails with a structural fault, only with the
/// runtime errors of the language.
pub fn run_code<N: NumberOps>(code: &str, interner: &mut Interner, ops: &N, max_steps: usize) -> (started:
    Result<(Vm, Signal), Vec<CompileError>>)
    requires
        old(interner).wf(),
    ensures
        final(interner).wf(),
        old(interner).kept_by(final(interner)),
        match started {
            Ok(running) => {
                &&& running.0.wf()
                &&& running.0.functions@.len() == 1
                &&& crate::layout::script_sound(
                    running.0.functions@[0].chunk.code@,
                    running.0.functions@[0].chunk.constants@,
                )
                &&& running.0.functions@[0].chunk.wf()
                &&& crate::vm::secure_or_halted(&running.0)
                &&& !crate::vm::structural_error(running.1)
                &&& running.1 is Error || running.1 is Done ==> running.0.frames@.len() == 0
                &&& running.1 is Read ==> running.0.awaiting is Some
            },
            Err(errors) => errors@.len() > 0,
        },
        exists|numerals: Seq<Numeral>| #[trigger]
            started_as(ops, code@, old(interner)@, numerals, started, max_steps, final(interner)@)
                && numerals_of(ops, code@, numerals),
{
    let ghost first = *interner;
    let texts = number_literals(code);
    let numerals = read_numerals(&texts, ops);
    proof {
        assert(crate::number::texts_of(texts@) =~= crate::scanner::number_texts(code@, 0, 1));
        let parsed = choose|parsed: Seq<Option<crate::number::Number>>|
            parsed.len() == texts@.len() && crate::number::entries(numerals@)
                == #[trigger] crate::number::numerals_read(
                crate::number::texts_of(texts@),
                parsed,
                texts@.len() as int,
            ) && forall|k: int|
                0 <= k < parsed.len() ==> crate::number::read_as(
                    ops,
                    texts@[k]@,
                    #[trigger] parsed[k],
                );
        assert(was_read(ops, code@, numerals@, parsed));
        assert(numerals_of(ops, code@, numerals@));
    }
    let fun = match Compiler::compile(code, interner, &numerals) {
        Ok(fun) => fun,
        Err(errors) => {
            proof {
                assert(started_as(
                    ops,
                    code@,
                    old(interner)@,
                    numerals@,
                    Err::<(Vm, Signal), Vec<CompileError>>(errors),
                    max_steps,
                    interner@,
                ));
            }
            return Err(errors);
        },
    };
    let mut functions: Vec<Fun> = Vec::new();
    functions.push(fun);
    let ghost middle = *interner;
    let started = Vm::interpret(functions, interner, ops, max_steps);
    proof {
        crate::vm::lemma_kept_trans(first, middle, *interner);
        assert(started_as(
            ops,
            code@,
            old(interner)@,
            numerals@,
            Ok::<(Vm, Signal), Vec<CompileError>>(started),
            max_steps,
            interner@,
        ));
    }
    Ok(started)
}

} // verus!
