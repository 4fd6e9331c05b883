use compiler::chunk::Chunk;
use compiler::common::Opcode;
use compiler::compiler::Compiler;
use compiler::fun::Fun;
use compiler::value::Value;
use compiler::vm::Vm;
use compiler::interner::Interner;
use compiler::number::{read_numerals, Arithmetic, Comparison, Number, NumberOps, Numeral, Unary};
use compiler::scanner::number_literals;
use compiler::run_code;
use compiler::vm::{Fault, Signal};

struct Floats;

fn num(n: f64) -> Number {
    Number { bits: n.to_bits() }
}

fn float(n: Number) -> f64 {
    f64::from_bits(n.bits)
}

impl NumberOps for Floats {
    fn parse(&self, text: &str) -> Result<Number, String> {
        match text.parse::<f64>() {
            Ok(n) => Ok(num(n)),
            Err(e) => Err(e.to_string()),
        }
    }

    fn format(&self, n: Number) -> String {
        format!("{}", float(n))
    }

    fn binary(&self, op: Arithmetic, a: Number, b: Number) -> Number {
        let (a, b) = (float(a), float(b));
        num(match op {
            Arithmetic::Add => a + b,
            Arithmetic::Subtract => a - b,
            Arithmetic::Multiply => a * b,
            Arithmetic::Divide => a / b,
            Arithmetic::Modulo => a % b,
        })
    }

    fn unary(&self, op: Unary, a: Number) -> Number {
        let a = float(a);
        num(match op {
            Unary::Negate => -a,
            Unary::Ceil => a.ceil(),
            Unary::Floor => a.floor(),
            Unary::Abs => a.abs(),
        })
    }

    fn compare(&self, op: Comparison, a: Number, b: Number) -> bool {
        let (a, b) = (float(a), float(b));
        match op {
            Comparison::Greater => a > b,
            Comparison::Less => a < b,
            Comparison::Near => (a - b).abs() < f64::EPSILON,
        }
    }

    fn to_integer(&self, n: Number) -> Option<u64> {
        let n = float(n);
        if n >= 0.0 && n.fract() == 0.0 {
            Some(n as u64)
        } else {
            None
        }
    }

    fn from_integer(&self, i: u128) -> Number {
        num(i as f64)
    }
}

/// What the numerals of a source mean.
fn numerals(source: &str) -> Vec<Numeral> {
    read_numerals(&number_literals(source), &Floats)
}

/// Runs a script to its end and returns what it printed and the signal
/// that ended it.
fn run(source: &str) -> (Vec<String>, Signal) {
    let mut interner = Interner::with_capacity(1024);
    let ops = Floats;
    let (mut vm, mut signal) = match run_code(source, &mut interner, &ops, 1000) {
        Ok(started) => started,
        Err(errors) => panic!("does not compile: {:?}", errors),
    };
    let mut printed = Vec::new();
    let mut rounds = 0;
    loop {
        match signal {
            Signal::Print(text) => printed.push(text),
            Signal::Read(_) => {
                let _ = vm.provide_input("7", &mut interner, &ops);
            }
            Signal::Sleep(_) | Signal::Paused => {}
            other => return (printed, other),
        }
        rounds += 1;
        assert!(rounds < 10_000, "the script does not end");
        signal = vm.run(&mut interner, &ops, 1000);
    }
}

fn output(source: &str) -> Vec<String> {
    let (printed, signal) = run(source);
    assert_eq!(signal, Signal::Done);
    printed
}

fn fault(source: &str) -> Fault {
    match run(source).1 {
        Signal::Error(error) => error.fault,
        other => panic!("expected a runtime error, got {:?}", other),
    }
}

#[test]
fn arithmetic_follows_precedence() {
    assert_eq!(output("print 1 + 2 * 3;"), vec!["7"]);
}

#[test]
fn a_block_shadows_and_restores() {
    assert_eq!(
        output("var a = 10; { var a = a + 1; print a; } print a;"),
        vec!["11", "10"]
    );
}

#[test]
fn while_loop_counts() {
    assert_eq!(
        output("var i = 0; while (i < 3) { print i; i = i + 1; }"),
        vec!["0", "1", "2"]
    );
}

#[test]
fn strings_concatenate() {
    assert_eq!(output("var s = \"foo\"; s = s + \"bar\"; print s;"), vec!["foobar"]);
}

#[test]
fn arrays_hold_what_was_assigned() {
    assert_eq!(
        output("var xs[3]; xs[0]=7; xs[1]=8; xs[2]=9; print xs[1];"),
        vec!["8"]
    );
}

#[test]
fn or_short_circuits() {
    assert_eq!(
        output("if (false or 2 > 1) print \"yes\"; else print \"no\";"),
        vec!["yes"]
    );
}

#[test]
fn subtracting_from_a_string_is_a_runtime_error() {
    assert!(matches!(
        fault("print \"a\" - 1;"),
        Fault::OperandsMustBeNumbers(_, _)
    ));
}

#[test]
fn an_index_beyond_the_array_is_a_runtime_error() {
    assert_eq!(
        fault("var a[2]; print a[5];"),
        Fault::IndexOutOfBounds { index: 5, writing: false }
    );
}

#[test]
fn an_undefined_variable_is_a_runtime_error() {
    assert!(matches!(fault("print missing;"), Fault::UndefinedVariable(_)));
}

#[test]
fn for_loop_with_all_clauses() {
    assert_eq!(
        output("for (var i = 0; i < 3; i = i + 1) print i;"),
        vec!["0", "1", "2"]
    );
}

#[test]
fn and_short_circuits() {
    assert_eq!(output("print nil and 1; print 1 and 2;"), vec!["Nil", "2"]);
}

#[test]
fn comparison_operators() {
    assert_eq!(
        output("print 1 <= 1; print 2 >= 3; print 1 != 2; print 1 == 1; print 5 % 3;"),
        vec!["true", "false", "true", "true", "2"]
    );
}

#[test]
fn compile_errors_are_collected() {
    let mut interner = Interner::with_capacity(16);
    let errors = match Compiler::compile("print ;\nvar = 3;", &mut interner, &numerals("print ;\nvar = 3;")) {
        Ok(_) => panic!("compiled"),
        Err(errors) => errors,
    };
    assert_eq!(errors.len(), 2);
    assert_eq!(errors[0].message, "Expect expression");
    assert_eq!(errors[1].message, "Expect variable name");
    assert_eq!(errors[0].report(), " [line 1] Error at ';': Expect expression");
}

#[test]
fn natives_are_called_with_their_arguments() {
    // StrLen("hello"), built by hand: the grammar has no call.
    let mut interner = Interner::with_capacity(16);
    let name = interner.intern("StrLen");
    let text = interner.intern("hello");
    let mut chunk = Chunk::default();
    let name_index = chunk.add_constant(Value::Identifier(name)) as u8;
    let nil_index = chunk.add_constant(Value::Nil) as u8;
    let text_index = chunk.add_constant(Value::Str(text)) as u8;
    for byte in [
        Opcode::Constant.to_byte(),
        nil_index,
        Opcode::GetGlobal.to_byte(),
        name_index,
        Opcode::Constant.to_byte(),
        text_index,
        Opcode::Call.to_byte(),
        1,
        Opcode::Print.to_byte(),
        Opcode::Return.to_byte(),
    ] {
        chunk.write_byte(byte, 1);
    }
    let fun = Fun { arity: 0, chunk, name: None };
    let (mut vm, signal) = Vm::interpret(vec![fun], &mut interner, &Floats, 100);
    assert_eq!(signal, Signal::Print("5".to_string()));
    assert_eq!(vm.run(&mut interner, &Floats, 100), Signal::Done);
    assert_eq!(vm.run(&mut interner, &Floats, 100), Signal::Done);
}

fn compile(source: &str) -> Fun {
    let mut interner = Interner::with_capacity(16);
    match Compiler::compile(source, &mut interner, &numerals(source)) {
        Ok(fun) => fun,
        Err(errors) => panic!("does not compile: {:?}", errors),
    }
}

fn compile_errors(source: &str) -> Vec<String> {
    let mut interner = Interner::with_capacity(16);
    match Compiler::compile(source, &mut interner, &numerals(source)) {
        Ok(_) => Vec::new(),
        Err(errors) => errors.into_iter().map(|e| e.message).collect(),
    }
}

/// Runs hand-written code with these constants to its first signal.
fn run_raw(code: &[u8], constants: &[Value]) -> Signal {
    let mut interner = Interner::with_capacity(16);
    run_raw_with(code, constants, &mut interner)
}

fn run_raw_with(code: &[u8], constants: &[Value], interner: &mut Interner) -> Signal {
    let mut chunk = Chunk::default();
    for constant in constants {
        chunk.add_constant(*constant);
    }
    for byte in code {
        chunk.write_byte(*byte, 3);
    }
    let fun = Fun { arity: 0, chunk, name: None };
    Vm::interpret(vec![fun], interner, &Floats, 1000).1
}

fn raw_fault(code: &[u8], constants: &[Value]) -> Fault {
    match run_raw(code, constants) {
        Signal::Error(error) => error.fault,
        other => panic!("expected a runtime error, got {:?}", other),
    }
}

/// Calls a native with these arguments and returns the text of its result.
fn native(name: &str, arguments: &[Value], interner: &mut Interner) -> String {
    let mut constants = vec![Value::Identifier(interner.intern(name)), Value::Nil];
    let mut code = vec![Opcode::Constant.to_byte(), 1, Opcode::GetGlobal.to_byte(), 0];
    for argument in arguments {
        code.push(Opcode::Constant.to_byte());
        code.push(constants.len() as u8);
        constants.push(*argument);
    }
    code.extend([
        Opcode::Call.to_byte(),
        arguments.len() as u8,
        Opcode::Print.to_byte(),
        Opcode::Return.to_byte(),
    ]);
    match run_raw_with(&code, &constants, interner) {
        Signal::Print(text) => text,
        other => panic!("expected a result, got {:?}", other),
    }
}

fn number_value(n: f64) -> Value {
    Value::Number(num(n))
}

#[test]
fn expression_code_is_emitted_in_evaluation_order() {
    let fun = compile("print 1 + 2 * 3;");
    assert_eq!(fun.chunk.code, vec![1, 0, 1, 1, 1, 2, 7, 5, 3, 0]);
    assert_eq!(
        fun.chunk.constants,
        vec![number_value(1.0), number_value(2.0), number_value(3.0)]
    );
    assert_eq!(fun.arity, 0);
    assert_eq!(fun.name, None);
}

#[test]
fn if_jumps_are_patched_to_their_targets() {
    let fun = compile("if (true) print 1;");
    assert_eq!(fun.chunk.code, vec![11, 23, 0, 7, 14, 1, 0, 3, 24, 0, 1, 14, 0]);
}

#[test]
fn while_loops_back_to_the_condition() {
    let fun = compile("while (false) {}");
    assert_eq!(fun.chunk.code, vec![12, 23, 0, 4, 14, 25, 0, 8, 14, 0]);
}

#[test]
fn for_without_clauses_loops_to_itself() {
    let fun = compile("for (;;) {}");
    assert_eq!(fun.chunk.code, vec![25, 0, 3, 0]);
}

#[test]
fn every_byte_of_code_has_a_line() {
    let fun = compile("var s = \"a\nb\";\nprint s;");
    for offset in 0..fun.chunk.code.len() {
        assert!(fun.chunk.lines.contains_key(&offset));
    }
    assert_eq!(fun.chunk.line_at(0), Some(2));
    assert_eq!(fun.chunk.line_at(fun.chunk.code.len()), None);
}

#[test]
fn a_block_pops_the_locals_that_it_declared() {
    let fun = compile("{ var a = 1; var b = 2; { var c = 3; } }");
    // Three constants, one POP where the inner block ends, two where the
    // outer one ends.
    assert_eq!(fun.chunk.code, vec![1, 0, 1, 1, 1, 2, 14, 14, 14, 0]);
}

#[test]
fn jumps_land_on_instruction_boundaries() {
    let fun = compile(
        "var i = 0; for (var j = 0; j < 3; j = j + 1) { if (j == 1 or j == 2) i = i + j; else i = i - 1; } while (i > 0 and i < 9) i = i - 1;",
    );
    let listing = compiler::debug::disassemble_code(&fun.chunk.code).unwrap();
    let mut starts = Vec::new();
    let mut offset = 0;
    for instruction in &listing {
        starts.push(offset);
        offset += 1 + instruction.op.operand_count();
    }
    starts.push(offset);
    let mut jumps = 0;
    for (index, instruction) in listing.iter().enumerate() {
        let distance = instruction.first as usize * 256 + instruction.second as usize;
        let after = starts[index] + 3;
        let target = match instruction.op {
            Opcode::Jump | Opcode::JumpIfFalse => after + distance,
            Opcode::Loop => after - distance,
            _ => continue,
        };
        jumps += 1;
        assert!(starts.contains(&target), "target {} is no boundary", target);
    }
    assert!(jumps >= 8);
}

#[test]
fn disassembling_and_assembling_gives_the_code_back() {
    let fun = compile("var xs[2]; xs[0] = 1; if (xs[0] == 1) print \"one\"; else print xs;");
    let listing = compiler::debug::disassemble_code(&fun.chunk.code).unwrap();
    assert_eq!(compiler::debug::assemble(&listing), fun.chunk.code);
    assert_eq!(compiler::debug::disassemble_code(&vec![1]), None);
    assert_eq!(compiler::debug::disassemble_code(&vec![99]), None);
}

#[test]
fn a_listing_holds_each_instruction_with_its_operands() {
    let listing = compiler::debug::disassemble_code(&vec![1, 7, 23, 1, 2, 14, 0]).unwrap();
    let expected = vec![
        compiler::debug::Instruction { op: Opcode::Constant, first: 7, second: 0 },
        compiler::debug::Instruction { op: Opcode::JumpIfFalse, first: 1, second: 2 },
        compiler::debug::Instruction { op: Opcode::Pop, first: 0, second: 0 },
        compiler::debug::Instruction { op: Opcode::Return, first: 0, second: 0 },
    ];
    assert_eq!(listing, expected);
    assert_eq!(compiler::debug::disassemble_code(&Vec::new()), Some(Vec::new()));
    assert_eq!(compiler::debug::disassemble_code(&vec![0, 23, 1]), None);
}

#[test]
fn instructions_are_written_out() {
    let mut interner = Interner::with_capacity(16);
    let fun = match Compiler::compile("var a = 1; while (a) a = \"x\";", &mut interner, &numerals("var a = 1; while (a) a = \"x\";")) {
        Ok(fun) => fun,
        Err(errors) => panic!("does not compile: {:?}", errors),
    };
    let lines = fun.chunk.disassemble("code", &interner, &Floats);
    assert_eq!(
        lines,
        vec![
            "== code ==",
            "0000    1 Constant Idx 1 1",
            "0002    1 DefineGlobal Idx 0 Identifier: a",
            "0004    1 Constant Idx 3 Nil",
            "0006    1 GetGlobal Idx 2 Identifier: a",
            "0008    1 JumpIfFalse 11 -> 22",
            "0011    1 Pop",
            "0012    1 Constant Idx 5 Nil",
            "0014    1 Constant Idx 6 x",
            "0016    1 SetGlobal Idx 4 Identifier: a",
            "0018    1 Pop",
            "0019    1 Loop 18 -> 4",
            "0022    1 Pop",
            "0023    1 Return",
            "====",
        ]
    );
    let mut odd = Chunk::default();
    odd.write_byte(200, 7);
    odd.write_byte(Opcode::GetLocal.to_byte(), 7);
    odd.write_byte(5, 7);
    odd.write_byte(Opcode::Jump.to_byte(), 7);
    let (text, next) = compiler::debug::disassemble_instruction(&odd, 0, &interner, &Floats);
    assert_eq!((text.as_str(), next), ("0000    7 Invalid opcode 0200", 1));
    let (text, next) = compiler::debug::disassemble_instruction(&odd, 1, &interner, &Floats);
    assert_eq!((text.as_str(), next), ("0001    7 GetLocal 5", 3));
    let (text, next) = compiler::debug::disassemble_instruction(&odd, 3, &interner, &Floats);
    assert_eq!((text.as_str(), next), ("0003    7 Jump (cut off)", 4));
}

#[test]
fn locals_are_read_and_assigned_by_slot() {
    assert_eq!(
        output("{ var a = 1; var b = 2; a = b + a; print a; { var b = a * 2; print b; } print b; }"),
        vec!["3", "6", "2"]
    );
}

#[test]
fn arrays_are_shared_not_copied() {
    assert_eq!(
        output("var a[2]; var b = a; b[0] = 5; print a[0]; print a == b; var c[2]; print a == c; print a;"),
        vec!["5", "true", "false", "Array<2 elements [5, Nil]>"]
    );
}

#[test]
fn long_arrays_are_cut_short_when_written() {
    assert_eq!(
        output("var a[12]; a[0] = true; print a; var e[0]; print e;"),
        vec![
            "Array<12 elements [true, Nil, Nil, Nil, Nil, Nil, Nil, Nil, Nil, Nil, ...]>",
            "Array<0 elements []>"
        ]
    );
}

#[test]
fn what_counts_as_false() {
    assert_eq!(
        output("print !nil; print !false; print !0; print !1; print !\"\"; var e[0]; print !e; var f[1]; print !f;"),
        vec!["true", "true", "true", "false", "false", "true", "false"]
    );
}

#[test]
fn values_of_different_kinds_are_unequal() {
    assert_eq!(
        output("print 1 == \"1\"; print nil == false; print \"a\" == \"a\"; print \"a\" == \"b\"; print nil == nil; print true == true;"),
        vec!["false", "false", "true", "false", "true", "true"]
    );
}

#[test]
fn numbers_and_strings_join() {
    assert_eq!(
        output("print \"n=\" + 1.5; print 2 + \"!\"; print -3 + 1; print 7 / 2; print 2 - 5;"),
        vec!["n=1.5", "2!", "-2", "3.5", "-3"]
    );
}

#[test]
fn the_index_is_evaluated_before_the_assigned_value() {
    assert_eq!(
        output("var a[2]; var i = 0; a[i] = i = 1; print a[0]; print i;"),
        vec!["1", "1"]
    );
}

#[test]
fn each_compile_error_has_its_input() {
    assert_eq!(compile_errors("print 1"), vec!["Expect ';' after expression"]);
    assert_eq!(compile_errors("1 + ;"), vec!["Expect expression"]);
    assert_eq!(compile_errors("(1;"), vec!["Expect ')' after expression."]);
    assert_eq!(compile_errors("1 = 2;"), vec!["Invalid assignment target"]);
    assert_eq!(compile_errors("var 1;"), vec!["Expect variable name"]);
    assert_eq!(compile_errors("var a = 1"), vec!["Expect ';' after variable declaration"]);
    assert_eq!(compile_errors("var a[1;"), vec!["Expect ']' after array size"]);
    assert_eq!(compile_errors("print a[1;"), vec!["Expect ']' after array index"]);
    assert_eq!(compile_errors("{ print 1;"), vec!["Expect '}' after block"]);
    assert_eq!(compile_errors("if 1) print 1;"), vec!["Expect '(' after 'if'"]);
    assert_eq!(compile_errors("if (1 print 1;"), vec!["Expect ')' after condition"]);
    assert_eq!(compile_errors("while 1) print 1;"), vec!["Expect '(' after 'while'"]);
    assert_eq!(compile_errors("for ;;) print 1;"), vec!["Expect '(' after for"]);
    assert_eq!(compile_errors("for (;1) print 1;"), vec!["Expect ';' after loop condition"]);
    assert_eq!(compile_errors("for (;;1 print 1;"), vec!["Expect ')' after for clauses"]);
    assert_eq!(
        compile_errors("{ var a = 1; var a = 2; }"),
        vec!["Already a variable with this name in this scope"]
    );
    assert_eq!(compile_errors("print @;"), vec!["Unexpected character '@' at position 6"]);
    assert_eq!(compile_errors("print \"abc;"), vec!["Unterminated string"]);
    assert_eq!(compile_errors("print 1 <= 2; var b = b;"), Vec::<String>::new());
}

#[test]
fn too_many_constants_are_a_compile_error() {
    let mut source = String::new();
    for _ in 0..257 {
        source.push_str("1;");
    }
    assert_eq!(compile_errors(&source), vec!["Too many constants in one chunk"]);
    let mut fits = String::new();
    for _ in 0..256 {
        fits.push_str("1;");
    }
    assert_eq!(compile(&fits).chunk.constants.len(), 256);
}

#[test]
fn too_many_locals_are_a_compile_error() {
    let mut source = String::from("{");
    for i in 0..257 {
        source.push_str(&format!("var v{i};"));
    }
    source.push('}');
    assert_eq!(compile_errors(&source), vec!["Too many local variables"]);
}

#[test]
fn a_jump_over_too_much_code_is_a_compile_error() {
    // Each statement is four bytes of code and no constant.
    let mut body = String::new();
    for _ in 0..16400 {
        body.push_str("true == nil;");
    }
    assert_eq!(
        compile_errors(&format!("if (true) {{ {body} }}")),
        vec!["Too much code to jump over"]
    );
    assert_eq!(
        compile_errors(&format!("while (true) {{ {body} }}")),
        vec!["Loop body too large"]
    );
}

#[test]
fn panic_mode_ends_at_the_next_statement() {
    let mut interner = Interner::with_capacity(16);
    let errors = match Compiler::compile("print 1 +; 2 3 4 print ); print 5;", &mut interner, &numerals("print 1 +; 2 3 4 print ); print 5;")) {
        Ok(_) => panic!("compiled"),
        Err(errors) => errors,
    };
    let messages: Vec<&str> = errors.iter().map(|e| e.message.as_str()).collect();
    assert_eq!(
        messages,
        vec!["Expect expression", "Expect ';' after expression", "Expect expression"]
    );
    let last = match Compiler::compile("print (1", &mut interner, &numerals("print (1")) {
        Ok(_) => panic!("compiled"),
        Err(mut errors) => errors.remove(0),
    };
    assert_eq!(last.report(), " [line 1] Error at end: Expect ')' after expression.");
    let lexical = match Compiler::compile("\"a\nb", &mut interner, &numerals("\"a\nb")) {
        Ok(_) => panic!("compiled"),
        Err(mut errors) => errors.remove(0),
    };
    assert_eq!(lexical.report(), " [line 2] Error: Unterminated string");
}

#[test]
fn each_fault_has_its_input() {
    let nil = Opcode::Nil.to_byte();
    let constant = Opcode::Constant.to_byte();
    assert_eq!(raw_fault(&[Opcode::Pop.to_byte()], &[]), Fault::StackUnderflow);
    assert_eq!(raw_fault(&[200], &[]), Fault::InvalidOpcode(200));
    assert_eq!(raw_fault(&[], &[]), Fault::CodeOverrun);
    assert_eq!(raw_fault(&[constant], &[]), Fault::CodeOverrun);
    assert_eq!(raw_fault(&[Opcode::Loop.to_byte(), 0, 9], &[]), Fault::CodeOverrun);
    assert_eq!(raw_fault(&[constant, 9], &[]), Fault::BadConstant(9));
    assert_eq!(
        raw_fault(&[nil, Opcode::GetGlobal.to_byte(), 0], &[Value::Nil]),
        Fault::BadName(Value::Nil)
    );
    assert_eq!(raw_fault(&[nil, Opcode::GetLocal.to_byte(), 5], &[]), Fault::BadSlot(5));
    assert_eq!(
        raw_fault(&[constant, 0, Opcode::Call.to_byte(), 0], &[Value::Function(7)]),
        Fault::BadFunction(7)
    );
    assert_eq!(
        raw_fault(&[constant, 0, Opcode::Call.to_byte(), 0], &[Value::Bool(true)]),
        Fault::NotCallable(Value::Bool(true))
    );
    assert_eq!(
        raw_fault(&[constant, 0, nil, Opcode::Call.to_byte(), 1], &[Value::Function(0)]),
        Fault::WrongArity { expected: 0, got: 1 }
    );
    assert_eq!(
        raw_fault(
            &[constant, 0, Opcode::Call.to_byte(), 0],
            &[Value::NativeFunction(compiler::native::Native::StrLen)]
        ),
        Fault::WrongArity { expected: 1, got: 0 }
    );
    assert_eq!(fault("var a[true];"), Fault::ExpectedNumber(Value::Bool(true)));
    assert_eq!(fault("print -nil;"), Fault::OperandMustBeNumber(Value::Nil));
    assert_eq!(
        fault("print true < 1;"),
        Fault::OperandsMustBeNumbers(Value::Bool(true), number_value(1.0))
    );
    assert_eq!(
        fault("print nil + 1;"),
        Fault::OperandsMustBeNumbers(Value::Nil, number_value(1.0))
    );
    assert_eq!(
        fault("var a = 1; print a[0];"),
        Fault::NotIndexable { target: number_value(1.0), key: number_value(0.0), writing: false }
    );
    assert_eq!(
        fault("var a[1]; a[true] = 1;"),
        Fault::NotIndexable { target: Value::Array(0), key: Value::Bool(true), writing: true }
    );
    assert_eq!(
        fault("var a[1]; a[3] = 1;"),
        Fault::IndexOutOfBounds { index: 3, writing: true }
    );
    assert!(matches!(fault("x = 1;"), Fault::UndefinedVariable(_)));
}

#[test]
fn a_runtime_error_is_reported_with_its_traceback() {
    let mut interner = Interner::with_capacity(16);
    let (_, signal) = run_code("var a = 1;\nprint a + nil;", &mut interner, &Floats, 100).unwrap();
    let error = match signal {
        Signal::Error(error) => error,
        other => panic!("expected a runtime error, got {:?}", other),
    };
    assert_eq!(
        error.report(&interner),
        vec![
            "Runtime error: Operands must be numbers, but got Number and Nil",
            "Traceback (most recent call first):",
            "[line   2] in <script>",
        ]
    );
    assert_eq!(
        Fault::IndexOutOfBounds { index: 12, writing: false }.message(&interner),
        "Error getting array: Index out of bounds: 12"
    );
    assert_eq!(
        Fault::NotIndexable { target: Value::Nil, key: Value::Bool(true), writing: true }
            .message(&interner),
        "Error setting array: Tried to index value of type Nil with index Bool"
    );
    assert_eq!(
        Fault::WrongArity { expected: 2, got: 10 }.message(&interner),
        "Expected 2 arguments but got 10 instead"
    );
    let name = interner.intern("a");
    assert_eq!(Fault::UndefinedVariable(name).message(&interner), "Undefined variable a");
    assert_eq!(
        Fault::NotCallable(Value::Nil).message(&interner),
        "Can only call functions, got Nil"
    );
    assert_eq!(
        Fault::ExpectedNumber(Value::Str(name)).message(&interner),
        "Expected number, got Str"
    );
    assert_eq!(Fault::OperandMustBeNumber(Value::Nil).message(&interner), "Operand must be a number");
}

#[test]
fn functions_are_called_in_a_frame_of_their_own() {
    // The script calls function 0 with 4 and 5, and prints what it returns:
    // its second argument.
    let mut callee = Chunk::default();
    for byte in [Opcode::Nil.to_byte(), Opcode::GetLocal.to_byte(), 1, Opcode::Return.to_byte()] {
        callee.write_byte(byte, 1);
    }
    let mut script = Chunk::default();
    script.add_constant(Value::Function(0));
    script.add_constant(number_value(4.0));
    script.add_constant(number_value(5.0));
    for byte in [
        Opcode::True.to_byte(),
        Opcode::Constant.to_byte(),
        0,
        Opcode::Constant.to_byte(),
        1,
        Opcode::Constant.to_byte(),
        2,
        Opcode::Call.to_byte(),
        2,
        Opcode::Print.to_byte(),
        Opcode::Print.to_byte(),
        Opcode::Return.to_byte(),
    ] {
        script.write_byte(byte, 2);
    }
    let functions = vec![
        Fun { arity: 2, chunk: callee, name: None },
        Fun { arity: 0, chunk: script, name: None },
    ];
    let mut interner = Interner::with_capacity(16);
    let (mut vm, signal) = Vm::interpret(functions, &mut interner, &Floats, 100);
    assert_eq!(signal, Signal::Print("5".to_string()));
    assert_eq!(vm.run(&mut interner, &Floats, 100), Signal::Print("true".to_string()));
    assert_eq!(vm.run(&mut interner, &Floats, 100), Signal::Done);
}

#[test]
fn the_machine_pauses_when_its_steps_are_used_up() {
    let mut interner = Interner::with_capacity(16);
    let (mut vm, signal) = run_code("while (true) {}", &mut interner, &Floats, 10).unwrap();
    assert_eq!(signal, Signal::Paused);
    assert_eq!(vm.run(&mut interner, &Floats, 10), Signal::Paused);
    assert_eq!(vm.run(&mut interner, &Floats, 0), Signal::Paused);
}

#[test]
fn natives_compute_on_their_arguments() {
    let mut interner = Interner::with_capacity(64);
    let hello = Value::Str(interner.intern("hello"));
    let digits = Value::Str(interner.intern("12.5"));
    assert_eq!(native("StrLen", &[hello], &mut interner), "5");
    assert_eq!(native("StrLen", &[Value::Nil], &mut interner), "Nil");
    assert_eq!(native("TypeOf", &[hello], &mut interner), "Str");
    assert_eq!(native("TypeOf", &[number_value(1.0)], &mut interner), "Number");
    assert_eq!(native("TypeOf", &[Value::Nil], &mut interner), "Nil");
    assert_eq!(native("ToString", &[number_value(2.5)], &mut interner), "2.5");
    assert_eq!(native("ToString", &[Value::Bool(false)], &mut interner), "false");
    assert_eq!(native("ToNumber", &[digits], &mut interner), "12.5");
    assert_eq!(native("ToNumber", &[Value::Bool(true)], &mut interner), "1");
    assert_eq!(native("ToNumber", &[hello], &mut interner), "Nil");
    assert_eq!(native("ToNumber", &[Value::Nil], &mut interner), "Nil");
    assert_eq!(native("StringAt", &[hello, number_value(1.0)], &mut interner), "e");
    assert_eq!(native("StringAt", &[hello, number_value(5.0)], &mut interner), "Nil");
    assert_eq!(native("StringAt", &[hello, hello], &mut interner), "Nil");
    assert_eq!(native("Ceil", &[number_value(1.2)], &mut interner), "2");
    assert_eq!(native("Floor", &[number_value(1.8)], &mut interner), "1");
    assert_eq!(native("Abs", &[number_value(-3.0)], &mut interner), "3");
    assert_eq!(native("Abs", &[hello], &mut interner), "Nil");
    assert_eq!(native("ArrLen", &[hello], &mut interner), "Nil");
    assert_eq!(native("Sort", &[hello], &mut interner), "Nil");
    assert_eq!(native("IndexOf", &[hello, hello], &mut interner), "Nil");
    assert_eq!(native("Sleep", &[hello], &mut interner), "Nil");
    assert_eq!(native("ReadString", &[Value::Nil], &mut interner), "Nil");
    assert_eq!(native("ReadNumber", &[Value::Nil], &mut interner), "Nil");
    let clock: f64 = native("Clock", &[], &mut interner).parse().unwrap();
    assert!(clock > 1.0e12);
    let random: f64 = native("Rand", &[], &mut interner).parse().unwrap();
    assert!((0.0..4294967296.0).contains(&random));
    assert_eq!(random.fract(), 0.0);
}

/// Runs `CALL name(argument)` then `PRINT errString` and returns the
/// signals up to the end.
fn native_with_error(name: &str, argument: Value, interner: &mut Interner) -> Vec<Signal> {
    let constants = vec![
        Value::Identifier(interner.intern(name)),
        Value::Nil,
        argument,
        Value::Identifier(interner.intern("errString")),
    ];
    let code = [
        Opcode::Constant.to_byte(),
        1,
        Opcode::GetGlobal.to_byte(),
        0,
        Opcode::Constant.to_byte(),
        2,
        Opcode::Call.to_byte(),
        1,
        Opcode::Print.to_byte(),
        Opcode::Constant.to_byte(),
        1,
        Opcode::GetGlobal.to_byte(),
        3,
        Opcode::Print.to_byte(),
        Opcode::Return.to_byte(),
    ];
    let mut chunk = Chunk::default();
    for constant in &constants {
        chunk.add_constant(*constant);
    }
    for byte in code {
        chunk.write_byte(byte, 1);
    }
    let fun = Fun { arity: 0, chunk, name: None };
    let (mut vm, mut signal) = Vm::interpret(vec![fun], interner, &Floats, 1000);
    let mut signals = Vec::new();
    loop {
        let done = matches!(signal, Signal::Done | Signal::Error(_));
        if let Signal::Read(_) = signal {
            signals.push(signal);
            if let Some(more) = vm.provide_input("12x", interner, &Floats) {
                signals.push(more);
            }
        } else {
            signals.push(signal);
        }
        if done {
            return signals;
        }
        signal = vm.run(interner, &Floats, 1000);
    }
}

fn printed(text: &str) -> Signal {
    Signal::Print(text.to_string())
}

#[test]
fn natives_report_errors_in_the_error_global() {
    let mut interner = Interner::with_capacity(64);
    assert_eq!(
        native_with_error("Ceil", Value::Nil, &mut interner),
        vec![printed("Nil"), printed("Expected number as argument to ceil"), Signal::Done]
    );
    assert_eq!(
        native_with_error("Ceil", number_value(0.5), &mut interner),
        vec![printed("1"), printed("Nil"), Signal::Done]
    );
    assert_eq!(
        native_with_error("Sleep", number_value(3.0), &mut interner),
        vec![Signal::Sleep(3), printed("Nil"), printed("Nil"), Signal::Done]
    );
    assert_eq!(
        native_with_error("Print", Value::Bool(true), &mut interner),
        vec![printed("true"), printed("Nil"), printed("Nil"), Signal::Done]
    );
    let prompt = Value::Str(interner.intern("number?"));
    assert_eq!(
        native_with_error("ReadNumber", prompt, &mut interner),
        vec![
            Signal::Read("number?".to_string()),
            printed("Nil"),
            printed("Failed to parse number: invalid float literal"),
            Signal::Done
        ]
    );
    assert_eq!(
        native_with_error("ReadString", prompt, &mut interner),
        vec![Signal::Read("number?".to_string()), printed("12x"), printed("Nil"), Signal::Done]
    );
    assert_eq!(
        native_with_error("ReadString", Value::Nil, &mut interner),
        vec![printed("Nil"), printed("Expected string as argument to read"), Signal::Done]
    );
}

#[test]
fn sort_and_index_of_work_on_arrays() {
    // var xs[3]; xs[0]=3; xs[1]=1; xs[2]=2; Sort(xs); print xs; print IndexOf(xs, 2)
    let mut interner = Interner::with_capacity(64);
    let constants = vec![
        number_value(3.0),
        Value::Nil,
        number_value(0.0),
        number_value(1.0),
        number_value(2.0),
        Value::Identifier(interner.intern("Sort")),
        Value::Identifier(interner.intern("IndexOf")),
    ];
    let c = Opcode::Constant.to_byte();
    let get = Opcode::GetLocal.to_byte();
    let set = Opcode::SetLocal.to_byte();
    let pop = Opcode::Pop.to_byte();
    let code = [
        c, 0, Opcode::DeclareArray.to_byte(),
        c, 2, c, 0, set, 0, pop,
        c, 3, c, 3, set, 0, pop,
        c, 4, c, 4, set, 0, pop,
        c, 1, Opcode::GetGlobal.to_byte(), 5, c, 1, get, 0, Opcode::Call.to_byte(), 1, pop,
        c, 1, get, 0, Opcode::Print.to_byte(),
        c, 1, Opcode::GetGlobal.to_byte(), 6, c, 1, get, 0, c, 4, Opcode::Call.to_byte(), 2,
        Opcode::Print.to_byte(),
        Opcode::Return.to_byte(),
    ];
    let mut chunk = Chunk::default();
    for constant in &constants {
        chunk.add_constant(*constant);
    }
    for byte in code {
        chunk.write_byte(byte, 1);
    }
    let fun = Fun { arity: 0, chunk, name: None };
    let (mut vm, signal) = Vm::interpret(vec![fun], &mut interner, &Floats, 1000);
    assert_eq!(signal, printed("Array<3 elements [1, 2, 3]>"));
    assert_eq!(vm.run(&mut interner, &Floats, 1000), printed("1"));
    assert_eq!(vm.run(&mut interner, &Floats, 1000), Signal::Done);
}

#[test]
fn read_bool_takes_its_answer_from_the_reader() {
    let mut interner = Interner::with_capacity(64);
    let constants = vec![Value::Identifier(interner.intern("ReadBool")), Value::Nil];
    let code = [
        Opcode::Constant.to_byte(),
        1,
        Opcode::GetGlobal.to_byte(),
        0,
        Opcode::Call.to_byte(),
        0,
        Opcode::Print.to_byte(),
        Opcode::Return.to_byte(),
    ];
    let mut chunk = Chunk::default();
    for constant in &constants {
        chunk.add_constant(*constant);
    }
    for byte in code {
        chunk.write_byte(byte, 1);
    }
    let fun = Fun { arity: 0, chunk, name: None };
    let (mut vm, signal) = Vm::interpret(vec![fun], &mut interner, &Floats, 1000);
    assert_eq!(signal, Signal::Read(String::new()));
    assert_eq!(vm.run(&mut interner, &Floats, 1000), Signal::Read(String::new()));
    assert_eq!(vm.provide_input("true", &mut interner, &Floats), None);
    assert_eq!(vm.provide_input("ignored", &mut interner, &Floats), None);
    assert_eq!(vm.run(&mut interner, &Floats, 1000), printed("true"));
    assert_eq!(vm.run(&mut interner, &Floats, 1000), Signal::Done);
}

/// Steps through a script and returns the height of the stack after each
/// instruction.
fn heights(source: &str) -> Vec<usize> {
    let mut interner = Interner::with_capacity(16);
    let (mut vm, signal) = run_code(source, &mut interner, &Floats, 0).unwrap();
    assert_eq!(signal, Signal::Paused);
    let mut heights = Vec::new();
    loop {
        match vm.step(&mut interner, &Floats) {
            Some(Signal::Done) => return heights,
            Some(Signal::Error(error)) => panic!("runtime error: {:?}", error),
            _ => heights.push(vm.stack.len()),
        }
        assert!(heights.len() < 10_000, "the script does not end");
    }
}

#[test]
fn an_expression_statement_leaves_the_stack_as_it_found_it() {
    // CONSTANT CONSTANT CONSTANT MULTIPLY ADD POP, twice.
    assert_eq!(
        heights("1 + 2 * 3; 4 - 5 / 6;"),
        vec![1, 2, 3, 2, 1, 0, 1, 2, 3, 2, 1, 0]
    );
    let with_local = heights("{ var a = 1; a + a; a = 2; true and a; nil or a; }");
    // After the local is declared the stack holds it, and every expression
    // statement comes back to that height.
    let after_statements: Vec<usize> =
        with_local.iter().copied().filter(|height| *height == 1).collect();
    assert!(after_statements.len() >= 5);
    assert_eq!(with_local.last(), Some(&0));
}

#[test]
fn a_scope_gives_back_the_stack_that_it_took() {
    // a is pushed; b is pushed; b is popped where the inner block ends; a is
    // popped where the outer block ends.
    assert_eq!(heights("{ var a = 1; { var b = 2; } }"), vec![1, 2, 1, 0]);
    let looped = heights("for (var i = 0; i < 2; i = i + 1) { var twice = i * 2; }");
    assert_eq!(looped.last(), Some(&0));
    assert_eq!(looped.iter().max(), Some(&4));
}

#[test]
fn compiled_scripts_fail_only_with_runtime_errors() {
    // A small generator of programs: every script that compiles runs to
    // its end or to a runtime error of the language.
    let pieces = [
        "var a = 1;", "var b[3];", "a = a + 1;", "b[a] = a;", "print b[0];", "print c;",
        "{ var a = \"s\"; a = a + a; }", "if (a > 2) a = -a; else a = !a;",
        "while (a < 3) a = a + 1;", "for (var i = 0; i < 2; i = i + 1) b[i] = i;",
        "a = b; ", "b = nil;", "print a == b;", "a[0] = 1;", "var c = a - 1;",
        "{ var x[2]; x[1] = x; print x; }", "print 1 / 0;", "print a and b or c;",
    ];
    let mut seed: u32 = 12345;
    for _ in 0..300 {
        let mut source = String::new();
        for _ in 0..6 {
            seed = seed.wrapping_mul(1664525).wrapping_add(1013904223);
            source.push_str(pieces[(seed >> 16) as usize % pieces.len()]);
        }
        let mut interner = Interner::with_capacity(16);
        let (mut vm, mut signal) = match run_code(&source, &mut interner, &Floats, 1000) {
            Ok(started) => started,
            Err(_) => continue,
        };
        let mut rounds = 0;
        loop {
            match signal {
                Signal::Done => break,
                Signal::Error(error) => {
                    assert!(
                        !matches!(
                            error.fault,
                            Fault::StackUnderflow
                                | Fault::InvalidOpcode(_)
                                | Fault::CodeOverrun
                                | Fault::BadConstant(_)
                                | Fault::BadName(_)
                                | Fault::BadSlot(_)
                        ),
                        "{:?} in {}",
                        error.fault,
                        source
                    );
                    break;
                }
                _ => {}
            }
            rounds += 1;
            if rounds > 100 {
                break;
            }
            signal = vm.run(&mut interner, &Floats, 1000);
        }
    }
}

#[test]
fn a_numeral_without_a_meaning_is_a_compile_error() {
    let mut interner = Interner::with_capacity(16);
    let errors = match Compiler::compile("print 1 + 2;", &mut interner, &numerals("print 1;")) {
        Ok(_) => panic!("compiled"),
        Err(errors) => errors,
    };
    assert_eq!(errors.len(), 1);
    assert_eq!(errors[0].message, "Invalid number");
    assert_eq!(errors[0].report(), " [line 1] Error at '2': Invalid number");
}

#[test]
fn a_booted_machine_knows_the_natives() {
    let mut interner = Interner::with_capacity(16);
    let vm = Vm::boot(vec![Fun::new()], &mut interner);
    assert_eq!(vm.frames.len(), 1);
    assert!(vm.stack.is_empty());
    assert_eq!(vm.globals.len(), 19);
    let error = interner.find("errString").unwrap();
    assert_eq!(vm.globals.get(&error.0), Some(&Value::Nil));
    for native in compiler::native::Native::all() {
        let name = interner.find(native.name()).unwrap();
        assert_eq!(vm.globals.get(&name.0), Some(&Value::NativeFunction(native)));
    }
}

#[test]
fn numerals_are_read_in_their_order() {
    let texts = vec!["1".to_string(), "x".to_string(), "2.5".to_string(), "1".to_string()];
    let read = read_numerals(&texts, &Floats);
    let found: Vec<(String, u64)> =
        read.iter().map(|numeral| (numeral.text.clone(), numeral.value.bits)).collect();
    assert_eq!(
        found,
        vec![
            ("1".to_string(), 1.0f64.to_bits()),
            ("2.5".to_string(), 2.5f64.to_bits()),
            ("1".to_string(), 1.0f64.to_bits()),
        ]
    );
    assert!(read_numerals(&Vec::new(), &Floats).is_empty());
    assert!(read_numerals(&vec!["1.2.3".to_string()], &Floats).is_empty());
}

#[test]
fn a_numeral_is_recorded_with_its_number() {
    let mut kept: Vec<Numeral> = Vec::new();
    compiler::number::record_numeral(&mut kept, "12", Some(num(12.0)));
    compiler::number::record_numeral(&mut kept, "twelve", None);
    compiler::number::record_numeral(&mut kept, "0.5", Some(num(0.5)));
    assert_eq!(kept.len(), 2);
    assert_eq!(kept[0].text, "12");
    assert_eq!(kept[0].value.bits, 12.0f64.to_bits());
    assert_eq!(kept[1].text, "0.5");
    assert_eq!(kept[1].value.bits, 0.5f64.to_bits());
}

#[test]
fn a_number_that_was_read_is_the_value() {
    let mut interner = Interner::with_capacity(8);
    let mut globals = compiler::globals::Globals::default();
    let value = compiler::native::read_number(&mut interner, &mut globals, Ok(num(4.5)));
    assert_eq!(value, number_value(4.5));
    assert_eq!(interner.len(), 0);
    assert!(globals.is_empty());
}

#[test]
fn a_number_that_was_not_read_sets_the_error_global() {
    let mut interner = Interner::with_capacity(8);
    let mut globals = compiler::globals::Globals::default();
    let value =
        compiler::native::read_number(&mut interner, &mut globals, Err("no digits".to_string()));
    assert_eq!(value, Value::Nil);
    assert_eq!(interner.len(), 2);
    let name = interner.intern("errString");
    let message = interner.intern("Failed to parse number: no digits");
    assert_eq!(interner.len(), 2);
    assert_eq!(name.0, 0);
    assert_eq!(message.0, 1);
    assert_eq!(globals.len(), 1);
    assert_eq!(globals.get(&name.0), Some(&Value::Str(message)));
}

#[test]
fn a_whole_number_is_an_index_as_far_as_it_fits() {
    assert_eq!(compiler::vm::index_within(0), 0);
    assert_eq!(compiler::vm::index_within(7), 7);
    let most = usize::MAX as u64;
    assert_eq!(compiler::vm::index_within(most), usize::MAX);
    assert_eq!(compiler::vm::index_within(u64::MAX), usize::MAX);
}

#[test]
fn an_index_that_is_negative_or_not_whole_is_refused() {
    assert_eq!(fault("var a[2]; print a[0 - 1];"), Fault::IndexNotWhole { writing: false });
    assert_eq!(fault("var a[2]; print a[1.5];"), Fault::IndexNotWhole { writing: false });
    assert_eq!(fault("var a[2]; a[0 - 1] = 3;"), Fault::IndexNotWhole { writing: true });
    assert_eq!(fault("var a[2]; a[0.5] = 3;"), Fault::IndexNotWhole { writing: true });
    let interner = Interner::with_capacity(4);
    assert_eq!(
        Fault::IndexNotWhole { writing: false }.message(&interner),
        "Error getting array: Index must be a whole number that is not negative"
    );
    assert_eq!(
        Fault::IndexNotWhole { writing: true }.message(&interner),
        "Error setting array: Index must be a whole number that is not negative"
    );
}

#[test]
fn instructions_carry_the_line_of_their_source() {
    let fun = compile("var a = 1;\n\n// nothing here\nprint a;\nprint\n  a;");
    let listing = compiler::debug::disassemble_code(&fun.chunk.code).unwrap();
    let mut lines = Vec::new();
    let mut offset = 0;
    for instruction in &listing {
        lines.push(fun.chunk.line_at(offset).unwrap());
        offset += 1 + instruction.op.operand_count();
    }
    assert_eq!(lines[0], 1);
    assert!(lines.contains(&4));
    assert!(lines.contains(&6));
    assert!(!lines.contains(&2));
    assert!(!lines.contains(&3));
    assert!(lines.windows(2).all(|pair| pair[0] <= pair[1]));
}

#[test]
fn a_runtime_error_names_the_line_of_a_later_statement() {
    let mut interner = Interner::with_capacity(16);
    let (_, signal) =
        run_code("var a = 1;\n// two\n\nprint a - nil;", &mut interner, &Floats, 100).unwrap();
    let error = match signal {
        Signal::Error(error) => error,
        other => panic!("expected a runtime error, got {:?}", other),
    };
    assert_eq!(error.trace.len(), 1);
    assert_eq!(error.trace[0].line, 4);
}

#[test]
fn the_operand_that_was_pushed_first_is_the_left_one() {
    // CONSTANT 0, CONSTANT 1, SUBTRACT, PRINT, NIL, RETURN
    let constants = [number_value(7.0), number_value(2.0)];
    let mut interner = Interner::with_capacity(16);
    let signal = run_raw_with(&[1, 0, 1, 1, 6, 3, 10, 0], &constants, &mut interner);
    assert_eq!(signal, Signal::Print("5".to_string()));
    assert_eq!(output("print 7 - 2; print 2 - 7; print 7 / 2; print 7 % 4; print 1 < 2;"), vec![
        "5", "-5", "3.5", "3", "true"
    ]);
}

#[test]
fn a_compile_error_is_reported_on_its_line() {
    let mut interner = Interner::with_capacity(16);
    let source = "var a = 1;\n\nprint a +;\n1 = 2;";
    let errors = Compiler::compile(source, &mut interner, &numerals(source)).unwrap_err();
    let lines: Vec<usize> = errors.iter().map(|error| error.line).collect();
    let messages: Vec<&str> = errors.iter().map(|error| error.message.as_str()).collect();
    assert_eq!(lines, vec![3, 4]);
    assert_eq!(messages, vec!["Expect expression", "Invalid assignment target"]);
}

#[test]
fn input_takes_the_place_of_the_prompt() {
    let mut interner = Interner::with_capacity(64);
    let constants = vec![
        Value::Identifier(interner.intern("ReadString")),
        Value::Nil,
        Value::Str(interner.intern("name?")),
    ];
    let code = [
        Opcode::Constant.to_byte(),
        1,
        Opcode::GetGlobal.to_byte(),
        0,
        Opcode::Constant.to_byte(),
        2,
        Opcode::Call.to_byte(),
        1,
        Opcode::Print.to_byte(),
        Opcode::Return.to_byte(),
    ];
    let mut chunk = Chunk::default();
    for constant in &constants {
        chunk.add_constant(*constant);
    }
    for byte in code {
        chunk.write_byte(byte, 1);
    }
    let fun = Fun { arity: 0, chunk, name: None };
    let (mut vm, signal) = Vm::interpret(vec![fun], &mut interner, &Floats, 100);
    assert_eq!(signal, Signal::Read("name?".to_string()));
    let depth = vm.stack.len();
    assert_eq!(depth, 2);
    assert_eq!(vm.provide_input("Ada", &mut interner, &Floats), None);
    assert_eq!(vm.stack.len(), depth - 1);
    assert_eq!(vm.stack[0], Value::Str(interner.intern("Ada")));
    assert_eq!(vm.run(&mut interner, &Floats, 100), Signal::Print("Ada".to_string()));
    assert_eq!(vm.run(&mut interner, &Floats, 100), Signal::Done);
    // A machine that waits for nothing ignores a line.
    assert_eq!(vm.provide_input("more", &mut interner, &Floats), None);
}
