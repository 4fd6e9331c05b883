use compiler::chunk::Chunk;
use compiler::common::{identifiers_equal, variant_eq, Opcode};
use compiler::compiler::{get_rule, increment_prec, ParseFn, Precedence};
use compiler::fun::{Fun, FunType};
use compiler::interner::Interner;
use compiler::native::Native;
use compiler::scanner::{Scanner, TokenType};
use compiler::text::{chars_of, decimal_width, push_chars, push_decimal, push_padded_decimal};
use compiler::value::{array_as_string, Heap, Value};

#[test]
fn opcodes_round_trip_through_their_bytes() {
    for byte in 0..=255u8 {
        match Opcode::from_byte(byte) {
            Some(op) => {
                assert!(byte < 27);
                assert_eq!(op.to_byte(), byte);
            }
            None => assert!(byte >= 27),
        }
    }
    assert_eq!(Opcode::Return.to_byte(), 0);
    assert_eq!(Opcode::Loop.to_byte(), 25);
    assert_eq!(Opcode::Call.to_byte(), 26);
    assert_eq!(Opcode::Pop.operand_count(), 0);
    assert_eq!(Opcode::Constant.operand_count(), 1);
    assert_eq!(Opcode::Call.operand_count(), 1);
    assert_eq!(Opcode::JumpIfFalse.operand_count(), 2);
    assert_eq!(Opcode::DefineGlobal.name(), "DefineGlobal");
}

#[test]
fn numerals_are_written_in_decimal() {
    let mut text = String::from("n=");
    push_decimal(&mut text, 0);
    push_decimal(&mut text, 907);
    assert_eq!(text, "n=0907");
    assert_eq!(decimal_width(0), 1);
    assert_eq!(decimal_width(9), 1);
    assert_eq!(decimal_width(10), 2);
    assert_eq!(decimal_width(usize::MAX), usize::MAX.to_string().len());
    let mut padded = String::new();
    push_padded_decimal(&mut padded, 7, 3, ' ');
    push_padded_decimal(&mut padded, 12345, 3, ' ');
    push_padded_decimal(&mut padded, 42, 4, '0');
    assert_eq!(padded, "  7123450042");
}

#[test]
fn characters_are_copied_in_order() {
    let chars = chars_of("héllo");
    assert_eq!(chars, vec!['h', 'é', 'l', 'l', 'o']);
    let mut text = String::from(">");
    push_chars(&mut text, &chars, 1, 4);
    push_chars(&mut text, &chars, 2, 2);
    assert_eq!(text, ">éll");
}

#[test]
fn a_chunk_grows_by_bytes_and_constants() {
    let mut chunk = Chunk::default();
    chunk.write_opcode(Opcode::Nil, 4);
    chunk.write_byte(9, 5);
    assert_eq!(chunk.code, vec![10, 9]);
    assert_eq!(chunk.line_at(0), Some(4));
    assert_eq!(chunk.line_at(1), Some(5));
    assert_eq!(chunk.line_at(2), None);
    assert_eq!(chunk.add_constant(Value::Nil), 0);
    assert_eq!(chunk.try_add_constant(Value::Bool(true)), Some(1));
    for _ in 2..256 {
        chunk.add_constant(Value::Nil);
    }
    assert_eq!(chunk.try_add_constant(Value::Nil), None);
    assert_eq!(chunk.constants.len(), 256);
    assert_eq!(chunk.constants[1], Value::Bool(true));
}

#[test]
fn a_new_function_is_empty() {
    let fun = Fun::new();
    assert_eq!(fun.arity, 0);
    assert_eq!(fun.name, None);
    assert!(fun.chunk.code.is_empty());
    assert!(Fun::default().chunk.constants.is_empty());
    assert_ne!(FunType::Script, FunType::Function);
}

#[test]
fn the_heap_hands_out_new_arrays() {
    let mut heap = Heap::new();
    let a = heap.allocate(2);
    let b = heap.allocate(2);
    assert_ne!(a, b);
    assert_ne!(Value::Array(a), Value::Array(b));
    assert_eq!(heap.len_of(a), Some(2));
    assert_eq!(heap.len_of(7), None);
    assert_eq!(heap.get(a, 1), Some(Value::Nil));
    assert_eq!(heap.get(a, 2), None);
    assert!(heap.set(a, 1, Value::Bool(true)));
    assert!(!heap.set(a, 2, Value::Bool(true)));
    assert!(!heap.set(9, 0, Value::Bool(true)));
    assert_eq!(heap.get(a, 1), Some(Value::Bool(true)));
    assert_eq!(heap.get(b, 1), Some(Value::Nil));
}

#[test]
fn values_know_their_kind() {
    assert_eq!(Value::Nil.kind_name(), "Nil");
    assert_eq!(Value::Bool(true).kind_name(), "Bool");
    assert_eq!(Value::Array(0).kind_name(), "Array");
    assert_eq!(Value::Function(1).kind_name(), "Function");
    assert_eq!(Value::NativeFunction(Native::Clock).kind_name(), "NativeFunction");
    assert!(Value::Nil.is_nil());
    assert!(!Value::Bool(false).is_nil());
}

#[test]
fn arrays_are_written_with_their_length() {
    assert_eq!(array_as_string(0, &vec![]), "Array<0 elements []>");
    assert_eq!(
        array_as_string(2, &vec!["1".to_string(), "Nil".to_string()]),
        "Array<2 elements [1, Nil]>"
    );
    assert_eq!(array_as_string(11, &vec!["x".to_string()]), "Array<11 elements [x, ...]>");
}

#[test]
fn natives_have_names_and_arities() {
    let natives = Native::all();
    assert_eq!(natives.len(), 18);
    for (i, native) in natives.iter().enumerate() {
        for other in &natives[i + 1..] {
            assert_ne!(native.name(), other.name());
        }
    }
    assert_eq!(Native::Clock.arity(), 0);
    assert_eq!(Native::ReadBool.arity(), 0);
    assert_eq!(Native::Rand.arity(), 0);
    assert_eq!(Native::StringAt.arity(), 2);
    assert_eq!(Native::IndexOf.arity(), 2);
    assert_eq!(Native::Sort.arity(), 1);
    assert_eq!(Native::StrLen.name(), "StrLen");
    assert!(Native::ReadString.takes_input());
    assert!(!Native::Print.takes_input());
}

#[test]
fn the_rule_table_follows_the_precedence_ladder() {
    assert_eq!(Precedence::Lowest.level(), 0);
    assert_eq!(Precedence::Primary.level(), 10);
    assert_eq!(increment_prec(Precedence::Term), Precedence::Factor);
    assert_eq!(increment_prec(Precedence::Call), Precedence::Primary);
    let minus = get_rule(TokenType::Minus);
    assert_eq!(minus.prefix, Some(ParseFn::Unary));
    assert_eq!(minus.infix, Some(ParseFn::Binary));
    assert_eq!(minus.precedence, Precedence::Term);
    assert_eq!(get_rule(TokenType::Modulo).precedence, Precedence::Factor);
    assert_eq!(get_rule(TokenType::LessEqual).infix, Some(ParseFn::Binary));
    assert_eq!(get_rule(TokenType::Or).precedence, Precedence::Or);
    assert_eq!(get_rule(TokenType::LeftParen).prefix, Some(ParseFn::Grouping));
    assert_eq!(get_rule(TokenType::EOF).prefix, None);
    assert_eq!(get_rule(TokenType::Semicolon).precedence, Precedence::Lowest);
}

#[test]
fn tokens_compare_by_their_text() {
    let mut scanner = Scanner::new("abc abc abd");
    let first = scanner.scan_token();
    let second = scanner.scan_token();
    let third = scanner.scan_token();
    assert!(identifiers_equal(&first, &second));
    assert!(!identifiers_equal(&first, &third));
    assert!(variant_eq(&Value::Bool(true), &Value::Bool(false)));
    assert!(!variant_eq(&Value::Bool(true), &Value::Nil));
    assert_eq!(first.clone().source, "abc");
}

#[test]
fn scanner_steps_character_by_character() {
    let mut scanner = Scanner::new("ab");
    assert_eq!(scanner.advance(), 'a');
    assert_eq!(scanner.advance(), 'b');
    let token = scanner.make_token(TokenType::Identifier);
    assert_eq!(token.source, "ab");
    assert_eq!(token.line, 1);
}

#[test]
fn interner_lookup_after_many_strings() {
    let mut interner = Interner::with_capacity(usize::MAX);
    let ids: Vec<_> = (0..100).map(|i| interner.intern(&format!("s{i}"))).collect();
    for (i, id) in ids.iter().enumerate() {
        assert_eq!(interner.lookup(id), format!("s{i}"));
        assert_eq!(interner.intern(&format!("s{i}")), *id);
    }
    assert_eq!(interner.len(), 100);
}

#[test]
fn number_tokens_are_listed_in_order() {
    assert_eq!(
        compiler::scanner::number_literals("var a = 1.5; print a + 20; // 3\n\"4\" x5 6"),
        vec!["1.5", "20", "6"]
    );
    assert!(compiler::scanner::number_literals("print nil;").is_empty());
}

#[test]
fn numerals_are_found_by_their_text() {
    let one = compiler::number::Number { bits: 1 };
    let two = compiler::number::Number { bits: 2 };
    let numerals = vec![
        compiler::number::Numeral { text: "1".to_string(), value: one },
        compiler::number::Numeral { text: "2".to_string(), value: two },
        compiler::number::Numeral { text: "1".to_string(), value: two },
    ];
    assert_eq!(compiler::number::find_numeral(&numerals, "1"), Some(one));
    assert_eq!(compiler::number::find_numeral(&numerals, "2"), Some(two));
    assert_eq!(compiler::number::find_numeral(&numerals, "3"), None);
    assert!(compiler::number::same_text("abc", "abc"));
    assert!(!compiler::number::same_text("abc", "abd"));
    assert!(!compiler::number::same_text("abc", "ab"));
}
