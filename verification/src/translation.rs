use crate::common::Opcode;
use crate::compiler::{rule_of, ParseFn, Precedence, MAX_LOCALS};
use crate::interner::{handle_of, has_room, interned};
use crate::number::{numeral_value, Numeral};
use crate::scanner::{lex, TokenType};
use crate::value::Value;
use vstd::prelude::*;

verus! {

/// A token as the translation sees it: its kind, its text and its line.
pub struct Tok {
    pub typ: TokenType,
    pub text: Seq<char>,
    pub line: usize,
}

/// A local variable as the translation sees it: its name, and the depth of
/// its scope, or -1 while its initialiser is translated.
pub struct Named {
    pub name: Seq<char>,
    pub depth: int,
}

/// The state of a translation: how far the source is read, the tokens at
/// hand, the code, lines and constants so far, the locals in scope, and the
/// strings that are interned.
pub struct Draft {
    pub source: Seq<char>,
    pub pos: int,
    pub line: int,
    pub current: Tok,
    pub previous: Tok,
    pub code: Seq<u8>,
    pub lines: Map<usize, usize>,
    pub constants: Seq<Value>,
    pub locals: Seq<Named>,
    pub scope_depth: int,
    pub strings: Seq<Seq<char>>,
}

impl Draft {
    /// The position lies within the source, and at its end once the
    /// end-of-text token is at hand.
    pub open spec fn valid(self) -> bool {
        &&& 0 <= self.pos <= self.source.len()
        &&& self.current.typ == TokenType::EOF ==> self.pos == self.source.len()
    }

    /// How much is left to translate: the characters that are not read,
    /// and the token at hand unless it is the end of the text.
    pub open spec fn left(self) -> nat {
        (self.source.len() - self.pos + (if self.current.typ == TokenType::EOF {
            0int
        } else {
            1int
        })) as nat
    }
}

/// A draft that is valid and has at most `bound` left; no draft otherwise.
/// Every part of a translation leaves at most as much as it found.
pub open spec fn within(draft: Option<Draft>, bound: int) -> Option<Draft> {
    match draft {
        Some(d) => if d.valid() && d.left() <= bound {
            Some(d)
        } else {
            None
        },
        None => None,
    }
}

/// Takes the next token. A text that is no token stops the translation.
pub open spec fn t_advance(d: Draft) -> Option<Draft> {
    let found = lex(d.source, d.pos, d.line);
    if found.typ == TokenType::Error {
        None
    } else {
        Some(
            Draft {
                previous: d.current,
                current: Tok { typ: found.typ, text: found.text, line: found.line as usize },
                pos: found.end,
                line: found.line,
                ..d
            },
        )
    }
}

/// Takes the token at hand, which has to be of kind `typ`.
pub open spec fn t_consume(d: Draft, typ: TokenType) -> Option<Draft> {
    if d.current.typ == typ {
        t_advance(d)
    } else {
        None
    }
}

/// Appends an instruction without operands, from the line of the token
/// that was taken last.
pub open spec fn t_emit(d: Draft, op: Opcode) -> Draft {
    Draft {
        code: d.code.push(op.byte()),
        lines: d.lines.insert(d.code.len() as usize, d.previous.line),
        ..d
    }
}

/// Appends an instruction with one operand.
pub open spec fn t_emit_operand(d: Draft, op: Opcode, operand: u8) -> Draft {
    Draft {
        code: d.code.push(op.byte()).push(operand),
        lines: d.lines.insert(d.code.len() as usize, d.previous.line).insert(
            (d.code.len() + 1) as usize,
            d.previous.line,
        ),
        ..d
    }
}

/// Appends an instruction with a two-byte operand.
pub open spec fn t_emit_wide(d: Draft, op: Opcode, high: u8, low: u8) -> Draft {
    Draft {
        code: d.code.push(op.byte()).push(high).push(low),
        lines: d.lines.insert(d.code.len() as usize, d.previous.line).insert(
            (d.code.len() + 1) as usize,
            d.previous.line,
        ).insert((d.code.len() + 2) as usize, d.previous.line),
        ..d
    }
}

/// Adds a constant; a chunk holds 256 at most.
pub open spec fn t_add_constant(d: Draft, value: Value) -> Option<Draft> {
    if d.constants.len() < 256 {
        Some(Draft { constants: d.constants.push(value), ..d })
    } else {
        None
    }
}

/// Adds a constant and appends the instruction that loads it.
pub open spec fn t_emit_constant(d: Draft, value: Value) -> Option<Draft> {
    match t_add_constant(d, value) {
        Some(added) => Some(t_emit_operand(added, Opcode::Constant, d.constants.len() as u8)),
        None => None,
    }
}

/// Appends a jump whose target is not known yet; its operand is at
/// `d.code.len() + 1`.
pub open spec fn t_jump(d: Draft, op: Opcode) -> Draft {
    t_emit_wide(d, op, 0xff, 0xff)
}

/// Makes the jump whose operand is at `offset` land at the end of the
/// code; a jump reaches over 65535 bytes at most.
pub open spec fn t_patch(d: Draft, offset: int) -> Option<Draft> {
    let jump = d.code.len() - offset - 2;
    if jump > 65535 {
        None
    } else {
        Some(
            Draft {
                code: d.code.update(offset, ((jump / 256) % 256) as u8).update(
                    offset + 1,
                    (jump % 256) as u8,
                ),
                ..d
            },
        )
    }
}

/// Appends a loop back to `start`; a loop reaches over 65535 bytes at
/// most.
pub open spec fn t_loop(d: Draft, start: int) -> Option<Draft> {
    let distance = d.code.len() + 3 - start;
    if distance > 65535 {
        None
    } else {
        Some(t_emit_wide(d, Opcode::Loop, ((distance / 256) % 256) as u8, (distance % 256) as u8))
    }
}

/// Interns `text`; an interner holds 2^32 - 1 strings at most.
pub open spec fn t_intern(d: Draft, text: Seq<char>) -> Option<Draft> {
    if has_room(d.strings, text) {
        Some(Draft { strings: interned(d.strings, text), ..d })
    } else {
        None
    }
}

/// Interns a name and adds it to the constants as an identifier; the
/// constant's index is `d.constants.len()`.
pub open spec fn t_identifier_constant(d: Draft, name: Seq<char>) -> Option<Draft> {
    match t_intern(d, name) {
        Some(interned) => t_add_constant(interned, Value::Identifier(handle_of(d.strings, name))),
        None => None,
    }
}

/// The slot of the initialised local with this name that was declared
/// last among `locals[..upto]`.
pub open spec fn t_resolve(locals: Seq<Named>, name: Seq<char>, upto: int) -> Option<int>
    decreases upto,
{
    if upto <= 0 || upto > locals.len() {
        None
    } else if locals[upto - 1].depth != -1 && locals[upto - 1].name == name {
        Some(upto - 1)
    } else {
        t_resolve(locals, name, upto - 1)
    }
}

/// Whether a local of the open scope among `locals[..upto]` has this
/// name.
pub open spec fn t_clashes(locals: Seq<Named>, name: Seq<char>, scope_depth: int, upto: int)
    -> bool
    decreases upto,
{
    if upto <= 0 || upto > locals.len() {
        false
    } else if locals[upto - 1].depth != -1 && locals[upto - 1].depth < scope_depth {
        false
    } else {
        locals[upto - 1].name == name || t_clashes(locals, name, scope_depth, upto - 1)
    }
}

/// Declares the variable whose name was just taken (or `array`, the name
/// of an array) as a local, unless it is a global. A scope holds one local
/// of a name, and 256 locals are alive at most.
pub open spec fn t_declare_local(d: Draft, array: Option<Seq<char>>) -> Option<Draft> {
    if d.scope_depth == 0 && array is None {
        Some(d)
    } else {
        let name = match array {
            Some(name) => name,
            None => d.previous.text,
        };
        if t_clashes(d.locals, name, d.scope_depth, d.locals.len() as int) || d.locals.len()
            >= MAX_LOCALS {
            None
        } else {
            Some(Draft { locals: d.locals.push(Named { name, depth: -1 }), ..d })
        }
    }
}

/// Ends the declaration of a variable: marks a local as initialised, or
/// defines a global.
pub open spec fn t_define_variable(d: Draft, global: u8, is_array: bool) -> Draft {
    if d.scope_depth > 0 || is_array {
        Draft {
            locals: d.locals.update(
                d.locals.len() - 1,
                Named { name: d.locals.last().name, depth: d.scope_depth },
            ),
            ..d
        }
    } else {
        t_emit_operand(d, Opcode::DefineGlobal, global)
    }
}

/// Forgets the locals of the scope that was closed, one `POP` for each.
pub open spec fn t_pop_locals(d: Draft) -> Draft
    decreases d.locals.len(),
{
    if d.locals.len() > 0 && d.locals.last().depth > d.scope_depth {
        t_pop_locals(Draft { locals: d.locals.drop_last(), ..t_emit(d, Opcode::Pop) })
    } else {
        d
    }
}

/// Closes the innermost scope.
pub open spec fn t_end_scope(d: Draft) -> Draft {
    t_pop_locals(Draft { scope_depth: d.scope_depth - 1, ..d })
}

/// The next tighter precedence.
pub open spec fn next_precedence(p: Precedence) -> Precedence {
    match p {
        Precedence::Lowest => Precedence::Assignment,
        Precedence::Assignment => Precedence::Or,
        Precedence::Or => Precedence::And,
        Precedence::And => Precedence::Equality,
        Precedence::Equality => Precedence::Comparison,
        Precedence::Comparison => Precedence::Term,
        Precedence::Term => Precedence::Factor,
        Precedence::Factor => Precedence::Unary,
        Precedence::Unary => Precedence::Call,
        _ => Precedence::Primary,
    }
}

/// Translates a number: the constant that `numbers` gives for the token's
/// text.
pub open spec fn t_number(d: Draft, numbers: Seq<Numeral>) -> Option<Draft> {
    match numeral_value(numbers, d.previous.text, 0) {
        Some(value) => t_emit_constant(d, Value::Number(value)),
        None => None,
    }
}

/// The text of a string literal without its quotes.
pub open spec fn unquoted(text: Seq<char>) -> Seq<char> {
    if text.len() >= 2 {
        text.subrange(1, text.len() - 1)
    } else {
        Seq::empty()
    }
}

/// Translates a string literal: the constant of its text, interned.
pub open spec fn t_string(d: Draft) -> Option<Draft> {
    match t_intern(d, unquoted(d.previous.text)) {
        Some(interned) => t_emit_constant(
            interned,
            Value::Str(handle_of(d.strings, unquoted(d.previous.text))),
        ),
        None => None,
    }
}

/// Translates `false`, `nil` or `true`.
pub open spec fn t_literal(d: Draft) -> Draft {
    match d.previous.typ {
        TokenType::False => t_emit(d, Opcode::False),
        TokenType::Nil => t_emit(d, Opcode::Nil),
        _ => t_emit(d, Opcode::True),
    }
}

/// The instructions of a binary operator.
pub open spec fn t_operator(d: Draft, operator: TokenType) -> Draft {
    match operator {
        TokenType::Plus => t_emit(d, Opcode::Add),
        TokenType::Minus => t_emit(d, Opcode::Subtract),
        TokenType::Star => t_emit(d, Opcode::Multiply),
        TokenType::Modulo => t_emit(d, Opcode::Modulo),
        TokenType::Slash => t_emit(d, Opcode::Divide),
        TokenType::BangEqual => t_emit(t_emit(d, Opcode::Equal), Opcode::Not),
        TokenType::EqualEqual => t_emit(d, Opcode::Equal),
        TokenType::Greater => t_emit(d, Opcode::Greater),
        TokenType::GreaterEqual => t_emit(t_emit(d, Opcode::Less), Opcode::Not),
        TokenType::Less => t_emit(d, Opcode::Less),
        _ => t_emit(t_emit(d, Opcode::Greater), Opcode::Not),
    }
}

/// Translates an expression.
pub open spec fn t_expression(d: Draft, numbers: Seq<Numeral>) -> Option<Draft>
    decreases d.left(), 2int,
{
    t_parse_precedence(d, Precedence::Assignment, numbers)
}

/// Translates an expression in parentheses, after the `(`.
pub open spec fn t_grouping(d: Draft, numbers: Seq<Numeral>) -> Option<Draft>
    decreases d.left(), 3int,
{
    match t_expression(d, numbers) {
        Some(inner) => t_consume(inner, TokenType::RightParen),
        None => None,
    }
}

/// Translates the operand of `-` or `!` and then the operator.
pub open spec fn t_unary(d: Draft, numbers: Seq<Numeral>) -> Option<Draft>
    decreases d.left(), 2int,
{
    match t_parse_precedence(d, Precedence::Unary, numbers) {
        Some(operand) => Some(
            match d.previous.typ {
                TokenType::Minus => t_emit(operand, Opcode::Negate),
                _ => t_emit(operand, Opcode::Not),
            },
        ),
        None => None,
    }
}

/// Translates the right operand of a binary operator and then the
/// operator.
pub open spec fn t_binary(d: Draft, numbers: Seq<Numeral>) -> Option<Draft>
    decreases d.left(), 2int,
{
    match t_parse_precedence(
        d,
        next_precedence(rule_of(d.previous.typ).precedence),
        numbers,
    ) {
        Some(operand) => Some(t_operator(operand, d.previous.typ)),
        None => None,
    }
}

/// Translates the index of a variable: the expression in brackets, or the
/// constant `Nil` where there is none.
pub open spec fn t_index(d: Draft, numbers: Seq<Numeral>) -> Option<Draft>
    decreases d.left(), 3int,
{
    if d.current.typ == TokenType::LeftBracket {
        match within(t_advance(d), d.left() - 1) {
            Some(opened) => match t_expression(opened, numbers) {
                Some(inner) => t_consume(inner, TokenType::RightBracket),
                None => None,
            },
            None => None,
        }
    } else {
        t_emit_constant(d, Value::Nil)
    }
}

/// Translates the use of a variable, after its name: its index, and then
/// a read of it, or an assignment to it if `=` follows and an assignment
/// may stand here. `local` says whether the variable is a local, and `arg`
/// is its slot, or the index of the constant with its name.
pub open spec fn t_access(
    d: Draft,
    local: bool,
    arg: u8,
    can_assign: bool,
    numbers: Seq<Numeral>,
) -> Option<Draft>
    decreases d.left(), 4int,
{
    match within(t_index(d, numbers), d.left() as int) {
        Some(indexed) => if can_assign && indexed.current.typ == TokenType::Equal {
            match within(t_advance(indexed), d.left() - 1) {
                Some(assigned) => match t_expression(assigned, numbers) {
                    Some(valued) => Some(
                        t_emit_operand(
                            valued,
                            if local {
                                Opcode::SetLocal
                            } else {
                                Opcode::SetGlobal
                            },
                            arg,
                        ),
                    ),
                    None => None,
                },
                None => None,
            }
        } else {
            Some(
                t_emit_operand(
                    indexed,
                    if local {
                        Opcode::GetLocal
                    } else {
                        Opcode::GetGlobal
                    },
                    arg,
                ),
            )
        },
        None => None,
    }
}

/// Translates a read of the variable `name`, or an assignment to it if `=`
/// follows and an assignment may stand here. The variable is the local of
/// this name that was declared last, or else a global.
pub open spec fn t_named_variable(
    d: Draft,
    name: Seq<char>,
    can_assign: bool,
    numbers: Seq<Numeral>,
) -> Option<Draft>
    decreases d.left(), 5int,
{
    match t_resolve(d.locals, name, d.locals.len() as int) {
        Some(slot) => t_access(d, true, slot as u8, can_assign, numbers),
        None => match within(t_identifier_constant(d, name), d.left() as int) {
            Some(named) => t_access(named, false, d.constants.len() as u8, can_assign, numbers),
            None => None,
        },
    }
}

/// Translates the right operand of `and`.
pub open spec fn t_and(d: Draft, numbers: Seq<Numeral>) -> Option<Draft>
    decreases d.left(), 2int,
{
    match t_parse_precedence(
        t_emit(t_jump(d, Opcode::JumpIfFalse), Opcode::Pop),
        Precedence::And,
        numbers,
    ) {
        Some(operand) => t_patch(operand, d.code.len() as int + 1),
        None => None,
    }
}

/// Translates the right operand of `or`.
pub open spec fn t_or(d: Draft, numbers: Seq<Numeral>) -> Option<Draft>
    decreases d.left(), 2int,
{
    match t_patch(t_jump(t_jump(d, Opcode::JumpIfFalse), Opcode::Jump), d.code.len() as int + 1) {
        Some(patched) => match t_parse_precedence(
            t_emit(patched, Opcode::Pop),
            Precedence::Or,
            numbers,
        ) {
            Some(operand) => t_patch(operand, d.code.len() as int + 4),
            None => None,
        },
        None => None,
    }
}

/// Translates what starts with the token that was just taken.
pub open spec fn t_prefix(d: Draft, rule: ParseFn, can_assign: bool, numbers: Seq<Numeral>)
    -> Option<Draft>
    decreases d.left(), 6int,
{
    match rule {
        ParseFn::Grouping => t_grouping(d, numbers),
        ParseFn::Unary => t_unary(d, numbers),
        ParseFn::Variable => t_named_variable(d, d.previous.text, can_assign, numbers),
        ParseFn::String => t_string(d),
        ParseFn::Number => t_number(d, numbers),
        _ => Some(t_literal(d)),
    }
}

/// Translates what goes on, after a left operand, with the token that was
/// just taken.
pub open spec fn t_infix(d: Draft, rule: ParseFn, numbers: Seq<Numeral>) -> Option<Draft>
    decreases d.left(), 6int,
{
    match rule {
        ParseFn::And => t_and(d, numbers),
        ParseFn::Or => t_or(d, numbers),
        _ => t_binary(d, numbers),
    }
}

/// Translates the operators that bind at least as tightly as `precedence`,
/// each with its right operand, after their left operand.
pub open spec fn t_operators(d: Draft, precedence: Precedence, numbers: Seq<Numeral>) -> Option<
    Draft,
>
    decreases d.left(), 7int,
{
    if precedence.level_spec() <= rule_of(d.current.typ).precedence.level_spec() {
        match within(t_advance(d), d.left() - 1) {
            Some(taken) => match rule_of(taken.previous.typ).infix {
                Some(rule) => match within(t_infix(taken, rule, numbers), d.left() - 1) {
                    Some(applied) => t_operators(applied, precedence, numbers),
                    None => None,
                },
                None => None,
            },
            None => None,
        }
    } else {
        Some(d)
    }
}

/// Ends an expression: where an assignment may stand, no `=` may follow an
/// expression that is no variable.
pub open spec fn t_finish(whole: Option<Draft>, can_assign: bool) -> Option<Draft> {
    match whole {
        Some(whole) => if can_assign && whole.current.typ == TokenType::Equal {
            None
        } else {
            Some(whole)
        },
        None => None,
    }
}

/// Translates an expression whose operators bind at least as tightly as
/// `precedence`.
pub open spec fn t_parse_precedence(d: Draft, precedence: Precedence, numbers: Seq<Numeral>)
    -> Option<Draft>
    decreases d.left(), 1int,
{
    let can_assign = precedence.level_spec() <= Precedence::Assignment.level_spec();
    if d.current.typ == TokenType::EOF {
        None
    } else {
        match within(t_advance(d), d.left() - 1) {
            Some(taken) => match rule_of(taken.previous.typ).prefix {
                Some(rule) => match within(
                    t_prefix(taken, rule, can_assign, numbers),
                    d.left() - 1,
                ) {
                    Some(first) => t_finish(t_operators(first, precedence, numbers), can_assign),
                    None => None,
                },
                None => None,
            },
            None => None,
        }
    }
}

/// What taking the name of a variable that is being declared gives: the
/// draft, the index of the constant with a global's name (0 for a local),
/// and whether `[` follows the name.
pub struct VariableName {
    pub draft: Draft,
    pub global: u8,
    pub is_array: bool,
}

/// Takes the name of a variable that is being declared, and declares it as
/// a local if it is one.
pub open spec fn t_parse_variable(d: Draft) -> Option<VariableName> {
    match t_consume(d, TokenType::Identifier) {
        Some(named) => {
            let is_array = named.current.typ == TokenType::LeftBracket;
            let opened = if is_array {
                t_advance(named)
            } else {
                Some(named)
            };
            match opened {
                Some(opened) => match t_declare_local(
                    opened,
                    if is_array {
                        Some(named.previous.text)
                    } else {
                        None
                    },
                ) {
                    Some(declared) => if declared.scope_depth > 0 || is_array {
                        Some(VariableName { draft: declared, global: 0, is_array })
                    } else {
                        match t_identifier_constant(declared, declared.previous.text) {
                            Some(constant) => Some(
                                VariableName {
                                    draft: constant,
                                    global: declared.constants.len() as u8,
                                    is_array: false,
                                },
                            ),
                            None => None,
                        }
                    },
                    None => None,
                },
                None => None,
            }
        },
        None => None,
    }
}

/// Translates the declaration of a variable, after `var`.
pub open spec fn t_var_declaration(d: Draft, numbers: Seq<Numeral>) -> Option<Draft>
    decreases d.left(), 3int,
{
    match t_parse_variable(d) {
        Some(variable) => {
            let valued = match within(Some(variable.draft), d.left() as int) {
                Some(named) => if variable.is_array {
                    match t_expression(named, numbers) {
                        Some(sized) => t_consume(
                            t_emit(sized, Opcode::DeclareArray),
                            TokenType::RightBracket,
                        ),
                        None => None,
                    }
                } else if named.current.typ == TokenType::Equal {
                    match within(t_advance(named), d.left() as int) {
                        Some(assigned) => t_expression(assigned, numbers),
                        None => None,
                    }
                } else {
                    Some(t_emit(named, Opcode::Nil))
                },
                None => None,
            };
            match valued {
                Some(valued) => match t_consume(valued, TokenType::Semicolon) {
                    Some(ended) => Some(
                        t_define_variable(ended, variable.global, variable.is_array),
                    ),
                    None => None,
                },
                None => None,
            }
        },
        None => None,
    }
}

/// Translates an expression statement.
pub open spec fn t_expression_statement(d: Draft, numbers: Seq<Numeral>) -> Option<Draft>
    decreases d.left(), 3int,
{
    match t_expression(d, numbers) {
        Some(valued) => match t_consume(valued, TokenType::Semicolon) {
            Some(ended) => Some(t_emit(ended, Opcode::Pop)),
            None => None,
        },
        None => None,
    }
}

/// Translates a print statement, after `print`.
pub open spec fn t_print_statement(d: Draft, numbers: Seq<Numeral>) -> Option<Draft>
    decreases d.left(), 3int,
{
    match t_expression(d, numbers) {
        Some(valued) => match t_consume(valued, TokenType::Semicolon) {
            Some(ended) => Some(t_emit(ended, Opcode::Print)),
            None => None,
        },
        None => None,
    }
}

/// Translates the declarations of a block up to its `}`.
pub open spec fn t_block(d: Draft, numbers: Seq<Numeral>) -> Option<Draft>
    decreases d.left(), 6int,
{
    if d.current.typ != TokenType::RightBrace && d.current.typ != TokenType::EOF {
        match within(t_declaration(d, numbers), d.left() - 1) {
            Some(declared) => t_block(declared, numbers),
            None => None,
        }
    } else {
        t_consume(d, TokenType::RightBrace)
    }
}

/// Translates a block in a scope of its own, after the `{`.
pub open spec fn t_scoped_block(d: Draft, numbers: Seq<Numeral>) -> Option<Draft>
    decreases d.left(), 7int,
{
    match t_block(Draft { scope_depth: d.scope_depth + 1, ..d }, numbers) {
        Some(inner) => Some(t_end_scope(inner)),
        None => None,
    }
}

/// What a condition and the statement that it guards give: the draft, and
/// the offset of the operand of the jump that is taken when the condition
/// is false.
pub struct Guarded {
    pub draft: Draft,
    pub jump: int,
}

/// Translates a condition in parentheses and the statement that it
/// guards: the condition, a jump for a condition that is false, a `POP`
/// that drops the condition, and the statement.
pub open spec fn t_guarded(d: Draft, numbers: Seq<Numeral>) -> Option<Guarded>
    decreases d.left(), 5int,
{
    match within(t_consume(d, TokenType::LeftParen), d.left() as int) {
        Some(opened) => match within(t_expression(opened, numbers), d.left() as int) {
            Some(condition) => match within(
                t_consume(condition, TokenType::RightParen),
                d.left() as int,
            ) {
                Some(closed) => match t_statement(
                    t_emit(t_jump(closed, Opcode::JumpIfFalse), Opcode::Pop),
                    numbers,
                ) {
                    Some(body) => Some(
                        Guarded { draft: body, jump: closed.code.len() as int + 1 },
                    ),
                    None => None,
                },
                None => None,
            },
            None => None,
        },
        None => None,
    }
}

/// Translates an `if` statement, after `if`.
pub open spec fn t_if_statement(d: Draft, numbers: Seq<Numeral>) -> Option<Draft>
    decreases d.left(), 6int,
{
    match t_guarded(d, numbers) {
        Some(guarded) => match within(Some(guarded.draft), d.left() as int) {
            Some(then) => match t_patch(t_jump(then, Opcode::Jump), guarded.jump) {
                Some(patched) => {
                    let popped = t_emit(patched, Opcode::Pop);
                    let otherwise = if popped.current.typ == TokenType::Else {
                        match within(t_advance(popped), d.left() as int) {
                            Some(taken) => t_statement(taken, numbers),
                            None => None,
                        }
                    } else {
                        Some(popped)
                    };
                    match otherwise {
                        Some(otherwise) => t_patch(otherwise, then.code.len() as int + 1),
                        None => None,
                    }
                },
                None => None,
            },
            None => None,
        },
        None => None,
    }
}

/// Translates a `while` statement, after `while`.
pub open spec fn t_while_statement(d: Draft, numbers: Seq<Numeral>) -> Option<Draft>
    decreases d.left(), 6int,
{
    match t_guarded(d, numbers) {
        Some(guarded) => match t_loop(guarded.draft, d.code.len() as int) {
            Some(looped) => match t_patch(looped, guarded.jump) {
                Some(patched) => Some(t_emit(patched, Opcode::Pop)),
                None => None,
            },
            None => None,
        },
        None => None,
    }
}

/// What the clauses of a `for` loop give: the draft, the offset of the
/// operand of the jump that leaves the loop, if the loop has a condition,
/// and where the loop starts again.
pub struct LoopHead {
    pub draft: Draft,
    pub exit: Option<int>,
    pub start: int,
}

/// Translates the initialiser of a `for` loop, after the `(`.
pub open spec fn t_for_initializer(d: Draft, numbers: Seq<Numeral>) -> Option<Draft>
    decreases d.left(), 4int,
{
    if d.current.typ == TokenType::Semicolon {
        t_advance(d)
    } else if d.current.typ == TokenType::Var {
        match within(t_advance(d), d.left() as int) {
            Some(taken) => t_var_declaration(taken, numbers),
            None => None,
        }
    } else {
        t_expression_statement(d, numbers)
    }
}

/// Translates the condition of a `for` loop and its `;`.
pub open spec fn t_for_condition(d: Draft, numbers: Seq<Numeral>) -> Option<LoopHead>
    decreases d.left(), 3int,
{
    if d.current.typ == TokenType::Semicolon {
        match t_advance(d) {
            Some(taken) => Some(LoopHead { draft: taken, exit: None, start: d.code.len() as int }),
            None => None,
        }
    } else {
        match t_expression(d, numbers) {
            Some(condition) => match t_consume(condition, TokenType::Semicolon) {
                Some(ended) => Some(
                    LoopHead {
                        draft: t_emit(t_jump(ended, Opcode::JumpIfFalse), Opcode::Pop),
                        exit: Some(ended.code.len() as int + 1),
                        start: d.code.len() as int,
                    },
                ),
                None => None,
            },
            None => None,
        }
    }
}

/// Translates the increment of a `for` loop and the `)`.
pub open spec fn t_for_increment(head: LoopHead, numbers: Seq<Numeral>) -> Option<LoopHead>
    decreases head.draft.left(), 3int,
{
    let d = head.draft;
    if d.current.typ == TokenType::RightParen {
        match t_advance(d) {
            Some(taken) => Some(LoopHead { draft: taken, ..head }),
            None => None,
        }
    } else {
        match t_expression(t_jump(d, Opcode::Jump), numbers) {
            Some(increment) => match t_consume(
                t_emit(increment, Opcode::Pop),
                TokenType::RightParen,
            ) {
                Some(closed) => match t_loop(closed, head.start) {
                    Some(looped) => match t_patch(looped, d.code.len() as int + 1) {
                        Some(patched) => Some(
                            LoopHead {
                                draft: patched,
                                exit: head.exit,
                                start: d.code.len() as int + 3,
                            },
                        ),
                        None => None,
                    },
                    None => None,
                },
                None => None,
            },
            None => None,
        }
    }
}

/// Translates the clauses of a `for` statement in parentheses, after
/// `for`, in a scope of their own.
#[verifier::opaque]
pub open spec fn t_for_clauses(d: Draft, numbers: Seq<Numeral>) -> Option<LoopHead>
    decreases d.left(), 5int,
{
    match within(
        t_consume(Draft { scope_depth: d.scope_depth + 1, ..d }, TokenType::LeftParen),
        d.left() as int,
    ) {
        Some(opened) => match within(t_for_initializer(opened, numbers), d.left() as int) {
            Some(initialised) => match t_for_condition(initialised, numbers) {
                Some(head) => match within(Some(head.draft), d.left() as int) {
                    Some(_) => t_for_increment(head, numbers),
                    None => None,
                },
                None => None,
            },
            None => None,
        },
        None => None,
    }
}

/// Ends a `for` statement after its body: loops back, lets the jump out
/// of the loop land, and closes the scope.
pub open spec fn t_for_end(body: Draft, head: LoopHead) -> Option<Draft> {
    match t_loop(body, head.start) {
        Some(looped) => match head.exit {
            Some(exit) => match t_patch(looped, exit) {
                Some(patched) => Some(t_end_scope(t_emit(patched, Opcode::Pop))),
                None => None,
            },
            None => Some(t_end_scope(looped)),
        },
        None => None,
    }
}

/// Translates a `for` statement, after `for`.
pub open spec fn t_for_statement(d: Draft, numbers: Seq<Numeral>) -> Option<Draft>
    decreases d.left(), 6int,
{
    match t_for_clauses(d, numbers) {
        Some(head) => match within(Some(head.draft), d.left() as int) {
            Some(clauses) => match t_statement(clauses, numbers) {
                Some(body) => t_for_end(body, head),
                None => None,
            },
            None => None,
        },
        None => None,
    }
}

/// Translates a statement.
pub open spec fn t_statement(d: Draft, numbers: Seq<Numeral>) -> Option<Draft>
    decreases d.left(), 4int,
{
    if d.current.typ == TokenType::Print {
        match within(t_advance(d), d.left() - 1) {
            Some(taken) => t_print_statement(taken, numbers),
            None => None,
        }
    } else if d.current.typ == TokenType::If {
        match within(t_advance(d), d.left() - 1) {
            Some(taken) => t_if_statement(taken, numbers),
            None => None,
        }
    } else if d.current.typ == TokenType::While {
        match within(t_advance(d), d.left() - 1) {
            Some(taken) => t_while_statement(taken, numbers),
            None => None,
        }
    } else if d.current.typ == TokenType::For {
        match within(t_advance(d), d.left() - 1) {
            Some(taken) => t_for_statement(taken, numbers),
            None => None,
        }
    } else if d.current.typ == TokenType::LeftBrace {
        match within(t_advance(d), d.left() - 1) {
            Some(taken) => t_scoped_block(taken, numbers),
            None => None,
        }
    } else {
        t_expression_statement(d, numbers)
    }
}

/// Translates a declaration: of a variable after `var`, or else a
/// statement.
pub open spec fn t_declaration(d: Draft, numbers: Seq<Numeral>) -> Option<Draft>
    decreases d.left(), 5int,
{
    if d.current.typ == TokenType::Var {
        match within(t_advance(d), d.left() - 1) {
            Some(taken) => t_var_declaration(taken, numbers),
            None => None,
        }
    } else {
        t_statement(d, numbers)
    }
}

/// Translates declarations up to the end of the text, and ends the code
/// with `RETURN`.
pub open spec fn t_program(d: Draft, numbers: Seq<Numeral>) -> Option<Draft>
    decreases d.left(), 8int,
{
    if d.current.typ == TokenType::EOF {
        match t_advance(d) {
            Some(ended) => Some(t_emit(ended, Opcode::Return)),
            None => None,
        }
    } else {
        match within(t_declaration(d, numbers), d.left() - 1) {
            Some(declared) => t_program(declared, numbers),
            None => None,
        }
    }
}

/// The draft that a translation starts with.
pub open spec fn first_draft(source: Seq<char>, strings: Seq<Seq<char>>) -> Draft {
    Draft {
        source,
        pos: 0,
        line: 1,
        current: Tok { typ: TokenType::Error, text: Seq::empty(), line: 0 },
        previous: Tok { typ: TokenType::Error, text: Seq::empty(), line: 0 },
        code: Seq::empty(),
        lines: Map::empty(),
        constants: Seq::empty(),
        locals: Seq::empty(),
        scope_depth: 0,
        strings,
    }
}

/// The translation of a source text: the code, lines and constants of the
/// script, and the strings that the interner holds afterwards. A source
/// that is no program, or that is too large in one of its parts, has no
/// translation.
pub open spec fn translation(source: Seq<char>, strings: Seq<Seq<char>>, numbers: Seq<Numeral>)
    -> Option<Draft> {
    if source.len() >= isize::MAX {
        None
    } else {
        match t_advance(first_draft(source, strings)) {
            Some(first) => t_program(first, numbers),
            None => None,
        }
    }
}

} // verus!
