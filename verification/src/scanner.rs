use crate::text::{chars_of, decimal, push_chars, push_decimal};
use vstd::prelude::*;

verus! {

/// The kinds of token.
#[derive(Clone, Copy, PartialEq, Eq, Structural, Debug, Hash)]
pub enum TokenType {
    // Single character
    LeftParen,
    RightParen,
    LeftBrace,
    RightBrace,
    LeftBracket,
    RightBracket,
    Comma,
    Dot,
    Minus,
    Plus,
    Semicolon,
    Slash,
    Star,
    Modulo,
    // One or two characters
    Bang,
    BangEqual,
    Equal,
    EqualEqual,
    Greater,
    GreaterEqual,
    Less,
    LessEqual,
    // Literals
    Identifier,
    String,
    Number,
    // Keywords
    And,
    Class,
    Else,
    False,
    For,
    Fun,
    If,
    Nil,
    Or,
    Print,
    Return,
    Super,
    This,
    True,
    Var,
    While,
    Error,
    EOF,
}

/// A token: its kind, its text, and the line it was scanned on.
///
/// The text of an `Error` token is the error's message.
#[derive(Debug)]
pub struct Token {
    pub typ: TokenType,
    pub source: String,
    pub line: usize,
}

impl Clone for Token {
    fn clone(&self) -> (t: Token)
        ensures
            t == *self,
    {
        Token { typ: self.typ, source: self.source.clone(), line: self.line }
    }
}

impl Default for Token {
    fn default() -> (t: Token)
        ensures
            t.typ == TokenType::Error,
            t.source@.len() == 0,
            t.line == 0,
    {
        Token::new()
    }
}

impl Token {
    /// A placeholder token: an `Error` with no text on line 0.
    pub fn new() -> (t: Token)
        ensures
            t.typ == TokenType::Error,
            t.source@.len() == 0,
            t.line == 0,
    {
        Token { typ: TokenType::Error, source: String::new(), line: 0 }
    }
}

/// Whether `char::is_alphabetic` holds of a character.
pub uninterp spec fn alphabetic(c: char) -> bool;

/// Whether `char::is_alphanumeric` holds of a character.
pub uninterp spec fn alphanumeric(c: char) -> bool;

/// `char::is_alphabetic`: whether the character has Unicode's `Alphabetic`
/// property.
pub assume_specification[ char::is_alphabetic ](c: char) -> (r: bool)
    ensures
        r == alphabetic(c),
;

/// `char::is_alphanumeric`: whether the character is alphabetic or numeric
/// in Unicode's sense.
pub assume_specification[ char::is_alphanumeric ](c: char) -> (r: bool)
    ensures
        r == alphanumeric(c),
;

/// The characters that separate tokens.
pub open spec fn is_space(c: char) -> bool {
    c == ' ' || c == '\r' || c == '\t' || c == '\n'
}

/// The ten decimal digits.
pub open spec fn is_digit(c: char) -> bool {
    '0' <= c && c <= '9'
}

/// A maximal stretch of like characters.
#[derive(Clone, Copy, PartialEq, Eq, Structural, Debug)]
pub enum Run {
    /// White space between tokens.
    Space,
    /// The digits of a number.
    Digits,
    /// The letters and digits of an identifier.
    Word,
    /// The rest of a line.
    Line,
    /// The inside of a string literal.
    Quoted,
}

/// Whether character `c` continues a run of this kind.
pub open spec fn continues(run: Run, c: char) -> bool {
    match run {
        Run::Space => is_space(c),
        Run::Digits => is_digit(c),
        Run::Word => alphanumeric(c),
        Run::Line => c != '\n',
        Run::Quoted => c != '"',
    }
}

/// Where the run of characters that starts at `i` ends: the first position
/// from `i` on that does not continue it, or the end of the text.
pub open spec fn run_end(s: Seq<char>, i: int, run: Run) -> int
    decreases s.len() - i,
{
    if 0 <= i < s.len() && continues(run, s[i]) {
        run_end(s, i + 1, run)
    } else {
        i
    }
}

/// The next line number; it stops counting at the largest `usize`.
pub open spec fn bump(line: int) -> int {
    if line < usize::MAX {
        line + 1
    } else {
        line
    }
}

/// The line number after `s[from..to]` has been passed, starting from `line`.
pub open spec fn line_after(s: Seq<char>, from: int, to: int, line: int) -> int
    decreases to - from,
{
    if from >= to {
        line
    } else {
        line_after(
            s,
            from + 1,
            to,
            if s[from] == '\n' {
                bump(line)
            } else {
                line
            },
        )
    }
}

/// Where the blank text that starts at `i` ends: white space, and comments
/// from `//` to the end of their line. `in_comment` says that `i` is inside
/// a comment.
pub open spec fn blank_end(s: Seq<char>, i: int, in_comment: bool) -> int
    decreases s.len() - i, (if in_comment { 1int } else { 0int }),
{
    if i < 0 || i >= s.len() {
        i
    } else if in_comment {
        if s[i] == '\n' {
            blank_end(s, i, false)
        } else {
            blank_end(s, i + 1, true)
        }
    } else if is_space(s[i]) {
        blank_end(s, i + 1, false)
    } else if s[i] == '/' && i + 1 < s.len() && s[i + 1] == '/' {
        blank_end(s, i + 1, true)
    } else {
        i
    }
}

/// The kind of a token that is one fixed character.
pub open spec fn punctuation(c: char) -> Option<TokenType> {
    if c == '(' {
        Some(TokenType::LeftParen)
    } else if c == ')' {
        Some(TokenType::RightParen)
    } else if c == '{' {
        Some(TokenType::LeftBrace)
    } else if c == '}' {
        Some(TokenType::RightBrace)
    } else if c == '[' {
        Some(TokenType::LeftBracket)
    } else if c == ']' {
        Some(TokenType::RightBracket)
    } else if c == ',' {
        Some(TokenType::Comma)
    } else if c == '.' {
        Some(TokenType::Dot)
    } else if c == '-' {
        Some(TokenType::Minus)
    } else if c == '+' {
        Some(TokenType::Plus)
    } else if c == ';' {
        Some(TokenType::Semicolon)
    } else if c == '*' {
        Some(TokenType::Star)
    } else if c == '%' {
        Some(TokenType::Modulo)
    } else if c == '/' {
        Some(TokenType::Slash)
    } else {
        None
    }
}

/// Whether `c` starts a token that may go on with `=`.
pub open spec fn is_operator(c: char) -> bool {
    c == '!' || c == '=' || c == '<' || c == '>'
}

/// The kind of the token that is the operator character `c`, alone or
/// followed by `=`.
pub open spec fn operator(c: char, followed: bool) -> TokenType {
    if c == '!' {
        if followed {
            TokenType::BangEqual
        } else {
            TokenType::Bang
        }
    } else if c == '=' {
        if followed {
            TokenType::EqualEqual
        } else {
            TokenType::Equal
        }
    } else if c == '<' {
        if followed {
            TokenType::LessEqual
        } else {
            TokenType::Less
        }
    } else {
        if followed {
            TokenType::GreaterEqual
        } else {
            TokenType::Greater
        }
    }
}

/// The kind of a word: a keyword's, or `Identifier`.
pub open spec fn word_type(text: Seq<char>) -> TokenType {
    if text == "and"@ {
        TokenType::And
    } else if text == "class"@ {
        TokenType::Class
    } else if text == "else"@ {
        TokenType::Else
    } else if text == "if"@ {
        TokenType::If
    } else if text == "nil"@ {
        TokenType::Nil
    } else if text == "or"@ {
        TokenType::Or
    } else if text == "print"@ {
        TokenType::Print
    } else if text == "return"@ {
        TokenType::Return
    } else if text == "super"@ {
        TokenType::Super
    } else if text == "var"@ {
        TokenType::Var
    } else if text == "while"@ {
        TokenType::While
    } else if text == "for"@ {
        TokenType::For
    } else if text == "true"@ {
        TokenType::True
    } else if text == "false"@ {
        TokenType::False
    } else if text == "fun"@ {
        TokenType::Fun
    } else if text == "this"@ {
        TokenType::This
    } else {
        TokenType::Identifier
    }
}

/// Where the number that starts with the digit at `a` ends: after its
/// digits, and after a `.` with digits behind it if one follows.
pub open spec fn number_end(s: Seq<char>, a: int) -> int {
    let e = run_end(s, a, Run::Digits);
    if e + 1 < s.len() && s[e] == '.' && is_digit(s[e + 1]) {
        run_end(s, e + 1, Run::Digits)
    } else {
        e
    }
}

/// The message of the error token for a character that starts no token.
pub open spec fn unexpected_character(c: char, position: int) -> Seq<char> {
    "Unexpected character '"@.push(c) + "' at position "@ + decimal(position as nat)
}

/// What scanning finds: a token's kind and text, where the token starts and
/// ends in the source, and the line number afterwards.
pub struct Lexeme {
    pub typ: TokenType,
    pub text: Seq<char>,
    pub start: int,
    pub end: int,
    pub line: int,
}

/// The token that starts at `a`, a position that is not blank.
pub open spec fn token_at(s: Seq<char>, a: int, line: int) -> Lexeme {
    if a < 0 || a >= s.len() {
        Lexeme { typ: TokenType::EOF, text: Seq::empty(), start: a, end: a, line }
    } else if is_operator(s[a]) {
        if a + 1 < s.len() && s[a + 1] == '=' {
            Lexeme {
                typ: operator(s[a], true),
                text: s.subrange(a, a + 2),
                start: a,
                end: a + 2,
                line,
            }
        } else {
            Lexeme {
                typ: operator(s[a], false),
                text: s.subrange(a, a + 1),
                start: a,
                end: a + 1,
                line,
            }
        }
    } else if punctuation(s[a]) is Some {
        Lexeme {
            typ: punctuation(s[a])->0,
            text: s.subrange(a, a + 1),
            start: a,
            end: a + 1,
            line,
        }
    } else if s[a] == '"' {
        let close = run_end(s, a + 1, Run::Quoted);
        if close >= s.len() {
            Lexeme {
                typ: TokenType::Error,
                text: "Unterminated string"@,
                start: a,
                end: close,
                line: line_after(s, a + 1, close, line),
            }
        } else {
            Lexeme {
                typ: TokenType::String,
                text: s.subrange(a, close + 1),
                start: a,
                end: close + 1,
                line: line_after(s, a + 1, close, line),
            }
        }
    } else if is_digit(s[a]) {
        Lexeme {
            typ: TokenType::Number,
            text: s.subrange(a, number_end(s, a)),
            start: a,
            end: number_end(s, a),
            line,
        }
    } else if alphabetic(s[a]) {
        let e = run_end(s, a + 1, Run::Word);
        Lexeme { typ: word_type(s.subrange(a, e)), text: s.subrange(a, e), start: a, end: e, line }
    } else {
        Lexeme {
            typ: TokenType::Error,
            text: unexpected_character(s[a], a),
            start: a,
            end: a + 1,
            line,
        }
    }
}

/// The next token of `s` from position `pos` on, where `line` is the line
/// of `pos`: the token that follows the blank text at `pos`, on the line
/// that the line breaks of the blank text lead to.
pub open spec fn lex(s: Seq<char>, pos: int, line: int) -> Lexeme {
    token_at(
        s,
        blank_end(s, pos, false),
        line_after(s, pos, blank_end(s, pos, false), line),
    )
}

/// Counting the line breaks of a text is counting those of its first part
/// and then those of the rest.
pub proof fn lemma_line_after_split(s: Seq<char>, from: int, mid: int, to: int, line: int)
    requires
        from <= mid <= to,
    ensures
        line_after(s, from, to, line) == line_after(s, mid, to, line_after(s, from, mid, line)),
    decreases mid - from,
{
    if from < mid {
        lemma_line_after_split(
            s,
            from + 1,
            mid,
            to,
            if s[from] == '\n' {
                bump(line)
            } else {
                line
            },
        );
    }
}

/// Text without a line break leaves the line as it is.
pub proof fn lemma_line_after_none(s: Seq<char>, from: int, to: int, line: int)
    requires
        forall|k: int| from <= k < to ==> s[k] != '\n',
    ensures
        line_after(s, from, to, line) == line,
    decreases to - from,
{
    if from < to {
        lemma_line_after_none(s, from + 1, to, line);
    }
}

/// A run ends at or after its start and within the text, on a character
/// that does not continue it.
pub proof fn lemma_run_end(s: Seq<char>, i: int, run: Run)
    requires
        0 <= i <= s.len(),
    ensures
        i <= run_end(s, i, run) <= s.len(),
        run_end(s, i, run) < s.len() ==> !continues(run, s[run_end(s, i, run)]),
        forall|k: int| i <= k < run_end(s, i, run) ==> continues(run, #[trigger] s[k]),
    decreases s.len() - i,
{
    if i < s.len() && continues(run, s[i]) {
        lemma_run_end(s, i + 1, run);
    }
}

/// Blank text ends at or after its start and within the text.
pub proof fn lemma_blank_end(s: Seq<char>, i: int, in_comment: bool)
    requires
        0 <= i <= s.len(),
    ensures
        i <= blank_end(s, i, in_comment) <= s.len(),
    decreases s.len() - i, (if in_comment { 1int } else { 0int }),
{
    if i < s.len() {
        if in_comment {
            if s[i] == '\n' {
                lemma_blank_end(s, i, false);
            } else {
                lemma_blank_end(s, i + 1, true);
            }
        } else if is_space(s[i]) {
            lemma_blank_end(s, i + 1, false);
        } else if s[i] == '/' && i + 1 < s.len() && s[i + 1] == '/' {
            lemma_blank_end(s, i + 1, true);
        }
    }
}

/// Every token lies within the text and ends at or after its start; all but
/// the end-of-text token are at least one character long.
pub proof fn lemma_lex_progress(s: Seq<char>, pos: int, line: int)
    requires
        0 <= pos <= s.len(),
    ensures
        pos <= lex(s, pos, line).start <= lex(s, pos, line).end <= s.len(),
        lex(s, pos, line).typ != TokenType::EOF ==> lex(s, pos, line).start < lex(s, pos, line).end,
        lex(s, pos, line).typ == TokenType::EOF ==> lex(s, pos, line).end == s.len(),
{
    lemma_blank_end(s, pos, false);
    let a = blank_end(s, pos, false);
    if a < s.len() {
        lemma_run_end(s, a + 1, Run::Quoted);
        lemma_run_end(s, a + 1, Run::Word);
        lemma_run_end(s, a, Run::Digits);
        let e = run_end(s, a, Run::Digits);
        if e + 1 < s.len() {
            lemma_run_end(s, e + 1, Run::Digits);
        }
        if is_digit(s[a]) {
            assert(run_end(s, a, Run::Digits) == run_end(s, a + 1, Run::Digits));
            lemma_run_end(s, a + 1, Run::Digits);
        }
        lemma_word_type_not_end(s.subrange(a, run_end(s, a + 1, Run::Word)));
    }
}

/// No word is the end of the text, nor an error.
pub proof fn lemma_word_type_not_end(text: Seq<char>)
    ensures
        word_type(text) != TokenType::EOF,
        word_type(text) != TokenType::Error,
{
}

/// A cursor over source text that hands out one token at a time.
///
/// `source[start..current]` is the text of the token being scanned, and
/// `line` is the line of the source that the cursor is on, counted from 1.
pub struct Scanner {
    pub start: usize,
    pub current: usize,
    pub source: Vec<char>,
    pub line: usize,
}

impl Scanner {
    /// The cursor lies within the source.
    pub open spec fn wf(&self) -> bool {
        self.start <= self.current <= self.source@.len()
    }

    /// A scanner at the start of `source`, on line 1.
    pub fn new(source: &str) -> (scanner: Scanner)
        ensures
            scanner.wf(),
            scanner.source@ == source@,
            scanner.start == 0,
            scanner.current == 0,
            scanner.line == 1,
    {
        Scanner { start: 0, current: 0, source: chars_of(source), line: 1 }
    }

    fn is_at_end(&self) -> (r: bool)
        ensures
            r == (self.current >= self.source@.len()),
    {
        self.current >= self.source.len()
    }

    fn peek(&self) -> (c: char)
        ensures
            c == (if self.current < self.source@.len() {
                self.source@[self.current as int]
            } else {
                '\0'
            }),
    {
        if self.is_at_end() {
            return '\0';
        }
        self.source[self.current]
    }

    fn peek2(&self) -> (c: char)
        ensures
            c == (if self.current + 1 < self.source@.len() {
                self.source@[self.current + 1]
            } else {
                '\0'
            }),
    {
        if self.current >= self.source.len() || self.current + 1 >= self.source.len() {
            return '\0';
        }
        self.source[self.current + 1]
    }

    /// Takes the character under the cursor and moves the cursor past it.
    pub fn advance(&mut self) -> (c: char)
        requires
            old(self).wf(),
            old(self).current < old(self).source@.len(),
        ensures
            final(self).wf(),
            c == old(self).source@[old(self).current as int],
            final(self).current == old(self).current + 1,
            final(self).start == old(self).start,
            final(self).source == old(self).source,
            final(self).line == old(self).line,
    {
        let len: usize = self.source.len();
        let c = self.source[self.current];
        self.current += 1;
        c
    }

    fn match_char(&mut self, expected: char) -> (r: bool)
        requires
            old(self).wf(),
        ensures
            final(self).wf(),
            r == (old(self).current < old(self).source@.len() && old(self).source@[old(self).current as int] == expected),
            final(self).current == (if r {
                old(self).current + 1
            } else {
                old(self).current as int
            }),
            final(self).start == old(self).start,
            final(self).source == old(self).source,
            final(self).line == old(self).line,
    {
        if self.current >= self.source.len() {
            return false;
        }
        if self.source[self.current] != expected {
            return false;
        }
        self.current += 1;
        true
    }

    fn continues_run(run: Run, c: char) -> (r: bool)
        ensures
            r == continues(run, c),
    {
        match run {
            Run::Space => c == ' ' || c == '\r' || c == '\t' || c == '\n',
            Run::Digits => '0' <= c && c <= '9',
            Run::Word => c.is_alphanumeric(),
            Run::Line => c != '\n',
            Run::Quoted => c != '"',
        }
    }

    /// Moves the cursor to the end of the run that starts under it.
    fn skip_run(&mut self, run: Run)
        requires
            old(self).wf(),
        ensures
            final(self).wf(),
            final(self).current == run_end(old(self).source@, old(self).current as int, run),
            final(self).start == old(self).start,
            final(self).source == old(self).source,
            final(self).line == old(self).line,
    {
        while self.current < self.source.len() && Self::continues_run(
            run,
            self.source[self.current],
        )
            invariant
                self.wf(),
                old(self).current <= self.current,
                run_end(self.source@, self.current as int, run) == run_end(
                    old(self).source@,
                    old(self).current as int,
                    run,
                ),
                self.start == old(self).start,
                self.source == old(self).source,
                self.line == old(self).line,
            decreases self.source@.len() - self.current,
        {
            self.current += 1;
        }
    }

    fn skip_whitespace(&mut self)
        requires
            old(self).wf(),
        ensures
            final(self).wf(),
            final(self).current == run_end(old(self).source@, old(self).current as int, Run::Space),
            blank_end(final(self).source@, final(self).current as int, false) == blank_end(
                old(self).source@,
                old(self).current as int,
                false,
            ),
            final(self).start == old(self).start,
            final(self).source == old(self).source,
            final(self).line == line_after(
                old(self).source@,
                old(self).current as int,
                final(self).current as int,
                old(self).line as int,
            ),
    {
        let ghost s = self.source@;
        let ghost end = run_end(s, self.current as int, Run::Space);
        proof {
            lemma_run_end(s, self.current as int, Run::Space);
        }
        while self.current < self.source.len() && Self::continues_run(
            Run::Space,
            self.source[self.current],
        )
            invariant
                self.wf(),
                self.source@ == s,
                old(self).current <= self.current <= end,
                run_end(s, self.current as int, Run::Space) == end,
                line_after(s, self.current as int, end, self.line as int) == line_after(
                    s,
                    old(self).current as int,
                    end,
                    old(self).line as int,
                ),
                self.start == old(self).start,
                self.source == old(self).source,
            decreases s.len() - self.current,
        {
            if self.source[self.current] == '\n' {
                if self.line < usize::MAX {
                    self.line += 1;
                }
            }
            self.current += 1;
            proof {
                lemma_run_end(s, self.current as int, Run::Space);
            }
        }
        proof {
            lemma_spaces_are_blank(s, old(self).current as int);
        }
    }

    /// The token of kind `typ` whose text is what the cursor has passed
    /// since the token's start.
    pub fn make_token(&self, typ: TokenType) -> (t: Token)
        requires
            self.wf(),
        ensures
            t.typ == typ,
            t.source@ == self.source@.subrange(self.start as int, self.current as int),
            t.line == self.line,
    {
        let mut text = String::new();
        push_chars(&mut text, &self.source, self.start, self.current);
        assert(text@ =~= self.source@.subrange(self.start as int, self.current as int));
        Token { typ, source: text, line: self.line }
    }

    fn error_token(&self, msg: String) -> (t: Token)
        ensures
            t.typ == TokenType::Error,
            t.source == msg,
            t.line == self.line,
    {
        Token { typ: TokenType::Error, source: msg, line: self.line }
    }

    /// Scans the rest of a string literal whose opening quote was taken.
    fn string(&mut self) -> (t: Token)
        requires
            old(self).wf(),
        ensures
            final(self).wf(),
            final(self).start == old(self).start,
            final(self).source == old(self).source,
            ({
                let s = old(self).source@;
                let close = run_end(s, old(self).current as int, Run::Quoted);
                &&& final(self).line == line_after(
                    s,
                    old(self).current as int,
                    close,
                    old(self).line as int,
                )
                &&& t.line == final(self).line
                &&& if close >= s.len() {
                    &&& final(self).current == close
                    &&& t.typ == TokenType::Error
                    &&& t.source@ == "Unterminated string"@
                } else {
                    &&& final(self).current == close + 1
                    &&& t.typ == TokenType::String
                    &&& t.source@ == s.subrange(old(self).start as int, close + 1)
                }
            }),
    {
        let ghost s = self.source@;
        let ghost close = run_end(s, self.current as int, Run::Quoted);
        proof {
            lemma_run_end(s, self.current as int, Run::Quoted);
        }
        while self.current < self.source.len() && self.source[self.current] != '"'
            invariant
                self.wf(),
                self.source@ == s,
                self.source == old(self).source,
                self.start == old(self).start,
                old(self).current <= self.current <= close <= s.len(),
                run_end(s, self.current as int, Run::Quoted) == close,
                line_after(s, self.current as int, close, self.line as int) == line_after(
                    s,
                    old(self).current as int,
                    close,
                    old(self).line as int,
                ),
            decreases s.len() - self.current,
        {
            if self.source[self.current] == '\n' {
                if self.line < usize::MAX {
                    self.line += 1;
                }
            }
            self.current += 1;
            proof {
                lemma_run_end(s, self.current as int, Run::Quoted);
            }
        }
        if self.is_at_end() {
            return self.error_token(String::from_str("Unterminated string"));
        }
        self.current += 1;
        self.make_token(TokenType::String)
    }

    /// Scans the rest of a number whose first digit was taken.
    fn number(&mut self) -> (t: Token)
        requires
            old(self).wf(),
            old(self).start < old(self).current,
            is_digit(old(self).source@[old(self).current - 1]),
        ensures
            final(self).wf(),
            final(self).start == old(self).start,
            final(self).source == old(self).source,
            final(self).line == old(self).line,
            final(self).current == number_end(old(self).source@, old(self).current - 1),
            t.typ == TokenType::Number,
            t.source@ == old(self).source@.subrange(
                old(self).start as int,
                final(self).current as int,
            ),
            t.line == old(self).line,
    {
        self.skip_run(Run::Digits);
        proof {
            lemma_run_end(self.source@, old(self).current as int, Run::Digits);
        }
        if self.peek() == '.' {
            let after = self.peek2();
            if '0' <= after && after <= '9' {
                let _ = self.advance();
                self.skip_run(Run::Digits);
                proof {
                    lemma_run_end(self.source@, self.current as int, Run::Digits);
                    let e = run_end(self.source@, old(self).current - 1, Run::Digits);
                    lemma_run_end(self.source@, e + 1, Run::Digits);
                }
            }
        }
        self.make_token(TokenType::Number)
    }

    /// Scans the rest of a word whose first letter was taken.
    fn identifier(&mut self) -> (t: Token)
        requires
            old(self).wf(),
        ensures
            final(self).wf(),
            final(self).start == old(self).start,
            final(self).source == old(self).source,
            final(self).line == old(self).line,
            final(self).current == run_end(old(self).source@, old(self).current as int, Run::Word),
            t.source@ == old(self).source@.subrange(
                old(self).start as int,
                final(self).current as int,
            ),
            t.typ == word_type(t.source@),
            t.line == old(self).line,
    {
        self.skip_run(Run::Word);
        proof {
            lemma_run_end(self.source@, old(self).current as int, Run::Word);
        }
        self.make_token(self.identifier_type())
    }

    /// Whether the text of the token being scanned is `word`.
    fn text_is(&self, word: &str) -> (r: bool)
        requires
            self.wf(),
        ensures
            r == (self.source@.subrange(self.start as int, self.current as int) == word@),
    {
        let n: usize = word.unicode_len();
        let ghost text = self.source@.subrange(self.start as int, self.current as int);
        if self.current - self.start != n {
            return false;
        }
        let mut i: usize = 0;
        while i < n
            invariant
                self.wf(),
                n == word@.len(),
                n == self.current - self.start,
                text == self.source@.subrange(self.start as int, self.current as int),
                i <= n,
                forall|k: int| 0 <= k < i ==> text[k] == word@[k],
            decreases n - i,
        {
            if self.source[self.start + i] != word.get_char(i) {
                assert(text[i as int] != word@[i as int]);
                return false;
            }
            i += 1;
        }
        assert(text =~= word@);
        true
    }

    /// The kind of the word being scanned: a keyword's, or `Identifier`.
    fn identifier_type(&self) -> (typ: TokenType)
        requires
            self.wf(),
        ensures
            typ == word_type(self.source@.subrange(self.start as int, self.current as int)),
    {
        if self.text_is("and") {
            TokenType::And
        } else if self.text_is("class") {
            TokenType::Class
        } else if self.text_is("else") {
            TokenType::Else
        } else if self.text_is("if") {
            TokenType::If
        } else if self.text_is("nil") {
            TokenType::Nil
        } else if self.text_is("or") {
            TokenType::Or
        } else if self.text_is("print") {
            TokenType::Print
        } else if self.text_is("return") {
            TokenType::Return
        } else if self.text_is("super") {
            TokenType::Super
        } else if self.text_is("var") {
            TokenType::Var
        } else if self.text_is("while") {
            TokenType::While
        } else if self.text_is("for") {
            TokenType::For
        } else if self.text_is("true") {
            TokenType::True
        } else if self.text_is("false") {
            TokenType::False
        } else if self.text_is("fun") {
            TokenType::Fun
        } else if self.text_is("this") {
            TokenType::This
        } else {
            TokenType::Identifier
        }
    }

    fn punctuation_type(c: char) -> (typ: Option<TokenType>)
        ensures
            typ == punctuation(c),
    {
        if c == '(' {
            Some(TokenType::LeftParen)
        } else if c == ')' {
            Some(TokenType::RightParen)
        } else if c == '{' {
            Some(TokenType::LeftBrace)
        } else if c == '}' {
            Some(TokenType::RightBrace)
        } else if c == '[' {
            Some(TokenType::LeftBracket)
        } else if c == ']' {
            Some(TokenType::RightBracket)
        } else if c == ',' {
            Some(TokenType::Comma)
        } else if c == '.' {
            Some(TokenType::Dot)
        } else if c == '-' {
            Some(TokenType::Minus)
        } else if c == '+' {
            Some(TokenType::Plus)
        } else if c == ';' {
            Some(TokenType::Semicolon)
        } else if c == '*' {
            Some(TokenType::Star)
        } else if c == '%' {
            Some(TokenType::Modulo)
        } else if c == '/' {
            Some(TokenType::Slash)
        } else {
            None
        }
    }

    fn operator_type(c: char, followed: bool) -> (typ: TokenType)
        requires
            is_operator(c),
        ensures
            typ == operator(c, followed),
    {
        if c == '!' {
            if followed {
                TokenType::BangEqual
            } else {
                TokenType::Bang
            }
        } else if c == '=' {
            if followed {
                TokenType::EqualEqual
            } else {
                TokenType::Equal
            }
        } else if c == '<' {
            if followed {
                TokenType::LessEqual
            } else {
                TokenType::Less
            }
        } else {
            if followed {
                TokenType::GreaterEqual
            } else {
                TokenType::Greater
            }
        }
    }

    /// Scans the next token: skips blank text, then takes the token that
    /// follows, or the end-of-text token when nothing does.
    pub fn scan_token(&mut self) -> (t: Token)
        requires
            old(self).wf(),
        ensures
            final(self).wf(),
            final(self).source == old(self).source,
            ({
                let found = lex(old(self).source@, old(self).current as int, old(self).line as int);
                &&& t.typ == found.typ
                &&& t.source@ == found.text
                &&& t.line == found.line
                &&& final(self).start == found.start
                &&& final(self).current == found.end
                &&& final(self).line == found.line
            }),
        decreases old(self).source@.len() - old(self).current,
    {
        let ghost s = self.source@;
        self.skip_whitespace();
        self.start = self.current;
        proof {
            lemma_run_end(s, old(self).current as int, Run::Space);
            lemma_blank_end(s, self.current as int, false);
            lemma_line_after_split(
                s,
                old(self).current as int,
                self.current as int,
                blank_end(s, self.current as int, false),
                old(self).line as int,
            );
        }
        if self.is_at_end() {
            let t = self.make_token(TokenType::EOF);
            assert(t.source@ =~= Seq::<char>::empty());
            return t;
        }
        let c = self.advance();
        if c == '!' || c == '=' || c == '<' || c == '>' {
            let followed = self.match_char('=');
            return self.make_token(Self::operator_type(c, followed));
        }
        if c == '/' && self.peek() == '/' {
            self.skip_run(Run::Line);
            proof {
                lemma_run_end(s, self.start + 1, Run::Line);
                lemma_comment_is_blank(s, self.start + 1);
                lemma_blank_end(s, self.current as int, false);
                lemma_line_after_none(s, self.start as int, self.current as int, self.line as int);
                lemma_line_after_split(
                    s,
                    self.start as int,
                    self.current as int,
                    blank_end(s, self.current as int, false),
                    self.line as int,
                );
            }
            return self.scan_token();
        }
        match Self::punctuation_type(c) {
            Some(typ) => { return self.make_token(typ); },
            None => {},
        }
        if c == '"' {
            return self.string();
        }
        if '0' <= c && c <= '9' {
            proof {
                assert(run_end(s, self.start as int, Run::Digits) == run_end(
                    s,
                    self.start + 1,
                    Run::Digits,
                ));
            }
            return self.number();
        }
        if c.is_alphabetic() {
            return self.identifier();
        }
        let mut msg = String::from_str("Unexpected character '");
        msg.push(c);
        msg.append("' at position ");
        push_decimal(&mut msg, self.start);
        self.error_token(msg)
    }
}

/// White space is blank: the blank text that starts at `i` goes on where the
/// white space at `i` ends.
pub proof fn lemma_spaces_are_blank(s: Seq<char>, i: int)
    requires
        0 <= i <= s.len(),
    ensures
        blank_end(s, run_end(s, i, Run::Space), false) == blank_end(s, i, false),
    decreases s.len() - i,
{
    if i < s.len() && is_space(s[i]) {
        lemma_spaces_are_blank(s, i + 1);
    }
}

/// A comment is blank up to the end of its line: the blank text that goes
/// on inside a comment at `i` goes on after the rest of the line.
pub proof fn lemma_comment_is_blank(s: Seq<char>, i: int)
    requires
        0 <= i <= s.len(),
    ensures
        blank_end(s, run_end(s, i, Run::Line), false) == blank_end(s, i, true),
    decreases s.len() - i,
{
    if i < s.len() && s[i] != '\n' {
        lemma_comment_is_blank(s, i + 1);
    }
}

/// The texts of the number tokens of `s` from position `pos` on, in order.
pub open spec fn number_texts(s: Seq<char>, pos: int, line: int) -> Seq<Seq<char>>
    decreases s.len() - pos,
{
    if pos < 0 || pos > s.len() {
        Seq::empty()
    } else {
        let found = lex(s, pos, line);
        if found.typ == TokenType::EOF || found.end <= pos || found.end > s.len() {
            Seq::empty()
        } else if found.typ == TokenType::Number {
            seq![found.text] + number_texts(s, found.end, found.line)
        } else {
            number_texts(s, found.end, found.line)
        }
    }
}

/// The texts of the number tokens of a source, in order: the numerals that
/// the embedder has to read before the source is compiled.
pub fn number_literals(source: &str) -> (texts: Vec<String>)
    ensures
        texts@.len() == number_texts(source@, 0, 1).len(),
        forall|i: int|
            0 <= i < texts@.len() ==> (#[trigger] texts@[i])@ == number_texts(source@, 0, 1)[i],
{
    let mut scanner = Scanner::new(source);
    let mut texts: Vec<String> = Vec::new();
    let ghost s = source@;
    let ghost mut seen: Seq<Seq<char>> = Seq::empty();
    loop
        invariant
            scanner.wf(),
            scanner.source@ == s,
            s == source@,
            texts@.len() == seen.len(),
            forall|i: int| 0 <= i < texts@.len() ==> (#[trigger] texts@[i])@ == seen[i],
            number_texts(s, 0, 1) == seen + number_texts(
                s,
                scanner.current as int,
                scanner.line as int,
            ),
        decreases s.len() - scanner.current,
    {
        proof {
            lemma_lex_progress(s, scanner.current as int, scanner.line as int);
        }
        let ghost before = number_texts(s, scanner.current as int, scanner.line as int);
        let token = scanner.scan_token();
        if token.typ == TokenType::EOF {
            proof {
                assert(before =~= Seq::<Seq<char>>::empty());
                assert(seen + before =~= seen);
            }
            return texts;
        }
        if token.typ == TokenType::Number {
            proof {
                let rest = number_texts(s, scanner.current as int, scanner.line as int);
                assert(before == seq![token.source@] + rest);
                assert(seen + before =~= seen.push(token.source@) + rest);
                seen = seen.push(token.source@);
            }
            texts.push(token.source);
        }
    }
}

} // verus!
