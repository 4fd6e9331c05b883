use crate::scanner::{lemma_lex_progress, lex, Lexeme, Scanner, Token, TokenType};
use crate::text::{decimal, push_decimal};
use vstd::prelude::*;

verus! {

/// Where in the source an error was found.
#[derive(Debug, PartialEq, Eq)]
pub enum ErrorPlace {
    /// At the end of the source.
    End,
    /// At the token with this text.
    At(String),
    /// In the text itself, where no token could be scanned.
    Text,
}

/// An error that the compiler reports.
#[derive(Debug, PartialEq, Eq)]
pub struct CompileError {
    pub line: usize,
    pub place: ErrorPlace,
    pub message: String,
}

impl CompileError {
    /// The report of the error as one line of text.
    pub open spec fn report_spec(&self) -> Seq<char> {
        " [line "@ + decimal(self.line as nat) + "] Error"@ + (match self.place {
            ErrorPlace::End => " at end"@,
            ErrorPlace::At(text) => " at '"@ + text@ + "'"@,
            ErrorPlace::Text => Seq::empty(),
        }) + ": "@ + self.message@
    }

    /// The report of the error as one line of text.
    pub fn report(&self) -> (text: String)
        ensures
            text@ == self.report_spec(),
    {
        let mut text = String::from_str(" [line ");
        push_decimal(&mut text, self.line);
        text.append("] Error");
        match &self.place {
            ErrorPlace::End => {
                text.append(" at end");
            },
            ErrorPlace::At(lexeme) => {
                text.append(" at '");
                text.append(lexeme.as_str());
                text.append("'");
            },
            ErrorPlace::Text => {
                assert(text@ + Seq::<char>::empty() =~= text@);
            },
        }
        text.append(": ");
        text.append(self.message.as_str());
        assert(text@ =~= self.report_spec());
        text
    }
}

/// Whether the errors in `earlier` are the first of those in `later`.
pub open spec fn errors_kept(earlier: Seq<CompileError>, later: Seq<CompileError>) -> bool {
    &&& earlier.len() <= later.len()
    &&& forall|i: int| 0 <= i < earlier.len() ==> #[trigger] later[i] == earlier[i]
}

/// The first token from `pos` on that is no error token.
pub open spec fn next_token(s: Seq<char>, pos: int, line: int) -> Lexeme
    decreases s.len() - pos,
{
    let found = lex(s, pos, line);
    if found.typ == TokenType::Error && pos < found.end <= s.len() {
        next_token(s, found.end, found.line)
    } else {
        found
    }
}

/// Whether a token is what scanning found.
pub open spec fn token_is(t: Token, found: Lexeme) -> bool {
    &&& t.typ == found.typ
    &&& t.source@ == found.text
    &&& t.line == found.line
}

/// Where an error at token `t` is reported.
pub open spec fn place_matches(place: ErrorPlace, t: Token) -> bool {
    match place {
        ErrorPlace::End => t.typ == TokenType::EOF,
        ErrorPlace::Text => t.typ == TokenType::Error,
        ErrorPlace::At(text) => t.typ != TokenType::EOF && t.typ != TokenType::Error && text@
            == t.source@,
    }
}

/// The token stream of one compilation: the token under the cursor, the one
/// before it, and the errors reported so far.
///
/// After an error the parser is in panic mode, in which it reports nothing,
/// until it has synchronised at the start of a statement.
pub struct Parser {
    pub scanner: Scanner,
    pub current: Token,
    pub previous: Token,
    pub had_error: bool,
    pub panic_mode: bool,
    pub errors: Vec<CompileError>,
}

impl Parser {
    /// The scanner is well formed, stands at the end of the source once the
    /// end-of-text token is under the cursor, and `had_error` says whether
    /// an error was reported.
    pub open spec fn wf(&self) -> bool {
        &&& self.scanner.wf()
        &&& self.current.typ == TokenType::EOF ==> self.scanner.current == self.scanner.source@.len()
        &&& self.had_error <==> self.errors@.len() > 0
        &&& self.panic_mode ==> self.had_error
    }

    /// How much is left to parse: the characters that the scanner has not
    /// passed, and the token under the cursor unless it is the end of the
    /// text. Every step of the parser that takes a token makes this smaller.
    pub open spec fn left(&self) -> nat {
        (self.scanner.source@.len() - self.scanner.current + (if self.current.typ
            == TokenType::EOF {
            0int
        } else {
            1int
        })) as nat
    }

    /// Whether this parser came from `earlier` by taking tokens and
    /// reporting errors.
    pub open spec fn follows(&self, earlier: &Parser) -> bool {
        &&& self.scanner.source == earlier.scanner.source
        &&& self.left() <= earlier.left()
        &&& earlier.had_error ==> self.had_error
        &&& errors_kept(earlier.errors@, self.errors@)
    }

    /// A parser at the start of the scanner's source, with placeholder
    /// tokens and no error.
    pub fn new(scanner: Scanner) -> (parser: Parser)
        requires
            scanner.wf(),
            scanner.current == 0,
        ensures
            parser.wf(),
            parser.scanner == scanner,
            parser.current.typ == TokenType::Error,
            parser.current.source@.len() == 0,
            parser.current.line == 0,
            parser.previous.typ == TokenType::Error,
            parser.previous.source@.len() == 0,
            parser.previous.line == 0,
            !parser.had_error,
            !parser.panic_mode,
            parser.errors@.len() == 0,
    {
        Parser {
            scanner,
            current: Token::new(),
            previous: Token::new(),
            had_error: false,
            panic_mode: false,
            errors: Vec::new(),
        }
    }

    /// Whether reporting an error at `token` with `message` leads from
    /// `earlier` to this parser: in panic mode nothing is reported;
    /// otherwise the error is added and panic mode begins. The tokens stay.
    pub open spec fn reported(&self, earlier: &Parser, token: Token, message: Seq<char>) -> bool {
        &&& self.scanner == earlier.scanner
        &&& self.current == earlier.current
        &&& self.previous == earlier.previous
        &&& if earlier.panic_mode {
            &&& self.errors == earlier.errors
            &&& self.had_error == earlier.had_error
            &&& self.panic_mode
        } else {
            &&& self.errors@.len() == earlier.errors@.len() + 1
            &&& errors_kept(earlier.errors@, self.errors@)
            &&& self.errors@.last().line == token.line
            &&& self.errors@.last().message@ == message
            &&& place_matches(self.errors@.last().place, token)
            &&& self.had_error
            &&& self.panic_mode
        }
    }

    /// Reports an error at the token under the cursor.
    pub fn error_at_current(&mut self, message: &str)
        requires
            old(self).wf(),
        ensures
            final(self).wf(),
            final(self).reported(old(self), old(self).current, message@),
            final(self).had_error,
    {
        self.error_at(true, message);
    }

    /// Reports an error at the token before the cursor.
    pub fn error_at_previous(&mut self, message: &str)
        requires
            old(self).wf(),
        ensures
            final(self).wf(),
            final(self).reported(old(self), old(self).previous, message@),
            final(self).had_error,
    {
        self.error_at(false, message);
    }

    /// Reports an error at the token under the cursor, or at the one before
    /// it, unless the parser is in panic mode.
    fn error_at(&mut self, current: bool, message: &str)
        requires
            old(self).wf(),
        ensures
            final(self).wf(),
            final(self).reported(
                old(self),
                if current {
                    old(self).current
                } else {
                    old(self).previous
                },
                message@,
            ),
            final(self).had_error,
    {
        if self.panic_mode {
            return;
        }
        self.panic_mode = true;
        let token = if current {
            &self.current
        } else {
            &self.previous
        };
        let place = match token.typ {
            TokenType::EOF => ErrorPlace::End,
            TokenType::Error => ErrorPlace::Text,
            _ => ErrorPlace::At(token.source.clone()),
        };
        let error = CompileError { line: token.line, place, message: message.to_owned() };
        self.errors.push(error);
        self.had_error = true;
    }

    /// Whether the token under the cursor is of kind `typ`.
    pub fn check_tt(&self, typ: TokenType) -> (r: bool)
        ensures
            r == (self.current.typ == typ),
    {
        self.current.typ == typ
    }

    /// Whether taking the next token leads from `earlier` to this parser:
    /// the token under the cursor moves on to `previous`, and the first
    /// token from the scanner's position on that is no error comes under
    /// the cursor. If an error token came first, its message is reported.
    pub open spec fn advanced(&self, earlier: &Parser) -> bool {
        let s = earlier.scanner.source@;
        let first = lex(s, earlier.scanner.current as int, earlier.scanner.line as int);
        let next = next_token(s, earlier.scanner.current as int, earlier.scanner.line as int);
        &&& self.scanner.source == earlier.scanner.source
        &&& self.previous == earlier.current
        &&& token_is(self.current, next)
        &&& self.scanner.current == next.end
        &&& self.scanner.line == next.line
        &&& self.current.typ != TokenType::Error
        &&& if first.typ == TokenType::Error && !earlier.panic_mode {
            &&& self.errors@.len() == earlier.errors@.len() + 1
            &&& errors_kept(earlier.errors@, self.errors@)
            &&& self.errors@.last().line == first.line
            &&& self.errors@.last().message@ == first.text
            &&& self.errors@.last().place == ErrorPlace::Text
            &&& self.had_error
            &&& self.panic_mode
        } else {
            &&& self.errors == earlier.errors
            &&& self.had_error == earlier.had_error
            &&& self.panic_mode == earlier.panic_mode
        }
    }

    /// Takes the next token, reporting the error tokens on the way.
    pub fn advance(&mut self)
        requires
            old(self).wf(),
        ensures
            final(self).wf(),
            final(self).advanced(old(self)),
            final(self).follows(old(self)),
            old(self).current.typ != TokenType::EOF ==> final(self).left() < old(self).left(),
    {
        self.previous = self.current.clone();
        let ghost s = self.scanner.source@;
        let ghost first = lex(s, self.scanner.current as int, self.scanner.line as int);
        let ghost next = next_token(s, self.scanner.current as int, self.scanner.line as int);
        let ghost mut scanned: bool = false;
        loop
            invariant_except_break
                self.scanning(old(self), first, scanned),
                next_token(s, self.scanner.current as int, self.scanner.line as int) == next,
            invariant
                s == old(self).scanner.source@,
                first == lex(s, old(self).scanner.current as int, old(self).scanner.line as int),
                next == next_token(
                    s,
                    old(self).scanner.current as int,
                    old(self).scanner.line as int,
                ),
            ensures
                self.scanner.wf(),
                self.had_error <==> self.errors@.len() > 0,
                self.panic_mode ==> self.had_error,
                self.advanced(old(self)),
            decreases s.len() - self.scanner.current,
        {
            proof {
                lemma_lex_progress(s, self.scanner.current as int, self.scanner.line as int);
            }
            self.current = self.scanner.scan_token();
            if self.current.typ != TokenType::Error {
                break;
            }
            let message = self.current.source.clone();
            self.error_at_current(message.as_str());
            proof {
                scanned = true;
            }
        }
        proof {
            lemma_lex_progress(s, old(self).scanner.current as int, old(self).scanner.line as int);
            lemma_next_token_progress(
                s,
                old(self).scanner.current as int,
                old(self).scanner.line as int,
            );
        }
    }

    /// What holds while `advance` scans: the scanner has moved on from where
    /// it was in `earlier`, and if it has passed an error token (`scanned`),
    /// the first of them is reported unless `earlier` was in panic mode.
    pub open spec fn scanning(&self, earlier: &Parser, first: Lexeme, scanned: bool) -> bool {
        &&& self.scanner.wf()
        &&& self.scanner.source == earlier.scanner.source
        &&& earlier.scanner.current <= self.scanner.current
        &&& self.previous == earlier.current
        &&& self.had_error <==> self.errors@.len() > 0
        &&& self.panic_mode ==> self.had_error
        &&& if !scanned {
            &&& self.scanner.current == earlier.scanner.current
            &&& self.scanner.line == earlier.scanner.line
            &&& self.errors == earlier.errors
            &&& self.had_error == earlier.had_error
            &&& self.panic_mode == earlier.panic_mode
        } else {
            &&& first.typ == TokenType::Error
            &&& self.panic_mode
            &&& self.had_error
            &&& if earlier.panic_mode {
                &&& self.errors == earlier.errors
                &&& self.had_error == earlier.had_error
            } else {
                &&& self.errors@.len() == earlier.errors@.len() + 1
                &&& errors_kept(earlier.errors@, self.errors@)
                &&& self.errors@.last().line == first.line
                &&& self.errors@.last().message@ == first.text
                &&& self.errors@.last().place == ErrorPlace::Text
            }
        }
    }

    /// Takes the token under the cursor if it is of kind `typ`; says
    /// whether it did.
    pub fn match_tt(&mut self, typ: TokenType) -> (r: bool)
        requires
            old(self).wf(),
        ensures
            final(self).wf(),
            r == (old(self).current.typ == typ),
            r ==> final(self).advanced(old(self)),
            !r ==> *final(self) == *old(self),
            final(self).follows(old(self)),
            r && typ != TokenType::EOF ==> final(self).left() < old(self).left(),
    {
        if !self.check_tt(typ) {
            return false;
        }
        self.advance();
        true
    }

    /// Takes the token under the cursor if it is of kind `typ`, and reports
    /// `message` at it if it is not.
    pub fn consume(&mut self, typ: TokenType, message: &str)
        requires
            old(self).wf(),
        ensures
            final(self).wf(),
            old(self).current.typ == typ ==> final(self).advanced(old(self)),
            old(self).current.typ != typ ==> final(self).reported(
                old(self),
                old(self).current,
                message@,
            ) && final(self).had_error,
            final(self).follows(old(self)),
    {
        if self.current.typ == typ {
            self.advance();
            return;
        }
        self.error_at_current(message);
    }

    /// Whether a statement starts with a token of this kind.
    pub open spec fn starts_statement(typ: TokenType) -> bool {
        typ == TokenType::Class || typ == TokenType::Fun || typ == TokenType::Var || typ
            == TokenType::For || typ == TokenType::If || typ == TokenType::While || typ
            == TokenType::Print || typ == TokenType::Return
    }

    /// Leaves panic mode and drops tokens until a statement may start: until
    /// a `;` was just passed, or a keyword that starts a statement is under
    /// the cursor, or the text ends. An error token on the way starts panic
    /// mode again.
    pub fn synchronize(&mut self)
        requires
            old(self).wf(),
        ensures
            final(self).wf(),
            final(self).follows(old(self)),
            final(self).current.typ == TokenType::EOF || final(self).previous.typ
                == TokenType::Semicolon || Self::starts_statement(final(self).current.typ),
            old(self).current.typ == TokenType::EOF || old(self).previous.typ
                == TokenType::Semicolon || Self::starts_statement(old(self).current.typ)
                ==> final(self).scanner == old(self).scanner && final(self).current == old(self).current && final(self).previous == old(self).previous && final(self).errors == old(self).errors && !final(self).panic_mode,
            exists|trace: Seq<Parser>| #[trigger] resynced(trace, old(self), final(self)),
    {
        self.panic_mode = false;
        let ghost mut trace: Seq<Parser> = seq![*self];
        while self.current.typ != TokenType::EOF
            invariant
                trace.len() >= 1,
                trace[0].scanner == old(self).scanner,
                trace[0].current == old(self).current,
                trace[0].previous == old(self).previous,
                trace[0].errors == old(self).errors,
                trace[0].had_error == old(self).had_error,
                !trace[0].panic_mode,
                trace.last() == *self,
                forall|i: int|
                    #![trigger trace[i]]
                    0 <= i < trace.len() - 1 ==> !trace[i].at_statement() && trace[i + 1].advanced(
                        &trace[i],
                    ),
                self.wf(),
                self.follows(old(self)),
                old(self).current.typ == TokenType::EOF || old(self).previous.typ
                    == TokenType::Semicolon || Self::starts_statement(old(self).current.typ)
                    ==> self.scanner == old(self).scanner && self.current == old(self).current
                    && self.previous == old(self).previous && self.errors == old(self).errors
                    && !self.panic_mode,
            decreases self.left(),
        {
            if self.previous.typ == TokenType::Semicolon {
                proof {
                    assert(resynced(trace, old(self), self));
                }
                return;
            }
            match self.current.typ {
                TokenType::Class
                | TokenType::Fun
                | TokenType::Var
                | TokenType::For
                | TokenType::If
                | TokenType::While
                | TokenType::Print
                | TokenType::Return => {
                    proof {
                        assert(resynced(trace, old(self), self));
                    }
                    return;
                },
                _ => {},
            }
            self.advance();
            proof {
                trace = trace.push(*self);
            }
        }
        proof {
            assert(resynced(trace, old(self), self));
        }
    }

    /// Whether a statement may start here: the text has ended, a `;` was
    /// just passed, or a keyword that starts a statement is under the
    /// cursor.
    pub open spec fn at_statement(&self) -> bool {
        self.current.typ == TokenType::EOF || self.previous.typ == TokenType::Semicolon
            || Self::starts_statement(self.current.typ)
    }
}

/// Whether `trace` leads from parser `first` to parser `last` as
/// synchronising does: it starts with `first` out of panic mode, every
/// parser of it but the last is at no place where a statement may start
/// and takes a token to come to the next, and the last, which is `last`,
/// is at such a place.
pub open spec fn resynced(trace: Seq<Parser>, first: &Parser, last: &Parser) -> bool {
    &&& trace.len() >= 1
    &&& trace[0].scanner == first.scanner
    &&& trace[0].current == first.current
    &&& trace[0].previous == first.previous
    &&& trace[0].errors == first.errors
    &&& trace[0].had_error == first.had_error
    &&& !trace[0].panic_mode
    &&& forall|i: int|
        #![trigger trace[i]]
        0 <= i < trace.len() - 1 ==> !trace[i].at_statement() && trace[i + 1].advanced(&trace[i])
    &&& trace.last() == *last
    &&& last.at_statement()
}

/// The first token that is no error lies within the text, at or after the
/// position that scanning starts from, and it is the end-of-text token only
/// at the end of the text.
pub proof fn lemma_next_token_progress(s: Seq<char>, pos: int, line: int)
    requires
        0 <= pos <= s.len(),
    ensures
        pos <= next_token(s, pos, line).end <= s.len(),
        next_token(s, pos, line).typ != TokenType::Error,
        next_token(s, pos, line).typ != TokenType::EOF ==> pos < next_token(s, pos, line).end,
        next_token(s, pos, line).typ == TokenType::EOF ==> next_token(s, pos, line).end == s.len(),
        lex(s, pos, line).typ != TokenType::Error ==> next_token(s, pos, line) == lex(s, pos, line),
    decreases s.len() - pos,
{
    lemma_lex_progress(s, pos, line);
    let found = lex(s, pos, line);
    if found.typ == TokenType::Error {
        lemma_next_token_progress(s, found.end, found.line);
    }
}

} // verus!
