use compiler::scanner::{Scanner, Token, TokenType};

fn scan_all(source: &str) -> Vec<Token> {
    let mut scanner = Scanner::new(source);
    let mut tokens = Vec::new();
    loop {
        let token = scanner.scan_token();
        let done = token.typ == TokenType::EOF;
        tokens.push(token);
        if done {
            break;
        }
    }
    tokens
}

fn kinds(source: &str) -> Vec<TokenType> {
    scan_all(source).iter().map(|t| t.typ).collect()
}

#[test]
fn punctuation_is_one_token_each() {
    assert_eq!(
        kinds("(){}[],.-+;*/%"),
        vec![
            TokenType::LeftParen,
            TokenType::RightParen,
            TokenType::LeftBrace,
            TokenType::RightBrace,
            TokenType::LeftBracket,
            TokenType::RightBracket,
            TokenType::Comma,
            TokenType::Dot,
            TokenType::Minus,
            TokenType::Plus,
            TokenType::Semicolon,
            TokenType::Star,
            TokenType::Slash,
            TokenType::Modulo,
            TokenType::EOF,
        ]
    );
}

#[test]
fn operators_take_a_following_equal_sign() {
    assert_eq!(
        kinds("! != = == < <= > >="),
        vec![
            TokenType::Bang,
            TokenType::BangEqual,
            TokenType::Equal,
            TokenType::EqualEqual,
            TokenType::Less,
            TokenType::LessEqual,
            TokenType::Greater,
            TokenType::GreaterEqual,
            TokenType::EOF,
        ]
    );
}

#[test]
fn keywords_and_identifiers() {
    assert_eq!(
        kinds("and class else if nil or print return super var while for true false fun this andy"),
        vec![
            TokenType::And,
            TokenType::Class,
            TokenType::Else,
            TokenType::If,
            TokenType::Nil,
            TokenType::Or,
            TokenType::Print,
            TokenType::Return,
            TokenType::Super,
            TokenType::Var,
            TokenType::While,
            TokenType::For,
            TokenType::True,
            TokenType::False,
            TokenType::Fun,
            TokenType::This,
            TokenType::Identifier,
            TokenType::EOF,
        ]
    );
}

#[test]
fn numbers_take_a_fraction_only_with_digits_behind_the_dot() {
    let tokens = scan_all("12.5 7. 3");
    let texts: Vec<&str> = tokens.iter().map(|t| t.source.as_str()).collect();
    assert_eq!(texts, vec!["12.5", "7", ".", "3", ""]);
    assert_eq!(tokens[0].typ, TokenType::Number);
    assert_eq!(tokens[1].typ, TokenType::Number);
    assert_eq!(tokens[2].typ, TokenType::Dot);
}

#[test]
fn comments_run_to_the_end_of_the_line() {
    let tokens = scan_all("1 // one\n/ 2 // two");
    let texts: Vec<&str> = tokens.iter().map(|t| t.source.as_str()).collect();
    assert_eq!(texts, vec!["1", "/", "2", ""]);
    assert_eq!(tokens[1].typ, TokenType::Slash);
}

#[test]
fn strings_keep_their_quotes_and_count_lines() {
    let tokens = scan_all("\"a\nb\" x");
    assert_eq!(tokens[0].typ, TokenType::String);
    assert_eq!(tokens[0].source, "\"a\nb\"");
    assert_eq!(tokens[0].line, 2);
    assert_eq!(tokens[1].typ, TokenType::Identifier);
    assert_eq!(tokens[1].line, 2);
}

#[test]
fn unterminated_string_is_an_error_token() {
    let tokens = scan_all("\"abc");
    assert_eq!(tokens[0].typ, TokenType::Error);
    assert_eq!(tokens[0].source, "Unterminated string");
    assert_eq!(tokens[1].typ, TokenType::EOF);
}

#[test]
fn unexpected_character_is_an_error_token() {
    let tokens = scan_all("  @");
    assert_eq!(tokens[0].typ, TokenType::Error);
    assert_eq!(tokens[0].source, "Unexpected character '@' at position 2");
}

#[test]
fn end_of_text_repeats() {
    let mut scanner = Scanner::new("  ");
    assert_eq!(scanner.scan_token().typ, TokenType::EOF);
    assert_eq!(scanner.scan_token().typ, TokenType::EOF);
}

#[test]
fn placeholder_token() {
    let token = Token::new();
    assert_eq!(token.typ, TokenType::Error);
    assert_eq!(token.source, "");
    assert_eq!(token.line, 0);
}

#[test]
fn tokens_are_on_the_line_of_the_source_that_holds_them() {
    let tokens = scan_all("a\n;\n// a comment\n\n  b \"x\ny\" c\n");
    let lines: Vec<usize> = tokens.iter().map(|t| t.line).collect();
    // a, ;, b, the string (which ends on line 6), c, end of text
    assert_eq!(lines, vec![1, 2, 5, 6, 6, 7]);
}
