use fsf::Literal;
use fsf::ScanError;
use fsf::Scanner;
use fsf::Token;
use fsf::TokenType;

fn scan(source: &str) -> Vec<Token> {
    let mut scanner = Scanner::new(source.to_string());
    scanner.scan_tokens().expect("scan should succeed")
}

fn kinds(tokens: &[Token]) -> Vec<TokenType> {
    tokens.iter().map(|t| t.token_type).collect()
}

#[test]
fn test_scan_simple_function() {
    let tokens = scan("fn add(a: int) -> int { a + 1; }");
    assert_eq!(
        kinds(&tokens),
        vec![
            TokenType::Fn,
            TokenType::Identifier,
            TokenType::LeftParen,
            TokenType::Identifier,
            TokenType::Colon,
            TokenType::Identifier,
            TokenType::RightParen,
            TokenType::MinusGreater,
            TokenType::Identifier,
            TokenType::LeftBrace,
            TokenType::Identifier,
            TokenType::Plus,
            TokenType::Number,
            TokenType::Semicolon,
            TokenType::RightBrace,
            TokenType::EOF,
        ]
    );
    assert_eq!(tokens[1].lexeme, "add");
}

#[test]
fn test_scan_two_character_operators() {
    let tokens = scan("!= == <= >= += -> :: </ /> < > ! =");
    assert_eq!(
        kinds(&tokens),
        vec![
            TokenType::BangEqual,
            TokenType::EqualEqual,
            TokenType::LessEqual,
            TokenType::GreaterEqual,
            TokenType::PlusEqual,
            TokenType::MinusGreater,
            TokenType::ColonColon,
            TokenType::LessSlash,
            TokenType::SlashGreater,
            TokenType::Less,
            TokenType::Greater,
            TokenType::Bang,
            TokenType::Equal,
            TokenType::EOF,
        ]
    );
}

#[test]
fn test_scan_string_and_fstring() {
    let tokens = scan("\"hi\" `ho {x}`");
    assert_eq!(tokens[0].token_type, TokenType::String);
    assert_eq!(tokens[0].lexeme, "\"hi\"");
    match &tokens[0].value {
        Some(Literal::String(s)) => assert_eq!(s, "hi"),
        other => panic!("unexpected value {:?}", other),
    }
    assert_eq!(tokens[1].token_type, TokenType::FString);
    match &tokens[1].value {
        Some(Literal::String(s)) => assert_eq!(s, "ho {x}"),
        other => panic!("unexpected value {:?}", other),
    }
}

#[test]
fn test_scan_number_lexemes() {
    let tokens = scan("3.14 7 3.");
    assert_eq!(tokens[0].token_type, TokenType::Number);
    assert_eq!(tokens[0].lexeme, "3.14");
    assert_eq!(tokens[1].lexeme, "7");
    // A dot without a following digit is not a fractional part.
    assert_eq!(tokens[2].lexeme, "3");
    assert_eq!(tokens[3].token_type, TokenType::Dot);
}

#[test]
fn test_scan_keywords_and_builtins() {
    let tokens = scan("let mut print fn cmpnt if else assert_eq import struct __RUN_TEST __TEST_RUNNER letx");
    assert_eq!(
        kinds(&tokens),
        vec![
            TokenType::Let,
            TokenType::Mut,
            TokenType::Print,
            TokenType::Fn,
            TokenType::Cmpnt,
            TokenType::If,
            TokenType::Else,
            TokenType::AssertEq,
            TokenType::Import,
            TokenType::Struct,
            TokenType::RunTest,
            TokenType::TestRunner,
            TokenType::Identifier,
            TokenType::EOF,
        ]
    );
}

#[test]
fn test_scan_comment_and_whitespace_dropped() {
    let tokens = scan("a // a comment with fn let\n\tb");
    assert_eq!(
        kinds(&tokens),
        vec![TokenType::Identifier, TokenType::Identifier, TokenType::EOF]
    );
    assert_eq!(tokens[0].lexeme, "a");
    assert_eq!(tokens[1].lexeme, "b");
    assert_eq!(tokens[1].line, 2);
}

#[test]
fn test_scan_raw_escapes() {
    let tokens = scan("@js(\"x\") @go(\"y\")");
    assert_eq!(tokens[0].token_type, TokenType::RawJs);
    assert_eq!(tokens[0].lexeme, "@js");
    assert_eq!(tokens[4].token_type, TokenType::RawGo);
}

#[test]
fn test_scan_unterminated_string_is_hard_error() {
    let mut scanner = Scanner::new("\"oops".to_string());
    match scanner.scan_tokens() {
        Err(ScanError::UnterminatedString { line }) => assert_eq!(line, 1),
        other => panic!("expected an unterminated-string error, got {:?}", other),
    }
}

#[test]
fn test_scan_unknown_character_is_hard_error() {
    let mut scanner = Scanner::new("a # b".to_string());
    match scanner.scan_tokens() {
        Err(ScanError::UnexpectedCharacter { character, .. }) => assert_eq!(character, '#'),
        other => panic!("expected an unexpected-character error, got {:?}", other),
    }
}

#[test]
fn test_scan_unknown_raw_escape_is_hard_error() {
    let mut scanner = Scanner::new("@rust(\"x\")".to_string());
    match scanner.scan_tokens() {
        Err(ScanError::UnknownRawEscape { lexeme, .. }) => assert_eq!(lexeme, "@rust"),
        other => panic!("expected an unknown-raw-escape error, got {:?}", other),
    }
}

#[test]
fn test_scan_string_counts_inner_newlines() {
    let tokens = scan("\"a\nb\" x");
    assert_eq!(tokens[0].token_type, TokenType::String);
    match &tokens[0].value {
        Some(Literal::String(s)) => assert_eq!(s, "a\nb"),
        other => panic!("unexpected value {:?}", other),
    }
    // The identifier after the literal starts on line 2.
    assert_eq!(tokens[1].line, 2);
}

#[test]
fn test_scan_true_and_false_are_plain_identifiers() {
    let tokens = scan("true false");
    assert_eq!(tokens[0].token_type, TokenType::Identifier);
    assert_eq!(tokens[1].token_type, TokenType::Identifier);
}

#[test]
fn test_scan_end_of_input_token_occurs_exactly_once() {
    let tokens = scan("let x = 1;");
    let eof_count = tokens
        .iter()
        .filter(|t| t.token_type == TokenType::EOF)
        .count();
    assert_eq!(eof_count, 1);
    assert_eq!(tokens.last().unwrap().token_type, TokenType::EOF);
    assert_eq!(tokens.last().unwrap().lexeme, "");
}

#[test]
fn test_scan_lexemes_tile_the_source() {
    // The significant characters of the source, in order, are exactly the
    // concatenation of the lexemes.
    let source = "fn f(a: int) { a + 1; } // done\n";
    let tokens = scan(source);
    let concatenated: String = tokens.iter().map(|t| t.lexeme.as_str()).collect();
    let significant: String = source
        .replace("// done", "")
        .chars()
        .filter(|c| !c.is_whitespace())
        .collect();
    let concatenated_no_ws: String = concatenated.chars().filter(|c| !c.is_whitespace()).collect();
    assert_eq!(concatenated_no_ws, significant);
}
