use crafting_interpreter::lox::error::LoxError;
use crafting_interpreter::lox::scanner::Scanner;
use crafting_interpreter::lox::token::Token;
use crafting_interpreter::lox::token_type::{LiteralValue, TokenType};

fn scan(source: &str) -> Vec<Token> {
    match Scanner::new(source).scan_tokens() {
        Ok(tokens) => tokens,
        Err(err) => panic!("scan failed: {:?}", err),
    }
}

fn kinds(tokens: &[Token]) -> Vec<TokenType> {
    tokens.iter().map(|t| t.token_type).collect()
}

#[test]
fn test_scan_single_character_tokens() {
    let source = "(){},.-+;";
    let tokens = scan(source);

    let expected_types = vec![
        TokenType::LeftParen,
        TokenType::RightParen,
        TokenType::LeftBrace,
        TokenType::RightBrace,
        TokenType::Comma,
        TokenType::Dot,
        TokenType::Minus,
        TokenType::Plus,
        TokenType::Semicolon,
        TokenType::Eof,
    ];

    assert_eq!(tokens.len(), expected_types.len());

    for (i, token) in tokens.iter().enumerate() {
        assert_eq!(token.token_type, expected_types[i]);
    }
}

#[test]
fn test_scan_keywords_and_identifiers() {
    let source = "var x = 10; print x;";
    let tokens = scan(source);

    let expected_types = vec![
        TokenType::Var,
        TokenType::Identifier,
        TokenType::Equal,
        TokenType::Number,
        TokenType::Semicolon,
        TokenType::Print,
        TokenType::Identifier,
        TokenType::Semicolon,
        TokenType::Eof,
    ];

    assert_eq!(tokens.len(), expected_types.len());

    for (i, token) in tokens.iter().enumerate() {
        assert_eq!(token.token_type, expected_types[i]);
    }
}

#[test]
fn test_scan_string_literal() {
    let source = "\"Hello, world!\"";
    let tokens = scan(source);

    assert_eq!(tokens.len(), 2); // StringLit + EOF
    assert_eq!(tokens[0].token_type, TokenType::StringLit);
    if let Some(LiteralValue::String(value)) = &tokens[0].literal {
        assert_eq!(value, "Hello, world!");
    } else {
        panic!("Expected string literal.");
    }
}

#[test]
fn test_scan_number_literal() {
    let source = "123.45";
    let tokens = scan(source);

    assert_eq!(tokens.len(), 2); // Number + EOF
    assert_eq!(tokens[0].token_type, TokenType::Number);
    if let Some(LiteralValue::Number(value)) = &tokens[0].literal {
        assert_eq!(f64::from_bits(value.to_bits()), 123.45);
    } else {
        panic!("Expected number literal.");
    }
}

#[test]
fn test_scan_unterminated_string() {
    let source = "\"Hello, world!";
    let mut scanner = Scanner::new(source);
    let result = scanner.scan_tokens();

    match result {
        Err(LoxError::UnterminatedString(message)) => {
            assert_eq!(message, "Unterminated string literal at line 1.");
        }
        other => panic!("Expected an unterminated string, got {:?}", other),
    }
}

#[test]
fn test_scan_comments() {
    let source = "// this is a comment\nvar x = 42;";
    let tokens = scan(source);

    let expected_types = vec![
        TokenType::Var,
        TokenType::Identifier,
        TokenType::Equal,
        TokenType::Number,
        TokenType::Semicolon,
        TokenType::Eof,
    ];

    assert_eq!(tokens.len(), expected_types.len());

    for (i, token) in tokens.iter().enumerate() {
        assert_eq!(token.token_type, expected_types[i]);
    }
}

#[test]
fn test_unexpected_character() {
    let source = "#";
    let mut scanner = Scanner::new(source);
    let result = scanner.scan_tokens();

    assert_eq!(result, Err(LoxError::UnexpectedCharacter('#')));
}

#[test]
fn scan_two_character_operators() {
    let tokens = scan("! != = == < <= > >= / * %");
    assert_eq!(
        kinds(&tokens),
        vec![
            TokenType::Bang,
            TokenType::BangEqual,
            TokenType::Equal,
            TokenType::EqualEqual,
            TokenType::Less,
            TokenType::LessEqual,
            TokenType::Greater,
            TokenType::GreaterEqual,
            TokenType::Slash,
            TokenType::Star,
            TokenType::Percent,
            TokenType::Eof,
        ]
    );
    assert_eq!(tokens[1].lexeme, "!=");
}

#[test]
fn scan_every_keyword() {
    let tokens = scan("and class else false fun for if nil or print return super this true var while whiles _x");
    assert_eq!(
        kinds(&tokens),
        vec![
            TokenType::And,
            TokenType::Class,
            TokenType::Else,
            TokenType::False,
            TokenType::Fun,
            TokenType::For,
            TokenType::If,
            TokenType::Nil,
            TokenType::Or,
            TokenType::Print,
            TokenType::Return,
            TokenType::Super,
            TokenType::This,
            TokenType::True,
            TokenType::Var,
            TokenType::While,
            TokenType::Identifier,
            TokenType::Identifier,
            TokenType::Eof,
        ]
    );
}

#[test]
fn scan_counts_lines() {
    let tokens = scan("a\nb\n\"x\ny\"\nc");
    assert_eq!(tokens[0].line, 1);
    assert_eq!(tokens[1].line, 2);
    assert_eq!(tokens[2].token_type, TokenType::StringLit);
    assert_eq!(tokens[2].line, 4);
    assert_eq!(tokens[2].lexeme, "\"x\ny\"");
    assert_eq!(tokens[3].line, 5);
    assert_eq!(tokens[4].token_type, TokenType::Eof);
    assert_eq!(tokens[4].line, 5);
    assert_eq!(tokens[4].lexeme, "");
}

#[test]
fn scan_nested_block_comment() {
    let tokens = scan("1 /* outer /* inner */ still outer */ 2");
    assert_eq!(kinds(&tokens), vec![TokenType::Number, TokenType::Number, TokenType::Eof]);
    assert_eq!(tokens[1].lexeme, "2");
}

#[test]
fn scan_unterminated_block_comment() {
    let result = Scanner::new("1 /* outer /* inner */\n never closed").scan_tokens();
    match result {
        Err(LoxError::UnterminatedString(message)) => {
            assert_eq!(message, "Unterminated string literal at line 2.");
        }
        other => panic!("Expected an error, got {:?}", other),
    }
}

#[test]
fn scan_number_forms() {
    let tokens = scan("7 0.5 12. .5");
    assert_eq!(
        kinds(&tokens),
        vec![
            TokenType::Number,
            TokenType::Number,
            TokenType::Number,
            TokenType::Dot,
            TokenType::Dot,
            TokenType::Number,
            TokenType::Eof,
        ]
    );
    let values: Vec<f64> = tokens
        .iter()
        .filter_map(|t| t.literal.as_ref().and_then(|l| l.as_number()))
        .map(|n| f64::from_bits(n.to_bits()))
        .collect();
    assert_eq!(values, vec![7.0, 0.5, 12.0, 5.0]);
}

#[test]
fn scan_failure_leaves_scanner_unchanged() {
    let mut scanner = Scanner::new("var x = #;");
    assert!(scanner.scan_tokens().is_err());
    assert_eq!(scanner.scan_tokens(), Err(LoxError::UnexpectedCharacter('#')));
}

#[test]
fn scan_text_that_is_not_ascii() {
    let tokens = scan("print \"h\u{e9}llo \u{4e16}\u{754c}\"; // \u{1f600}\nx");
    assert_eq!(
        kinds(&tokens),
        vec![
            TokenType::Print,
            TokenType::StringLit,
            TokenType::Semicolon,
            TokenType::Identifier,
            TokenType::Eof,
        ]
    );
    assert_eq!(tokens[1].literal, Some(LiteralValue::String("h\u{e9}llo \u{4e16}\u{754c}".to_string())));
    assert_eq!(tokens[3].line, 2);
    assert_eq!(
        Scanner::new("x = \u{e9};").scan_tokens(),
        Err(LoxError::UnexpectedCharacter('\u{e9}'))
    );
}

#[test]
fn scan_comment_at_the_end() {
    assert_eq!(kinds(&scan("1 // no line feed")), vec![TokenType::Number, TokenType::Eof]);
    assert_eq!(kinds(&scan("1 /**/")), vec![TokenType::Number, TokenType::Eof]);
    assert_eq!(kinds(&scan("/*/ 1 */ 2")), vec![TokenType::Number, TokenType::Eof]);
    assert_eq!(kinds(&scan("")), vec![TokenType::Eof]);
    assert!(Scanner::new("/*/").scan_tokens().is_err());
}

#[test]
fn scan_twice_goes_on_from_the_end() {
    let mut scanner = Scanner::new("a b");
    assert_eq!(kinds(&scanner.scan_tokens().unwrap()), vec![
        TokenType::Identifier,
        TokenType::Identifier,
        TokenType::Eof,
    ]);
    assert_eq!(kinds(&scanner.scan_tokens().unwrap()), vec![
        TokenType::Identifier,
        TokenType::Identifier,
        TokenType::Eof,
        TokenType::Eof,
    ]);
}
