use crafting_interpreter::lox::number::Number;
use crafting_interpreter::tool::ast_generator::ast_source;
use crafting_interpreter::vm::ast_node::{ASTNode, BinaryOperator, UnaryOperator};
use crafting_interpreter::vm::parser::{tokenize, Parser, Token};

fn num(value: f64) -> Token {
    Token::Number(Number::from_bits(value.to_bits()))
}

fn ident(name: &str) -> Token {
    Token::Identifier(name.to_string())
}

fn literal(value: f64) -> ASTNode {
    ASTNode::NumberLiteral(Number::from_bits(value.to_bits()))
}

fn parse(tokens: Vec<Token>) -> Result<ASTNode, String> {
    Parser::new(tokens).parse()
}

fn statement(tokens: Vec<Token>) -> ASTNode {
    match parse(tokens) {
        Ok(ASTNode::Program(mut nodes)) => {
            assert_eq!(nodes.len(), 1);
            nodes.remove(0)
        }
        other => panic!("{:?}", other),
    }
}

#[test]
fn generated_source() {
    let expected = "use crate::lox::token::Token;\n\
use crate::lox::token_type::LiteralValue;\n\
\n#[derive(Debug)]\n\
pub enum Expr {\n\
\x20   Binary { left: Box<Expr>, operator: Token, right: Box<Expr> },\n\
\x20   Grouping { expression: Box<Expr> },\n\
\x20   Literal { value: LiteralValue },\n\
\x20   Unary { operator: Token, operand: Box<Expr> },\n\
}\n\n\
pub enum Stmt {\n\
\x20   Expression { Expr },\n\
\x20   Print { Expr },\n\
}\n\n";
    assert_eq!(ast_source(), expected);
}

#[test]
fn lines_split_into_identifiers() {
    assert_eq!(tokenize("a  bc\td"), vec![ident("a"), ident("bc"), ident("d")]);
    assert_eq!(tokenize("  1 + 2 ;\n"), vec![ident("1"), ident("+"), ident("2"), ident(";")]);
    assert_eq!(tokenize(""), vec![]);
    assert_eq!(tokenize(" \u{a0}\u{3000} "), vec![]);
    assert_eq!(tokenize("x\u{2003}y"), vec![ident("x"), ident("y")]);
    let words: Vec<String> = "a  bc\td \u{85} e".split_whitespace().map(|w| w.to_string()).collect();
    let tokens: Vec<Token> = words.into_iter().map(Token::Identifier).collect();
    assert_eq!(tokenize("a  bc\td \u{85} e"), tokens);
}

#[test]
fn machine_parser_precedence() {
    // 1 + 2 * -3 = x;
    let node = statement(vec![
        num(1.0),
        Token::Plus,
        num(2.0),
        Token::Star,
        Token::Minus,
        num(3.0),
        Token::Equals,
        ident("x"),
        Token::Semicolon,
        Token::EOF,
    ]);
    let expected = ASTNode::ExpressionStatement(Box::new(ASTNode::BinaryExpression {
        left: Box::new(ASTNode::BinaryExpression {
            left: Box::new(literal(1.0)),
            operator: BinaryOperator::Plus,
            right: Box::new(ASTNode::BinaryExpression {
                left: Box::new(literal(2.0)),
                operator: BinaryOperator::Star,
                right: Box::new(ASTNode::UnaryExpression {
                    operator: UnaryOperator::Minus,
                    right: Box::new(literal(3.0)),
                }),
            }),
        }),
        operator: BinaryOperator::Equals,
        right: Box::new(ASTNode::VariableReference("x".to_string())),
    }));
    assert_eq!(node, expected);
}

#[test]
fn machine_parser_statements() {
    // if (x) { return 1; } else { (s); }
    let node = statement(vec![
        Token::If,
        Token::LeftParen,
        ident("x"),
        Token::RightParen,
        Token::LeftBrace,
        Token::Return,
        num(1.0),
        Token::Semicolon,
        Token::RightBrace,
        Token::Else,
        Token::LeftBrace,
        Token::LeftParen,
        Token::String("s".to_string()),
        Token::RightParen,
        Token::Semicolon,
        Token::RightBrace,
    ]);
    let expected = ASTNode::IfStatement {
        condition: Box::new(ASTNode::VariableReference("x".to_string())),
        then_branch: vec![ASTNode::ReturnStatement(Some(Box::new(literal(1.0))))],
        else_branch: Some(vec![ASTNode::ExpressionStatement(Box::new(ASTNode::Grouping(
            Box::new(ASTNode::StringLiteral("s".to_string())),
        )))]),
    };
    assert_eq!(node, expected);

    // while (x) { return; }
    let node = statement(vec![
        Token::While,
        Token::LeftParen,
        ident("x"),
        Token::RightParen,
        Token::LeftBrace,
        Token::Return,
        Token::Semicolon,
        Token::RightBrace,
        Token::EOF,
    ]);
    let expected = ASTNode::WhileStatement {
        condition: Box::new(ASTNode::VariableReference("x".to_string())),
        body: vec![ASTNode::ReturnStatement(None)],
    };
    assert_eq!(node, expected);

    // function f(a, b) { } function g() { }
    let program = parse(vec![
        Token::Function,
        ident("f"),
        Token::LeftParen,
        ident("a"),
        Token::Comma,
        ident("b"),
        Token::RightParen,
        Token::LeftBrace,
        Token::RightBrace,
        Token::Function,
        ident("g"),
        Token::LeftParen,
        Token::RightParen,
        Token::LeftBrace,
        Token::RightBrace,
        Token::EOF,
        ident("ignored"),
    ]);
    let expected = ASTNode::Program(vec![
        ASTNode::FunctionDeclaration {
            name: "f".to_string(),
            parameters: vec!["a".to_string(), "b".to_string()],
            body: vec![],
        },
        ASTNode::FunctionDeclaration { name: "g".to_string(), parameters: vec![], body: vec![] },
    ]);
    assert_eq!(program, Ok(expected));
    assert_eq!(parse(vec![]), Ok(ASTNode::Program(vec![])));
}

#[test]
fn machine_parser_errors() {
    let error = |tokens: Vec<Token>| parse(tokens).err().unwrap();
    assert_eq!(error(vec![num(1.0)]), "Expect ';' after expression.");
    assert_eq!(error(vec![Token::Plus]), "Expect expression.");
    assert_eq!(error(vec![num(1.0), Token::Plus, Token::EOF]), "Expect expression.");
    assert_eq!(error(vec![Token::LeftParen, num(1.0), Token::Semicolon]), "Expect ')' after expression.");
    assert_eq!(error(vec![Token::Return, num(1.0)]), "Expect ';' after return value.");
    assert_eq!(error(vec![Token::If, num(1.0)]), "Expect '(' after 'if'.");
    assert_eq!(error(vec![Token::If, Token::LeftParen, num(1.0), Token::LeftBrace]), "Expect ')' after condition.");
    assert_eq!(error(vec![Token::If, Token::LeftParen, num(1.0), Token::RightParen, num(1.0)]), "Expect '{' before 'if' body.");
    assert_eq!(
        error(vec![Token::If, Token::LeftParen, num(1.0), Token::RightParen, Token::LeftBrace, Token::RightBrace, Token::Else, num(1.0)]),
        "Expect '{' before 'else' body."
    );
    assert_eq!(error(vec![Token::While, num(1.0)]), "Expect '(' after 'while'.");
    assert_eq!(error(vec![Token::While, Token::LeftParen, num(1.0), Token::RightParen, num(1.0)]), "Expect '{' before 'while' body.");
    assert_eq!(error(vec![Token::While, Token::LeftParen, num(1.0), Token::RightParen, Token::LeftBrace, num(1.0), Token::Semicolon]), "Expect '}' after block.");
    assert_eq!(error(vec![Token::Function, num(1.0)]), "Expect function name.");
    assert_eq!(error(vec![Token::Function, ident("f"), num(1.0)]), "Expect '(' after function name.");
    assert_eq!(error(vec![Token::Function, ident("f"), Token::LeftParen, num(1.0)]), "Expect parameter name.");
    assert_eq!(error(vec![Token::Function, ident("f"), Token::LeftParen, ident("a"), Token::LeftBrace]), "Expect ')' after parameters.");
    assert_eq!(error(vec![Token::Function, ident("f"), Token::LeftParen, Token::RightParen, Token::RightBrace]), "Expect '{' before function body.");
}
