use crafting_interpreter::canonical;
use crafting_interpreter::lox::ast::{Expr, FunctionDecl, Stmt};
use crafting_interpreter::lox::error::LoxError;
use crafting_interpreter::lox::number::Number;
use crafting_interpreter::lox::parser::Parser;
use crafting_interpreter::lox::printer::AstPrinter;
use crafting_interpreter::lox::scanner::Scanner;
use crafting_interpreter::lox::token::Token;
use crafting_interpreter::lox::token_type::{LiteralValue, TokenType};
use std::rc::Rc;

fn parse(source: &str) -> Result<Vec<Stmt>, LoxError> {
    let tokens = Scanner::new(source).scan_tokens()?;
    Parser::new(tokens).parse()
}

fn text(source: &str) -> String {
    match canonical(source) {
        Ok(text) => text,
        Err(err) => panic!("{:?} for {}", err, source),
    }
}

fn parse_error(source: &str) -> LoxError {
    match parse(source) {
        Ok(statements) => panic!("parsed {:?}", statements),
        Err(err) => err,
    }
}

fn message(source: &str) -> String {
    match parse_error(source) {
        LoxError::ParseError(message) => message,
        other => panic!("{:?}", other),
    }
}

fn name(lexeme: &str) -> Token {
    Token::new(TokenType::Identifier, lexeme.to_string(), None, 1)
}

fn literal(value: f64) -> Expr {
    Expr::Literal { value: LiteralValue::Number(Number::from_bits(value.to_bits())) }
}

#[test]
fn precedence_and_associativity() {
    assert_eq!(text("1 + 2 * 3 / (4 - 1);"), "(+ 1 (/ (* 2 3) (group (- 4 1))))");
    assert_eq!(text("1 - 2 - 3;"), "(- (- 1 2) 3)");
    assert_eq!(text("a = b = 3;"), "(assign a (assign b 3))");
    assert_eq!(text("1 < 2 == 3 >= 4;"), "(== (< 1 2) (>= 3 4))");
    assert_eq!(text("!-x != y % 2;"), "(!= (! (- x)) (% y 2))");
    assert_eq!(text("- - 1;"), "(- (- 1))");
}

#[test]
fn literals_and_calls() {
    assert_eq!(text("print \"hi\";"), "(print hi)");
    assert_eq!(text("print nil;"), "(print nil)");
    assert_eq!(text("print true == false;"), "(print (== true false))");
    assert_eq!(text("print 0.5;"), "(print 0.5)");
    assert_eq!(text("f();"), "(call f )");
    assert_eq!(text("f(1, x, \"s\");"), "(call f 1, x, s)");
    assert_eq!(text("f(1)(2);"), "(call (call f 1) 2)");
    assert_eq!(text("(f)(g(1));"), "(call (group f) (call g 1))");
}

#[test]
fn statements_in_canonical_form() {
    assert_eq!(text("var x;"), "(var x)");
    assert_eq!(text("var x = 1 + 2;"), "(var x = (+ 1 2))");
    assert_eq!(text("{ var a = 1; print a; }"), "(block (var a = 1) (print a))");
    assert_eq!(text("{}"), "(block )");
    assert_eq!(text("while (i < 3) i = i + 1;"), "(while (< i 3) (assign i (+ i 1)))");
    assert_eq!(text("if (a) print 1;"), "(if a (print 1))");
    assert_eq!(text("if (a) print 1; else { print 2; }"), "(if a (print 1) else (block (print 2)))");
    assert_eq!(
        text("fun add(a, b) { return a + b; }"),
        "(fun add (a, b) (return (+ a b)))"
    );
    assert_eq!(text("fun f() { return; }"), "(fun f () (return))");
    assert_eq!(text("print 1; print 2;"), "(print 1)\n(print 2)");
    assert_eq!(text(""), "");
}

#[test]
fn for_statement_is_kept_as_written() {
    assert_eq!(
        text("for (var i = 0; i < 3; i = i + 1) print i;"),
        "(for (var i = 0) (< i 3) (assign i (+ i 1)) (print i))"
    );
    assert_eq!(text("for (;;) print 1;"), "(for  true  (print 1))");
    assert_eq!(text("for (i = 0; ; ) {}"), "(for (assign i 0) true  (block ))");
    match &parse("for (;;) print 1;").unwrap()[0] {
        Stmt::For { initializer, condition, increment, .. } => {
            assert!(initializer.is_none() && condition.is_none() && increment.is_none());
        }
        other => panic!("{:?}", other),
    }
}

#[test]
fn default_parameter_values_are_parsed_and_dropped() {
    assert_eq!(text("fun f(a = 10, b) { print a; }"), "(fun f (a, b) (print a))");
    assert_eq!(
        message("fun f(a = ) { }"),
        "Invalid default value for parameter 'a': [Error: Parse error 'Unexpected token.']"
    );
}

#[test]
fn duplicate_parameter_is_a_parse_error() {
    assert_eq!(message("fun f(a, a) { print a; }"), "Duplicate parameter name 'a'.");
    assert_eq!(message("fun f(a, b, c, b) { }"), "Duplicate parameter name 'b'.");
}

#[test]
fn return_outside_function_is_a_parse_error() {
    assert_eq!(parse_error("return 123;"), LoxError::ReturnOutsideFunction);
    assert_eq!(parse_error("{ if (true) return; }"), LoxError::ReturnOutsideFunction);
    assert_eq!(parse_error("while (true) { return 1; }"), LoxError::ReturnOutsideFunction);
    assert!(parse("fun f() { if (true) { return 1; } }").is_ok());
}

#[test]
fn return_after_an_inner_function_is_accepted() {
    let source = "fun outer() { fun inner() { return 1; } return inner(); }";
    assert_eq!(
        text(source),
        "(fun outer () (fun inner () (return 1)) (return (call inner )))"
    );
    assert_eq!(
        parse_error("fun f() { return 1; } return 2;"),
        LoxError::ReturnOutsideFunction
    );
}

#[test]
fn nesting_deeper_than_the_limit_is_a_parse_error() {
    let deep = format!("{}1{};", "(".repeat(1001), ")".repeat(1001));
    assert_eq!(message(&deep), "Recursion depth exceeded.");
    let fine = format!("{}1{};", "(".repeat(1000), ")".repeat(1000));
    assert!(parse(&fine).is_ok());
    let printed = format!("print {}1{};", "(".repeat(1000), ")".repeat(1000));
    assert_eq!(crafting_interpreter::run(&printed), Ok("1".to_string()));
}

#[test]
fn parse_error_messages() {
    assert_eq!(message("1 = 2;"), "Invalid assignment target.");
    assert_eq!(message("(a) = 2;"), "Invalid assignment target.");
    assert_eq!(message("print 1"), "Expected ';' after value.");
    assert_eq!(message("1 + 2"), "Expected ';' after expression or assignment.");
    assert_eq!(message("var = 1;"), "Expected variable name.");
    assert_eq!(message("var x = 1"), "Expected ';' after variable declaration.");
    assert_eq!(message("(1 + 2;"), "Expected ')' after expression.");
    assert_eq!(message("f(1, 2;"), "Expect ')' after arguments.");
    assert_eq!(message("{ print 1;"), "Expected '}' after block.");
    assert_eq!(message("if true) print 1;"), "Expect '(' after 'if'.");
    assert_eq!(message("if (true print 1;"), "Expect ')' after if condition.");
    assert_eq!(message("while true) print 1;"), "Expect '(' after 'while'.");
    assert_eq!(message("while (true print 1;"), "Expect ')' after condition.");
    assert_eq!(message("for var i = 0;;) print 1;"), "Expect '(' after 'for'.");
    assert_eq!(message("for (;true) print 1;"), "Expect ';' after loop condition.");
    assert_eq!(message("for (;; i = 1 print 1;"), "Expect ')' after for clauses.");
    assert_eq!(message("fun (a) {}"), "Expect function name.");
    assert_eq!(message("fun f a) {}"), "Expect '(' after function name.");
    assert_eq!(message("fun f(1) {}"), "Expect parameter name.");
    assert_eq!(message("fun f(a {}"), "Expect ')' after parameters.");
    assert_eq!(message("fun f(a) print a;"), "Expect '{' before function body.");
    assert_eq!(message("fun f() { return 1 }"), "Expected ';' after return value.");
    assert_eq!(message("+;"), "Unexpected token.");
    assert_eq!(message("print ;"), "Unexpected token.");
    assert_eq!(message("print and;"), "Unexpected token.");
}

#[test]
fn parser_on_tokens_without_an_end() {
    let mut parser = Parser::new(vec![]);
    assert_eq!(parser.parse().unwrap().len(), 0);
    let mut parser = Parser::new(vec![name("x")]);
    assert_eq!(
        parser.parse().err(),
        Some(LoxError::ParseError("Expected ';' after expression or assignment.".to_string()))
    );
    let mut parser = Parser::new(vec![Token::new(TokenType::Number, "1".to_string(), None, 1)]);
    assert_eq!(
        parser.parse().err(),
        Some(LoxError::ParseError("Unexpected token.".to_string()))
    );
}

#[test]
fn printer_writes_every_node() {
    let mut printer = AstPrinter;
    let get = Expr::Get { object: Box::new(Expr::Variable { name: name("o") }), name: name("f") };
    assert_eq!(printer.print(&get), "(get o.f)");
    let set = Expr::SetProperty {
        object: Box::new(Expr::Variable { name: name("o") }),
        name: name("f"),
        value: Box::new(literal(1.0)),
    };
    assert_eq!(printer.print(&set), "(set o.f = 1)");
    let method = Stmt::Function(Rc::new(FunctionDecl {
        name: name("m"),
        params: vec![],
        body: vec![Stmt::Print(literal(2.5))],
    }));
    let other = Stmt::Function(Rc::new(FunctionDecl {
        name: name("n"),
        params: vec![name("a")],
        body: vec![],
    }));
    let class = Stmt::Class { name: name("C"), methods: vec![(name("m"), method), (name("n"), other)] };
    assert_eq!(
        printer.print_statement(&class),
        "(class C { m (fun m () (print 2.5)) n (fun n (a) ) })"
    );
    let empty = Stmt::Class { name: name("E"), methods: vec![] };
    assert_eq!(printer.print_statement(&empty), "(class E {  })");
    assert_eq!(printer.print(&literal(1e21)), "1000000000000000000000");
    assert_eq!(printer.print(&literal(-0.25)), "-0.25");
    assert_eq!(
        printer.print_program(&vec![Stmt::Expression(literal(1.0)), Stmt::Expression(literal(2.0))]),
        "1\n2"
    );
}

#[test]
fn literals_have_a_text() {
    assert_eq!(LiteralValue::Nil.to_string(), "nil");
    assert_eq!(LiteralValue::Boolean(true).to_string(), "true");
    assert_eq!(LiteralValue::Boolean(false).to_string(), "false");
    assert_eq!(LiteralValue::String("a b".to_string()).to_string(), "a b");
    assert_eq!(LiteralValue::Number(Number::from_bits(2.5f64.to_bits())).to_string(), "2.5");
    assert_eq!(LiteralValue::Number(Number::from_bits(3f64.to_bits())).to_string(), "3");
    assert_eq!(
        LiteralValue::Number(Number::from_bits(3f64.to_bits())).as_number(),
        Some(Number::from_bits(3f64.to_bits()))
    );
    assert_eq!(LiteralValue::Nil.as_number(), None);
    assert_eq!(LiteralValue::Nil.clone(), LiteralValue::Nil);
}

#[test]
fn canonical_text_depends_on_the_tokens_alone() {
    let first = text("var x=1+2;print x;");
    let second = text("  var   x = 1 /* note */ + 2 ;\n\n// end\n print x ; ");
    assert_eq!(first, second);
    assert_eq!(first, "(var x = (+ 1 2))\n(print x)");
    assert_eq!(canonical("print \"open;"), Err(LoxError::UnterminatedString(
        "Unterminated string literal at line 1.".to_string()
    )));
    assert_eq!(canonical("print 1"), Err(LoxError::ParseError("Expected ';' after value.".to_string())));
}
