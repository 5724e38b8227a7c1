use crafting_interpreter::lox::ast::{Expr, Stmt};
use crafting_interpreter::lox::parser::Parser;
use crafting_interpreter::lox::printer::{AstPrinter, Visitor};
use crafting_interpreter::lox::scanner::Scanner;
use crafting_interpreter::lox::token::Token;
use crafting_interpreter::lox::token_type::LiteralValue;

/// Names the method that was called and counts the calls.
struct Recorder {
    calls: usize,
}

impl Recorder {
    fn note(&mut self, what: &str) -> String {
        self.calls += 1;
        what.to_string()
    }
}

impl Visitor<String> for Recorder {
    fn visit_binary(&mut self, left: &Expr, operator: &Token, right: &Expr) -> String {
        let l = left.accept(self);
        let r = right.accept(self);
        self.note(&format!("binary {} [{}] [{}]", operator.lexeme, l, r))
    }
    fn visit_literal(&mut self, _value: &LiteralValue) -> String {
        self.note("literal")
    }
    fn visit_grouping(&mut self, expression: &Expr) -> String {
        let inner = expression.accept(self);
        self.note(&format!("grouping [{}]", inner))
    }
    fn visit_variable(&mut self, name: &Token) -> String {
        self.note(&format!("variable {}", name.lexeme))
    }
    fn visit_unary(&mut self, operator: &Token, _operand: &Expr) -> String {
        self.note(&format!("unary {}", operator.lexeme))
    }
    fn visit_assign(&mut self, name: &Token, _value: &Expr) -> String {
        self.note(&format!("assign {}", name.lexeme))
    }
    fn visit_call(&mut self, _callee: &Expr, arguments: &[Expr]) -> String {
        self.note(&format!("call {}", arguments.len()))
    }
    fn visit_get(&mut self, _object: &Expr, name: &Token) -> String {
        self.note(&format!("get {}", name.lexeme))
    }
    fn visit_set(&mut self, _object: &Expr, name: &Token, _value: &Expr) -> String {
        self.note(&format!("set {}", name.lexeme))
    }
    fn visit_this(&mut self, _keyword: &Token) -> String {
        self.note("this")
    }
    fn visit_super(&mut self, _keyword: &Token, _method: &Token) -> String {
        self.note("super")
    }
    fn visit_expression(&mut self, expr: &Expr) -> String {
        let inner = expr.accept(self);
        self.note(&format!("expression [{}]", inner))
    }
    fn visit_print(&mut self, _expr: &Expr) -> String {
        self.note("print")
    }
    fn visit_var(&mut self, name: &Token, initializer: &Option<Expr>) -> String {
        self.note(&format!("var {} {}", name.lexeme, initializer.is_some()))
    }
    fn visit_block(&mut self, statements: &[Stmt]) -> String {
        self.note(&format!("block {}", statements.len()))
    }
    fn visit_while(&mut self, _condition: &Expr, _body: &Stmt) -> String {
        self.note("while")
    }
    fn visit_for(
        &mut self,
        initializer: &Option<Box<Stmt>>,
        condition: &Option<Expr>,
        increment: &Option<Expr>,
        _body: &Stmt,
    ) -> String {
        self.note(&format!(
            "for {} {} {}",
            initializer.is_some(),
            condition.is_some(),
            increment.is_some()
        ))
    }
    fn visit_if(&mut self, _condition: &Expr, _then: &Stmt, else_branch: &Option<Box<Stmt>>) -> String {
        self.note(&format!("if {}", else_branch.is_some()))
    }
    fn visit_function(&mut self, name: &Token, params: &[Token], body: &[Stmt]) -> String {
        self.note(&format!("function {} {} {}", name.lexeme, params.len(), body.len()))
    }
    fn visit_return(&mut self, _keyword: &Token, value: &Option<Expr>) -> String {
        self.note(&format!("return {}", value.is_some()))
    }
    fn visit_class(&mut self, name: &Token, methods: &[(Token, Stmt)]) -> String {
        self.note(&format!("class {} {}", name.lexeme, methods.len()))
    }
}

fn parse(source: &str) -> Vec<Stmt> {
    let tokens = Scanner::new(source).scan_tokens().unwrap();
    Parser::new(tokens).parse().unwrap()
}

fn visit(source: &str) -> Vec<String> {
    let mut recorder = Recorder { calls: 0 };
    parse(source).iter().map(|s| s.accept(&mut recorder)).collect()
}

#[test]
fn accept_calls_the_method_of_the_kind() {
    assert_eq!(
        visit("1 + (x) * 2;"),
        vec!["expression [binary + [literal] [binary * [grouping [variable x]] [literal]]]"]
    );
    assert_eq!(
        visit("print 1; var a; var b = 2; { a; b; } while (true) a; if (a) b; if (a) b; else a;"),
        vec!["print", "var a false", "var b true", "block 2", "while", "if false", "if true"]
    );
    assert_eq!(
        visit("for (;;) 1; for (var i = 0; i < 1; i = i + 1) 1; fun f(a, b) { return; return 1; }"),
        vec!["for false false false", "for true true true", "function f 2 2"]
    );
    assert_eq!(
        visit("-a; !a; a = 1; f(1, 2); f();"),
        vec![
            "expression [unary -]",
            "expression [unary !]",
            "expression [assign a]",
            "expression [call 2]",
            "expression [call 0]",
        ]
    );
    let body = parse("fun f() { return; return 1; }");
    match &body[0] {
        Stmt::Function(f) => {
            let mut recorder = Recorder { calls: 0 };
            assert_eq!(f.body[0].accept(&mut recorder), "return false");
            assert_eq!(f.body[1].accept(&mut recorder), "return true");
            assert_eq!(recorder.calls, 2);
        }
        other => panic!("{:?}", other),
    }
}

#[test]
fn the_printer_is_a_visitor() {
    let mut printer = AstPrinter;
    let statements = parse("print 1 + 2; fun f(a) { return a; } for (;;) {}");
    let texts: Vec<String> = statements.iter().map(|s| s.accept(&mut printer)).collect();
    assert_eq!(
        texts,
        vec!["(print (+ 1 2))", "(fun f (a) (return a))", "(for  true  (block ))"]
    );
    match &statements[0] {
        Stmt::Print(e) => {
            assert_eq!(e.accept(&mut printer), "(+ 1 2)");
            assert_eq!(printer.print(e), "(+ 1 2)");
        }
        other => panic!("{:?}", other),
    }
    let keyword = crafting_interpreter::lox::token::Token::new(
        crafting_interpreter::lox::token_type::TokenType::This,
        "this".to_string(),
        None,
        1,
    );
    let method = crafting_interpreter::lox::token::Token::new(
        crafting_interpreter::lox::token_type::TokenType::Identifier,
        "m".to_string(),
        None,
        1,
    );
    assert_eq!(printer.visit_this(&keyword), "(this this)");
    assert_eq!(printer.visit_super(&keyword, &method), "(super this.m)");
}
