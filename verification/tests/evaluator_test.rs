use crafting_interpreter::lox::ast::{Expr, Stmt};
use crafting_interpreter::lox::error::LoxError;
use crafting_interpreter::lox::evaluator::{EvalResult, Environment, Evaluator, NativeFunction, Value};
use crafting_interpreter::lox::number::Number;
use crafting_interpreter::lox::token::Token;
use crafting_interpreter::lox::token_type::{LiteralValue, TokenType};
use crafting_interpreter::{run, run_at, run_with_evaluator, run_with_evaluator_at};

fn output(source: &str) -> String {
    match run(source) {
        Ok(text) => text,
        Err(err) => panic!("{:?} for {}", err, source),
    }
}

fn failure(source: &str) -> LoxError {
    match run(source) {
        Ok(text) => panic!("printed {:?}", text),
        Err(err) => err,
    }
}

fn mismatch(text: &str) -> LoxError {
    LoxError::InvalidTypeConversion(text.to_string())
}

fn num(value: f64) -> Value {
    Value::Number(Number::from_bits(value.to_bits()))
}

fn number_of(value: Option<Value>) -> f64 {
    match value {
        Some(Value::Number(n)) => f64::from_bits(n.to_bits()),
        other => panic!("{:?}", other),
    }
}

#[test]
fn scenarios_print_what_they_should() {
    assert_eq!(output("print 123;"), "123");
    assert_eq!(output("var x = 10; print x;"), "10");
    assert_eq!(output("print 1 + 2 * 3 / (4 - 1);"), "3");
    assert_eq!(
        output("if (true) print \"yes\"; if (false) print \"no\"; else print \"yes\";"),
        "yes\nyes"
    );
    assert_eq!(output("var i = 0; while (i < 3) { print i; i = i + 1; }"), "0\n1\n2");
    assert_eq!(output("fun add(a, b) { return a + b; } print add(3, 4);"), "7");
    assert_eq!(
        output("fun fact(n) { if (n <= 1) return 1; return n * fact(n - 1); } print fact(5);"),
        "120"
    );
    assert_eq!(
        output("var a = \"global\"; { var a = \"local\"; print a; } print a;"),
        "local\nglobal"
    );
}

#[test]
fn error_scenarios() {
    assert_eq!(failure("print x;"), LoxError::UndefinedVariable("x".to_string()));
    assert_eq!(
        failure("if (123) print \"x\";"),
        LoxError::NonBooleanCondition("Condition must evaluate to a boolean.".to_string())
    );
    assert_eq!(failure("var a = 10 / 0;"), LoxError::DivisionByZero);
    assert_eq!(
        failure("fun f(a, a) { print a; }"),
        LoxError::ParseError("Duplicate parameter name 'a'.".to_string())
    );
    assert_eq!(failure("return 123;"), LoxError::ReturnOutsideFunction);
    assert_eq!(
        failure(""),
        LoxError::ParseError("No valid statements produced".to_string())
    );
    assert_eq!(failure("print 1 # 2;"), LoxError::UnexpectedCharacter('#'));
}

#[test]
fn values_print_in_their_forms() {
    assert_eq!(output("print nil;"), "Nil");
    assert_eq!(output("print true; print false;"), "true\nfalse");
    assert_eq!(output("print \"text\";"), "text");
    assert_eq!(output("print 2.5; print -0.5; print 1 / 3;"), "2.5\n-0.5\n0.3333333333333333");
    assert_eq!(output("print 0.1 + 0.2;"), "0.30000000000000004");
    assert_eq!(output("print 10 / 4; print 10 / 5;"), "2.5\n2");
    assert_eq!(output("fun f() {} print f;"), "<fn f>");
    assert_eq!(output("print clock;"), "<native fn>");
    assert_eq!(output("fun f() {} print f();"), "Nil");
}

#[test]
fn operators() {
    assert_eq!(output("print 7 - 2; print 7 * 2; print 7 / 2; print 7 % 4; print -7 % 4;"), "5\n14\n3.5\n3\n-3");
    assert_eq!(output("print \"a\" + \"b\";"), "ab");
    assert_eq!(output("print 1 < 2; print 2 <= 2; print 1 > 2; print 2 >= 3;"), "true\ntrue\nfalse\nfalse");
    assert_eq!(output("print 1 == 1; print 1 != 1; print 1 == \"1\"; print 1 != \"1\";"), "true\nfalse\nfalse\ntrue");
    assert_eq!(output("print nil == nil; print nil == false; print \"a\" == \"a\"; print true != false;"), "true\nfalse\ntrue\ntrue");
    assert_eq!(output("print -(3); print !true; print !nil; print !0; print !\"\";"), "-3\nfalse\ntrue\nfalse\nfalse");
    assert_eq!(output("print 0 == -0; print (0/1) / (0 - 1) == 0;"), "true\ntrue");
    assert_eq!(output("print 5 % 0 == 5 % 0;"), "false");
}

#[test]
fn operand_errors() {
    assert_eq!(failure("print 1 + \"a\";"), mismatch("Operands must be two numbers or two strings for '+'."));
    assert_eq!(failure("print \"a\" - 1;"), mismatch("Operands must be numbers for '-'."));
    assert_eq!(failure("print nil * 1;"), mismatch("Operands must be numbers for '*'."));
    assert_eq!(failure("print \"a\" / \"b\";"), mismatch("Operands must be numbers for '/'."));
    assert_eq!(failure("print true % 1;"), mismatch("Operands must be numbers for '%'."));
    assert_eq!(failure("print 1 < \"a\";"), mismatch("Operands must be numbers for comparison."));
    assert_eq!(failure("print -\"a\";"), mismatch("Operand must be a number for unary minus."));
    assert_eq!(failure("print 1 / (1 - 1);"), LoxError::DivisionByZero);
    assert_eq!(failure("print 1 / -0;"), LoxError::DivisionByZero);
    assert_eq!(failure("\"f\"();"), mismatch("Can only call functions."));
    assert_eq!(failure("fun f(a) {} f();"), mismatch("Expected 1 arguments but got 0."));
    assert_eq!(failure("fun f() {} f(1, 2);"), mismatch("Expected 0 arguments but got 2."));
    assert_eq!(failure("x = 1;"), LoxError::UndefinedVariable("x".to_string()));
    assert_eq!(failure("print y + 1;"), LoxError::UndefinedVariable("y".to_string()));
}

#[test]
fn conditions_must_be_booleans() {
    let expected = LoxError::NonBooleanCondition("Condition must evaluate to a boolean.".to_string());
    assert_eq!(failure("if (1) print 1;"), expected);
    assert_eq!(failure("if (nil) print 1;"), expected);
    assert_eq!(failure("if (\"true\") print 1;"), expected);
    assert_eq!(failure("while (0) print 1;"), expected);
    assert_eq!(failure("for (; 1; ) print 1;"), expected);
    assert_eq!(output("if (!nil) print \"ok\";"), "ok");
}

#[test]
fn names_of_a_block_end_with_it() {
    assert_eq!(failure("{ var inner = 1; } print inner;"), LoxError::UndefinedVariable("inner".to_string()));
    assert_eq!(output("var a = 1; { a = 2; var b = 3; a = a + b; } print a;"), "5");
    assert_eq!(output("var a = 1; { var a = 2; { var a = 3; print a; } print a; } print a;"), "3\n2\n1");
    assert_eq!(failure("if (true) { var t = 1; } print t;"), LoxError::UndefinedVariable("t".to_string()));
    assert_eq!(failure("fun f() { var local = 1; } f(); print local;"), LoxError::UndefinedVariable("local".to_string()));
    assert_eq!(failure("fun f(p) { } f(1); print p;"), LoxError::UndefinedVariable("p".to_string()));
}

#[test]
fn parameters_hold_the_arguments() {
    assert_eq!(output("fun f(a, b, c) { print a; print b; print c; } var x = 2; f(1, x, x + 1);"), "1\n2\n3");
    assert_eq!(output("var a = 10; fun f(a) { a = a + 1; print a; } f(1); print a;"), "2\n10");
    assert_eq!(output("var n = 0; fun next() { n = n + 1; return n; } fun f(a, b) { print a; print b; } f(next(), next());"), "1\n2");
}

#[test]
fn functions_see_the_scope_of_their_declaration() {
    let source = "
        var a = \"global\";
        fun show() { print a; }
        {
            var a = \"block\";
            show();
        }
        fun caller() { var a = \"caller\"; show(); }
        caller();";
    assert_eq!(output(source), "global\nglobal");
    let counter = "
        fun make() {
            var count = 0;
            fun increment() { count = count + 1; return count; }
            return increment;
        }
        var first = make();
        var second = make();
        print first(); print first(); print second(); print first();";
    assert_eq!(output(counter), "1\n2\n1\n3");
    let shared = "
        var get; var set;
        {
            var hidden = 1;
            fun g() { return hidden; }
            fun s(v) { hidden = v; }
            get = g; set = s;
        }
        print get(); set(5); print get();";
    assert_eq!(output(shared), "1\n5");
    assert_eq!(
        output("fun f() { return later; } var later = 7; print f();"),
        "7"
    );
}

#[test]
fn return_leaves_one_call() {
    let source = "
        fun find() {
            var i = 0;
            while (true) {
                { if (i == 3) { return i; } }
                i = i + 1;
            }
            print \"never\";
        }
        print find();
        print \"after\";";
    assert_eq!(output(source), "3\nafter");
    assert_eq!(output("fun f() { for (var i = 0; i < 10; i = i + 1) { if (i == 2) return \"two\"; } } print f();"), "two");
    assert_eq!(output("fun inner() { return 1; print 0; } fun outer() { var x = inner(); print \"outer goes on\"; return x + 1; } print outer();"), "outer goes on\n2");
    assert_eq!(output("fun f() { return; } print f();"), "Nil");
    assert_eq!(output("fun f() { return nil; print 1; } print f();"), "Nil");
}

#[test]
fn for_loops() {
    assert_eq!(output("for (var i = 0; i < 3; i = i + 1) print i;"), "0\n1\n2");
    assert_eq!(output("var i = 5; for (var i = 0; i < 2; i = i + 1) { print i; } print i;"), "0\n1\n5");
    assert_eq!(output("var i = 0; for (; i < 2; ) { i = i + 1; } print i;"), "2");
    let same = output("var i = 0; { while (i < 3) { { print i; } i = i + 1; } }");
    assert_eq!(output("var i = 0; for (; i < 3; i = i + 1) { print i; }"), same);
    assert_eq!(failure("for (var i = 0; i < 1; i = i + 1) {} print i;"), LoxError::UndefinedVariable("i".to_string()));
}

#[test]
fn output_stays_after_an_error() {
    let mut evaluator = Evaluator::new();
    assert_eq!(
        run_with_evaluator("print 1; print missing; print 2;", &mut evaluator),
        Err(LoxError::UndefinedVariable("missing".to_string()))
    );
    assert_eq!(evaluator.get_output(), "1");
    assert_eq!(run_with_evaluator("print 3;", &mut evaluator), Ok("1\n3".to_string()));
}

#[test]
fn evaluator_persists_between_lines() {
    let mut evaluator = Evaluator::new();
    assert_eq!(run_with_evaluator("var x = 10;", &mut evaluator), Ok("".to_string()));
    assert_eq!(run_with_evaluator("fun twice(n) { return n * 2; }", &mut evaluator), Ok("".to_string()));
    assert_eq!(run_with_evaluator("print twice(x);", &mut evaluator), Ok("20".to_string()));
    assert_eq!(
        run_with_evaluator("print (;", &mut evaluator),
        Err(LoxError::ParseError("Unexpected token.".to_string()))
    );
    assert_eq!(run_with_evaluator("x = x + 1; print x;", &mut evaluator), Ok("20\n11".to_string()));
}

#[test]
fn clock_gives_the_reading() {
    assert_eq!(run_at("print clock();", 1700000000), Ok("1700000000".to_string()));
    assert_eq!(run_at("print clock() - clock();", 5), Ok("0".to_string()));
    assert_eq!(run_at("print clock(1, 2);", 7), Ok("7".to_string()));
    let mut evaluator = Evaluator::new();
    assert_eq!(run_with_evaluator_at("print clock();", &mut evaluator, 1), Ok("1".to_string()));
    assert_eq!(run_with_evaluator_at("print clock();", &mut evaluator, 2), Ok("1\n2".to_string()));
    assert_eq!(output("print clock() > 1000000000;"), "true");
}

#[test]
fn statements_that_are_not_executed() {
    let name = Token::new(TokenType::Identifier, "C".to_string(), None, 1);
    let mut evaluator = Evaluator::new();
    match evaluator.evaluate_statements(vec![Stmt::Class { name, methods: vec![] }]) {
        EvalResult::Error(err) => assert_eq!(err, mismatch("Unsupported statement.")),
        other => panic!("{:?}", other),
    }
    let object = Expr::Variable { name: Token::new(TokenType::Identifier, "clock".to_string(), None, 1) };
    let get = Expr::Get { object: Box::new(object), name: Token::new(TokenType::Identifier, "f".to_string(), None, 1) };
    match evaluator.evaluate_statements(vec![Stmt::Expression(get)]) {
        EvalResult::Error(err) => assert_eq!(err, mismatch("Unsupported expression.")),
        other => panic!("{:?}", other),
    }
}

#[test]
fn a_return_at_the_top_ends_the_statements() {
    let keyword = Token::new(TokenType::Return, "return".to_string(), None, 1);
    let value = Expr::Literal { value: LiteralValue::Boolean(true) };
    let mut evaluator = Evaluator::new();
    let result = evaluator.evaluate_statements(vec![
        Stmt::Print(Expr::Literal { value: LiteralValue::Nil }),
        Stmt::Return { keyword, value: Some(value) },
        Stmt::Print(Expr::Literal { value: LiteralValue::Nil }),
    ]);
    match result {
        EvalResult::Return(Value::Return(inner)) => assert!(matches!(*inner, Value::Boolean(true))),
        other => panic!("{:?}", other),
    }
    assert_eq!(evaluator.get_output(), "Nil");
}

#[test]
fn environment_binds_and_finds() {
    let mut env = Environment::new();
    assert!(env.get("a").is_none());
    env.define("a".to_string(), num(1.0));
    assert_eq!(number_of(env.get("a")), 1.0);
    env.define("a".to_string(), num(2.0));
    assert_eq!(number_of(env.get("a")), 2.0);
    assert_eq!(env.assign("a".to_string(), num(3.0)), Ok(()));
    assert_eq!(number_of(env.get("a")), 3.0);
    assert_eq!(
        env.assign("missing".to_string(), num(0.0)),
        Err("Variable 'missing' not defined.".to_string())
    );
    assert!(env.get("missing").is_none());

    let mut inner = Environment::with_enclosing(env);
    assert_eq!(inner.current(), 1);
    assert_eq!(inner.scope_count(), 2);
    assert_eq!(number_of(inner.get("a")), 3.0);
    inner.define("b".to_string(), num(10.0));
    inner.define("a".to_string(), num(20.0));
    assert_eq!(number_of(inner.get("a")), 20.0);
    assert_eq!(inner.assign("a".to_string(), num(21.0)), Ok(()));
    inner.merge_to_parent();
    assert_eq!(number_of(inner.get("a")), 21.0);
    assert_eq!(inner.pin(), 1);
    inner.leave(0);
    assert_eq!(number_of(inner.get("a")), 3.0);
    assert!(inner.get("b").is_none());
    inner.enter(0);
    assert_eq!(inner.current(), 2);
    assert!(inner.get("b").is_none());
    assert_eq!(inner.assign("a".to_string(), num(4.0)), Ok(()));
    inner.leave(0);
    assert_eq!(number_of(inner.get("a")), 4.0);
    inner.enter(1);
    assert_eq!(number_of(inner.get("a")), 21.0);
    assert_eq!(number_of(inner.get("b")), 10.0);
}

#[test]
fn scopes_go_when_they_are_left() {
    let mut env = Environment::new();
    env.define("a".to_string(), num(1.0));
    for _ in 0..1000 {
        let parent = env.current();
        env.enter(parent);
        env.define("b".to_string(), num(2.0));
        assert_eq!(env.scope_count(), 2);
        env.leave(parent);
        assert_eq!(env.scope_count(), 1);
        assert_eq!(env.current(), 0);
    }
    assert!(env.get("b").is_none());
    assert_eq!(number_of(env.get("a")), 1.0);

    // A pinned scope stays, and those below it.
    env.enter(0);
    env.enter(1);
    assert_eq!(env.pin(), 2);
    env.enter(2);
    assert_eq!(env.scope_count(), 4);
    env.leave(2);
    assert_eq!(env.scope_count(), 3);
    env.define("c".to_string(), num(3.0));
    env.leave(1);
    assert_eq!(env.scope_count(), 3);
    env.leave(0);
    assert_eq!(env.scope_count(), 3);
    env.enter(2);
    assert_eq!(env.current(), 3);
    assert_eq!(number_of(env.get("c")), 3.0);
    env.leave(0);
    assert_eq!(env.scope_count(), 3);
}

#[test]
fn long_loops_and_deep_calls() {
    let source = "
        var total = 0;
        for (var i = 0; i < 20000; i = i + 1) {
            var twice = i * 2;
            { total = total + twice; }
        }
        print total;
        fun count(n) { if (n == 0) return 0; return 1 + count(n - 1); }
        print count(500);
        fun fib(n) { if (n < 2) return n; return fib(n - 1) + fib(n - 2); }
        print fib(15);";
    assert_eq!(output(source), "399980000\n500\n610");
}

#[test]
fn values_have_a_text() {
    assert_eq!(Value::Nil.to_string(), "Nil");
    assert_eq!(Value::Boolean(true).to_string(), "true");
    assert_eq!(num(1.5).to_string(), "1.5");
    assert_eq!(num(-2.0).to_string(), "-2");
    assert_eq!(Value::String("s".to_string()).to_string(), "s");
    assert_eq!(Value::NativeFunction(NativeFunction::Clock).to_string(), "<native fn>");
    assert_eq!(Value::Return(Box::new(Value::Nil)).to_string(), "Unsupported value");
    assert!(Value::Return(Box::new(Value::Nil)).is_return());
    assert!(!Value::Nil.is_return());
    let copy = Value::String("s".to_string()).clone();
    assert!(matches!(copy, Value::String(ref s) if s == "s"));
}

#[test]
fn every_error_has_its_message() {
    let cases = vec![
        (LoxError::FileNotFound("a.lox".to_string()), "[Error: File not found 'a.lox']"),
        (LoxError::InvalidTypeConversion("m".to_string()), "[Error: Invalid type conversion 'm']"),
        (LoxError::IoError("m".to_string()), "[Error: IO error 'm']"),
        (LoxError::ParseError("m".to_string()), "[Error: Parse error 'm']"),
        (LoxError::UnterminatedString("m".to_string()), "[Error: Unterminated string 'm']"),
        (LoxError::UnexpectedCharacter('#'), "[Error: Unexpected character '#']"),
        (LoxError::UndefinedVariable("x".to_string()), "[Error: Undefined variable 'x']"),
        (LoxError::DivisionByZero, "[Error: Division by zero]"),
        (LoxError::NonBooleanCondition("c".to_string()), "[Error: Non-boolean condition 'c']"),
        (LoxError::ReturnOutsideFunction, "[Error: Cannot return from outside a function.]"),
        (LoxError::DuplicateParameterName("a".to_string()), "[Error: Duplicate parameter name 'a']"),
        (LoxError::RuntimeError("m".to_string()), "[Error: Runtime error 'm']"),
    ];
    for (error, text) in cases {
        assert_eq!(error.to_string(), text);
    }
}

#[test]
fn clock_is_read_at_each_call() {
    let mut evaluator = Evaluator::new();
    assert_eq!(
        run_with_evaluator(
            "var start = clock(); while (clock() == start) {} print clock() > start;",
            &mut evaluator
        ),
        Ok("true".to_string())
    );
    assert_eq!(run_with_evaluator_at("print clock();", &mut evaluator, 3), Ok("true\n3".to_string()));
    assert_eq!(
        run_with_evaluator("print clock() > 1000000000;", &mut evaluator),
        Ok("true\n3\ntrue".to_string())
    );
}

#[test]
fn a_held_clock_stands_still() {
    assert_eq!(
        run_at("var start = clock(); var i = 0; while (i < 100) { i = i + 1; } print clock() - start;", 9),
        Ok("0".to_string())
    );
}

#[test]
fn a_block_forgets_what_it_declares() {
    let x = Token::new(TokenType::Identifier, "x".to_string(), None, 1);
    let one = Expr::Literal { value: LiteralValue::Number(Number::from_bits(1.0f64.to_bits())) };
    let block = Stmt::Block(vec![
        Stmt::Var { name: x.clone(), initializer: Some(one) },
        Stmt::Print(Expr::Variable { name: x.clone() }),
    ]);
    let mut evaluator = Evaluator::new();
    assert!(matches!(evaluator.execute(&block, 10), EvalResult::Return(Value::Nil)));
    assert_eq!(evaluator.get_output(), "1");
    match evaluator.evaluate(&Expr::Variable { name: x }, 10) {
        Err(err) => assert_eq!(err, LoxError::UndefinedVariable("x".to_string())),
        Ok(value) => panic!("{:?}", value),
    }
}

#[test]
fn division_of_values() {
    let slash = Token::new(TokenType::Slash, "/".to_string(), None, 1);
    let literal = |v: f64| Box::new(Expr::Literal { value: LiteralValue::Number(Number::from_bits(v.to_bits())) });
    let mut evaluator = Evaluator::new();
    let by_zero = Expr::Binary { left: literal(1.0), operator: slash.clone(), right: literal(-0.0) };
    assert_eq!(evaluator.evaluate(&by_zero, 0).err(), Some(LoxError::DivisionByZero));
    let by_four = Expr::Binary { left: literal(1.0), operator: slash, right: literal(4.0) };
    match evaluator.evaluate(&by_four, 0) {
        Ok(Value::Number(n)) => assert_eq!(f64::from_bits(n.to_bits()), 0.25),
        other => panic!("{:?}", other),
    }
}

#[test]
fn a_call_binds_parameters_and_returns() {
    let mut evaluator = Evaluator::new();
    assert_eq!(
        run_with_evaluator("var a = 7; fun f(a, b) { while (true) { if (a < b) { return a - b; } } }", &mut evaluator),
        Ok("".to_string())
    );
    let f = match evaluator.evaluate(&Expr::Variable { name: Token::new(TokenType::Identifier, "f".to_string(), None, 1) }, 10) {
        Ok(f) => f,
        Err(err) => panic!("{:?}", err),
    };
    match evaluator.evaluate_call(f.clone(), vec![num(1.0), num(3.0)], 10) {
        Ok(Value::Number(n)) => assert_eq!(f64::from_bits(n.to_bits()), -2.0),
        other => panic!("{:?}", other),
    }
    assert_eq!(
        evaluator.evaluate_call(f, vec![num(1.0)], 10).err(),
        Some(mismatch("Expected 2 arguments but got 1."))
    );
    assert_eq!(run_with_evaluator("print a;", &mut evaluator), Ok("7".to_string()));
}

#[test]
fn large_integral_numbers_print_in_full() {
    assert_eq!(output("print 1000000000000000000000;"), "1000000000000000000000");
    assert_eq!(output("print 9223372036854775807;"), "9223372036854775808");
    assert_eq!(output("print 0 - 9223372036854775808;"), "-9223372036854775808");
    assert_eq!(output("print 2.5 * 4;"), "10");
}
