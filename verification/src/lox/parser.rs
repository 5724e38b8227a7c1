//! The parser: tokens to statements, by recursive descent.
use crate::lox::ast::{
    expr_view, exprs_view, stmt_view, stmts_view, Expr, ExprView, FunctionDecl, FunctionView, Stmt,
    StmtView,
};
use crate::lox::error::{LoxError, LoxErrorView};
use crate::lox::text::same_text;
use crate::lox::token::{tokens_view, Token, TokenView};
use crate::lox::token_type::{LiteralValue, LiteralView, TokenType};
use std::rc::Rc;
use vstd::prelude::*;

verus! {

/// The deepest nesting of expressions that is parsed.
pub const MAX_RECURSION_DEPTH: usize = 1000;

/// What a parsing function found, and the position it reached.
pub struct Parsed<T> {
    pub result: Result<T, LoxErrorView>,
    pub pos: int,
}

/// Failure with a message at a position.
pub open spec fn fail<T>(message: Seq<char>, pos: int) -> Parsed<T> {
    Parsed { result: Err(LoxErrorView::ParseError(message)), pos }
}

/// The same failure for another result type.
pub open spec fn pass<T, U>(failed: Parsed<T>) -> Parsed<U> {
    Parsed {
        result: Err(
            match failed.result {
                Err(e) => e,
                Ok(_) => arbitrary(),
            },
        ),
        pos: failed.pos,
    }
}

/// Success with a value at a position.
pub open spec fn found<T>(value: T, pos: int) -> Parsed<T> {
    Parsed { result: Ok(value), pos }
}

/// Whether a token of kind `kind` stands at `pos`.
pub open spec fn check(tokens: Seq<TokenView>, pos: int, kind: TokenType) -> bool {
    0 <= pos < tokens.len() && tokens[pos].token_type == kind
}

/// Whether nothing but the end of the input is left at `pos`.
pub open spec fn at_end(tokens: Seq<TokenView>, pos: int) -> bool {
    !(0 <= pos < tokens.len()) || tokens[pos].token_type == TokenType::Eof
}

/// The position that a part of a construct reached: never before `low`,
/// where the part started, and never past the tokens.
pub open spec fn reached(pos: int, low: int, tokens: Seq<TokenView>) -> int {
    if low <= pos <= tokens.len() {
        pos
    } else {
        low
    }
}

/// Whether `kind` is a binary operator of precedence level `level`:
/// 0 equality, 1 comparison, 2 term, 3 factor.
pub open spec fn is_operator(level: nat, kind: TokenType) -> bool {
    if level == 0 {
        kind == TokenType::BangEqual || kind == TokenType::EqualEqual
    } else if level == 1 {
        kind == TokenType::Greater || kind == TokenType::GreaterEqual || kind == TokenType::Less
            || kind == TokenType::LessEqual
    } else if level == 2 {
        kind == TokenType::Minus || kind == TokenType::Plus
    } else {
        kind == TokenType::Slash || kind == TokenType::Star || kind == TokenType::Percent
    }
}

/// primary := NUMBER | STRING | "true" | "false" | "nil" | IDENT | "(" expression ")"
pub open spec fn primary(tokens: Seq<TokenView>, pos: int, depth: nat) -> Parsed<ExprView>
    decreases tokens.len() - pos, 0nat,
{
    if !(0 <= pos < tokens.len()) {
        fail("Unexpected token."@, pos)
    } else {
        let token = tokens[pos];
        match token.token_type {
            TokenType::Number => match token.literal {
                Some(value) => found(ExprView::Literal { value }, pos + 1),
                None => fail("Unexpected token."@, pos),
            },
            TokenType::StringLit => match token.literal {
                Some(LiteralView::String(s)) => found(
                    ExprView::Literal { value: LiteralView::String(s) },
                    pos + 1,
                ),
                _ => fail("Unexpected token."@, pos),
            },
            TokenType::True => found(
                ExprView::Literal { value: LiteralView::Boolean(true) },
                pos + 1,
            ),
            TokenType::False => found(
                ExprView::Literal { value: LiteralView::Boolean(false) },
                pos + 1,
            ),
            TokenType::Nil => found(ExprView::Literal { value: LiteralView::Nil }, pos + 1),
            TokenType::Identifier => found(ExprView::Variable { name: token }, pos + 1),
            TokenType::LeftParen => {
                let inner = expression(tokens, pos + 1, depth);
                let end = reached(inner.pos, pos + 1, tokens);
                match inner.result {
                    Ok(e) => if check(tokens, end, TokenType::RightParen) {
                        found(ExprView::Grouping { expression: Box::new(e) }, end + 1)
                    } else {
                        fail("Expected ')' after expression."@, end)
                    },
                    Err(_) => inner,
                }
            },
            _ => fail("Unexpected token."@, pos),
        }
    }
}

/// arguments := expression ( "," expression )*, after those of `done`.
pub open spec fn arguments(tokens: Seq<TokenView>, pos: int, depth: nat, done: Seq<ExprView>) -> Parsed<
    Seq<ExprView>,
>
    decreases tokens.len() - pos, 10nat,
{
    let argument = expression(tokens, pos, depth);
    let end = reached(argument.pos, pos, tokens);
    match argument.result {
        Ok(e) => if check(tokens, end, TokenType::Comma) {
            arguments(tokens, end + 1, depth, done.push(e))
        } else {
            found(done.push(e), end)
        },
        Err(_) => pass(argument),
    }
}

/// The calls that follow `callee`: ( "(" arguments? ")" )*
pub open spec fn calls(tokens: Seq<TokenView>, pos: int, depth: nat, callee: ExprView) -> Parsed<
    ExprView,
>
    decreases tokens.len() - pos, 0nat,
{
    if check(tokens, pos, TokenType::LeftParen) {
        let list = if check(tokens, pos + 1, TokenType::RightParen) {
            found(Seq::empty(), pos + 1)
        } else {
            arguments(tokens, pos + 1, depth, Seq::empty())
        };
        let end = reached(list.pos, pos + 1, tokens);
        match list.result {
            Ok(args) => if check(tokens, end, TokenType::RightParen) {
                calls(
                    tokens,
                    end + 1,
                    depth,
                    ExprView::Call { callee: Box::new(callee), arguments: args },
                )
            } else {
                fail("Expect ')' after arguments."@, end)
            },
            Err(_) => pass(list),
        }
    } else {
        found(callee, pos)
    }
}

/// call := primary ( "(" arguments? ")" )*
pub open spec fn call(tokens: Seq<TokenView>, pos: int, depth: nat) -> Parsed<ExprView>
    decreases tokens.len() - pos, 1nat,
{
    let callee = primary(tokens, pos, depth);
    match callee.result {
        Ok(e) => calls(tokens, reached(callee.pos, pos, tokens), depth, e),
        Err(_) => callee,
    }
}

/// unary := ( "!" | "-" ) unary | call
pub open spec fn unary(tokens: Seq<TokenView>, pos: int, depth: nat) -> Parsed<ExprView>
    decreases tokens.len() - pos, 2nat,
{
    if check(tokens, pos, TokenType::Bang) || check(tokens, pos, TokenType::Minus) {
        let operand = unary(tokens, pos + 1, depth);
        match operand.result {
            Ok(e) => found(
                ExprView::Unary { operator: tokens[pos], operand: Box::new(e) },
                operand.pos,
            ),
            Err(_) => operand,
        }
    } else {
        call(tokens, pos, depth)
    }
}

/// The operators of level `level` and their right operands that follow
/// `left`, folded to the left.
pub open spec fn binary_rest(
    tokens: Seq<TokenView>,
    pos: int,
    depth: nat,
    level: nat,
    left: ExprView,
) -> Parsed<ExprView>
    decreases tokens.len() - pos, 0nat,
{
    if 0 <= pos < tokens.len() && is_operator(level, tokens[pos].token_type) {
        let right = if level >= 3 {
            unary(tokens, pos + 1, depth)
        } else {
            binary(tokens, pos + 1, depth, level + 1)
        };
        match right.result {
            Ok(r) => binary_rest(
                tokens,
                reached(right.pos, pos + 1, tokens),
                depth,
                level,
                ExprView::Binary { left: Box::new(left), operator: tokens[pos], right: Box::new(r) },
            ),
            Err(_) => right,
        }
    } else {
        found(left, pos)
    }
}

/// A binary expression of precedence level `level`: 0 equality,
/// 1 comparison, 2 term, 3 factor. The operands of a factor are unary
/// expressions; those of another level are of the next level.
pub open spec fn binary(tokens: Seq<TokenView>, pos: int, depth: nat, level: nat) -> Parsed<
    ExprView,
>
    decreases tokens.len() - pos,
        (if level < 3 {
            6 - level
        } else {
            3
        }),
{
    let left = if level >= 3 {
        unary(tokens, pos, depth)
    } else {
        binary(tokens, pos, depth, level + 1)
    };
    match left.result {
        Ok(l) => binary_rest(tokens, reached(left.pos, pos, tokens), depth, level, l),
        Err(_) => left,
    }
}

/// assignment := IDENT "=" assignment | equality
pub open spec fn assignment(tokens: Seq<TokenView>, pos: int, depth: nat) -> Parsed<ExprView>
    decreases tokens.len() - pos, 8nat,
{
    let target = binary(tokens, pos, depth, 0);
    let end = reached(target.pos, pos, tokens);
    match target.result {
        Ok(e) => if check(tokens, end, TokenType::Equal) {
            let value = assignment(tokens, end + 1, depth);
            match value.result {
                Ok(v) => match e {
                    ExprView::Variable { name } => found(
                        ExprView::Assign { name, value: Box::new(v) },
                        value.pos,
                    ),
                    _ => fail("Invalid assignment target."@, value.pos),
                },
                Err(_) => value,
            }
        } else {
            target
        },
        Err(_) => target,
    }
}

/// expression := assignment, no deeper than the recursion limit.
pub open spec fn expression(tokens: Seq<TokenView>, pos: int, depth: nat) -> Parsed<ExprView>
    decreases tokens.len() - pos, 9nat,
{
    if depth > MAX_RECURSION_DEPTH {
        fail("Recursion depth exceeded."@, pos)
    } else {
        assignment(tokens, pos, depth + 1)
    }
}


/// An expression, unless a token of kind `stop` stands at `pos`.
pub open spec fn optional_expression(
    tokens: Seq<TokenView>,
    pos: int,
    depth: nat,
    stop: TokenType,
) -> Parsed<Option<ExprView>>
    decreases tokens.len() - pos, 10nat,
{
    if check(tokens, pos, stop) {
        found(None, pos)
    } else {
        let e = expression(tokens, pos, depth);
        match e.result {
            Ok(v) => found(Some(v), reached(e.pos, pos, tokens)),
            Err(_) => pass(e),
        }
    }
}

/// exprStmt := expression ";"
pub open spec fn expression_statement(tokens: Seq<TokenView>, pos: int, depth: nat) -> Parsed<
    StmtView,
>
    decreases tokens.len() - pos, 10nat,
{
    let e = expression(tokens, pos, depth);
    let end = reached(e.pos, pos, tokens);
    match e.result {
        Ok(v) => if check(tokens, end, TokenType::Semicolon) {
            found(StmtView::Expression(v), end + 1)
        } else {
            fail("Expected ';' after expression or assignment."@, end)
        },
        Err(_) => pass(e),
    }
}

/// printStmt, after `print`: expression ";"
pub open spec fn print_statement(tokens: Seq<TokenView>, pos: int, depth: nat) -> Parsed<StmtView>
    decreases tokens.len() - pos, 10nat,
{
    let e = expression(tokens, pos, depth);
    let end = reached(e.pos, pos, tokens);
    match e.result {
        Ok(v) => if check(tokens, end, TokenType::Semicolon) {
            found(StmtView::Print(v), end + 1)
        } else {
            fail("Expected ';' after value."@, end)
        },
        Err(_) => pass(e),
    }
}

/// returnStmt, after `return`: expression? ";". Outside every function
/// body it is refused.
pub open spec fn return_statement(
    tokens: Seq<TokenView>,
    pos: int,
    depth: nat,
    inside: bool,
) -> Parsed<StmtView>
    decreases tokens.len() - pos, 11nat,
{
    if !inside {
        Parsed { result: Err(LoxErrorView::ReturnOutsideFunction), pos }
    } else {
        let value = optional_expression(tokens, pos, depth, TokenType::Semicolon);
        match value.result {
            Ok(v) => if check(tokens, value.pos, TokenType::Semicolon) {
                found(StmtView::Return { keyword: tokens[pos - 1], value: v }, value.pos + 1)
            } else {
                fail("Expected ';' after return value."@, value.pos)
            },
            Err(_) => pass(value),
        }
    }
}

/// varDecl, after `var`: IDENT ( "=" expression )? ";"
pub open spec fn var_declaration(tokens: Seq<TokenView>, pos: int, depth: nat) -> Parsed<StmtView>
    decreases tokens.len() - pos, 10nat,
{
    if !check(tokens, pos, TokenType::Identifier) {
        fail("Expected variable name."@, pos)
    } else {
        let initializer = if check(tokens, pos + 1, TokenType::Equal) {
            let e = expression(tokens, pos + 2, depth);
            match e.result {
                Ok(v) => found(Some(v), reached(e.pos, pos + 2, tokens)),
                Err(_) => pass(e),
            }
        } else {
            found(None, pos + 1)
        };
        match initializer.result {
            Ok(value) => if check(tokens, initializer.pos, TokenType::Semicolon) {
                found(
                    StmtView::Var { name: tokens[pos], initializer: value },
                    initializer.pos + 1,
                )
            } else {
                fail("Expected ';' after variable declaration."@, initializer.pos)
            },
            Err(_) => pass(initializer),
        }
    }
}

/// The message for a parameter that occurs twice.
pub open spec fn duplicate_text(name: Seq<char>) -> Seq<char> {
    "Duplicate parameter name '"@ + name + "'."@
}

/// The message for a default value that is no expression.
pub open spec fn default_text(name: Seq<char>, error: LoxErrorView) -> Seq<char> {
    "Invalid default value for parameter '"@ + name + "': "@ + error.text()
}

/// Whether one of the tokens has the lexeme `name`.
pub open spec fn names(tokens: Seq<TokenView>, name: Seq<char>) -> bool {
    exists|i: int| 0 <= i < tokens.len() && (#[trigger] tokens[i]).lexeme == name
}

/// params := IDENT ( "=" expression )? ( "," IDENT ( "=" expression )? )*,
/// after those of `done`. A default value is parsed and dropped.
pub open spec fn parameters(tokens: Seq<TokenView>, pos: int, depth: nat, done: Seq<TokenView>) -> Parsed<
    Seq<TokenView>,
>
    decreases tokens.len() - pos, 10nat,
{
    if !check(tokens, pos, TokenType::Identifier) {
        fail("Expect parameter name."@, pos)
    } else if names(done, tokens[pos].lexeme) {
        fail(duplicate_text(tokens[pos].lexeme), pos + 1)
    } else {
        let default = if check(tokens, pos + 1, TokenType::Equal) {
            let e = expression(tokens, pos + 2, depth);
            match e.result {
                Ok(_) => found((), reached(e.pos, pos + 2, tokens)),
                Err(error) => fail(default_text(tokens[pos].lexeme, error), e.pos),
            }
        } else {
            found((), pos + 1)
        };
        match default.result {
            Ok(_) => if check(tokens, default.pos, TokenType::Comma) {
                parameters(tokens, default.pos + 1, depth, done.push(tokens[pos]))
            } else {
                found(done.push(tokens[pos]), default.pos)
            },
            Err(_) => pass(default),
        }
    }
}

/// function, after `fun`: IDENT "(" params? ")" block
pub open spec fn function(tokens: Seq<TokenView>, pos: int, depth: nat) -> Parsed<StmtView>
    decreases tokens.len() - pos, 10nat,
{
    if !check(tokens, pos, TokenType::Identifier) {
        fail("Expect function name."@, pos)
    } else if !check(tokens, pos + 1, TokenType::LeftParen) {
        fail("Expect '(' after function name."@, pos + 1)
    } else {
        let params = if check(tokens, pos + 2, TokenType::RightParen) {
            found(Seq::empty(), pos + 2)
        } else {
            parameters(tokens, pos + 2, depth, Seq::empty())
        };
        let end = reached(params.pos, pos + 2, tokens);
        match params.result {
            Ok(list) => if !check(tokens, end, TokenType::RightParen) {
                fail("Expect ')' after parameters."@, end)
            } else if !check(tokens, end + 1, TokenType::LeftBrace) {
                fail("Expect '{' before function body."@, end + 1)
            } else {
                let body = block(tokens, end + 2, depth, true, Seq::empty());
                match body.result {
                    Ok(statements) => found(
                        StmtView::Function(
                            FunctionView { name: tokens[pos], params: list, body: statements },
                        ),
                        body.pos,
                    ),
                    Err(_) => pass(body),
                }
            },
            Err(_) => pass(params),
        }
    }
}

/// whileStmt, after `while`: "(" expression ")" statement
pub open spec fn while_statement(
    tokens: Seq<TokenView>,
    pos: int,
    depth: nat,
    inside: bool,
) -> Parsed<StmtView>
    decreases tokens.len() - pos, 10nat,
{
    if !check(tokens, pos, TokenType::LeftParen) {
        fail("Expect '(' after 'while'."@, pos)
    } else {
        let condition = expression(tokens, pos + 1, depth);
        let end = reached(condition.pos, pos + 1, tokens);
        match condition.result {
            Ok(c) => if !check(tokens, end, TokenType::RightParen) {
                fail("Expect ')' after condition."@, end)
            } else {
                let body = statement(tokens, end + 1, depth, inside);
                match body.result {
                    Ok(b) => found(StmtView::While(c, Box::new(b)), body.pos),
                    Err(_) => body,
                }
            },
            Err(_) => pass(condition),
        }
    }
}

/// The `else` branch of an `if`, where there is one.
pub open spec fn else_branch(tokens: Seq<TokenView>, pos: int, depth: nat, inside: bool) -> Parsed<
    Option<Box<StmtView>>,
>
    decreases tokens.len() - pos, 10nat,
{
    if check(tokens, pos, TokenType::Else) {
        let branch = statement(tokens, pos + 1, depth, inside);
        match branch.result {
            Ok(b) => found(Some(Box::new(b)), branch.pos),
            Err(_) => pass(branch),
        }
    } else {
        found(None, pos)
    }
}

/// ifStmt, after `if`: "(" expression ")" statement ( "else" statement )?
pub open spec fn if_statement(tokens: Seq<TokenView>, pos: int, depth: nat, inside: bool) -> Parsed<
    StmtView,
>
    decreases tokens.len() - pos, 10nat,
{
    if !check(tokens, pos, TokenType::LeftParen) {
        fail("Expect '(' after 'if'."@, pos)
    } else {
        let condition = expression(tokens, pos + 1, depth);
        let end = reached(condition.pos, pos + 1, tokens);
        match condition.result {
            Ok(c) => if !check(tokens, end, TokenType::RightParen) {
                fail("Expect ')' after if condition."@, end)
            } else {
                let then = statement(tokens, end + 1, depth, inside);
                match then.result {
                    Ok(t) => {
                        let other = else_branch(
                            tokens,
                            reached(then.pos, end + 1, tokens),
                            depth,
                            inside,
                        );
                        match other.result {
                            Ok(e) => found(
                                StmtView::If {
                                    condition: Box::new(c),
                                    then_branch: Box::new(t),
                                    else_branch: e,
                                },
                                other.pos,
                            ),
                            Err(_) => pass(other),
                        }
                    },
                    Err(_) => then,
                }
            },
            Err(_) => pass(condition),
        }
    }
}

/// The first clause of a `for`: ";", a variable declaration, or an
/// expression statement.
pub open spec fn for_initializer(tokens: Seq<TokenView>, pos: int, depth: nat) -> Parsed<
    Option<Box<StmtView>>,
>
    decreases tokens.len() - pos, 11nat,
{
    if check(tokens, pos, TokenType::Semicolon) {
        found(None, pos + 1)
    } else {
        let clause = if check(tokens, pos, TokenType::Var) {
            var_declaration(tokens, pos + 1, depth)
        } else {
            expression_statement(tokens, pos, depth)
        };
        match clause.result {
            Ok(s) => found(Some(Box::new(s)), reached(clause.pos, pos, tokens)),
            Err(_) => pass(clause),
        }
    }
}

/// The second and third clause of a `for`: expression? ";" expression? ")"
pub open spec fn for_clauses(tokens: Seq<TokenView>, pos: int, depth: nat) -> Parsed<
    (Option<ExprView>, Option<ExprView>),
>
    decreases tokens.len() - pos, 11nat,
{
    let condition = optional_expression(tokens, pos, depth, TokenType::Semicolon);
    match condition.result {
        Ok(c) => if !check(tokens, condition.pos, TokenType::Semicolon) {
            fail("Expect ';' after loop condition."@, condition.pos)
        } else {
            let increment = optional_expression(
                tokens,
                condition.pos + 1,
                depth,
                TokenType::RightParen,
            );
            match increment.result {
                Ok(i) => if !check(tokens, increment.pos, TokenType::RightParen) {
                    fail("Expect ')' after for clauses."@, increment.pos)
                } else {
                    found((c, i), increment.pos + 1)
                },
                Err(_) => pass(increment),
            }
        },
        Err(_) => pass(condition),
    }
}

/// forStmt, after `for`: "(" initializer clauses statement. The loop is
/// kept as it was written.
pub open spec fn for_statement(tokens: Seq<TokenView>, pos: int, depth: nat, inside: bool) -> Parsed<
    StmtView,
>
    decreases tokens.len() - pos, 10nat,
{
    if !check(tokens, pos, TokenType::LeftParen) {
        fail("Expect '(' after 'for'."@, pos)
    } else {
        let initializer = for_initializer(tokens, pos + 1, depth);
        match initializer.result {
            Ok(first) => {
                let clauses = for_clauses(tokens, initializer.pos, depth);
                match clauses.result {
                    Ok(pair) => {
                        let body = statement(
                            tokens,
                            reached(clauses.pos, pos + 1, tokens),
                            depth,
                            inside,
                        );
                        match body.result {
                            Ok(b) => found(
                                StmtView::For {
                                    initializer: first,
                                    condition: pair.0,
                                    increment: pair.1,
                                    body: Box::new(b),
                                },
                                body.pos,
                            ),
                            Err(_) => body,
                        }
                    },
                    Err(_) => pass(clauses),
                }
            },
            Err(_) => pass(initializer),
        }
    }
}

/// statement := forStmt | whileStmt | ifStmt | returnStmt | printStmt
///            | block | exprStmt
pub open spec fn statement(tokens: Seq<TokenView>, pos: int, depth: nat, inside: bool) -> Parsed<
    StmtView,
>
    decreases tokens.len() - pos, 12nat,
{
    if !(0 <= pos < tokens.len()) {
        fail("Unexpected end of input."@, pos)
    } else {
        match tokens[pos].token_type {
            TokenType::For => for_statement(tokens, pos + 1, depth, inside),
            TokenType::While => while_statement(tokens, pos + 1, depth, inside),
            TokenType::If => if_statement(tokens, pos + 1, depth, inside),
            TokenType::Return => return_statement(tokens, pos + 1, depth, inside),
            TokenType::Print => print_statement(tokens, pos + 1, depth),
            TokenType::LeftBrace => {
                let body = block(tokens, pos + 1, depth, inside, Seq::empty());
                match body.result {
                    Ok(statements) => found(StmtView::Block(statements), body.pos),
                    Err(_) => pass(body),
                }
            },
            _ => expression_statement(tokens, pos, depth),
        }
    }
}

/// declaration := funDecl | varDecl | statement
pub open spec fn declaration(tokens: Seq<TokenView>, pos: int, depth: nat, inside: bool) -> Parsed<
    StmtView,
>
    decreases tokens.len() - pos, 13nat,
{
    if check(tokens, pos, TokenType::Fun) {
        function(tokens, pos + 1, depth)
    } else if check(tokens, pos, TokenType::Var) {
        var_declaration(tokens, pos + 1, depth)
    } else {
        statement(tokens, pos, depth, inside)
    }
}

/// block, after "{": declaration* "}", after the statements of `done`.
pub open spec fn block(
    tokens: Seq<TokenView>,
    pos: int,
    depth: nat,
    inside: bool,
    done: Seq<StmtView>,
) -> Parsed<Seq<StmtView>>
    decreases tokens.len() - pos, 14nat,
{
    if check(tokens, pos, TokenType::RightBrace) {
        found(done, pos + 1)
    } else if at_end(tokens, pos) {
        fail("Expected '}' after block."@, pos)
    } else {
        let next = declaration(tokens, pos, depth, inside);
        match next.result {
            Ok(s) => block(
                tokens,
                reached(next.pos, pos + 1, tokens),
                depth,
                inside,
                done.push(s),
            ),
            Err(_) => pass(next),
        }
    }
}

/// program := declaration*, after the statements of `done`.
pub open spec fn program(tokens: Seq<TokenView>, pos: int, done: Seq<StmtView>) -> Parsed<
    Seq<StmtView>,
>
    decreases tokens.len() - pos, 14nat,
{
    if at_end(tokens, pos) {
        found(done, pos)
    } else {
        let next = declaration(tokens, pos, 0, false);
        match next.result {
            Ok(s) => program(tokens, reached(next.pos, pos + 1, tokens), done.push(s)),
            Err(_) => pass(next),
        }
    }
}

/// The statements that a token sequence denotes, or the first error in it.
pub open spec fn parse(tokens: Seq<TokenView>) -> Result<Seq<StmtView>, LoxErrorView> {
    program(tokens, 0, Seq::empty()).result
}


/// The parser of one token sequence.
pub struct Parser {
    tokens: Vec<Token>,
    current: usize,
    recursion_depth: usize,
    in_function: bool,
}

/// The mathematical content of a `Parser`: the tokens, the position of the
/// next one, how deeply expressions are nested there, and whether the
/// position lies inside a function body.
pub struct ParserView {
    pub tokens: Seq<TokenView>,
    pub current: nat,
    pub recursion_depth: nat,
    pub in_function: bool,
}

impl View for Parser {
    type V = ParserView;

    closed spec fn view(&self) -> ParserView {
        ParserView {
            tokens: tokens_view(self.tokens@),
            current: self.current as nat,
            recursion_depth: self.recursion_depth as nat,
            in_function: self.in_function,
        }
    }
}

/// The content of the result of an expression parser that stopped at `pos`.
spec fn parsed_expr(r: Result<Box<Expr>, LoxError>, pos: int) -> Parsed<ExprView> {
    Parsed {
        result: match r {
            Ok(e) => Ok((*e)@),
            Err(e) => Err(e@),
        },
        pos,
    }
}

/// The content of the result of a statement parser that stopped at `pos`.
spec fn parsed_stmt(r: Result<Stmt, LoxError>, pos: int) -> Parsed<StmtView> {
    Parsed {
        result: match r {
            Ok(s) => Ok(s@),
            Err(e) => Err(e@),
        },
        pos,
    }
}

/// The content of the result of a parser of a statement list.
pub open spec fn parsed_stmts(r: Result<Vec<Stmt>, LoxError>, pos: int) -> Parsed<Seq<StmtView>> {
    Parsed {
        result: match r {
            Ok(s) => Ok(stmts_view(s@)),
            Err(e) => Err(e@),
        },
        pos,
    }
}

fn parse_error<T>(message: &str) -> (r: Result<T, LoxError>)
    ensures
        r matches Err(e) && e@ == LoxErrorView::ParseError(message@),
{
    Err(LoxError::ParseError(String::from_str(message)))
}

impl Parser {
    /// The position lies within the tokens, and the nesting within the
    /// limit.
    spec fn inside(&self) -> bool {
        self.current <= self.tokens.len() && self.recursion_depth <= MAX_RECURSION_DEPTH + 1
    }

    /// The parser stands between two declarations: inside its tokens, in
    /// no expression and in no function body.
    pub closed spec fn wf(&self) -> bool {
        self.inside() && self.recursion_depth == 0 && !self.in_function
    }

    /// Nothing but the position differs from `before`, and the position
    /// is no earlier.
    spec fn follows(&self, before: &Parser) -> bool {
        &&& self.inside()
        &&& self.tokens == before.tokens
        &&& self.recursion_depth == before.recursion_depth
        &&& self.in_function == before.in_function
        &&& self.current >= before.current
    }

    /// The tokens of this parser.
    spec fn input(&self) -> Seq<TokenView> {
        tokens_view(self.tokens@)
    }

    /// A parser at the start of `tokens`, outside every function.
    pub fn new(tokens: Vec<Token>) -> (r: Parser)
        ensures
            r.wf(),
            r@ == (ParserView {
                tokens: tokens_view(tokens@),
                current: 0,
                recursion_depth: 0,
                in_function: false,
            }),
    {
        Parser { tokens, current: 0, recursion_depth: 0, in_function: false }
    }

    fn peek(&self) -> (r: Option<&Token>)
        ensures
            match r {
                Some(t) => self.current < self.tokens.len() && *t == self.tokens[self.current as int],
                None => self.current >= self.tokens.len(),
            },
    {
        if self.current < self.tokens.len() {
            Some(&self.tokens[self.current])
        } else {
            None
        }
    }

    fn check(&self, token_type: TokenType) -> (r: bool)
        ensures
            r == check(self.input(), self.current as int, token_type),
    {
        match self.peek() {
            Some(token) => token.token_type == token_type,
            None => false,
        }
    }

    fn is_at_end(&self) -> (r: bool)
        ensures
            r == at_end(self.input(), self.current as int),
    {
        match self.peek() {
            Some(token) => token.token_type == TokenType::Eof,
            None => true,
        }
    }

    /// The token at the position, which there is; the position moves on.
    fn advance(&mut self) -> (r: Token)
        requires
            old(self).inside(),
            old(self).current < old(self).tokens.len(),
        ensures
            final(self).follows(old(self)),
            final(self).current == old(self).current + 1,
            r@ == old(self).input()[old(self).current as int],
    {
        let token = self.tokens[self.current].clone();
        self.current += 1;
        token
    }

    /// Moves past the token at the position if it is of one of the kinds.
    fn match_token(&mut self, types: &[TokenType]) -> (r: bool)
        requires
            old(self).inside(),
        ensures
            final(self).follows(old(self)),
            r == (exists|i: int|
                0 <= i < types@.len() && check(
                    old(self).input(),
                    old(self).current as int,
                    #[trigger] types@[i],
                )),
            final(self).current == if r {
                old(self).current + 1
            } else {
                old(self).current as int
            },
    {
        let mut i: usize = 0;
        while i < types.len()
            invariant
                i <= types.len(),
                self.inside(),
                *self == *old(self),
                forall|j: int|
                    0 <= j < i ==> !check(self.input(), self.current as int, #[trigger] types@[j]),
            decreases types.len() - i,
        {
            if self.check(types[i]) {
                self.current += 1;
                return true;
            }
            i += 1;
        }
        false
    }

    /// Moves past the token at the position if it is of kind `token_type`;
    /// fails with `message` otherwise.
    fn consume(&mut self, token_type: TokenType, message: &str) -> (r: Result<Token, LoxError>)
        requires
            old(self).inside(),
        ensures
            final(self).follows(old(self)),
            match r {
                Ok(t) => check(old(self).input(), old(self).current as int, token_type) && t@
                    == old(self).input()[old(self).current as int] && final(self).current == old(
                    self,
                ).current + 1,
                Err(e) => !check(old(self).input(), old(self).current as int, token_type) && e@
                    == LoxErrorView::ParseError(message@) && final(self).current == old(
                    self,
                ).current,
            },
    {
        if self.check(token_type) {
            Ok(self.advance())
        } else {
            parse_error(message)
        }
    }

    fn primary(&mut self) -> (r: Result<Box<Expr>, LoxError>)
        requires
            old(self).inside(),
        ensures
            final(self).follows(old(self)),
            r is Ok ==> final(self).current > old(self).current,
            parsed_expr(r, final(self).current as int) == primary(
                old(self).input(),
                old(self).current as int,
                old(self).recursion_depth as nat,
            ),
        decreases old(self).tokens.len() - old(self).current, 0nat, 0nat,
    {
        if self.current >= self.tokens.len() {
            return parse_error("Unexpected token.");
        }
        match self.tokens[self.current].token_type {
            TokenType::Number => {
                match &self.tokens[self.current].literal {
                    Some(literal) => {
                        let value = literal.clone();
                        self.current += 1;
                        Ok(Box::new(Expr::Literal { value }))
                    },
                    None => parse_error("Unexpected token."),
                }
            },
            TokenType::StringLit => {
                match &self.tokens[self.current].literal {
                    Some(LiteralValue::String(s)) => {
                        let value = LiteralValue::String(s.clone());
                        self.current += 1;
                        Ok(Box::new(Expr::Literal { value }))
                    },
                    _ => parse_error("Unexpected token."),
                }
            },
            TokenType::True => {
                self.current += 1;
                Ok(Box::new(Expr::Literal { value: LiteralValue::Boolean(true) }))
            },
            TokenType::False => {
                self.current += 1;
                Ok(Box::new(Expr::Literal { value: LiteralValue::Boolean(false) }))
            },
            TokenType::Nil => {
                self.current += 1;
                Ok(Box::new(Expr::Literal { value: LiteralValue::Nil }))
            },
            TokenType::Identifier => {
                let name = self.advance();
                Ok(Box::new(Expr::Variable { name }))
            },
            TokenType::LeftParen => {
                self.current += 1;
                let inner = match self.expression() {
                    Ok(e) => e,
                    Err(e) => {
                        return Err(e);
                    },
                };
                match self.consume(TokenType::RightParen, "Expected ')' after expression.") {
                    Ok(_) => Ok(Box::new(Expr::Grouping { expression: inner })),
                    Err(e) => Err(e),
                }
            },
            _ => parse_error("Unexpected token."),
        }
    }

    /// The arguments of a call, after its opening parenthesis.
    #[verifier::loop_isolation(false)]
    fn arguments(&mut self) -> (r: Result<Vec<Expr>, LoxError>)
        requires
            old(self).inside(),
        ensures
            final(self).follows(old(self)),
            (Parsed {
                result: match r {
                    Ok(list) => Ok(exprs_view(list@)),
                    Err(e) => Err(e@),
                },
                pos: final(self).current as int,
            }) == arguments(
                old(self).input(),
                old(self).current as int,
                old(self).recursion_depth as nat,
                Seq::empty(),
            ),
        decreases old(self).tokens.len() - old(self).current, 10nat, 0nat,
    {
        let mut list: Vec<Expr> = Vec::new();
        assert(exprs_view(list@) =~= Seq::empty());
        loop
            invariant
                self.follows(old(self)),
                arguments(
                    old(self).input(),
                    old(self).current as int,
                    old(self).recursion_depth as nat,
                    Seq::empty(),
                ) == arguments(
                    self.input(),
                    self.current as int,
                    self.recursion_depth as nat,
                    exprs_view(list@),
                ),
            decreases self.tokens.len() - self.current,
        {
            let ghost done = exprs_view(list@);
            match self.expression() {
                Ok(e) => {
                    let ghost content = (*e)@;
                    list.push(*e);
                    assert(exprs_view(list@) =~= done.push(content));
                },
                Err(e) => {
                    return Err(e);
                },
            }
            if self.check(TokenType::Comma) {
                self.current += 1;
            } else {
                return Ok(list);
            }
        }
    }

    /// call := primary ( "(" arguments? ")" )*
    #[verifier::loop_isolation(false)]
    fn call(&mut self) -> (r: Result<Box<Expr>, LoxError>)
        requires
            old(self).inside(),
        ensures
            final(self).follows(old(self)),
            r is Ok ==> final(self).current > old(self).current,
            parsed_expr(r, final(self).current as int) == call(
                old(self).input(),
                old(self).current as int,
                old(self).recursion_depth as nat,
            ),
        decreases old(self).tokens.len() - old(self).current, 1nat, 0nat,
    {
        let mut expr = match self.primary() {
            Ok(e) => e,
            Err(e) => {
                return Err(e);
            },
        };
        let ghost first = self.current as int;
        let ghost callee = (*expr)@;
        while self.check(TokenType::LeftParen)
            invariant
                self.follows(old(self)),
                self.current > old(self).current,
                calls(self.input(), first, self.recursion_depth as nat, callee) == calls(
                    self.input(),
                    self.current as int,
                    self.recursion_depth as nat,
                    (*expr)@,
                ),
            decreases self.tokens.len() - self.current,
        {
            self.current += 1;
            let list = if self.check(TokenType::RightParen) {
                let empty: Vec<Expr> = Vec::new();
                assert(exprs_view(empty@) =~= Seq::empty());
                empty
            } else {
                match self.arguments() {
                    Ok(list) => list,
                    Err(e) => {
                        return Err(e);
                    },
                }
            };
            match self.consume(TokenType::RightParen, "Expect ')' after arguments.") {
                Ok(_) => {},
                Err(e) => {
                    return Err(e);
                },
            }
            expr = Box::new(Expr::Call { callee: expr, arguments: list });
        }
        Ok(expr)
    }

    /// unary := ( "!" | "-" ) unary | call
    fn unary(&mut self) -> (r: Result<Box<Expr>, LoxError>)
        requires
            old(self).inside(),
        ensures
            final(self).follows(old(self)),
            r is Ok ==> final(self).current > old(self).current,
            parsed_expr(r, final(self).current as int) == unary(
                old(self).input(),
                old(self).current as int,
                old(self).recursion_depth as nat,
            ),
        decreases old(self).tokens.len() - old(self).current, 2nat, 0nat,
    {
        if self.check(TokenType::Bang) || self.check(TokenType::Minus) {
            let operator = self.advance();
            match self.unary() {
                Ok(right) => Ok(Box::new(Expr::Unary { operator, operand: right })),
                Err(e) => Err(e),
            }
        } else {
            self.call()
        }
    }

    fn operator_here(&self, level: u8) -> (r: bool)
        ensures
            r == (self.current < self.tokens.len() && is_operator(
                level as nat,
                self.input()[self.current as int].token_type,
            )),
    {
        if self.current >= self.tokens.len() {
            return false;
        }
        let kind = self.tokens[self.current].token_type;
        if level == 0 {
            kind == TokenType::BangEqual || kind == TokenType::EqualEqual
        } else if level == 1 {
            kind == TokenType::Greater || kind == TokenType::GreaterEqual || kind
                == TokenType::Less || kind == TokenType::LessEqual
        } else if level == 2 {
            kind == TokenType::Minus || kind == TokenType::Plus
        } else {
            kind == TokenType::Slash || kind == TokenType::Star || kind == TokenType::Percent
        }
    }

    /// A binary expression of precedence level `level`, folded to the left.
    #[verifier::loop_isolation(false)]
    fn binary(&mut self, level: u8) -> (r: Result<Box<Expr>, LoxError>)
        requires
            old(self).inside(),
        ensures
            final(self).follows(old(self)),
            r is Ok ==> final(self).current > old(self).current,
            parsed_expr(r, final(self).current as int) == binary(
                old(self).input(),
                old(self).current as int,
                old(self).recursion_depth as nat,
                level as nat,
            ),
        decreases old(self).tokens.len() - old(self).current,
            (if level < 3 {
                6 - level
            } else {
                3
            }),
            0nat,
    {
        let first_operand = if level >= 3 {
            self.unary()
        } else {
            self.binary(level + 1)
        };
        let mut expr = match first_operand {
            Ok(e) => e,
            Err(e) => {
                return Err(e);
            },
        };
        let ghost first = self.current as int;
        let ghost left = (*expr)@;
        while self.operator_here(level)
            invariant
                self.follows(old(self)),
                self.current > old(self).current,
                binary_rest(
                    self.input(),
                    first,
                    self.recursion_depth as nat,
                    level as nat,
                    left,
                ) == binary_rest(
                    self.input(),
                    self.current as int,
                    self.recursion_depth as nat,
                    level as nat,
                    (*expr)@,
                ),
            decreases self.tokens.len() - self.current,
        {
            let operator = self.advance();
            let next_operand = if level >= 3 {
                self.unary()
            } else {
                self.binary(level + 1)
            };
            let right = match next_operand {
                Ok(e) => e,
                Err(e) => {
                    return Err(e);
                },
            };
            expr = Box::new(Expr::Binary { left: expr, operator, right });
        }
        Ok(expr)
    }

    /// assignment := IDENT "=" assignment | equality
    fn assignment(&mut self) -> (r: Result<Box<Expr>, LoxError>)
        requires
            old(self).inside(),
        ensures
            final(self).follows(old(self)),
            r is Ok ==> final(self).current > old(self).current,
            parsed_expr(r, final(self).current as int) == assignment(
                old(self).input(),
                old(self).current as int,
                old(self).recursion_depth as nat,
            ),
        decreases old(self).tokens.len() - old(self).current, 8nat, 0nat,
    {
        let expr = match self.binary(0) {
            Ok(e) => e,
            Err(e) => {
                return Err(e);
            },
        };
        if self.check(TokenType::Equal) {
            self.current += 1;
            let value = match self.assignment() {
                Ok(v) => v,
                Err(e) => {
                    return Err(e);
                },
            };
            match *expr {
                Expr::Variable { name } => Ok(Box::new(Expr::Assign { name, value })),
                _ => parse_error("Invalid assignment target."),
            }
        } else {
            Ok(expr)
        }
    }

    /// expression := assignment, no deeper than the recursion limit.
    fn expression(&mut self) -> (r: Result<Box<Expr>, LoxError>)
        requires
            old(self).inside(),
        ensures
            final(self).follows(old(self)),
            r is Ok ==> final(self).current > old(self).current,
            parsed_expr(r, final(self).current as int) == expression(
                old(self).input(),
                old(self).current as int,
                old(self).recursion_depth as nat,
            ),
        decreases old(self).tokens.len() - old(self).current, 9nat, 0nat,
    {
        if self.recursion_depth > MAX_RECURSION_DEPTH {
            return parse_error("Recursion depth exceeded.");
        }
        self.recursion_depth += 1;
        let result = self.assignment();
        self.recursion_depth -= 1;
        result
    }
}


/// The content of an optional expression.
spec fn optional_view(e: Option<Expr>) -> Option<ExprView> {
    match e {
        Some(e) => Some(e@),
        None => None,
    }
}

/// The content of an optional statement.
spec fn optional_stmt_view(s: Option<Box<Stmt>>) -> Option<Box<StmtView>> {
    match s {
        Some(s) => Some(Box::new((*s)@)),
        None => None,
    }
}

impl Parser {
    /// An expression, unless a token of kind `stop` comes next.
    fn optional_expression(&mut self, stop: TokenType) -> (r: Result<Option<Expr>, LoxError>)
        requires
            old(self).inside(),
        ensures
            final(self).follows(old(self)),
            (Parsed {
                result: match r {
                    Ok(e) => Ok(optional_view(e)),
                    Err(e) => Err(e@),
                },
                pos: final(self).current as int,
            }) == optional_expression(
                old(self).input(),
                old(self).current as int,
                old(self).recursion_depth as nat,
                stop,
            ),
    {
        if self.check(stop) {
            Ok(None)
        } else {
            match self.expression() {
                Ok(e) => Ok(Some(*e)),
                Err(e) => Err(e),
            }
        }
    }

    /// exprStmt := expression ";"
    fn expression_statement(&mut self) -> (r: Result<Stmt, LoxError>)
        requires
            old(self).inside(),
        ensures
            final(self).follows(old(self)),
            r is Ok ==> final(self).current > old(self).current,
            parsed_stmt(r, final(self).current as int) == expression_statement(
                old(self).input(),
                old(self).current as int,
                old(self).recursion_depth as nat,
            ),
    {
        let expr = match self.expression() {
            Ok(e) => e,
            Err(e) => {
                return Err(e);
            },
        };
        match self.consume(TokenType::Semicolon, "Expected ';' after expression or assignment.") {
            Ok(_) => Ok(Stmt::Expression(*expr)),
            Err(e) => Err(e),
        }
    }

    /// printStmt, after `print`.
    fn print_statement(&mut self) -> (r: Result<Stmt, LoxError>)
        requires
            old(self).inside(),
        ensures
            final(self).follows(old(self)),
            parsed_stmt(r, final(self).current as int) == print_statement(
                old(self).input(),
                old(self).current as int,
                old(self).recursion_depth as nat,
            ),
    {
        let value = match self.expression() {
            Ok(e) => e,
            Err(e) => {
                return Err(e);
            },
        };
        match self.consume(TokenType::Semicolon, "Expected ';' after value.") {
            Ok(_) => Ok(Stmt::Print(*value)),
            Err(e) => Err(e),
        }
    }

    /// returnStmt, after `return`.
    fn return_statement(&mut self) -> (r: Result<Stmt, LoxError>)
        requires
            old(self).inside(),
            0 < old(self).current,
        ensures
            final(self).follows(old(self)),
            parsed_stmt(r, final(self).current as int) == return_statement(
                old(self).input(),
                old(self).current as int,
                old(self).recursion_depth as nat,
                old(self).in_function,
            ),
    {
        if !self.in_function {
            return Err(LoxError::ReturnOutsideFunction);
        }
        let keyword = self.tokens[self.current - 1].clone();
        let value = match self.optional_expression(TokenType::Semicolon) {
            Ok(v) => v,
            Err(e) => {
                return Err(e);
            },
        };
        match self.consume(TokenType::Semicolon, "Expected ';' after return value.") {
            Ok(_) => Ok(Stmt::Return { keyword, value }),
            Err(e) => Err(e),
        }
    }

    /// varDecl, after `var`.
    fn var_declaration(&mut self) -> (r: Result<Stmt, LoxError>)
        requires
            old(self).inside(),
        ensures
            final(self).follows(old(self)),
            parsed_stmt(r, final(self).current as int) == var_declaration(
                old(self).input(),
                old(self).current as int,
                old(self).recursion_depth as nat,
            ),
    {
        let name = match self.consume(TokenType::Identifier, "Expected variable name.") {
            Ok(t) => t,
            Err(e) => {
                return Err(e);
            },
        };
        let initializer = if self.check(TokenType::Equal) {
            self.current += 1;
            match self.expression() {
                Ok(e) => Some(*e),
                Err(e) => {
                    return Err(e);
                },
            }
        } else {
            None
        };
        match self.consume(TokenType::Semicolon, "Expected ';' after variable declaration.") {
            Ok(_) => Ok(Stmt::Var { name, initializer }),
            Err(e) => Err(e),
        }
    }

    /// Whether one of `params` has the lexeme `name`.
    fn declared(params: &Vec<Token>, name: &str) -> (r: bool)
        ensures
            r == names(tokens_view(params@), name@),
    {
        let mut i: usize = 0;
        while i < params.len()
            invariant
                i <= params.len(),
                forall|j: int| 0 <= j < i ==> (#[trigger] tokens_view(params@)[j]).lexeme != name@,
            decreases params.len() - i,
        {
            if same_text(params[i].lexeme.as_str(), name) {
                assert(tokens_view(params@)[i as int].lexeme == name@);
                return true;
            }
            i += 1;
        }
        false
    }

    /// The parameters of a function, after its opening parenthesis.
    #[verifier::loop_isolation(false)]
    fn parameters(&mut self) -> (r: Result<Vec<Token>, LoxError>)
        requires
            old(self).inside(),
        ensures
            final(self).follows(old(self)),
            (Parsed {
                result: match r {
                    Ok(list) => Ok(tokens_view(list@)),
                    Err(e) => Err(e@),
                },
                pos: final(self).current as int,
            }) == parameters(
                old(self).input(),
                old(self).current as int,
                old(self).recursion_depth as nat,
                Seq::empty(),
            ),
    {
        let mut params: Vec<Token> = Vec::new();
        assert(tokens_view(params@) =~= Seq::empty());
        loop
            invariant
                self.follows(old(self)),
                parameters(
                    old(self).input(),
                    old(self).current as int,
                    old(self).recursion_depth as nat,
                    Seq::empty(),
                ) == parameters(
                    self.input(),
                    self.current as int,
                    self.recursion_depth as nat,
                    tokens_view(params@),
                ),
            decreases self.tokens.len() - self.current,
        {
            let ghost done = tokens_view(params@);
            let name = match self.consume(TokenType::Identifier, "Expect parameter name.") {
                Ok(t) => t,
                Err(e) => {
                    return Err(e);
                },
            };
            if Self::declared(&params, name.lexeme.as_str()) {
                let mut text = String::from_str("Duplicate parameter name '");
                text.append(name.lexeme.as_str());
                text.append("'.");
                return Err(LoxError::ParseError(text));
            }
            if self.check(TokenType::Equal) {
                self.current += 1;
                match self.expression() {
                    Ok(_) => {},
                    Err(e) => {
                        let mut text = String::from_str("Invalid default value for parameter '");
                        text.append(name.lexeme.as_str());
                        text.append("': ");
                        text.append(e.to_string().as_str());
                        return Err(LoxError::ParseError(text));
                    },
                }
            }
            params.push(name);
            assert(tokens_view(params@) =~= done.push(name@));
            if self.check(TokenType::Comma) {
                self.current += 1;
            } else {
                return Ok(params);
            }
        }
    }

    fn enter_function(&mut self)
        ensures
            final(self).in_function,
            final(self).tokens == old(self).tokens,
            final(self).current == old(self).current,
            final(self).recursion_depth == old(self).recursion_depth,
    {
        self.in_function = true;
    }

    fn exit_function(&mut self, outer: bool)
        ensures
            final(self).in_function == outer,
            final(self).tokens == old(self).tokens,
            final(self).current == old(self).current,
            final(self).recursion_depth == old(self).recursion_depth,
    {
        self.in_function = outer;
    }

    /// function, after `fun`.
    fn function(&mut self) -> (r: Result<Stmt, LoxError>)
        requires
            old(self).inside(),
        ensures
            final(self).follows(old(self)),
            r is Ok ==> final(self).current > old(self).current,
            parsed_stmt(r, final(self).current as int) == function(
                old(self).input(),
                old(self).current as int,
                old(self).recursion_depth as nat,
            ),
        decreases old(self).tokens.len() - old(self).current, 10nat,
    {
        let name = match self.consume(TokenType::Identifier, "Expect function name.") {
            Ok(t) => t,
            Err(e) => {
                return Err(e);
            },
        };
        match self.consume(TokenType::LeftParen, "Expect '(' after function name.") {
            Ok(_) => {},
            Err(e) => {
                return Err(e);
            },
        }
        let params = if self.check(TokenType::RightParen) {
            let empty: Vec<Token> = Vec::new();
            assert(tokens_view(empty@) =~= Seq::empty());
            empty
        } else {
            match self.parameters() {
                Ok(list) => list,
                Err(e) => {
                    return Err(e);
                },
            }
        };
        match self.consume(TokenType::RightParen, "Expect ')' after parameters.") {
            Ok(_) => {},
            Err(e) => {
                return Err(e);
            },
        }
        match self.consume(TokenType::LeftBrace, "Expect '{' before function body.") {
            Ok(_) => {},
            Err(e) => {
                return Err(e);
            },
        }
        let outer = self.in_function;
        self.enter_function();
        let body = self.block();
        self.exit_function(outer);
        match body {
            Ok(body) => {
                let declaration = FunctionDecl { name, params, body };
                let ghost content = declaration@;
                assert(content == FunctionView {
                    name: name@,
                    params: tokens_view(params@),
                    body: stmts_view(body@),
                });
                let shared = Rc::new(declaration);
                assert((*shared)@ == content);
                let stmt = Stmt::Function(shared);
                assert(stmt@ == StmtView::Function(content));
                Ok(stmt)
            },
            Err(e) => Err(e),
        }
    }

    /// whileStmt, after `while`.
    fn while_statement(&mut self) -> (r: Result<Stmt, LoxError>)
        requires
            old(self).inside(),
        ensures
            final(self).follows(old(self)),
            r is Ok ==> final(self).current > old(self).current,
            parsed_stmt(r, final(self).current as int) == while_statement(
                old(self).input(),
                old(self).current as int,
                old(self).recursion_depth as nat,
                old(self).in_function,
            ),
        decreases old(self).tokens.len() - old(self).current, 10nat,
    {
        match self.consume(TokenType::LeftParen, "Expect '(' after 'while'.") {
            Ok(_) => {},
            Err(e) => {
                return Err(e);
            },
        }
        let condition = match self.expression() {
            Ok(e) => e,
            Err(e) => {
                return Err(e);
            },
        };
        match self.consume(TokenType::RightParen, "Expect ')' after condition.") {
            Ok(_) => {},
            Err(e) => {
                return Err(e);
            },
        }
        match self.statement() {
            Ok(body) => Ok(Stmt::While(*condition, Box::new(body))),
            Err(e) => Err(e),
        }
    }

    /// ifStmt, after `if`.
    fn if_statement(&mut self) -> (r: Result<Stmt, LoxError>)
        requires
            old(self).inside(),
        ensures
            final(self).follows(old(self)),
            r is Ok ==> final(self).current > old(self).current,
            parsed_stmt(r, final(self).current as int) == if_statement(
                old(self).input(),
                old(self).current as int,
                old(self).recursion_depth as nat,
                old(self).in_function,
            ),
        decreases old(self).tokens.len() - old(self).current, 10nat,
    {
        match self.consume(TokenType::LeftParen, "Expect '(' after 'if'.") {
            Ok(_) => {},
            Err(e) => {
                return Err(e);
            },
        }
        let condition = match self.expression() {
            Ok(e) => e,
            Err(e) => {
                return Err(e);
            },
        };
        match self.consume(TokenType::RightParen, "Expect ')' after if condition.") {
            Ok(_) => {},
            Err(e) => {
                return Err(e);
            },
        }
        let then_branch = match self.statement() {
            Ok(s) => s,
            Err(e) => {
                return Err(e);
            },
        };
        let else_branch = if self.check(TokenType::Else) {
            self.current += 1;
            match self.statement() {
                Ok(s) => Some(Box::new(s)),
                Err(e) => {
                    return Err(e);
                },
            }
        } else {
            None
        };
        Ok(
            Stmt::If { condition, then_branch: Box::new(then_branch), else_branch },
        )
    }

    /// The first clause of a `for`.
    fn for_initializer(&mut self) -> (r: Result<Option<Box<Stmt>>, LoxError>)
        requires
            old(self).inside(),
        ensures
            final(self).follows(old(self)),
            r is Ok ==> final(self).current > old(self).current,
            (Parsed {
                result: match r {
                    Ok(s) => Ok(optional_stmt_view(s)),
                    Err(e) => Err(e@),
                },
                pos: final(self).current as int,
            }) == for_initializer(
                old(self).input(),
                old(self).current as int,
                old(self).recursion_depth as nat,
            ),
    {
        if self.check(TokenType::Semicolon) {
            self.current += 1;
            Ok(None)
        } else if self.check(TokenType::Var) {
            self.current += 1;
            match self.var_declaration() {
                Ok(s) => Ok(Some(Box::new(s))),
                Err(e) => Err(e),
            }
        } else {
            match self.expression_statement() {
                Ok(s) => Ok(Some(Box::new(s))),
                Err(e) => Err(e),
            }
        }
    }

    /// The second and third clause of a `for`.
    fn for_clauses(&mut self) -> (r: Result<(Option<Expr>, Option<Expr>), LoxError>)
        requires
            old(self).inside(),
        ensures
            final(self).follows(old(self)),
            (Parsed {
                result: match r {
                    Ok(pair) => Ok((optional_view(pair.0), optional_view(pair.1))),
                    Err(e) => Err(e@),
                },
                pos: final(self).current as int,
            }) == for_clauses(
                old(self).input(),
                old(self).current as int,
                old(self).recursion_depth as nat,
            ),
    {
        let condition = match self.optional_expression(TokenType::Semicolon) {
            Ok(c) => c,
            Err(e) => {
                return Err(e);
            },
        };
        match self.consume(TokenType::Semicolon, "Expect ';' after loop condition.") {
            Ok(_) => {},
            Err(e) => {
                return Err(e);
            },
        }
        let increment = match self.optional_expression(TokenType::RightParen) {
            Ok(i) => i,
            Err(e) => {
                return Err(e);
            },
        };
        match self.consume(TokenType::RightParen, "Expect ')' after for clauses.") {
            Ok(_) => Ok((condition, increment)),
            Err(e) => Err(e),
        }
    }

    /// forStmt, after `for`.
    fn for_statement(&mut self) -> (r: Result<Stmt, LoxError>)
        requires
            old(self).inside(),
        ensures
            final(self).follows(old(self)),
            r is Ok ==> final(self).current > old(self).current,
            parsed_stmt(r, final(self).current as int) == for_statement(
                old(self).input(),
                old(self).current as int,
                old(self).recursion_depth as nat,
                old(self).in_function,
            ),
        decreases old(self).tokens.len() - old(self).current, 10nat,
    {
        match self.consume(TokenType::LeftParen, "Expect '(' after 'for'.") {
            Ok(_) => {},
            Err(e) => {
                return Err(e);
            },
        }
        let initializer = match self.for_initializer() {
            Ok(i) => i,
            Err(e) => {
                return Err(e);
            },
        };
        let (condition, increment) = match self.for_clauses() {
            Ok(pair) => pair,
            Err(e) => {
                return Err(e);
            },
        };
        match self.statement() {
            Ok(body) => Ok(Stmt::For { initializer, condition, increment, body: Box::new(body) }),
            Err(e) => Err(e),
        }
    }

    /// statement := forStmt | whileStmt | ifStmt | returnStmt | printStmt
    ///            | block | exprStmt
    fn statement(&mut self) -> (r: Result<Stmt, LoxError>)
        requires
            old(self).inside(),
        ensures
            final(self).follows(old(self)),
            r is Ok ==> final(self).current > old(self).current,
            parsed_stmt(r, final(self).current as int) == statement(
                old(self).input(),
                old(self).current as int,
                old(self).recursion_depth as nat,
                old(self).in_function,
            ),
        decreases old(self).tokens.len() - old(self).current, 12nat,
    {
        if self.current >= self.tokens.len() {
            return parse_error("Unexpected end of input.");
        }
        match self.tokens[self.current].token_type {
            TokenType::For => {
                self.current += 1;
                self.for_statement()
            },
            TokenType::While => {
                self.current += 1;
                self.while_statement()
            },
            TokenType::If => {
                self.current += 1;
                self.if_statement()
            },
            TokenType::Return => {
                self.current += 1;
                self.return_statement()
            },
            TokenType::Print => {
                self.current += 1;
                self.print_statement()
            },
            TokenType::LeftBrace => {
                self.current += 1;
                match self.block() {
                    Ok(statements) => Ok(Stmt::Block(statements)),
                    Err(e) => Err(e),
                }
            },
            _ => self.expression_statement(),
        }
    }

    /// declaration := funDecl | varDecl | statement
    fn declaration(&mut self) -> (r: Result<Stmt, LoxError>)
        requires
            old(self).inside(),
        ensures
            final(self).follows(old(self)),
            r is Ok ==> final(self).current > old(self).current,
            parsed_stmt(r, final(self).current as int) == declaration(
                old(self).input(),
                old(self).current as int,
                old(self).recursion_depth as nat,
                old(self).in_function,
            ),
        decreases old(self).tokens.len() - old(self).current, 13nat,
    {
        if self.check(TokenType::Fun) {
            self.current += 1;
            self.function()
        } else if self.check(TokenType::Var) {
            self.current += 1;
            self.var_declaration()
        } else {
            self.statement()
        }
    }

    /// block, after "{": the statements up to the closing brace.
    #[verifier::loop_isolation(false)]
    fn block(&mut self) -> (r: Result<Vec<Stmt>, LoxError>)
        requires
            old(self).inside(),
        ensures
            final(self).follows(old(self)),
            r is Ok ==> final(self).current > old(self).current,
            parsed_stmts(r, final(self).current as int) == block(
                old(self).input(),
                old(self).current as int,
                old(self).recursion_depth as nat,
                old(self).in_function,
                Seq::empty(),
            ),
        decreases old(self).tokens.len() - old(self).current, 14nat,
    {
        let mut statements: Vec<Stmt> = Vec::new();
        assert(stmts_view(statements@) =~= Seq::empty());
        while !self.check(TokenType::RightBrace) && !self.is_at_end()
            invariant
                self.follows(old(self)),
                block(
                    old(self).input(),
                    old(self).current as int,
                    old(self).recursion_depth as nat,
                    old(self).in_function,
                    Seq::empty(),
                ) == block(
                    self.input(),
                    self.current as int,
                    self.recursion_depth as nat,
                    self.in_function,
                    stmts_view(statements@),
                ),
            decreases self.tokens.len() - self.current,
        {
            let ghost done = stmts_view(statements@);
            match self.declaration() {
                Ok(s) => {
                    statements.push(s);
                    assert(stmts_view(statements@) =~= done.push(s@));
                },
                Err(e) => {
                    return Err(e);
                },
            }
        }
        match self.consume(TokenType::RightBrace, "Expected '}' after block.") {
            Ok(_) => Ok(statements),
            Err(e) => Err(e),
        }
    }

    /// Parses the rest of the tokens: the statements up to the end of the
    /// input, or the first error.
    #[verifier::loop_isolation(false)]
    pub fn parse(&mut self) -> (r: Result<Vec<Stmt>, LoxError>)
        requires
            old(self).wf(),
        ensures
            final(self).wf(),
            final(self)@.tokens == old(self)@.tokens,
            parsed_stmts(r, final(self)@.current as int) == program(
                old(self)@.tokens,
                old(self)@.current as int,
                Seq::empty(),
            ),
    {
        let mut statements: Vec<Stmt> = Vec::new();
        assert(stmts_view(statements@) =~= Seq::empty());
        while !self.is_at_end()
            invariant
                self.follows(old(self)),
                program(old(self).input(), old(self).current as int, Seq::empty()) == program(
                    self.input(),
                    self.current as int,
                    stmts_view(statements@),
                ),
            decreases self.tokens.len() - self.current,
        {
            let ghost done = stmts_view(statements@);
            match self.declaration() {
                Ok(stmt) => {
                    statements.push(stmt);
                    assert(stmts_view(statements@) =~= done.push(stmt@));
                },
                Err(err) => {
                    return Err(err);
                },
            }
        }
        Ok(statements)
    }
}

} // verus!
