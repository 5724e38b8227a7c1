//! Laws of the front end: the lines that tokens stand on do not matter to
//! the program they denote, nor to its canonical text.
use crate::lox::ast::{ExprView, FunctionView, StmtView};
use crate::lox::error::LoxErrorView;
use crate::lox::parser::{
    arguments, assignment, at_end, binary, binary_rest, block, call, calls, check, declaration,
    else_branch, expression, expression_statement, for_clauses, for_initializer, for_statement,
    function, if_statement, names, optional_expression, parameters, primary, print_statement,
    program, reached, return_statement, statement, unary, var_declaration, while_statement,
    Parsed,
};
use crate::lox::printer::{
    arguments_text, expr_text, methods_text, names_text, optional_text, program_text,
    statements_text, stmt_text,
};
use crate::lox::token::TokenView;
use crate::lox::token_type::TokenType;
use vstd::prelude::*;

verus! {

/// The token without its line.
pub open spec fn unlined(t: TokenView) -> TokenView {
    TokenView { line: 0, ..t }
}

/// The tokens without their lines.
pub open spec fn unlined_tokens(ts: Seq<TokenView>) -> Seq<TokenView> {
    Seq::new(ts.len(), |i: int| unlined(ts[i]))
}

/// The expressions without the lines of their tokens.
pub open spec fn unlined_exprs(es: Seq<ExprView>) -> Seq<ExprView>
    decreases es,
{
    Seq::new(
        es.len(),
        |i: int|
            if 0 <= i < es.len() {
                unlined_expr(es[i])
            } else {
                arbitrary()
            },
    )
}

/// The expression without the lines of its tokens.
pub open spec fn unlined_expr(e: ExprView) -> ExprView
    decreases e,
{
    match e {
        ExprView::Binary { left, operator, right } => ExprView::Binary {
            left: Box::new(unlined_expr(*left)),
            operator: unlined(operator),
            right: Box::new(unlined_expr(*right)),
        },
        ExprView::Grouping { expression } => ExprView::Grouping {
            expression: Box::new(unlined_expr(*expression)),
        },
        ExprView::Literal { value } => e,
        ExprView::Variable { name } => ExprView::Variable { name: unlined(name) },
        ExprView::Unary { operator, operand } => ExprView::Unary {
            operator: unlined(operator),
            operand: Box::new(unlined_expr(*operand)),
        },
        ExprView::Assign { name, value } => ExprView::Assign {
            name: unlined(name),
            value: Box::new(unlined_expr(*value)),
        },
        ExprView::Call { callee, arguments } => ExprView::Call {
            callee: Box::new(unlined_expr(*callee)),
            arguments: unlined_exprs(arguments),
        },
        ExprView::Get { object, name } => ExprView::Get {
            object: Box::new(unlined_expr(*object)),
            name: unlined(name),
        },
        ExprView::SetProperty { object, name, value } => ExprView::SetProperty {
            object: Box::new(unlined_expr(*object)),
            name: unlined(name),
            value: Box::new(unlined_expr(*value)),
        },
    }
}

/// The optional expression without the lines of its tokens.
pub open spec fn unlined_option(e: Option<ExprView>) -> Option<ExprView> {
    match e {
        Some(e) => Some(unlined_expr(e)),
        None => None,
    }
}

/// The statements without the lines of their tokens.
pub open spec fn unlined_stmts(ss: Seq<StmtView>) -> Seq<StmtView>
    decreases ss,
{
    Seq::new(
        ss.len(),
        |i: int|
            if 0 <= i < ss.len() {
                unlined_stmt(ss[i])
            } else {
                arbitrary()
            },
    )
}

/// The methods without the lines of their tokens.
pub open spec fn unlined_methods(ms: Seq<(TokenView, StmtView)>) -> Seq<(TokenView, StmtView)>
    decreases ms,
{
    Seq::new(
        ms.len(),
        |i: int|
            if 0 <= i < ms.len() {
                (unlined(ms[i].0), unlined_stmt(ms[i].1))
            } else {
                arbitrary()
            },
    )
}

/// The optional statement without the lines of its tokens.
pub open spec fn unlined_branch(s: Option<Box<StmtView>>) -> Option<Box<StmtView>>
    decreases s,
{
    match s {
        Some(s) => Some(Box::new(unlined_stmt(*s))),
        None => None,
    }
}

/// The statement without the lines of its tokens.
pub open spec fn unlined_stmt(s: StmtView) -> StmtView
    decreases s,
{
    match s {
        StmtView::Expression(e) => StmtView::Expression(unlined_expr(e)),
        StmtView::Print(e) => StmtView::Print(unlined_expr(e)),
        StmtView::Var { name, initializer } => StmtView::Var {
            name: unlined(name),
            initializer: unlined_option(initializer),
        },
        StmtView::Block(stmts) => StmtView::Block(unlined_stmts(stmts)),
        StmtView::While(condition, body) => StmtView::While(
            unlined_expr(condition),
            Box::new(unlined_stmt(*body)),
        ),
        StmtView::For { initializer, condition, increment, body } => StmtView::For {
            initializer: unlined_branch(initializer),
            condition: unlined_option(condition),
            increment: unlined_option(increment),
            body: Box::new(unlined_stmt(*body)),
        },
        StmtView::If { condition, then_branch, else_branch } => StmtView::If {
            condition: Box::new(unlined_expr(*condition)),
            then_branch: Box::new(unlined_stmt(*then_branch)),
            else_branch: unlined_branch(else_branch),
        },
        StmtView::Function(f) => StmtView::Function(
            FunctionView {
                name: unlined(f.name),
                params: unlined_tokens(f.params),
                body: unlined_stmts(f.body),
            },
        ),
        StmtView::Return { keyword, value } => StmtView::Return {
            keyword: unlined(keyword),
            value: unlined_option(value),
        },
        StmtView::Class { name, methods } => StmtView::Class {
            name: unlined(name),
            methods: unlined_methods(methods),
        },
    }
}

/// What was parsed, without the lines of its tokens.
pub open spec fn unlined_parsed<T>(p: Parsed<T>, strip: spec_fn(T) -> T) -> Parsed<T> {
    Parsed {
        result: match p.result {
            Ok(v) => Ok(strip(v)),
            Err(e) => Err(e),
        },
        pos: p.pos,
    }
}

/// The expression parsed, without the lines of its tokens.
pub open spec fn unlined_expr_parsed(p: Parsed<ExprView>) -> Parsed<ExprView> {
    unlined_parsed(p, |e: ExprView| unlined_expr(e))
}

/// The statement parsed, without the lines of its tokens.
pub open spec fn unlined_stmt_parsed(p: Parsed<StmtView>) -> Parsed<StmtView> {
    unlined_parsed(p, |s: StmtView| unlined_stmt(s))
}

/// The expressions parsed, without the lines of their tokens.
pub open spec fn unlined_exprs_parsed(p: Parsed<Seq<ExprView>>) -> Parsed<Seq<ExprView>> {
    unlined_parsed(p, |es: Seq<ExprView>| unlined_exprs(es))
}

/// The statements parsed, without the lines of their tokens.
pub open spec fn unlined_stmts_parsed(p: Parsed<Seq<StmtView>>) -> Parsed<Seq<StmtView>> {
    unlined_parsed(p, |ss: Seq<StmtView>| unlined_stmts(ss))
}

/// The tokens parsed, without their lines.
pub open spec fn unlined_tokens_parsed(p: Parsed<Seq<TokenView>>) -> Parsed<Seq<TokenView>> {
    unlined_parsed(p, |ts: Seq<TokenView>| unlined_tokens(ts))
}

/// Tokens without lines stand where they stood, with their kinds.
pub proof fn unlined_tokens_agree(ts: Seq<TokenView>)
    ensures
        unlined_tokens(ts).len() == ts.len(),
        forall|i: int| 0 <= i < ts.len() ==> #[trigger] unlined_tokens(ts)[i] == unlined(ts[i]),
        forall|p: int, k: TokenType| #[trigger] check(unlined_tokens(ts), p, k) == check(ts, p, k),
        forall|p: int| #[trigger] at_end(unlined_tokens(ts), p) == at_end(ts, p),
        forall|p: int, low: int| #[trigger]
            reached(p, low, unlined_tokens(ts)) == reached(p, low, ts),
{
}

/// One more expression, with or without lines.
pub proof fn unlined_exprs_push(es: Seq<ExprView>, e: ExprView)
    ensures
        unlined_exprs(es.push(e)) == unlined_exprs(es).push(unlined_expr(e)),
{
    assert(unlined_exprs(es.push(e)) =~= unlined_exprs(es).push(unlined_expr(e)));
}

/// One more statement, with or without lines.
pub proof fn unlined_stmts_push(ss: Seq<StmtView>, s: StmtView)
    ensures
        unlined_stmts(ss.push(s)) == unlined_stmts(ss).push(unlined_stmt(s)),
{
    assert(unlined_stmts(ss.push(s)) =~= unlined_stmts(ss).push(unlined_stmt(s)));
}

/// One more token, with or without its line.
pub proof fn unlined_tokens_push(ts: Seq<TokenView>, t: TokenView)
    ensures
        unlined_tokens(ts.push(t)) == unlined_tokens(ts).push(unlined(t)),
        names(unlined_tokens(ts), t.lexeme) == names(ts, t.lexeme),
{
    assert(unlined_tokens(ts.push(t)) =~= unlined_tokens(ts).push(unlined(t)));
    if names(ts, t.lexeme) {
        let i = choose|i: int| 0 <= i < ts.len() && (#[trigger] ts[i]).lexeme == t.lexeme;
        assert(unlined_tokens(ts)[i].lexeme == t.lexeme);
    }
    if names(unlined_tokens(ts), t.lexeme) {
        let i = choose|i: int|
            0 <= i < unlined_tokens(ts).len() && (#[trigger] unlined_tokens(ts)[i]).lexeme
                == t.lexeme;
        assert(ts[i].lexeme == t.lexeme);
    }
}


/// `primary` does not read lines.
pub proof fn primary_unlined(ts: Seq<TokenView>, pos: int, depth: nat)
    ensures
        primary(unlined_tokens(ts), pos, depth) == unlined_expr_parsed(primary(ts, pos, depth)),
    decreases ts.len() - pos, 0nat,
{
    unlined_tokens_agree(ts);
    if 0 <= pos < ts.len() {
        if ts[pos].token_type == TokenType::LeftParen {
            expression_unlined(ts, pos + 1, depth);
        }
    }
}

/// `arguments` does not read lines.
pub proof fn arguments_unlined(ts: Seq<TokenView>, pos: int, depth: nat, done: Seq<ExprView>)
    ensures
        arguments(unlined_tokens(ts), pos, depth, unlined_exprs(done)) == unlined_exprs_parsed(
            arguments(ts, pos, depth, done),
        ),
    decreases ts.len() - pos, 10nat,
{
    unlined_tokens_agree(ts);
    expression_unlined(ts, pos, depth);
    let argument = expression(ts, pos, depth);
    let end = reached(argument.pos, pos, ts);
    if let Ok(e) = argument.result {
        unlined_exprs_push(done, e);
        if check(ts, end, TokenType::Comma) {
            arguments_unlined(ts, end + 1, depth, done.push(e));
        }
    }
}

/// `calls` does not read lines.
pub proof fn calls_unlined(ts: Seq<TokenView>, pos: int, depth: nat, callee: ExprView)
    ensures
        calls(unlined_tokens(ts), pos, depth, unlined_expr(callee)) == unlined_expr_parsed(
            calls(ts, pos, depth, callee),
        ),
    decreases ts.len() - pos, 0nat,
{
    unlined_tokens_agree(ts);
    if check(ts, pos, TokenType::LeftParen) {
        assert(unlined_exprs(Seq::empty()) =~= Seq::<ExprView>::empty());
        if !check(ts, pos + 1, TokenType::RightParen) {
            arguments_unlined(ts, pos + 1, depth, Seq::empty());
        }
        let list = if check(ts, pos + 1, TokenType::RightParen) {
            Parsed { result: Ok(Seq::<ExprView>::empty()), pos: pos + 1 }
        } else {
            arguments(ts, pos + 1, depth, Seq::empty())
        };
        let end = reached(list.pos, pos + 1, ts);
        if let Ok(args) = list.result {
            if check(ts, end, TokenType::RightParen) {
                calls_unlined(
                    ts,
                    end + 1,
                    depth,
                    ExprView::Call { callee: Box::new(callee), arguments: args },
                );
            }
        }
    }
}

/// `call` does not read lines.
pub proof fn call_unlined(ts: Seq<TokenView>, pos: int, depth: nat)
    ensures
        call(unlined_tokens(ts), pos, depth) == unlined_expr_parsed(call(ts, pos, depth)),
    decreases ts.len() - pos, 1nat,
{
    unlined_tokens_agree(ts);
    primary_unlined(ts, pos, depth);
    let callee = primary(ts, pos, depth);
    if let Ok(e) = callee.result {
        calls_unlined(ts, reached(callee.pos, pos, ts), depth, e);
    }
}

/// `unary` does not read lines.
pub proof fn unary_unlined(ts: Seq<TokenView>, pos: int, depth: nat)
    ensures
        unary(unlined_tokens(ts), pos, depth) == unlined_expr_parsed(unary(ts, pos, depth)),
    decreases ts.len() - pos, 2nat,
{
    unlined_tokens_agree(ts);
    if check(ts, pos, TokenType::Bang) || check(ts, pos, TokenType::Minus) {
        unary_unlined(ts, pos + 1, depth);
    } else {
        call_unlined(ts, pos, depth);
    }
}

/// `binary_rest` does not read lines.
pub proof fn binary_rest_unlined(
    ts: Seq<TokenView>,
    pos: int,
    depth: nat,
    level: nat,
    left: ExprView,
)
    ensures
        binary_rest(unlined_tokens(ts), pos, depth, level, unlined_expr(left))
            == unlined_expr_parsed(binary_rest(ts, pos, depth, level, left)),
    decreases ts.len() - pos, 0nat,
{
    unlined_tokens_agree(ts);
    if 0 <= pos < ts.len() && crate::lox::parser::is_operator(level, ts[pos].token_type) {
        if level >= 3 {
            unary_unlined(ts, pos + 1, depth);
        } else {
            binary_unlined(ts, pos + 1, depth, level + 1);
        }
        let right = if level >= 3 {
            unary(ts, pos + 1, depth)
        } else {
            binary(ts, pos + 1, depth, level + 1)
        };
        if let Ok(r) = right.result {
            binary_rest_unlined(
                ts,
                reached(right.pos, pos + 1, ts),
                depth,
                level,
                ExprView::Binary { left: Box::new(left), operator: ts[pos], right: Box::new(r) },
            );
        }
    }
}

/// `binary` does not read lines.
pub proof fn binary_unlined(ts: Seq<TokenView>, pos: int, depth: nat, level: nat)
    ensures
        binary(unlined_tokens(ts), pos, depth, level) == unlined_expr_parsed(
            binary(ts, pos, depth, level),
        ),
    decreases ts.len() - pos,
        (if level < 3 {
            6 - level
        } else {
            3
        }),
{
    unlined_tokens_agree(ts);
    if level >= 3 {
        unary_unlined(ts, pos, depth);
    } else {
        binary_unlined(ts, pos, depth, level + 1);
    }
    let left = if level >= 3 {
        unary(ts, pos, depth)
    } else {
        binary(ts, pos, depth, level + 1)
    };
    if let Ok(l) = left.result {
        binary_rest_unlined(ts, reached(left.pos, pos, ts), depth, level, l);
    }
}

/// `assignment` does not read lines.
pub proof fn assignment_unlined(ts: Seq<TokenView>, pos: int, depth: nat)
    ensures
        assignment(unlined_tokens(ts), pos, depth) == unlined_expr_parsed(
            assignment(ts, pos, depth),
        ),
    decreases ts.len() - pos, 8nat,
{
    unlined_tokens_agree(ts);
    binary_unlined(ts, pos, depth, 0);
    let target = binary(ts, pos, depth, 0);
    let end = reached(target.pos, pos, ts);
    if target.result is Ok && check(ts, end, TokenType::Equal) {
        assignment_unlined(ts, end + 1, depth);
    }
}

/// `expression` does not read lines.
pub proof fn expression_unlined(ts: Seq<TokenView>, pos: int, depth: nat)
    ensures
        expression(unlined_tokens(ts), pos, depth) == unlined_expr_parsed(
            expression(ts, pos, depth),
        ),
    decreases ts.len() - pos, 9nat,
{
    if !(depth > crate::lox::parser::MAX_RECURSION_DEPTH) {
        assignment_unlined(ts, pos, depth + 1);
    }
}


/// What was parsed as an optional expression, without lines.
pub open spec fn unlined_option_parsed(p: Parsed<Option<ExprView>>) -> Parsed<Option<ExprView>> {
    unlined_parsed(p, |e: Option<ExprView>| unlined_option(e))
}

/// What was parsed as an optional statement, without lines.
pub open spec fn unlined_branch_parsed(p: Parsed<Option<Box<StmtView>>>) -> Parsed<
    Option<Box<StmtView>>,
> {
    unlined_parsed(p, |s: Option<Box<StmtView>>| unlined_branch(s))
}

/// `optional_expression` does not read lines.
pub proof fn optional_expression_unlined(ts: Seq<TokenView>, pos: int, depth: nat, stop: TokenType)
    ensures
        optional_expression(unlined_tokens(ts), pos, depth, stop) == unlined_option_parsed(
            optional_expression(ts, pos, depth, stop),
        ),
{
    unlined_tokens_agree(ts);
    expression_unlined(ts, pos, depth);
}

/// `expression_statement` does not read lines.
pub proof fn expression_statement_unlined(ts: Seq<TokenView>, pos: int, depth: nat)
    ensures
        expression_statement(unlined_tokens(ts), pos, depth) == unlined_stmt_parsed(
            expression_statement(ts, pos, depth),
        ),
{
    unlined_tokens_agree(ts);
    expression_unlined(ts, pos, depth);
}

/// `print_statement` does not read lines.
pub proof fn print_statement_unlined(ts: Seq<TokenView>, pos: int, depth: nat)
    ensures
        print_statement(unlined_tokens(ts), pos, depth) == unlined_stmt_parsed(
            print_statement(ts, pos, depth),
        ),
{
    unlined_tokens_agree(ts);
    expression_unlined(ts, pos, depth);
}

/// `return_statement` does not read lines.
pub proof fn return_statement_unlined(ts: Seq<TokenView>, pos: int, depth: nat, inside: bool)
    requires
        0 < pos <= ts.len(),
    ensures
        return_statement(unlined_tokens(ts), pos, depth, inside) == unlined_stmt_parsed(
            return_statement(ts, pos, depth, inside),
        ),
{
    unlined_tokens_agree(ts);
    optional_expression_unlined(ts, pos, depth, TokenType::Semicolon);
}

/// `var_declaration` does not read lines.
pub proof fn var_declaration_unlined(ts: Seq<TokenView>, pos: int, depth: nat)
    ensures
        var_declaration(unlined_tokens(ts), pos, depth) == unlined_stmt_parsed(
            var_declaration(ts, pos, depth),
        ),
{
    unlined_tokens_agree(ts);
    expression_unlined(ts, pos + 2, depth);
}

/// `parameters` does not read lines.
pub proof fn parameters_unlined(ts: Seq<TokenView>, pos: int, depth: nat, done: Seq<TokenView>)
    ensures
        parameters(unlined_tokens(ts), pos, depth, unlined_tokens(done)) == unlined_tokens_parsed(
            parameters(ts, pos, depth, done),
        ),
    decreases ts.len() - pos,
{
    unlined_tokens_agree(ts);
    if check(ts, pos, TokenType::Identifier) {
        unlined_tokens_push(done, ts[pos]);
        if !names(done, ts[pos].lexeme) {
            expression_unlined(ts, pos + 2, depth);
            let default = if check(ts, pos + 1, TokenType::Equal) {
                let e = expression(ts, pos + 2, depth);
                match e.result {
                    Ok(_) => Parsed { result: Ok(()), pos: reached(e.pos, pos + 2, ts) },
                    Err(error) => Parsed {
                        result: Err(
                            LoxErrorView::ParseError(
                                crate::lox::parser::default_text(ts[pos].lexeme, error),
                            ),
                        ),
                        pos: e.pos,
                    },
                }
            } else {
                Parsed { result: Ok(()), pos: pos + 1 }
            };
            if default.result is Ok && check(ts, default.pos, TokenType::Comma) {
                parameters_unlined(ts, default.pos + 1, depth, done.push(ts[pos]));
            }
        }
    }
}

/// `for_initializer` does not read lines.
pub proof fn for_initializer_unlined(ts: Seq<TokenView>, pos: int, depth: nat)
    ensures
        for_initializer(unlined_tokens(ts), pos, depth) == unlined_branch_parsed(
            for_initializer(ts, pos, depth),
        ),
{
    unlined_tokens_agree(ts);
    var_declaration_unlined(ts, pos + 1, depth);
    expression_statement_unlined(ts, pos, depth);
}

/// What was parsed as two optional expressions, without lines.
pub open spec fn unlined_pair_parsed(p: Parsed<(Option<ExprView>, Option<ExprView>)>) -> Parsed<
    (Option<ExprView>, Option<ExprView>),
> {
    unlined_parsed(
        p,
        |pair: (Option<ExprView>, Option<ExprView>)|
            (unlined_option(pair.0), unlined_option(pair.1)),
    )
}

/// `for_clauses` does not read lines.
pub proof fn for_clauses_unlined(ts: Seq<TokenView>, pos: int, depth: nat)
    ensures
        for_clauses(unlined_tokens(ts), pos, depth) == unlined_pair_parsed(
            for_clauses(ts, pos, depth),
        ),
{
    unlined_tokens_agree(ts);
    optional_expression_unlined(ts, pos, depth, TokenType::Semicolon);
    let condition = optional_expression(ts, pos, depth, TokenType::Semicolon);
    optional_expression_unlined(ts, condition.pos + 1, depth, TokenType::RightParen);
}

/// `function` does not read lines.
pub proof fn function_unlined(ts: Seq<TokenView>, pos: int, depth: nat)
    ensures
        function(unlined_tokens(ts), pos, depth) == unlined_stmt_parsed(function(ts, pos, depth)),
    decreases ts.len() - pos, 10nat,
{
    unlined_tokens_agree(ts);
    if check(ts, pos, TokenType::Identifier) && check(ts, pos + 1, TokenType::LeftParen) {
        assert(unlined_tokens(Seq::empty()) =~= Seq::<TokenView>::empty());
        parameters_unlined(ts, pos + 2, depth, Seq::empty());
        let params = if check(ts, pos + 2, TokenType::RightParen) {
            Parsed { result: Ok(Seq::<TokenView>::empty()), pos: pos + 2 }
        } else {
            parameters(ts, pos + 2, depth, Seq::empty())
        };
        let end = reached(params.pos, pos + 2, ts);
        if params.result is Ok && check(ts, end, TokenType::RightParen) && check(
            ts,
            end + 1,
            TokenType::LeftBrace,
        ) {
            assert(unlined_stmts(Seq::empty()) =~= Seq::<StmtView>::empty());
            block_unlined(ts, end + 2, depth, true, Seq::empty());
        }
    }
}

/// `while_statement` does not read lines.
pub proof fn while_statement_unlined(ts: Seq<TokenView>, pos: int, depth: nat, inside: bool)
    ensures
        while_statement(unlined_tokens(ts), pos, depth, inside) == unlined_stmt_parsed(
            while_statement(ts, pos, depth, inside),
        ),
    decreases ts.len() - pos, 10nat,
{
    unlined_tokens_agree(ts);
    if check(ts, pos, TokenType::LeftParen) {
        expression_unlined(ts, pos + 1, depth);
        let condition = expression(ts, pos + 1, depth);
        let end = reached(condition.pos, pos + 1, ts);
        if condition.result is Ok && check(ts, end, TokenType::RightParen) {
            statement_unlined(ts, end + 1, depth, inside);
        }
    }
}

/// `else_branch` does not read lines.
pub proof fn else_branch_unlined(ts: Seq<TokenView>, pos: int, depth: nat, inside: bool)
    ensures
        else_branch(unlined_tokens(ts), pos, depth, inside) == unlined_branch_parsed(
            else_branch(ts, pos, depth, inside),
        ),
    decreases ts.len() - pos, 10nat,
{
    unlined_tokens_agree(ts);
    if check(ts, pos, TokenType::Else) {
        statement_unlined(ts, pos + 1, depth, inside);
    }
}

/// `if_statement` does not read lines.
pub proof fn if_statement_unlined(ts: Seq<TokenView>, pos: int, depth: nat, inside: bool)
    ensures
        if_statement(unlined_tokens(ts), pos, depth, inside) == unlined_stmt_parsed(
            if_statement(ts, pos, depth, inside),
        ),
    decreases ts.len() - pos, 10nat,
{
    unlined_tokens_agree(ts);
    if check(ts, pos, TokenType::LeftParen) {
        expression_unlined(ts, pos + 1, depth);
        let condition = expression(ts, pos + 1, depth);
        let end = reached(condition.pos, pos + 1, ts);
        if condition.result is Ok && check(ts, end, TokenType::RightParen) {
            statement_unlined(ts, end + 1, depth, inside);
            let then = statement(ts, end + 1, depth, inside);
            if then.result is Ok {
                else_branch_unlined(ts, reached(then.pos, end + 1, ts), depth, inside);
            }
        }
    }
}

/// `for_statement` does not read lines.
pub proof fn for_statement_unlined(ts: Seq<TokenView>, pos: int, depth: nat, inside: bool)
    ensures
        for_statement(unlined_tokens(ts), pos, depth, inside) == unlined_stmt_parsed(
            for_statement(ts, pos, depth, inside),
        ),
    decreases ts.len() - pos, 10nat,
{
    unlined_tokens_agree(ts);
    if check(ts, pos, TokenType::LeftParen) {
        for_initializer_unlined(ts, pos + 1, depth);
        let initializer = for_initializer(ts, pos + 1, depth);
        if initializer.result is Ok {
            for_clauses_unlined(ts, initializer.pos, depth);
            let clauses = for_clauses(ts, initializer.pos, depth);
            if clauses.result is Ok {
                statement_unlined(ts, reached(clauses.pos, pos + 1, ts), depth, inside);
            }
        }
    }
}

/// `statement` does not read lines.
pub proof fn statement_unlined(ts: Seq<TokenView>, pos: int, depth: nat, inside: bool)
    ensures
        statement(unlined_tokens(ts), pos, depth, inside) == unlined_stmt_parsed(
            statement(ts, pos, depth, inside),
        ),
    decreases ts.len() - pos, 12nat,
{
    unlined_tokens_agree(ts);
    if 0 <= pos < ts.len() {
        match ts[pos].token_type {
            TokenType::For => {
                for_statement_unlined(ts, pos + 1, depth, inside);
            },
            TokenType::While => {
                while_statement_unlined(ts, pos + 1, depth, inside);
            },
            TokenType::If => {
                if_statement_unlined(ts, pos + 1, depth, inside);
            },
            TokenType::Return => {
                return_statement_unlined(ts, pos + 1, depth, inside);
            },
            TokenType::Print => {
                print_statement_unlined(ts, pos + 1, depth);
            },
            TokenType::LeftBrace => {
                assert(unlined_stmts(Seq::empty()) =~= Seq::<StmtView>::empty());
                block_unlined(ts, pos + 1, depth, inside, Seq::empty());
            },
            _ => {
                expression_statement_unlined(ts, pos, depth);
            },
        }
    }
}

/// `declaration` does not read lines.
pub proof fn declaration_unlined(ts: Seq<TokenView>, pos: int, depth: nat, inside: bool)
    ensures
        declaration(unlined_tokens(ts), pos, depth, inside) == unlined_stmt_parsed(
            declaration(ts, pos, depth, inside),
        ),
    decreases ts.len() - pos, 13nat,
{
    unlined_tokens_agree(ts);
    if check(ts, pos, TokenType::Fun) {
        function_unlined(ts, pos + 1, depth);
    } else if check(ts, pos, TokenType::Var) {
        var_declaration_unlined(ts, pos + 1, depth);
    } else {
        statement_unlined(ts, pos, depth, inside);
    }
}

/// `block` does not read lines.
pub proof fn block_unlined(
    ts: Seq<TokenView>,
    pos: int,
    depth: nat,
    inside: bool,
    done: Seq<StmtView>,
)
    ensures
        block(unlined_tokens(ts), pos, depth, inside, unlined_stmts(done)) == unlined_stmts_parsed(
            block(ts, pos, depth, inside, done),
        ),
    decreases ts.len() - pos, 14nat,
{
    unlined_tokens_agree(ts);
    if !check(ts, pos, TokenType::RightBrace) && !at_end(ts, pos) {
        declaration_unlined(ts, pos, depth, inside);
        let next = declaration(ts, pos, depth, inside);
        if let Ok(s) = next.result {
            unlined_stmts_push(done, s);
            block_unlined(ts, reached(next.pos, pos + 1, ts), depth, inside, done.push(s));
        }
    }
}

/// `program` does not read lines.
pub proof fn program_unlined(ts: Seq<TokenView>, pos: int, done: Seq<StmtView>)
    ensures
        program(unlined_tokens(ts), pos, unlined_stmts(done)) == unlined_stmts_parsed(
            program(ts, pos, done),
        ),
    decreases ts.len() - pos, 14nat,
{
    unlined_tokens_agree(ts);
    if !at_end(ts, pos) {
        declaration_unlined(ts, pos, 0, false);
        let next = declaration(ts, pos, 0, false);
        if let Ok(s) = next.result {
            unlined_stmts_push(done, s);
            program_unlined(ts, reached(next.pos, pos + 1, ts), done.push(s));
        }
    }
}


/// The text of expressions does not show lines.
pub proof fn arguments_text_unlined(args: Seq<ExprView>, n: nat)
    ensures
        arguments_text(unlined_exprs(args), n) == arguments_text(args, n),
    decreases args, n,
{
    if !(n == 0 || n > args.len()) {
        if n == 1 {
            expr_text_unlined(args[0]);
        } else {
            arguments_text_unlined(args, (n - 1) as nat);
            expr_text_unlined(args[n - 1]);
        }
    }
}

/// The text of an expression does not show lines.
pub proof fn expr_text_unlined(e: ExprView)
    ensures
        expr_text(unlined_expr(e)) == expr_text(e),
    decreases e, 0nat,
{
    match e {
        ExprView::Binary { left, operator, right } => {
            expr_text_unlined(*left);
            expr_text_unlined(*right);
        },
        ExprView::Grouping { expression } => {
            expr_text_unlined(*expression);
        },
        ExprView::Unary { operator, operand } => {
            expr_text_unlined(*operand);
        },
        ExprView::Assign { name, value } => {
            expr_text_unlined(*value);
        },
        ExprView::Call { callee, arguments } => {
            assert(unlined_exprs(arguments).len() == arguments.len());
            expr_text_unlined(*callee);
            arguments_text_unlined(arguments, arguments.len());
        },
        ExprView::Get { object, name } => {
            expr_text_unlined(*object);
        },
        ExprView::SetProperty { object, name, value } => {
            expr_text_unlined(*object);
            expr_text_unlined(*value);
        },
        _ => {},
    }
}

/// The text of names does not show lines.
pub proof fn names_text_unlined(tokens: Seq<TokenView>, n: nat)
    ensures
        names_text(unlined_tokens(tokens), n) == names_text(tokens, n),
    decreases n,
{
    if !(n == 0 || n > tokens.len()) {
        if n > 1 {
            names_text_unlined(tokens, (n - 1) as nat);
        }
    }
}

/// The text of statements does not show lines.
pub proof fn statements_text_unlined(stmts: Seq<StmtView>, n: nat, separator: Seq<char>)
    ensures
        statements_text(unlined_stmts(stmts), n, separator) == statements_text(
            stmts,
            n,
            separator,
        ),
    decreases stmts, n,
{
    if !(n == 0 || n > stmts.len()) {
        if n == 1 {
            stmt_text_unlined(stmts[0]);
        } else {
            statements_text_unlined(stmts, (n - 1) as nat, separator);
            stmt_text_unlined(stmts[n - 1]);
        }
    }
}

/// The text of methods does not show lines.
pub proof fn methods_text_unlined(methods: Seq<(TokenView, StmtView)>, n: nat)
    ensures
        methods_text(unlined_methods(methods), n) == methods_text(methods, n),
    decreases methods, n,
{
    if !(n == 0 || n > methods.len()) {
        if n == 1 {
            stmt_text_unlined(methods[0].1);
        } else {
            methods_text_unlined(methods, (n - 1) as nat);
            stmt_text_unlined(methods[n - 1].1);
        }
    }
}

/// The text of a statement does not show lines.
pub proof fn stmt_text_unlined(s: StmtView)
    ensures
        stmt_text(unlined_stmt(s)) == stmt_text(s),
    decreases s, 0nat,
{
    match s {
        StmtView::Expression(e) => {
            expr_text_unlined(e);
        },
        StmtView::Print(e) => {
            expr_text_unlined(e);
        },
        StmtView::Var { name, initializer } => {
            if let Some(e) = initializer {
                expr_text_unlined(e);
            }
        },
        StmtView::Block(stmts) => {
            assert(unlined_stmts(stmts).len() == stmts.len());
            statements_text_unlined(stmts, stmts.len(), " "@);
        },
        StmtView::While(condition, body) => {
            expr_text_unlined(condition);
            stmt_text_unlined(*body);
        },
        StmtView::For { initializer, condition, increment, body } => {
            assert(unlined_branch(initializer) == match initializer {
                Some(i) => Some(Box::new(unlined_stmt(*i))),
                None => None,
            });
            if let Some(i) = initializer {
                stmt_text_unlined(*i);
            }
            if let Some(c) = condition {
                expr_text_unlined(c);
            }
            if let Some(i) = increment {
                expr_text_unlined(i);
            }
            stmt_text_unlined(*body);
        },
        StmtView::If { condition, then_branch, else_branch } => {
            expr_text_unlined(*condition);
            stmt_text_unlined(*then_branch);
            assert(unlined_branch(else_branch) == match else_branch {
                Some(e) => Some(Box::new(unlined_stmt(*e))),
                None => None,
            });
            if let Some(e) = else_branch {
                stmt_text_unlined(*e);
            }
        },
        StmtView::Function(f) => {
            assert(unlined_stmts(f.body).len() == f.body.len());
            assert(unlined_tokens(f.params).len() == f.params.len());
            names_text_unlined(f.params, f.params.len());
            statements_text_unlined(f.body, f.body.len(), " "@);
        },
        StmtView::Return { keyword, value } => {
            if let Some(e) = value {
                expr_text_unlined(e);
            }
        },
        StmtView::Class { name, methods } => {
            assert(unlined_methods(methods).len() == methods.len());
            methods_text_unlined(methods, methods.len());
        },
    }
}

/// The canonical text of the program that tokens denote, or the error in
/// them.
pub open spec fn canonical_of(tokens: Seq<TokenView>) -> Result<Seq<char>, LoxErrorView> {
    match crate::lox::parser::parse(tokens) {
        Ok(statements) => Ok(program_text(statements)),
        Err(e) => Err(e),
    }
}

/// The canonical text depends on the kinds, the lexemes and the values of
/// the tokens alone: token sequences that differ in nothing but the lines
/// that their tokens stand on have the same canonical text, or fail with
/// the same error.
pub proof fn canonical_text_ignores_lines(first: Seq<TokenView>, second: Seq<TokenView>)
    requires
        unlined_tokens(first) == unlined_tokens(second),
    ensures
        canonical_of(first) == canonical_of(second),
{
    assert(unlined_stmts(Seq::empty()) =~= Seq::<StmtView>::empty());
    program_unlined(first, 0, Seq::empty());
    program_unlined(second, 0, Seq::empty());
    if let Ok(a) = program(first, 0, Seq::empty()).result {
        statements_text_unlined(a, a.len(), "\n"@);
    }
    if let Ok(b) = program(second, 0, Seq::empty()).result {
        statements_text_unlined(b, b.len(), "\n"@);
    }
}

} // verus!
