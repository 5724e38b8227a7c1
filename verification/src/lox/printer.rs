//! The canonical text of a syntax tree: a parenthesised prefix form.
use crate::lox::ast::{
    exprs_view, methods_view, option_expr_view, stmts_view, Expr, ExprView, FunctionDecl,
    FunctionView, Stmt, StmtView,
};
use crate::lox::text::{push_text, string_of};
use crate::lox::token::{tokens_view, Token, TokenView};
use crate::lox::token_type::{literal_text, LiteralValue, LiteralView};
use vstd::prelude::*;

verus! {

/// The texts of the first `n` expressions, with `, ` between them.
pub open spec fn arguments_text(args: Seq<ExprView>, n: nat) -> Seq<char>
    decreases args, n,
{
    if n == 0 || n > args.len() {
        Seq::empty()
    } else if n == 1 {
        expr_text(args[0])
    } else {
        arguments_text(args, (n - 1) as nat) + ", "@ + expr_text(args[n - 1])
    }
}

/// The canonical text of an expression.
pub open spec fn expr_text(e: ExprView) -> Seq<char>
    decreases e, 0nat,
{
    match e {
        ExprView::Binary { left, operator, right } => "("@ + operator.lexeme + " "@ + expr_text(
            *left,
        ) + " "@ + expr_text(*right) + ")"@,
        ExprView::Grouping { expression } => "(group "@ + expr_text(*expression) + ")"@,
        ExprView::Literal { value } => literal_text(value),
        ExprView::Variable { name } => name.lexeme,
        ExprView::Unary { operator, operand } => "("@ + operator.lexeme + " "@ + expr_text(
            *operand,
        ) + ")"@,
        ExprView::Assign { name, value } => "(assign "@ + name.lexeme + " "@ + expr_text(*value)
            + ")"@,
        ExprView::Call { callee, arguments } => "(call "@ + expr_text(*callee) + " "@
            + arguments_text(arguments, arguments.len()) + ")"@,
        ExprView::Get { object, name } => "(get "@ + expr_text(*object) + "."@ + name.lexeme
            + ")"@,
        ExprView::SetProperty { object, name, value } => "(set "@ + expr_text(*object) + "."@
            + name.lexeme + " = "@ + expr_text(*value) + ")"@,
    }
}

/// The lexemes of the first `n` tokens, with `, ` between them.
pub open spec fn names_text(tokens: Seq<TokenView>, n: nat) -> Seq<char>
    decreases n,
{
    if n == 0 || n > tokens.len() {
        Seq::empty()
    } else if n == 1 {
        tokens[0].lexeme
    } else {
        names_text(tokens, (n - 1) as nat) + ", "@ + tokens[n - 1].lexeme
    }
}

/// The texts of the first `n` statements, with `separator` between them.
pub open spec fn statements_text(stmts: Seq<StmtView>, n: nat, separator: Seq<char>) -> Seq<char>
    decreases stmts, n,
{
    if n == 0 || n > stmts.len() {
        Seq::empty()
    } else if n == 1 {
        stmt_text(stmts[0])
    } else {
        statements_text(stmts, (n - 1) as nat, separator) + separator + stmt_text(stmts[n - 1])
    }
}

/// The texts of the first `n` methods, each after its name, with a space
/// between them.
pub open spec fn methods_text(methods: Seq<(TokenView, StmtView)>, n: nat) -> Seq<char>
    decreases methods, n,
{
    if n == 0 || n > methods.len() {
        Seq::empty()
    } else if n == 1 {
        methods[0].0.lexeme + " "@ + stmt_text(methods[0].1)
    } else {
        methods_text(methods, (n - 1) as nat) + " "@ + methods[n - 1].0.lexeme + " "@ + stmt_text(
            methods[n - 1].1,
        )
    }
}

/// The text of an optional expression; `absent` where there is none.
pub open spec fn optional_text(e: Option<ExprView>, absent: Seq<char>) -> Seq<char> {
    match e {
        Some(e) => expr_text(e),
        None => absent,
    }
}

/// The canonical text of a statement.
pub open spec fn stmt_text(s: StmtView) -> Seq<char>
    decreases s, 0nat,
{
    match s {
        StmtView::Expression(e) => expr_text(e),
        StmtView::Print(e) => "(print "@ + expr_text(e) + ")"@,
        StmtView::Var { name, initializer } => match initializer {
            Some(e) => "(var "@ + name.lexeme + " = "@ + expr_text(e) + ")"@,
            None => "(var "@ + name.lexeme + ")"@,
        },
        StmtView::Block(stmts) => "(block "@ + statements_text(stmts, stmts.len(), " "@) + ")"@,
        StmtView::While(condition, body) => "(while "@ + expr_text(condition) + " "@ + stmt_text(
            *body,
        ) + ")"@,
        StmtView::For { initializer, condition, increment, body } => "(for "@ + (match initializer {
            Some(i) => stmt_text(*i),
            None => Seq::empty(),
        }) + " "@ + optional_text(condition, "true"@) + " "@ + optional_text(
            increment,
            Seq::empty(),
        ) + " "@ + stmt_text(*body) + ")"@,
        StmtView::If { condition, then_branch, else_branch } => "(if "@ + expr_text(*condition)
            + " "@ + stmt_text(*then_branch) + (match else_branch {
            Some(e) => " else "@ + stmt_text(*e),
            None => Seq::empty(),
        }) + ")"@,
        StmtView::Function(f) => "(fun "@ + f.name.lexeme + " ("@ + names_text(
            f.params,
            f.params.len(),
        ) + ") "@ + statements_text(f.body, f.body.len(), " "@) + ")"@,
        StmtView::Return { keyword, value } => match value {
            Some(e) => "(return "@ + expr_text(e) + ")"@,
            None => "(return)"@,
        },
        StmtView::Class { name, methods } => "(class "@ + name.lexeme + " { "@ + methods_text(
            methods,
            methods.len(),
        ) + " })"@,
    }
}

/// The canonical text of a program: one line for each statement.
pub open spec fn program_text(stmts: Seq<StmtView>) -> Seq<char> {
    statements_text(stmts, stmts.len(), "\n"@)
}

/// Writes syntax trees in canonical form.
pub struct AstPrinter;

fn write_literal(value: &LiteralValue, out: &mut Vec<char>)
    ensures
        final(out)@ == old(out)@ + literal_text(value@),
{
    push_text(out, value.to_string().as_str());
}

#[verifier::loop_isolation(false)]
fn write_expr(e: &Expr, out: &mut Vec<char>)
    ensures
        final(out)@ == old(out)@ + expr_text(e@),
    decreases e,
{
    match e {
        Expr::Binary { left, operator, right } => {
            push_text(out, "(");
            push_text(out, operator.lexeme.as_str());
            push_text(out, " ");
            write_expr(left, out);
            push_text(out, " ");
            write_expr(right, out);
            push_text(out, ")");
            assert(out@ =~= old(out)@ + expr_text(e@));
        },
        Expr::Grouping { expression } => {
            push_text(out, "(group ");
            write_expr(expression, out);
            push_text(out, ")");
            assert(out@ =~= old(out)@ + expr_text(e@));
        },
        Expr::Literal { value } => write_literal(value, out),
        Expr::Variable { name } => push_text(out, name.lexeme.as_str()),
        Expr::Unary { operator, operand } => {
            push_text(out, "(");
            push_text(out, operator.lexeme.as_str());
            push_text(out, " ");
            write_expr(operand, out);
            push_text(out, ")");
            assert(out@ =~= old(out)@ + expr_text(e@));
        },
        Expr::Assign { name, value } => {
            push_text(out, "(assign ");
            push_text(out, name.lexeme.as_str());
            push_text(out, " ");
            write_expr(value, out);
            push_text(out, ")");
            assert(out@ =~= old(out)@ + expr_text(e@));
        },
        Expr::Call { callee, arguments } => {
            push_text(out, "(call ");
            write_expr(callee, out);
            push_text(out, " ");
            let ghost head = out@;
            let ghost args = exprs_view(arguments@);
            let mut i: usize = 0;
            assert(out@ =~= head + arguments_text(args, 0));
            while i < arguments.len()
                invariant
                    i <= arguments.len(),
                    out@ == head + arguments_text(args, i as nat),
                decreases arguments.len() - i,
            {
                if i > 0 {
                    push_text(out, ", ");
                }
                write_expr(&arguments[i], out);
                i += 1;
                assert(out@ =~= head + arguments_text(args, i as nat));
            }
            push_text(out, ")");
            assert(out@ =~= old(out)@ + expr_text(e@));
        },
        Expr::Get { object, name } => {
            push_text(out, "(get ");
            write_expr(object, out);
            push_text(out, ".");
            push_text(out, name.lexeme.as_str());
            push_text(out, ")");
            assert(out@ =~= old(out)@ + expr_text(e@));
        },
        Expr::SetProperty { object, name, value } => {
            push_text(out, "(set ");
            write_expr(object, out);
            push_text(out, ".");
            push_text(out, name.lexeme.as_str());
            push_text(out, " = ");
            write_expr(value, out);
            push_text(out, ")");
            assert(out@ =~= old(out)@ + expr_text(e@));
        },
    }
}

fn write_names(tokens: &Vec<Token>, out: &mut Vec<char>)
    ensures
        final(out)@ == old(out)@ + names_text(tokens_view(tokens@), tokens.len() as nat),
{
    let ghost names = tokens_view(tokens@);
    let mut i: usize = 0;
    assert(out@ =~= old(out)@ + names_text(names, 0));
    while i < tokens.len()
        invariant
            i <= tokens.len(),
            names == tokens_view(tokens@),
            out@ == old(out)@ + names_text(names, i as nat),
        decreases tokens.len() - i,
    {
        if i > 0 {
            push_text(out, ", ");
        }
        push_text(out, tokens[i].lexeme.as_str());
        i += 1;
        assert(out@ =~= old(out)@ + names_text(names, i as nat));
    }
}

#[verifier::loop_isolation(false)]
fn write_statements(stmts: &Vec<Stmt>, separator: &str, out: &mut Vec<char>)
    ensures
        final(out)@ == old(out)@ + statements_text(
            stmts_view(stmts@),
            stmts.len() as nat,
            separator@,
        ),
    decreases stmts, 0nat,
{
    let ghost list = stmts_view(stmts@);
    let mut i: usize = 0;
    assert(out@ =~= old(out)@ + statements_text(list, 0, separator@));
    while i < stmts.len()
        invariant
            i <= stmts.len(),
            out@ == old(out)@ + statements_text(list, i as nat, separator@),
        decreases stmts.len() - i,
    {
        if i > 0 {
            push_text(out, separator);
        }
        write_stmt(&stmts[i], out);
        i += 1;
        assert(out@ =~= old(out)@ + statements_text(list, i as nat, separator@));
    }
}

fn write_optional(e: &Option<Expr>, absent: &str, out: &mut Vec<char>)
    ensures
        final(out)@ == old(out)@ + optional_text(
            match e {
                Some(e) => Some(e@),
                None => None,
            },
            absent@,
        ),
{
    match e {
        Some(e) => write_expr(e, out),
        None => push_text(out, absent),
    }
}

fn write_leaf(s: &Stmt, out: &mut Vec<char>)
    requires
        s is Expression || s is Print || s is Var || s is Return,
    ensures
        final(out)@ == old(out)@ + stmt_text(s@),
{
    match s {
        Stmt::Expression(e) => write_expr(e, out),
        Stmt::Print(e) => {
            push_text(out, "(print ");
            write_expr(e, out);
            push_text(out, ")");
            assert(out@ =~= old(out)@ + stmt_text(s@));
        },
        Stmt::Var { name, initializer } => {
            push_text(out, "(var ");
            push_text(out, name.lexeme.as_str());
            match initializer {
                Some(e) => {
                    push_text(out, " = ");
                    write_expr(e, out);
                },
                None => {},
            }
            push_text(out, ")");
            assert(out@ =~= old(out)@ + stmt_text(s@));
        },
        Stmt::Return { keyword, value } => {
            match value {
                Some(e) => {
                    push_text(out, "(return ");
                    write_expr(e, out);
                    push_text(out, ")");
                },
                None => push_text(out, "(return)"),
            }
            assert(out@ =~= old(out)@ + stmt_text(s@));
        },
        _ => {},
    }
}

/// Appending in two steps what can be appended in one.
proof fn append_twice(base: Seq<char>, first: Seq<char>, second: Seq<char>)
    ensures
        (base + first) + second == base + (first + second),
{
    assert((base + first) + second =~= base + (first + second));
}

fn write_for(s: &Stmt, out: &mut Vec<char>)
    requires
        s is For,
    ensures
        final(out)@ == old(out)@ + stmt_text(s@),
    decreases s, 0nat,
{
    proof {
        reveal_strlit("");
    }
    let ghost base = out@;
    match s {
        Stmt::For { initializer, condition, increment, body } => {
            push_text(out, "(for ");
            let ghost t1 = "(for "@;
            let ghost first = match initializer {
                Some(i) => stmt_text((**i)@),
                None => Seq::empty(),
            };
            match initializer {
                Some(i) => write_stmt(i, out),
                None => {
                    assert(out@ =~= out@ + Seq::<char>::empty());
                },
            }
            let ghost t2 = t1 + first;
            proof {
                append_twice(base, t1, first);
            }
            push_text(out, " ");
            let ghost t3 = t2 + " "@;
            proof {
                append_twice(base, t2, " "@);
            }
            write_optional(condition, "true", out);
            let ghost t4 = t3 + optional_text(s@->For_condition, "true"@);
            proof {
                append_twice(base, t3, optional_text(s@->For_condition, "true"@));
            }
            push_text(out, " ");
            let ghost t5 = t4 + " "@;
            proof {
                append_twice(base, t4, " "@);
            }
            write_optional(increment, "", out);
            let ghost t6 = t5 + optional_text(s@->For_increment, Seq::empty());
            proof {
                append_twice(base, t5, optional_text(s@->For_increment, Seq::empty()));
            }
            push_text(out, " ");
            let ghost t7 = t6 + " "@;
            proof {
                append_twice(base, t6, " "@);
            }
            write_stmt(body, out);
            let ghost t8 = t7 + stmt_text((**body)@);
            proof {
                append_twice(base, t7, stmt_text((**body)@));
            }
            push_text(out, ")");
            proof {
                append_twice(base, t8, ")"@);
                assert(out@ == base + (t8 + ")"@));
                assert(t8 + ")"@ == stmt_text(s@));
            }
        },
        _ => {},
    }
}

fn write_if(s: &Stmt, out: &mut Vec<char>)
    requires
        s is If,
    ensures
        final(out)@ == old(out)@ + stmt_text(s@),
    decreases s, 0nat,
{
    match s {
        Stmt::If { condition, then_branch, else_branch } => {
            push_text(out, "(if ");
            write_expr(condition, out);
            push_text(out, " ");
            write_stmt(then_branch, out);
            match else_branch {
                Some(e) => {
                    push_text(out, " else ");
                    write_stmt(e, out);
                },
                None => {},
            }
            push_text(out, ")");
            assert(out@ =~= old(out)@ + stmt_text(s@));
        },
        _ => {},
    }
}

fn write_function(s: &Stmt, out: &mut Vec<char>)
    requires
        s is Function,
    ensures
        final(out)@ == old(out)@ + stmt_text(s@),
    decreases s, 0nat,
{
    match s {
        Stmt::Function(f) => {
            let ghost content = (**f)@;
            assert(s@ == StmtView::Function(content));
            assert(content.params.len() == f.params.len());
            assert(content.body.len() == f.body.len());
            push_text(out, "(fun ");
            push_text(out, f.name.lexeme.as_str());
            push_text(out, " (");
            write_names(&f.params, out);
            push_text(out, ") ");
            write_statements(&f.body, " ", out);
            push_text(out, ")");
            assert(out@ =~= old(out)@ + stmt_text(s@));
        },
        _ => {},
    }
}

#[verifier::loop_isolation(false)]
fn write_class(s: &Stmt, out: &mut Vec<char>)
    requires
        s is Class,
    ensures
        final(out)@ == old(out)@ + stmt_text(s@),
    decreases s, 0nat,
{
    match s {
        Stmt::Class { name, methods } => {
            push_text(out, "(class ");
            push_text(out, name.lexeme.as_str());
            push_text(out, " { ");
            let ghost head = out@;
            let ghost list = methods_view(methods@);
            let mut i: usize = 0;
            assert(out@ =~= head + methods_text(list, 0));
            while i < methods.len()
                invariant
                    i <= methods.len(),
                    out@ == head + methods_text(list, i as nat),
                decreases methods.len() - i,
            {
                if i > 0 {
                    push_text(out, " ");
                }
                push_text(out, methods[i].0.lexeme.as_str());
                push_text(out, " ");
                write_stmt(&methods[i].1, out);
                i += 1;
                assert(out@ =~= head + methods_text(list, i as nat));
            }
            push_text(out, " })");
            assert(out@ =~= old(out)@ + stmt_text(s@));
        },
        _ => {},
    }
}

fn write_stmt(s: &Stmt, out: &mut Vec<char>)
    ensures
        final(out)@ == old(out)@ + stmt_text(s@),
    decreases s, 1nat,
{
    match s {
        Stmt::Block(stmts) => {
            push_text(out, "(block ");
            write_statements(stmts, " ", out);
            push_text(out, ")");
            assert(out@ =~= old(out)@ + stmt_text(s@));
        },
        Stmt::While(condition, body) => {
            push_text(out, "(while ");
            write_expr(condition, out);
            push_text(out, " ");
            write_stmt(body, out);
            push_text(out, ")");
            assert(out@ =~= old(out)@ + stmt_text(s@));
        },
        Stmt::For { .. } => write_for(s, out),
        Stmt::If { .. } => write_if(s, out),
        Stmt::Function(_) => write_function(s, out),
        Stmt::Class { .. } => write_class(s, out),
        _ => write_leaf(s, out),
    }
}

/// What a visitor is shown: a node, by the content of its parts.
pub enum Visit {
    Binary(ExprView, TokenView, ExprView),
    Literal(LiteralView),
    Grouping(ExprView),
    Variable(TokenView),
    Unary(TokenView, ExprView),
    Assign(TokenView, ExprView),
    Call(ExprView, Seq<ExprView>),
    Get(ExprView, TokenView),
    SetProperty(ExprView, TokenView, ExprView),
    This(TokenView),
    Super(TokenView, TokenView),
    Expression(ExprView),
    Print(ExprView),
    Var(TokenView, Option<ExprView>),
    Block(Seq<StmtView>),
    While(ExprView, StmtView),
    For(Option<Box<StmtView>>, Option<ExprView>, Option<ExprView>, StmtView),
    If(ExprView, StmtView, Option<Box<StmtView>>),
    Function(TokenView, Seq<TokenView>, Seq<StmtView>),
    Return(TokenView, Option<ExprView>),
    Class(TokenView, Seq<(TokenView, StmtView)>),
}

/// The content of an optional boxed statement.
pub open spec fn option_stmt_view(s: Option<Box<Stmt>>) -> Option<Box<StmtView>> {
    match s {
        Some(s) => Some(Box::new((*s)@)),
        None => None,
    }
}

/// A visitor of syntax trees: one method for each kind of node, which
/// gets the parts of the node and gives a result of type `R`. What a
/// visitor does with a node is its own affair: `visits` says it.
pub trait Visitor<R>: Sized {
    /// What the visitor does when it is shown a node: how it changes, and
    /// what it gives. Nothing is said of a visitor that does not say it.
    open spec fn visits(before: Self, visit: Visit, after: Self, result: R) -> bool {
        true
    }

    fn visit_binary(&mut self, left: &Expr, operator: &Token, right: &Expr) -> (r: R)
        ensures
            Self::visits(*old(self), Visit::Binary(left@, operator@, right@), *final(self), r),
    ;

    fn visit_literal(&mut self, value: &LiteralValue) -> (r: R)
        ensures
            Self::visits(*old(self), Visit::Literal(value@), *final(self), r),
    ;

    fn visit_grouping(&mut self, expression: &Expr) -> (r: R)
        ensures
            Self::visits(*old(self), Visit::Grouping(expression@), *final(self), r),
    ;

    fn visit_variable(&mut self, name: &Token) -> (r: R)
        ensures
            Self::visits(*old(self), Visit::Variable(name@), *final(self), r),
    ;

    fn visit_unary(&mut self, operator: &Token, operand: &Expr) -> (r: R)
        ensures
            Self::visits(*old(self), Visit::Unary(operator@, operand@), *final(self), r),
    ;

    fn visit_assign(&mut self, name: &Token, value: &Expr) -> (r: R)
        ensures
            Self::visits(*old(self), Visit::Assign(name@, value@), *final(self), r),
    ;

    fn visit_call(&mut self, callee: &Expr, arguments: &[Expr]) -> (r: R)
        ensures
            Self::visits(
                *old(self),
                Visit::Call(callee@, exprs_view(arguments@)),
                *final(self),
                r,
            ),
    ;

    fn visit_get(&mut self, object: &Expr, name: &Token) -> (r: R)
        ensures
            Self::visits(*old(self), Visit::Get(object@, name@), *final(self), r),
    ;

    fn visit_set(&mut self, object: &Expr, name: &Token, value: &Expr) -> (r: R)
        ensures
            Self::visits(
                *old(self),
                Visit::SetProperty(object@, name@, value@),
                *final(self),
                r,
            ),
    ;

    fn visit_this(&mut self, keyword: &Token) -> (r: R)
        ensures
            Self::visits(*old(self), Visit::This(keyword@), *final(self), r),
    ;

    fn visit_super(&mut self, keyword: &Token, method: &Token) -> (r: R)
        ensures
            Self::visits(*old(self), Visit::Super(keyword@, method@), *final(self), r),
    ;

    fn visit_expression(&mut self, expr: &Expr) -> (r: R)
        ensures
            Self::visits(*old(self), Visit::Expression(expr@), *final(self), r),
    ;

    fn visit_print(&mut self, expr: &Expr) -> (r: R)
        ensures
            Self::visits(*old(self), Visit::Print(expr@), *final(self), r),
    ;

    fn visit_var(&mut self, name: &Token, initializer: &Option<Expr>) -> (r: R)
        ensures
            Self::visits(
                *old(self),
                Visit::Var(name@, option_expr_view(*initializer)),
                *final(self),
                r,
            ),
    ;

    fn visit_block(&mut self, statements: &[Stmt]) -> (r: R)
        ensures
            Self::visits(*old(self), Visit::Block(stmts_view(statements@)), *final(self), r),
    ;

    fn visit_while(&mut self, condition: &Expr, body: &Stmt) -> (r: R)
        ensures
            Self::visits(*old(self), Visit::While(condition@, body@), *final(self), r),
    ;

    fn visit_for(
        &mut self,
        initializer: &Option<Box<Stmt>>,
        condition: &Option<Expr>,
        increment: &Option<Expr>,
        body: &Stmt,
    ) -> (r: R)
        ensures
            Self::visits(
                *old(self),
                Visit::For(
                    option_stmt_view(*initializer),
                    option_expr_view(*condition),
                    option_expr_view(*increment),
                    body@,
                ),
                *final(self),
                r,
            ),
    ;

    fn visit_if(
        &mut self,
        condition: &Expr,
        then_branch: &Stmt,
        else_branch: &Option<Box<Stmt>>,
    ) -> (r: R)
        ensures
            Self::visits(
                *old(self),
                Visit::If(condition@, then_branch@, option_stmt_view(*else_branch)),
                *final(self),
                r,
            ),
    ;

    fn visit_function(&mut self, name: &Token, params: &[Token], body: &[Stmt]) -> (r: R)
        ensures
            Self::visits(
                *old(self),
                Visit::Function(name@, tokens_view(params@), stmts_view(body@)),
                *final(self),
                r,
            ),
    ;

    fn visit_return(&mut self, keyword: &Token, value: &Option<Expr>) -> (r: R)
        ensures
            Self::visits(
                *old(self),
                Visit::Return(keyword@, option_expr_view(*value)),
                *final(self),
                r,
            ),
    ;

    fn visit_class(&mut self, name: &Token, methods: &[(Token, Stmt)]) -> (r: R)
        ensures
            Self::visits(
                *old(self),
                Visit::Class(name@, methods_view(methods@)),
                *final(self),
                r,
            ),
    ;
}

/// The visit that shows an expression.
pub open spec fn expr_visit(e: ExprView) -> Visit {
    match e {
        ExprView::Binary { left, operator, right } => Visit::Binary(*left, operator, *right),
        ExprView::Literal { value } => Visit::Literal(value),
        ExprView::Grouping { expression } => Visit::Grouping(*expression),
        ExprView::Variable { name } => Visit::Variable(name),
        ExprView::Unary { operator, operand } => Visit::Unary(operator, *operand),
        ExprView::Assign { name, value } => Visit::Assign(name, *value),
        ExprView::Call { callee, arguments } => Visit::Call(*callee, arguments),
        ExprView::Get { object, name } => Visit::Get(*object, name),
        ExprView::SetProperty { object, name, value } => Visit::SetProperty(*object, name, *value),
    }
}

/// The visit that shows a statement.
pub open spec fn stmt_visit(s: StmtView) -> Visit {
    match s {
        StmtView::Expression(e) => Visit::Expression(e),
        StmtView::Print(e) => Visit::Print(e),
        StmtView::Var { name, initializer } => Visit::Var(name, initializer),
        StmtView::Block(stmts) => Visit::Block(stmts),
        StmtView::While(condition, body) => Visit::While(condition, *body),
        StmtView::For { initializer, condition, increment, body } => Visit::For(
            initializer,
            condition,
            increment,
            *body,
        ),
        StmtView::If { condition, then_branch, else_branch } => Visit::If(
            *condition,
            *then_branch,
            else_branch,
        ),
        StmtView::Function(f) => Visit::Function(f.name, f.params, f.body),
        StmtView::Return { keyword, value } => Visit::Return(keyword, value),
        StmtView::Class { name, methods } => Visit::Class(name, methods),
    }
}

/// The canonical text of the node that a visit shows.
pub open spec fn visit_text(visit: Visit) -> Seq<char> {
    match visit {
        Visit::Binary(left, operator, right) => expr_text(
            ExprView::Binary { left: Box::new(left), operator, right: Box::new(right) },
        ),
        Visit::Literal(value) => literal_text(value),
        Visit::Grouping(expression) => expr_text(
            ExprView::Grouping { expression: Box::new(expression) },
        ),
        Visit::Variable(name) => name.lexeme,
        Visit::Unary(operator, operand) => expr_text(
            ExprView::Unary { operator, operand: Box::new(operand) },
        ),
        Visit::Assign(name, value) => expr_text(ExprView::Assign { name, value: Box::new(value) }),
        Visit::Call(callee, arguments) => expr_text(
            ExprView::Call { callee: Box::new(callee), arguments },
        ),
        Visit::Get(object, name) => expr_text(ExprView::Get { object: Box::new(object), name }),
        Visit::SetProperty(object, name, value) => expr_text(
            ExprView::SetProperty { object: Box::new(object), name, value: Box::new(value) },
        ),
        Visit::This(keyword) => "(this "@ + keyword.lexeme + ")"@,
        Visit::Super(keyword, method) => "(super "@ + keyword.lexeme + "."@ + method.lexeme + ")"@,
        Visit::Expression(e) => stmt_text(StmtView::Expression(e)),
        Visit::Print(e) => stmt_text(StmtView::Print(e)),
        Visit::Var(name, initializer) => stmt_text(StmtView::Var { name, initializer }),
        Visit::Block(stmts) => stmt_text(StmtView::Block(stmts)),
        Visit::While(condition, body) => stmt_text(StmtView::While(condition, Box::new(body))),
        Visit::For(initializer, condition, increment, body) => stmt_text(
            StmtView::For { initializer, condition, increment, body: Box::new(body) },
        ),
        Visit::If(condition, then_branch, else_branch) => stmt_text(
            StmtView::If {
                condition: Box::new(condition),
                then_branch: Box::new(then_branch),
                else_branch,
            },
        ),
        Visit::Function(name, params, body) => stmt_text(
            StmtView::Function(FunctionView { name, params, body }),
        ),
        Visit::Return(keyword, value) => stmt_text(StmtView::Return { keyword, value }),
        Visit::Class(name, methods) => stmt_text(StmtView::Class { name, methods }),
    }
}

/// The text of a list of expressions, with `, ` between them.
fn write_arguments(arguments: &[Expr], out: &mut Vec<char>)
    ensures
        final(out)@ == old(out)@ + arguments_text(exprs_view(arguments@), arguments@.len()),
{
    let ghost args = exprs_view(arguments@);
    let mut i: usize = 0;
    assert(out@ =~= old(out)@ + arguments_text(args, 0));
    while i < arguments.len()
        invariant
            i <= arguments.len(),
            args == exprs_view(arguments@),
            out@ == old(out)@ + arguments_text(args, i as nat),
        decreases arguments.len() - i,
    {
        if i > 0 {
            push_text(out, ", ");
        }
        write_expr(&arguments[i], out);
        i += 1;
        assert(out@ =~= old(out)@ + arguments_text(args, i as nat));
    }
}

/// The text of a list of statements, with a space between them.
fn write_body(stmts: &[Stmt], out: &mut Vec<char>)
    ensures
        final(out)@ == old(out)@ + statements_text(stmts_view(stmts@), stmts@.len(), " "@),
{
    let ghost list = stmts_view(stmts@);
    let mut i: usize = 0;
    assert(out@ =~= old(out)@ + statements_text(list, 0, " "@));
    while i < stmts.len()
        invariant
            i <= stmts.len(),
            list == stmts_view(stmts@),
            out@ == old(out)@ + statements_text(list, i as nat, " "@),
        decreases stmts.len() - i,
    {
        if i > 0 {
            push_text(out, " ");
        }
        write_stmt(&stmts[i], out);
        i += 1;
        assert(out@ =~= old(out)@ + statements_text(list, i as nat, " "@));
    }
}

/// The lexemes of a list of tokens, with `, ` between them.
fn write_parameters(tokens: &[Token], out: &mut Vec<char>)
    ensures
        final(out)@ == old(out)@ + names_text(tokens_view(tokens@), tokens@.len()),
{
    let ghost names = tokens_view(tokens@);
    let mut i: usize = 0;
    assert(out@ =~= old(out)@ + names_text(names, 0));
    while i < tokens.len()
        invariant
            i <= tokens.len(),
            names == tokens_view(tokens@),
            out@ == old(out)@ + names_text(names, i as nat),
        decreases tokens.len() - i,
    {
        if i > 0 {
            push_text(out, ", ");
        }
        push_text(out, tokens[i].lexeme.as_str());
        i += 1;
        assert(out@ =~= old(out)@ + names_text(names, i as nat));
    }
}

/// The texts of the methods of a class, each after its name.
fn write_methods(methods: &[(Token, Stmt)], out: &mut Vec<char>)
    ensures
        final(out)@ == old(out)@ + methods_text(methods_view(methods@), methods@.len()),
{
    let ghost list = methods_view(methods@);
    let mut i: usize = 0;
    assert(out@ =~= old(out)@ + methods_text(list, 0));
    while i < methods.len()
        invariant
            i <= methods.len(),
            list == methods_view(methods@),
            out@ == old(out)@ + methods_text(list, i as nat),
        decreases methods.len() - i,
    {
        if i > 0 {
            push_text(out, " ");
        }
        push_text(out, methods[i].0.lexeme.as_str());
        push_text(out, " ");
        write_stmt(&methods[i].1, out);
        i += 1;
        assert(out@ =~= old(out)@ + methods_text(list, i as nat));
    }
}

fn finish(out: &Vec<char>) -> (r: String)
    ensures
        r@ == out@,
{
    string_of(out)
}

impl Visitor<String> for AstPrinter {
    /// The printer gives the canonical text of the node it is shown.
    open spec fn visits(before: Self, visit: Visit, after: Self, result: String) -> bool {
        result@ == visit_text(visit)
    }

    fn visit_binary(&mut self, left: &Expr, operator: &Token, right: &Expr) -> (r: String) {
        let mut out: Vec<char> = Vec::new();
        push_text(&mut out, "(");
        push_text(&mut out, operator.lexeme.as_str());
        push_text(&mut out, " ");
        write_expr(left, &mut out);
        push_text(&mut out, " ");
        write_expr(right, &mut out);
        push_text(&mut out, ")");
        assert(out@ =~= visit_text(Visit::Binary(left@, operator@, right@)));
        finish(&out)
    }

    fn visit_literal(&mut self, value: &LiteralValue) -> (r: String) {
        let mut out: Vec<char> = Vec::new();
        write_literal(value, &mut out);
        assert(out@ =~= literal_text(value@));
        finish(&out)
    }

    fn visit_grouping(&mut self, expression: &Expr) -> (r: String) {
        let mut out: Vec<char> = Vec::new();
        push_text(&mut out, "(group ");
        write_expr(expression, &mut out);
        push_text(&mut out, ")");
        assert(out@ =~= visit_text(Visit::Grouping(expression@)));
        finish(&out)
    }

    fn visit_variable(&mut self, name: &Token) -> (r: String) {
        name.lexeme.clone()
    }

    fn visit_unary(&mut self, operator: &Token, operand: &Expr) -> (r: String) {
        let mut out: Vec<char> = Vec::new();
        push_text(&mut out, "(");
        push_text(&mut out, operator.lexeme.as_str());
        push_text(&mut out, " ");
        write_expr(operand, &mut out);
        push_text(&mut out, ")");
        assert(out@ =~= visit_text(Visit::Unary(operator@, operand@)));
        finish(&out)
    }

    fn visit_assign(&mut self, name: &Token, value: &Expr) -> (r: String) {
        let mut out: Vec<char> = Vec::new();
        push_text(&mut out, "(assign ");
        push_text(&mut out, name.lexeme.as_str());
        push_text(&mut out, " ");
        write_expr(value, &mut out);
        push_text(&mut out, ")");
        assert(out@ =~= visit_text(Visit::Assign(name@, value@)));
        finish(&out)
    }

    fn visit_call(&mut self, callee: &Expr, arguments: &[Expr]) -> (r: String) {
        let mut out: Vec<char> = Vec::new();
        push_text(&mut out, "(call ");
        write_expr(callee, &mut out);
        push_text(&mut out, " ");
        write_arguments(arguments, &mut out);
        push_text(&mut out, ")");
        assert(exprs_view(arguments@).len() == arguments@.len());
        assert(out@ =~= visit_text(Visit::Call(callee@, exprs_view(arguments@))));
        finish(&out)
    }

    fn visit_get(&mut self, object: &Expr, name: &Token) -> (r: String) {
        let mut out: Vec<char> = Vec::new();
        push_text(&mut out, "(get ");
        write_expr(object, &mut out);
        push_text(&mut out, ".");
        push_text(&mut out, name.lexeme.as_str());
        push_text(&mut out, ")");
        assert(out@ =~= visit_text(Visit::Get(object@, name@)));
        finish(&out)
    }

    fn visit_set(&mut self, object: &Expr, name: &Token, value: &Expr) -> (r: String) {
        let mut out: Vec<char> = Vec::new();
        push_text(&mut out, "(set ");
        write_expr(object, &mut out);
        push_text(&mut out, ".");
        push_text(&mut out, name.lexeme.as_str());
        push_text(&mut out, " = ");
        write_expr(value, &mut out);
        push_text(&mut out, ")");
        assert(out@ =~= visit_text(Visit::SetProperty(object@, name@, value@)));
        finish(&out)
    }

    fn visit_this(&mut self, keyword: &Token) -> (r: String) {
        let mut out: Vec<char> = Vec::new();
        push_text(&mut out, "(this ");
        push_text(&mut out, keyword.lexeme.as_str());
        push_text(&mut out, ")");
        assert(out@ =~= visit_text(Visit::This(keyword@)));
        finish(&out)
    }

    fn visit_super(&mut self, keyword: &Token, method: &Token) -> (r: String) {
        let mut out: Vec<char> = Vec::new();
        push_text(&mut out, "(super ");
        push_text(&mut out, keyword.lexeme.as_str());
        push_text(&mut out, ".");
        push_text(&mut out, method.lexeme.as_str());
        push_text(&mut out, ")");
        assert(out@ =~= visit_text(Visit::Super(keyword@, method@)));
        finish(&out)
    }

    fn visit_expression(&mut self, expr: &Expr) -> (r: String) {
        let mut out: Vec<char> = Vec::new();
        write_expr(expr, &mut out);
        assert(out@ =~= expr_text(expr@));
        finish(&out)
    }

    fn visit_print(&mut self, expr: &Expr) -> (r: String) {
        let mut out: Vec<char> = Vec::new();
        push_text(&mut out, "(print ");
        write_expr(expr, &mut out);
        push_text(&mut out, ")");
        assert(out@ =~= visit_text(Visit::Print(expr@)));
        finish(&out)
    }

    fn visit_var(&mut self, name: &Token, initializer: &Option<Expr>) -> (r: String) {
        let mut out: Vec<char> = Vec::new();
        push_text(&mut out, "(var ");
        push_text(&mut out, name.lexeme.as_str());
        match initializer {
            Some(e) => {
                push_text(&mut out, " = ");
                write_expr(e, &mut out);
            },
            None => {},
        }
        push_text(&mut out, ")");
        assert(out@ =~= visit_text(Visit::Var(name@, option_expr_view(*initializer))));
        finish(&out)
    }

    fn visit_block(&mut self, statements: &[Stmt]) -> (r: String) {
        let mut out: Vec<char> = Vec::new();
        push_text(&mut out, "(block ");
        write_body(statements, &mut out);
        push_text(&mut out, ")");
        assert(stmts_view(statements@).len() == statements@.len());
        assert(out@ =~= visit_text(Visit::Block(stmts_view(statements@))));
        finish(&out)
    }

    fn visit_while(&mut self, condition: &Expr, body: &Stmt) -> (r: String) {
        let mut out: Vec<char> = Vec::new();
        push_text(&mut out, "(while ");
        write_expr(condition, &mut out);
        push_text(&mut out, " ");
        write_stmt(body, &mut out);
        push_text(&mut out, ")");
        assert(out@ =~= visit_text(Visit::While(condition@, body@)));
        finish(&out)
    }

    fn visit_for(
        &mut self,
        initializer: &Option<Box<Stmt>>,
        condition: &Option<Expr>,
        increment: &Option<Expr>,
        body: &Stmt,
    ) -> (r: String) {
        proof {
            reveal_strlit("");
        }
        let ghost visit = Visit::For(
            option_stmt_view(*initializer),
            option_expr_view(*condition),
            option_expr_view(*increment),
            body@,
        );
        let mut out: Vec<char> = Vec::new();
        push_text(&mut out, "(for ");
        match initializer {
            Some(i) => write_stmt(i, &mut out),
            None => {},
        }
        let ghost t1 = out@;
        push_text(&mut out, " ");
        write_optional(condition, "true", &mut out);
        let ghost t2 = out@;
        push_text(&mut out, " ");
        write_optional(increment, "", &mut out);
        let ghost t3 = out@;
        push_text(&mut out, " ");
        write_stmt(body, &mut out);
        push_text(&mut out, ")");
        assert(t1 =~= "(for "@ + (match option_stmt_view(*initializer) {
            Some(i) => stmt_text(*i),
            None => Seq::empty(),
        }));
        assert(t2 == t1 + " "@ + optional_text(option_expr_view(*condition), "true"@));
        assert(t3 == t2 + " "@ + optional_text(option_expr_view(*increment), Seq::empty()));
        assert(out@ == t3 + " "@ + stmt_text(body@) + ")"@);
        assert(out@ == visit_text(visit));
        finish(&out)
    }

    fn visit_if(
        &mut self,
        condition: &Expr,
        then_branch: &Stmt,
        else_branch: &Option<Box<Stmt>>,
    ) -> (r: String) {
        let mut out: Vec<char> = Vec::new();
        push_text(&mut out, "(if ");
        write_expr(condition, &mut out);
        push_text(&mut out, " ");
        write_stmt(then_branch, &mut out);
        match else_branch {
            Some(e) => {
                push_text(&mut out, " else ");
                write_stmt(e, &mut out);
            },
            None => {},
        }
        push_text(&mut out, ")");
        assert(out@ =~= visit_text(
            Visit::If(condition@, then_branch@, option_stmt_view(*else_branch)),
        ));
        finish(&out)
    }

    fn visit_function(&mut self, name: &Token, params: &[Token], body: &[Stmt]) -> (r: String) {
        let mut out: Vec<char> = Vec::new();
        push_text(&mut out, "(fun ");
        push_text(&mut out, name.lexeme.as_str());
        push_text(&mut out, " (");
        write_parameters(params, &mut out);
        push_text(&mut out, ") ");
        write_body(body, &mut out);
        push_text(&mut out, ")");
        assert(stmts_view(body@).len() == body@.len());
        assert(tokens_view(params@).len() == params@.len());
        assert(out@ =~= visit_text(
            Visit::Function(name@, tokens_view(params@), stmts_view(body@)),
        ));
        finish(&out)
    }

    fn visit_return(&mut self, keyword: &Token, value: &Option<Expr>) -> (r: String) {
        let mut out: Vec<char> = Vec::new();
        match value {
            Some(e) => {
                push_text(&mut out, "(return ");
                write_expr(e, &mut out);
                push_text(&mut out, ")");
            },
            None => push_text(&mut out, "(return)"),
        }
        assert(out@ =~= visit_text(Visit::Return(keyword@, option_expr_view(*value))));
        finish(&out)
    }

    fn visit_class(&mut self, name: &Token, methods: &[(Token, Stmt)]) -> (r: String) {
        let mut out: Vec<char> = Vec::new();
        push_text(&mut out, "(class ");
        push_text(&mut out, name.lexeme.as_str());
        push_text(&mut out, " { ");
        write_methods(methods, &mut out);
        push_text(&mut out, " })");
        assert(methods_view(methods@).len() == methods@.len());
        assert(out@ =~= visit_text(Visit::Class(name@, methods_view(methods@))));
        finish(&out)
    }
}

impl AstPrinter {
    /// The canonical text of an expression.
    pub fn print(&mut self, expr: &Expr) -> (r: String)
        ensures
            r@ == expr_text(expr@),
    {
        expr.accept(self)
    }

    /// The canonical text of a statement.
    pub fn print_statement(&mut self, stmt: &Stmt) -> (r: String)
        ensures
            r@ == stmt_text(stmt@),
    {
        stmt.accept(self)
    }

    /// The canonical text of a program: one line for each statement.
    pub fn print_program(&mut self, statements: &Vec<Stmt>) -> (r: String)
        ensures
            r@ == program_text(stmts_view(statements@)),
    {
        let mut out: Vec<char> = Vec::new();
        write_statements(statements, "\n", &mut out);
        assert(out@ =~= program_text(stmts_view(statements@)));
        string_of(&out)
    }
}

} // verus!
