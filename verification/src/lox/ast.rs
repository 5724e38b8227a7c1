//! The abstract syntax tree.
use crate::lox::printer::{expr_visit, stmt_visit, Visitor};
use crate::lox::token::{tokens_view, Token, TokenView};
use crate::lox::token_type::{LiteralValue, LiteralView};
use std::rc::Rc;
use vstd::prelude::*;

verus! {

/// An expression.
#[derive(Debug)]
#[allow(inconsistent_fields)]
pub enum Expr {
    Binary { left: Box<Expr>, operator: Token, right: Box<Expr> },
    Grouping { expression: Box<Expr> },
    Literal { value: LiteralValue },
    Variable { name: Token },
    Unary { operator: Token, operand: Box<Expr> },
    Assign { name: Token, value: Box<Expr> },
    Call { callee: Box<Expr>, arguments: Vec<Expr> },
    Get { object: Box<Expr>, name: Token },
    SetProperty { object: Box<Expr>, name: Token, value: Box<Expr> },
}

/// A function declaration: its name, its parameters and its body.
#[derive(Debug)]
pub struct FunctionDecl {
    pub name: Token,
    pub params: Vec<Token>,
    pub body: Vec<Stmt>,
}

/// A statement.
#[derive(Debug)]
#[allow(inconsistent_fields)]
pub enum Stmt {
    Expression(Expr),
    Print(Expr),
    Var { name: Token, initializer: Option<Expr> },
    Block(Vec<Stmt>),
    While(Expr, Box<Stmt>),
    For {
        initializer: Option<Box<Stmt>>,
        condition: Option<Expr>,
        increment: Option<Expr>,
        body: Box<Stmt>,
    },
    If { condition: Box<Expr>, then_branch: Box<Stmt>, else_branch: Option<Box<Stmt>> },
    /// A declaration is shared with the function values made from it.
    Function(Rc<FunctionDecl>),
    Return { keyword: Token, value: Option<Expr> },
    Class { name: Token, methods: Vec<(Token, Stmt)> },
}

/// The mathematical content of an `Expr`.
#[allow(inconsistent_fields)]
pub enum ExprView {
    Binary { left: Box<ExprView>, operator: TokenView, right: Box<ExprView> },
    Grouping { expression: Box<ExprView> },
    Literal { value: LiteralView },
    Variable { name: TokenView },
    Unary { operator: TokenView, operand: Box<ExprView> },
    Assign { name: TokenView, value: Box<ExprView> },
    Call { callee: Box<ExprView>, arguments: Seq<ExprView> },
    Get { object: Box<ExprView>, name: TokenView },
    SetProperty { object: Box<ExprView>, name: TokenView, value: Box<ExprView> },
}

/// The mathematical content of a `FunctionDecl`.
pub struct FunctionView {
    pub name: TokenView,
    pub params: Seq<TokenView>,
    pub body: Seq<StmtView>,
}

/// The mathematical content of a `Stmt`.
#[allow(inconsistent_fields)]
pub enum StmtView {
    Expression(ExprView),
    Print(ExprView),
    Var { name: TokenView, initializer: Option<ExprView> },
    Block(Seq<StmtView>),
    While(ExprView, Box<StmtView>),
    For {
        initializer: Option<Box<StmtView>>,
        condition: Option<ExprView>,
        increment: Option<ExprView>,
        body: Box<StmtView>,
    },
    If { condition: Box<ExprView>, then_branch: Box<StmtView>, else_branch: Option<Box<StmtView>> },
    Function(FunctionView),
    Return { keyword: TokenView, value: Option<ExprView> },
    Class { name: TokenView, methods: Seq<(TokenView, StmtView)> },
}

/// The contents of an expression list.
pub open spec fn exprs_view(exprs: Seq<Expr>) -> Seq<ExprView>
    decreases exprs,
{
    Seq::new(
        exprs.len(),
        |i: int|
            if 0 <= i < exprs.len() {
                expr_view(exprs[i])
            } else {
                arbitrary()
            },
    )
}

/// The content of an expression.
pub open spec fn expr_view(e: Expr) -> ExprView
    decreases e,
{
    match e {
        Expr::Binary { left, operator, right } => ExprView::Binary {
            left: Box::new(expr_view(*left)),
            operator: operator@,
            right: Box::new(expr_view(*right)),
        },
        Expr::Grouping { expression } => ExprView::Grouping {
            expression: Box::new(expr_view(*expression)),
        },
        Expr::Literal { value } => ExprView::Literal { value: value@ },
        Expr::Variable { name } => ExprView::Variable { name: name@ },
        Expr::Unary { operator, operand } => ExprView::Unary {
            operator: operator@,
            operand: Box::new(expr_view(*operand)),
        },
        Expr::Assign { name, value } => ExprView::Assign {
            name: name@,
            value: Box::new(expr_view(*value)),
        },
        Expr::Call { callee, arguments } => ExprView::Call {
            callee: Box::new(expr_view(*callee)),
            arguments: exprs_view(arguments@),
        },
        Expr::Get { object, name } => ExprView::Get {
            object: Box::new(expr_view(*object)),
            name: name@,
        },
        Expr::SetProperty { object, name, value } => ExprView::SetProperty {
            object: Box::new(expr_view(*object)),
            name: name@,
            value: Box::new(expr_view(*value)),
        },
    }
}

/// The content of an optional expression.
pub open spec fn option_expr_view(e: Option<Expr>) -> Option<ExprView> {
    match e {
        Some(e) => Some(expr_view(e)),
        None => None,
    }
}

/// The contents of a statement list.
pub open spec fn stmts_view(stmts: Seq<Stmt>) -> Seq<StmtView>
    decreases stmts,
{
    Seq::new(
        stmts.len(),
        |i: int|
            if 0 <= i < stmts.len() {
                stmt_view(stmts[i])
            } else {
                arbitrary()
            },
    )
}

/// The contents of the method list of a class.
pub open spec fn methods_view(methods: Seq<(Token, Stmt)>) -> Seq<(TokenView, StmtView)>
    decreases methods,
{
    Seq::new(
        methods.len(),
        |i: int|
            if 0 <= i < methods.len() {
                (methods[i].0@, stmt_view(methods[i].1))
            } else {
                arbitrary()
            },
    )
}

/// The content of a function declaration.
pub open spec fn function_view(f: FunctionDecl) -> FunctionView
    decreases f,
{
    FunctionView {
        name: f.name@,
        params: tokens_view(f.params@),
        body: stmts_view(f.body@),
    }
}

/// The content of a statement.
pub open spec fn stmt_view(s: Stmt) -> StmtView
    decreases s,
{
    match s {
        Stmt::Expression(e) => StmtView::Expression(expr_view(e)),
        Stmt::Print(e) => StmtView::Print(expr_view(e)),
        Stmt::Var { name, initializer } => StmtView::Var {
            name: name@,
            initializer: option_expr_view(initializer),
        },
        Stmt::Block(stmts) => StmtView::Block(stmts_view(stmts@)),
        Stmt::While(condition, body) => StmtView::While(
            expr_view(condition),
            Box::new(stmt_view(*body)),
        ),
        Stmt::For { initializer, condition, increment, body } => StmtView::For {
            initializer: match initializer {
                Some(i) => Some(Box::new(stmt_view(*i))),
                None => None,
            },
            condition: option_expr_view(condition),
            increment: option_expr_view(increment),
            body: Box::new(stmt_view(*body)),
        },
        Stmt::If { condition, then_branch, else_branch } => StmtView::If {
            condition: Box::new(expr_view(*condition)),
            then_branch: Box::new(stmt_view(*then_branch)),
            else_branch: match else_branch {
                Some(e) => Some(Box::new(stmt_view(*e))),
                None => None,
            },
        },
        Stmt::Function(f) => StmtView::Function(function_view(*f)),
        Stmt::Return { keyword, value } => StmtView::Return {
            keyword: keyword@,
            value: option_expr_view(value),
        },
        Stmt::Class { name, methods } => StmtView::Class {
            name: name@,
            methods: methods_view(methods@),
        },
    }
}

impl View for Expr {
    type V = ExprView;

    open spec fn view(&self) -> ExprView {
        expr_view(*self)
    }
}

impl View for Stmt {
    type V = StmtView;

    open spec fn view(&self) -> StmtView {
        stmt_view(*self)
    }
}

impl View for FunctionDecl {
    type V = FunctionView;

    open spec fn view(&self) -> FunctionView {
        function_view(*self)
    }
}


impl Expr {
    /// Shows the expression to a visitor: calls the method for its kind
    /// with its parts, and gives what the method gives.
    pub fn accept<R, V: Visitor<R>>(&self, visitor: &mut V) -> (r: R)
        ensures
            V::visits(*old(visitor), expr_visit(self@), *final(visitor), r),
    {
        match self {
            Expr::Binary { left, operator, right } => visitor.visit_binary(left, operator, right),
            Expr::Literal { value } => visitor.visit_literal(value),
            Expr::Grouping { expression } => visitor.visit_grouping(expression),
            Expr::Variable { name } => visitor.visit_variable(name),
            Expr::Unary { operator, operand } => visitor.visit_unary(operator, operand),
            Expr::Assign { name, value } => visitor.visit_assign(name, value),
            Expr::Call { callee, arguments } => visitor.visit_call(callee, arguments.as_slice()),
            Expr::Get { object, name } => visitor.visit_get(object, name),
            Expr::SetProperty { object, name, value } => visitor.visit_set(object, name, value),
        }
    }
}

impl Stmt {
    /// Shows the statement to a visitor: calls the method for its kind
    /// with its parts, and gives what the method gives.
    pub fn accept<R, V: Visitor<R>>(&self, visitor: &mut V) -> (r: R)
        ensures
            V::visits(*old(visitor), stmt_visit(self@), *final(visitor), r),
    {
        match self {
            Stmt::Expression(expr) => visitor.visit_expression(expr),
            Stmt::Print(expr) => visitor.visit_print(expr),
            Stmt::Var { name, initializer } => visitor.visit_var(name, initializer),
            Stmt::Block(statements) => visitor.visit_block(statements.as_slice()),
            Stmt::While(condition, body) => visitor.visit_while(condition, body),
            Stmt::For { initializer, condition, increment, body } => visitor.visit_for(
                initializer,
                condition,
                increment,
                body,
            ),
            Stmt::If { condition, then_branch, else_branch } => visitor.visit_if(
                condition,
                then_branch,
                else_branch,
            ),
            Stmt::Function(f) => {
                let ghost content = (**f)@;
                assert(self@ == StmtView::Function(content));
                assert(content == FunctionView {
                    name: f.name@,
                    params: tokens_view(f.params@),
                    body: stmts_view(f.body@),
                });
                visitor.visit_function(&f.name, f.params.as_slice(), f.body.as_slice())
            },
            Stmt::Return { keyword, value } => visitor.visit_return(keyword, value),
            Stmt::Class { name, methods } => visitor.visit_class(name, methods.as_slice()),
        }
    }
}

} // verus!
