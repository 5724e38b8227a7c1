//! Laws of the evaluator: what holds of every program in every state.
use crate::lox::ast::{ExprView, FunctionView, StmtView};
use crate::lox::error::LoxErrorView;
use crate::lox::evaluator::{
    begin_call, bind, call_value, end_call, eval_args, eval_expr, exec_list, exec_loop, exec_stmt,
    is_return, loop_condition, position, CallStart, EnvironmentView, EvalResultView, EvaluatorView,
    ScopeView, ValueView,
};
use crate::lox::evaluator::condition_text;
use crate::lox::number::{is_zero, quotient_bits, reads_back, shortest, Scientific};
use crate::lox::parser::{at_end, program};
use crate::lox::parser::{
    check, declaration, expression, fail, function, names, parameters, reached, statement,
    MAX_RECURSION_DEPTH,
};
use crate::lox::scanner::{
    comment_end, line_after, scan_from, slash, step_at, string_end, unterminated_text, Lexeme, Step,
};
use crate::lox::token::TokenView;
use crate::lox::token_type::{LiteralView, TokenType};
use vstd::prelude::*;

verus! {

/// What running code leaves of the scopes `a` in the scopes `b`: the same
/// scope is current; no scope is lost, moved or unpinned; only the current
/// scope may have new names, and it loses none.
pub open spec fn keeps(a: EnvironmentView, b: EnvironmentView) -> bool {
    &&& b.wf()
    &&& b.current == a.current
    &&& b.pinned >= a.pinned
    &&& b.scopes.len() >= a.scopes.len()
    &&& forall|i: int|
        0 <= i < a.scopes.len() ==> (#[trigger] b.scopes[i]).enclosing == a.scopes[i].enclosing
    &&& forall|i: int, x: Seq<char>|
        0 <= i < a.scopes.len() && i != a.current ==> (#[trigger] b.scopes[i].binds(x))
            == a.scopes[i].binds(x)
    &&& forall|x: Seq<char>|
        a.scopes[a.current as int].binds(x) ==> #[trigger] b.scopes[a.current as int].binds(x)
}

/// Scopes keep themselves.
pub proof fn keeps_itself(a: EnvironmentView)
    requires
        a.wf(),
    ensures
        keeps(a, a),
{
}

/// What is kept in two steps is kept.
pub proof fn keeps_chain(a: EnvironmentView, b: EnvironmentView, c: EnvironmentView)
    requires
        a.wf(),
        keeps(a, b),
        keeps(b, c),
    ensures
        keeps(a, c),
{
    assert forall|i: int| 0 <= i < a.scopes.len() implies (#[trigger] c.scopes[i]).enclosing
        == a.scopes[i].enclosing by {
        assert(b.scopes[i].enclosing == a.scopes[i].enclosing);
    }
    assert forall|i: int, x: Seq<char>| 0 <= i < a.scopes.len() && i != a.current implies (
    #[trigger] c.scopes[i].binds(x)) == a.scopes[i].binds(x) by {
        assert(b.scopes[i].binds(x) == a.scopes[i].binds(x));
    }
    assert forall|x: Seq<char>| a.scopes[a.current as int].binds(x) implies #[trigger] c.scopes[a.current as int].binds(
        x,
    ) by {
        assert(b.scopes[a.current as int].binds(x));
    }
}

/// A new binding in the current scope hides none that was there.
pub proof fn define_keeps(a: EnvironmentView, name: Seq<char>, value: ValueView)
    requires
        a.wf(),
    ensures
        keeps(a, a.define(name, value)),
{
    let b = a.define(name, value);
    let scope = a.scopes[a.current as int];
    assert(b.scopes[a.current as int] == scope.define(name, value));
    assert forall|x: Seq<char>| scope.binds(x) implies #[trigger] b.scopes[a.current as int].binds(
        x,
    ) by {
        assert(scope.names.push(name).drop_last() =~= scope.names);
    }
    assert forall|i: int| 0 <= i < b.scopes.len() implies (#[trigger] b.scopes[i]).wf() by {
        if i != a.current {
            assert(b.scopes[i] == a.scopes[i]);
        }
    }
    assert forall|i: int| 0 <= i < b.scopes.len() implies (match (#[trigger] b.scopes[i]).enclosing {
        Some(p) => p < i,
        None => true,
    }) by {
        assert(b.scopes[i].enclosing == a.scopes[i].enclosing);
    }
}

/// An assignment changes no name of any scope.
pub proof fn assign_keeps(a: EnvironmentView, name: Seq<char>, value: ValueView)
    requires
        a.wf(),
        a.assign(name, value) is Some,
    ensures
        keeps(a, a.assign(name, value).unwrap()),
{
    let b = a.assign(name, value).unwrap();
    crate::lox::evaluator::holder_in_range(a, a.current, name);
    let s = a.holder(a.current, name).unwrap() as int;
    crate::lox::evaluator::position_in_range(a.scopes[s].names, name);
    assert(b.scopes[s] == a.scopes[s].assign(name, value));
    assert forall|i: int| 0 <= i < b.scopes.len() implies (#[trigger] b.scopes[i]).wf() && (
    match b.scopes[i].enclosing {
        Some(p) => p < i,
        None => true,
    }) by {
        if i != s {
            assert(b.scopes[i] == a.scopes[i]);
        } else {
            assert(a.scopes[s].wf());
        }
        assert(b.scopes[i].enclosing == a.scopes[i].enclosing);
    }
    assert forall|i: int, x: Seq<char>| 0 <= i < a.scopes.len() implies (#[trigger] b.scopes[i].binds(
        x,
    )) == a.scopes[i].binds(x) by {
        assert(b.scopes[i].names == a.scopes[i].names);
    }
}

/// What code leaves that ran in a new scope, once that scope is left and
/// the old scope is current again.
pub proof fn scoped_keeps(a: EnvironmentView, parent: nat, c: EnvironmentView)
    requires
        a.wf(),
        parent < a.scopes.len(),
        keeps(a.enter(parent), c),
    ensures
        keeps(a, c.leave(a.current)),
        forall|i: int, x: Seq<char>|
            0 <= i < a.scopes.len() ==> (#[trigger] c.leave(a.current).scopes[i].binds(x))
                == a.scopes[i].binds(x),
{
    let b = a.enter(parent);
    let d = c.leave(a.current);
    assert(c.current == a.scopes.len());
    assert(d.scopes.len() == c.staying());
    assert forall|i: int| 0 <= i < d.scopes.len() implies (#[trigger] d.scopes[i]).wf() && (
    match d.scopes[i].enclosing {
        Some(p) => p < i,
        None => true,
    }) by {
        assert(d.scopes[i] == c.scopes[i]);
    }
    assert forall|i: int| 0 <= i < a.scopes.len() implies (#[trigger] d.scopes[i]).enclosing
        == a.scopes[i].enclosing by {
        assert(d.scopes[i] == c.scopes[i]);
        assert(c.scopes[i].enclosing == b.scopes[i].enclosing);
        assert(b.scopes[i] == a.scopes[i]);
    }
    assert forall|i: int, x: Seq<char>| 0 <= i < a.scopes.len() implies (#[trigger] d.scopes[i].binds(
        x,
    )) == a.scopes[i].binds(x) by {
        assert(d.scopes[i] == c.scopes[i]);
        assert(c.scopes[i].binds(x) == b.scopes[i].binds(x));
        assert(b.scopes[i] == a.scopes[i]);
    }
}

/// Pinned scopes stay: leaving a scope drops none of them, and changes
/// none.
pub proof fn leave_keeps_pinned(env: EnvironmentView, parent: nat)
    requires
        env.wf(),
    ensures
        env.leave(parent).pinned == env.pinned,
        env.leave(parent).scopes.len() >= env.pinned,
        forall|i: int| 0 <= i < env.pinned ==> env.leave(parent).scopes[i] == env.scopes[i],
{
}

/// Pinning the current scope changes no scope.
pub proof fn pin_keeps(a: EnvironmentView)
    requires
        a.wf(),
    ensures
        keeps(a, a.pin()),
{
}

/// A new scope is well formed.
pub proof fn enter_wf(a: EnvironmentView, parent: nat)
    requires
        a.wf(),
        parent < a.scopes.len(),
    ensures
        a.enter(parent).wf(),
{
    let b = a.enter(parent);
    assert forall|i: int| 0 <= i < b.scopes.len() implies (#[trigger] b.scopes[i]).wf() && (
    match b.scopes[i].enclosing {
        Some(p) => p < i,
        None => true,
    }) by {
        if i < a.scopes.len() {
            assert(b.scopes[i] == a.scopes[i]);
        }
    }
}

/// Binding parameters changes the current scope alone.
pub proof fn bind_keeps(env: EnvironmentView, params: Seq<TokenView>, args: Seq<ValueView>, from: nat)
    requires
        env.wf(),
    ensures
        keeps(env, bind(env, params, args, from)),
    decreases params.len() - from,
{
    if from >= params.len() {
        keeps_itself(env);
    } else {
        let next = env.define(params[from as int].lexeme, args[from as int]);
        define_keeps(env, params[from as int].lexeme, args[from as int]);
        bind_keeps(next, params, args, from + 1);
        keeps_chain(env, next, bind(next, params, args, from + 1));
    }
}


/// Evaluating an expression keeps the scopes.
pub proof fn eval_expr_keeps(st: EvaluatorView, e: ExprView, fuel: nat)
    requires
        st.environment.wf(),
    ensures
        keeps(st.environment, eval_expr(st, e, fuel).0.environment),
    decreases fuel, 1nat, e, 0nat,
{
    keeps_itself(st.environment);
    match e {
        ExprView::Grouping { expression } => {
            eval_expr_keeps(st, *expression, fuel);
        },
        ExprView::Unary { operator, operand } => {
            eval_expr_keeps(st, *operand, fuel);
        },
        ExprView::Binary { left, operator, right } => {
            eval_expr_keeps(st, *left, fuel);
            let (st1, l) = eval_expr(st, *left, fuel);
            if l is Ok {
                eval_expr_keeps(st1, *right, fuel);
                keeps_chain(
                    st.environment,
                    st1.environment,
                    eval_expr(st1, *right, fuel).0.environment,
                );
            }
        },
        ExprView::Assign { name, value } => {
            eval_expr_keeps(st, *value, fuel);
            let (st1, v) = eval_expr(st, *value, fuel);
            if let Ok(v) = v {
                if st1.environment.assign(name.lexeme, v) is Some {
                    assign_keeps(st1.environment, name.lexeme, v);
                    keeps_chain(
                        st.environment,
                        st1.environment,
                        st1.environment.assign(name.lexeme, v).unwrap(),
                    );
                }
            }
        },
        ExprView::Call { callee, arguments } => {
            eval_expr_keeps(st, *callee, fuel);
            let (st1, f) = eval_expr(st, *callee, fuel);
            if let Ok(f) = f {
                eval_args_keeps(st1, arguments, Seq::empty(), fuel);
                let (st2, a) = eval_args(st1, arguments, Seq::empty(), fuel);
                keeps_chain(st.environment, st1.environment, st2.environment);
                if let Ok(args) = a {
                    call_keeps(st2, f, args, fuel);
                    keeps_chain(
                        st.environment,
                        st2.environment,
                        call_value(st2, f, args, fuel).0.environment,
                    );
                }
            }
        },
        _ => {},
    }
}

/// A call keeps the scopes of the caller, and the scope of the caller is
/// current again after it.
pub proof fn call_keeps(st: EvaluatorView, callee: ValueView, args: Seq<ValueView>, fuel: nat)
    requires
        st.environment.wf(),
    ensures
        keeps(st.environment, call_value(st, callee, args, fuel).0.environment),
    decreases fuel, 0nat, callee, 0nat,
{
    keeps_itself(st.environment);
    match begin_call(st, callee, args, fuel) {
        CallStart::Done(st1, r) => {},
        CallStart::Run(st1, body) => {
            let closure = callee->closure;
            let entered = st.environment.enter(closure);
            enter_wf(st.environment, closure);
            bind_keeps(entered, callee->declaration.params, args, 0);
            exec_list_keeps(st1, body, 0, ValueView::Nil, (fuel - 1) as nat);
            let (st2, r) = exec_list(st1, body, 0, ValueView::Nil, (fuel - 1) as nat);
            keeps_chain(entered, st1.environment, st2.environment);
            scoped_keeps(st.environment, closure, st2.environment);
        },
    }
}

/// Evaluating arguments keeps the scopes.
pub proof fn eval_args_keeps(
    st: EvaluatorView,
    args: Seq<ExprView>,
    done: Seq<ValueView>,
    fuel: nat,
)
    requires
        st.environment.wf(),
    ensures
        keeps(st.environment, eval_args(st, args, done, fuel).0.environment),
    decreases fuel, 1nat, args, args.len() - done.len(),
{
    keeps_itself(st.environment);
    if done.len() < args.len() {
        eval_expr_keeps(st, args[done.len() as int], fuel);
        let (st1, v) = eval_expr(st, args[done.len() as int], fuel);
        if let Ok(v) = v {
            eval_args_keeps(st1, args, done.push(v), fuel);
            keeps_chain(
                st.environment,
                st1.environment,
                eval_args(st1, args, done.push(v), fuel).0.environment,
            );
        }
    }
}

/// Running a statement list keeps the scopes.
pub proof fn exec_list_keeps(
    st: EvaluatorView,
    stmts: Seq<StmtView>,
    from: nat,
    last: ValueView,
    fuel: nat,
)
    requires
        st.environment.wf(),
    ensures
        keeps(st.environment, exec_list(st, stmts, from, last, fuel).0.environment),
    decreases fuel, 2nat, stmts, stmts.len() - from,
{
    keeps_itself(st.environment);
    if from < stmts.len() {
        exec_stmt_keeps(st, stmts[from as int], fuel);
        let (st1, r) = exec_stmt(st, stmts[from as int], fuel);
        if let EvalResultView::Return(v) = r {
            if !is_return(r) {
                exec_list_keeps(st1, stmts, from + 1, v, fuel);
                keeps_chain(
                    st.environment,
                    st1.environment,
                    exec_list(st1, stmts, from + 1, v, fuel).0.environment,
                );
            }
        }
    }
}

/// Running a loop keeps the scopes.
pub proof fn exec_loop_keeps(st: EvaluatorView, s: StmtView, fuel: nat)
    requires
        st.environment.wf(),
    ensures
        keeps(st.environment, exec_loop(st, s, fuel).0.environment),
    decreases fuel, 2nat, s, 0nat,
{
    keeps_itself(st.environment);
    if let Some(condition) = loop_condition(s) {
        eval_expr_keeps(st, condition, fuel);
    }
    let (st1, c) = match loop_condition(s) {
        Some(condition) => eval_expr(st, condition, fuel),
        None => (st, Ok(ValueView::Boolean(true))),
    };
    if c == Ok::<ValueView, LoxErrorView>(ValueView::Boolean(true)) && fuel > 0 {
        let less = (fuel - 1) as nat;
        match s {
            StmtView::While(_, body) => {
                exec_stmt_keeps(st1, *body, less);
                let (st2, r) = exec_stmt(st1, *body, less);
                keeps_chain(st.environment, st1.environment, st2.environment);
                if !(r is Error || is_return(r)) {
                    exec_loop_keeps(st2, s, less);
                    keeps_chain(
                        st.environment,
                        st2.environment,
                        exec_loop(st2, s, less).0.environment,
                    );
                }
            },
            StmtView::For { increment, body, .. } => {
                let scope = st1.environment.current;
                enter_wf(st1.environment, scope);
                exec_stmt_keeps(st1.open_scope(), *body, less);
                let (st2, r) = exec_stmt(st1.open_scope(), *body, less);
                if r is Error || is_return(r) {
                    scoped_keeps(st1.environment, scope, st2.environment);
                    keeps_chain(
                        st.environment,
                        st1.environment,
                        st2.close_scope(scope).environment,
                    );
                } else {
                    if let Some(i) = increment {
                        eval_expr_keeps(st2, i, less);
                    }
                    let (st3, i) = match increment {
                        Some(i) => eval_expr(st2, i, less),
                        None => (st2, Ok(ValueView::Nil)),
                    };
                    keeps_itself(st2.environment);
                    keeps_chain(
                        st1.open_scope().environment,
                        st2.environment,
                        st3.environment,
                    );
                    scoped_keeps(st1.environment, scope, st3.environment);
                    let st4 = st3.close_scope(scope);
                    keeps_chain(st.environment, st1.environment, st4.environment);
                    if i is Ok {
                        exec_loop_keeps(st4, s, less);
                        keeps_chain(
                            st.environment,
                            st4.environment,
                            exec_loop(st4, s, less).0.environment,
                        );
                    }
                }
            },
            _ => {},
        }
    }
}

/// Running a statement keeps the scopes: the same scope is current after
/// it, and no other scope of before has gained or lost a name.
pub proof fn exec_stmt_keeps(st: EvaluatorView, s: StmtView, fuel: nat)
    requires
        st.environment.wf(),
    ensures
        keeps(st.environment, exec_stmt(st, s, fuel).0.environment),
    decreases fuel, 2nat, s, 1nat,
{
    keeps_itself(st.environment);
    let current = st.environment.current;
    match s {
        StmtView::Expression(e) => {
            eval_expr_keeps(st, e, fuel);
        },
        StmtView::Print(e) => {
            eval_expr_keeps(st, e, fuel);
        },
        StmtView::Var { name, initializer } => {
            if let Some(e) = initializer {
                eval_expr_keeps(st, e, fuel);
            }
            let (st1, v) = match initializer {
                Some(e) => eval_expr(st, e, fuel),
                None => (st, Ok(ValueView::Nil)),
            };
            if let Ok(v) = v {
                define_keeps(st1.environment, name.lexeme, v);
                keeps_chain(
                    st.environment,
                    st1.environment,
                    st1.environment.define(name.lexeme, v),
                );
            }
        },
        StmtView::Block(stmts) => {
            enter_wf(st.environment, current);
            exec_list_keeps(st.open_scope(), stmts, 0, ValueView::Nil, fuel);
            let (st1, r) = exec_list(st.open_scope(), stmts, 0, ValueView::Nil, fuel);
            scoped_keeps(st.environment, current, st1.environment);
        },
        StmtView::If { condition, then_branch, else_branch } => {
            eval_expr_keeps(st, *condition, fuel);
            let (st1, c) = eval_expr(st, *condition, fuel);
            if c == Ok::<ValueView, LoxErrorView>(ValueView::Boolean(true)) {
                exec_stmt_keeps(st1, *then_branch, fuel);
                keeps_chain(
                    st.environment,
                    st1.environment,
                    exec_stmt(st1, *then_branch, fuel).0.environment,
                );
            } else if c == Ok::<ValueView, LoxErrorView>(ValueView::Boolean(false)) {
                if let Some(branch) = else_branch {
                    exec_stmt_keeps(st1, *branch, fuel);
                    keeps_chain(
                        st.environment,
                        st1.environment,
                        exec_stmt(st1, *branch, fuel).0.environment,
                    );
                }
            }
        },
        StmtView::While(_, _) => {
            exec_loop_keeps(st, s, fuel);
        },
        StmtView::For { initializer, .. } => {
            enter_wf(st.environment, current);
            let st0 = st.open_scope();
            keeps_itself(st0.environment);
            if let Some(i) = initializer {
                exec_stmt_keeps(st0, *i, fuel);
            }
            let (st1, r) = match initializer {
                Some(i) => exec_stmt(st0, *i, fuel),
                None => (st0, EvalResultView::Return(ValueView::Nil)),
            };
            if r is Error || is_return(r) {
                scoped_keeps(st.environment, current, st1.environment);
            } else {
                exec_loop_keeps(st1, s, fuel);
                let (st2, r2) = exec_loop(st1, s, fuel);
                keeps_chain(st0.environment, st1.environment, st2.environment);
                scoped_keeps(st.environment, current, st2.environment);
            }
        },
        StmtView::Function(declaration) => {
            let value = ValueView::Function { declaration, closure: current };
            define_keeps(st.environment, declaration.name.lexeme, value);
            pin_keeps(st.environment.define(declaration.name.lexeme, value));
            keeps_chain(
                st.environment,
                st.environment.define(declaration.name.lexeme, value),
                st.environment.define(declaration.name.lexeme, value).pin(),
            );
        },
        StmtView::Return { keyword, value } => {
            if let Some(e) = value {
                eval_expr_keeps(st, e, fuel);
            }
        },
        StmtView::Class { .. } => {},
    }
}


/// Scopes that agree up to `scope` in their links and in whether they bind
/// `name` find `name` in the same scope.
pub proof fn holder_agrees(a: EnvironmentView, b: EnvironmentView, scope: nat, name: Seq<char>)
    requires
        a.wf(),
        scope < a.scopes.len() <= b.scopes.len(),
        forall|i: int|
            0 <= i <= scope ==> (#[trigger] b.scopes[i]).enclosing == a.scopes[i].enclosing,
        forall|i: int| 0 <= i <= scope ==> (#[trigger] b.scopes[i]).binds(name) == a.scopes[i].binds(name),
    ensures
        b.holder(scope, name) == a.holder(scope, name),
    decreases scope,
{
    assert(b.scopes[scope as int].binds(name) == a.scopes[scope as int].binds(name));
    assert(b.scopes[scope as int].enclosing == a.scopes[scope as int].enclosing);
    if !a.scopes[scope as int].binds(name) {
        match a.scopes[scope as int].enclosing {
            Some(p) => {
                if p < scope {
                    holder_agrees(a, b, p, name);
                }
            },
            None => {},
        }
    }
}

/// Block scoping. After a block, whatever way it ended, the scope that
/// was current before it is current again, and exactly the names that
/// were visible before it are visible: a name declared inside the block
/// is not visible after it, and no outer name is lost.
pub proof fn block_scoping(st: EvaluatorView, stmts: Seq<StmtView>, fuel: nat, name: Seq<char>)
    requires
        st.environment.wf(),
    ensures
        ({
            let after = exec_stmt(st, StmtView::Block(stmts), fuel).0.environment;
            &&& after.current == st.environment.current
            &&& after.holder(after.current, name) == st.environment.holder(
                st.environment.current,
                name,
            )
            &&& after.lookup(name) is Some <==> st.environment.lookup(name) is Some
        }),
{
    let a = st.environment;
    let inner = exec_list(st.open_scope(), stmts, 0, ValueView::Nil, fuel).0.environment;
    let after = exec_stmt(st, StmtView::Block(stmts), fuel).0.environment;
    enter_wf(a, a.current);
    exec_list_keeps(st.open_scope(), stmts, 0, ValueView::Nil, fuel);
    assert(after == inner.leave(a.current));
    scoped_keeps(a, a.current, inner);
    assert forall|i: int| 0 <= i <= a.current implies (#[trigger] after.scopes[i]).enclosing
        == a.scopes[i].enclosing && after.scopes[i].binds(name) == a.scopes[i].binds(name) by {
        assert(after.scopes[i].binds(name) == a.scopes[i].binds(name));
    }
    holder_agrees(a, after, a.current, name);
}

/// Block scoping, for a name that is unbound. A name that no scope binds
/// before a block is unbound after it, whatever the block declared and
/// whatever way it ended: reading it is the undefined-variable error.
pub proof fn block_forgets_declarations(
    st: EvaluatorView,
    stmts: Seq<StmtView>,
    fuel: nat,
    name: TokenView,
    later: nat,
)
    requires
        st.environment.wf(),
        st.environment.lookup(name.lexeme) is None,
    ensures
        eval_expr(
            exec_stmt(st, StmtView::Block(stmts), fuel).0,
            ExprView::Variable { name },
            later,
        ).1 == Err::<ValueView, LoxErrorView>(LoxErrorView::UndefinedVariable(name.lexeme)),
{
    block_scoping(st, stmts, fuel, name.lexeme);
}

/// The last of the names that equal `x` is the one that `position` finds.
pub proof fn position_of_last(names: Seq<Seq<char>>, x: Seq<char>, i: int)
    requires
        0 <= i < names.len(),
        names[i] == x,
        forall|j: int| i < j < names.len() ==> names[j] != x,
    ensures
        position(names, x) == Some(i),
    decreases names.len(),
{
    if names.last() != x {
        position_of_last(names.drop_last(), x, i);
    }
}

/// What binding the parameters from `from` on does to the current scope:
/// their names and the arguments are appended, and nothing else changes.
pub proof fn bind_appends(env: EnvironmentView, params: Seq<TokenView>, args: Seq<ValueView>, from: nat)
    requires
        env.wf(),
        from <= params.len(),
        params.len() == args.len(),
    ensures
        ({
            let bound = bind(env, params, args, from);
            let before = env.scopes[env.current as int];
            let after = bound.scopes[env.current as int];
            &&& bound.current == env.current
            &&& bound.scopes.len() == env.scopes.len()
            &&& after.enclosing == before.enclosing
            &&& after.names == before.names + params.skip(from as int).map_values(
                |t: TokenView| t.lexeme,
            )
            &&& after.values == before.values + args.skip(from as int)
        }),
    decreases params.len() - from,
{
    let before = env.scopes[env.current as int];
    if from >= params.len() {
        assert(before.names + params.skip(from as int).map_values(|t: TokenView| t.lexeme)
            =~= before.names);
        assert(before.values + args.skip(from as int) =~= before.values);
    } else {
        let name = params[from as int].lexeme;
        let next = env.define(name, args[from as int]);
        define_keeps(env, name, args[from as int]);
        bind_appends(next, params, args, from + 1);
        let middle = next.scopes[env.current as int];
        assert(middle.names + params.skip(from as int + 1).map_values(|t: TokenView| t.lexeme)
            =~= before.names + params.skip(from as int).map_values(|t: TokenView| t.lexeme));
        assert(middle.values + args.skip(from as int + 1) =~= before.values + args.skip(from as int));
    }
}

/// Parameter binding. When the body of a function is about to run, each
/// parameter has the value of the argument in its position, provided no
/// later parameter has the same name (of two parameters with one name
/// the later one is the binding).
pub proof fn parameters_hold_arguments(
    st: EvaluatorView,
    declaration: FunctionView,
    closure: nat,
    args: Seq<ValueView>,
    fuel: nat,
    i: int,
)
    requires
        st.environment.wf(),
        begin_call(st, ValueView::Function { declaration, closure }, args, fuel) is Run,
        0 <= i < declaration.params.len(),
        forall|j: int|
            i < j < declaration.params.len() ==> declaration.params[j].lexeme
                != declaration.params[i].lexeme,
    ensures
        begin_call(
            st,
            ValueView::Function { declaration, closure },
            args,
            fuel,
        )->Run_0.environment.lookup(declaration.params[i].lexeme) == Some(args[i]),
{
    let params = declaration.params;
    let entered = st.environment.enter(closure);
    enter_wf(st.environment, closure);
    bind_appends(entered, params, args, 0);
    let bound = bind(entered, params, args, 0);
    let scope = bound.scopes[bound.current as int];
    let names = params.map_values(|t: TokenView| t.lexeme);
    assert(params.skip(0) =~= params);
    assert(args.skip(0) =~= args);
    assert(scope.names =~= names);
    assert(scope.values =~= args);
    position_of_last(names, params[i].lexeme, i);
}

/// Whether no two of the tokens have the same lexeme.
pub open spec fn distinct(tokens: Seq<TokenView>) -> bool {
    forall|i: int, j: int| 0 <= i < j < tokens.len() ==> tokens[i].lexeme != tokens[j].lexeme
}

/// The parameters that the parser accepts, after distinct ones, are
/// distinct.
pub proof fn parameters_differ(tokens: Seq<TokenView>, pos: int, depth: nat, done: Seq<TokenView>)
    requires
        distinct(done),
    ensures
        parameters(tokens, pos, depth, done).result matches Ok(list) ==> distinct(list),
    decreases tokens.len() - pos,
{
    if check(tokens, pos, TokenType::Identifier) && !names(done, tokens[pos].lexeme) {
        let more = done.push(tokens[pos]);
        assert forall|i: int, j: int| 0 <= i < j < more.len() implies more[i].lexeme
            != more[j].lexeme by {
            if j == done.len() {
                assert(done[i].lexeme != tokens[pos].lexeme);
            }
        }
        let value = expression(tokens, pos + 2, depth);
        let skipped = check(tokens, pos + 1, TokenType::Equal);
        let after = if skipped {
            reached(value.pos, pos + 2, tokens)
        } else {
            pos + 1
        };
        if (!skipped || value.result is Ok) && check(tokens, after, TokenType::Comma) {
            parameters_differ(tokens, after + 1, depth, more);
        }
    }
}

/// No function that the parser accepts has two parameters of one name.
pub proof fn parsed_parameters_differ(tokens: Seq<TokenView>, pos: int, depth: nat)
    ensures
        function(tokens, pos, depth).result matches Ok(StmtView::Function(declaration))
            ==> distinct(declaration.params),
{
    assert(distinct(Seq::empty()));
    parameters_differ(tokens, pos + 2, depth, Seq::empty());
}

/// Parameter binding, for every function that can be written. When the
/// body of a function that the parser accepted is about to run, each
/// parameter has the value of the argument in its position.
pub proof fn parsed_parameters_hold_arguments(
    tokens: Seq<TokenView>,
    pos: int,
    depth: nat,
    st: EvaluatorView,
    declaration: FunctionView,
    closure: nat,
    args: Seq<ValueView>,
    fuel: nat,
    i: int,
)
    requires
        function(tokens, pos, depth).result == Ok::<StmtView, LoxErrorView>(
            StmtView::Function(declaration),
        ),
        st.environment.wf(),
        begin_call(st, ValueView::Function { declaration, closure }, args, fuel) is Run,
        0 <= i < declaration.params.len(),
    ensures
        begin_call(
            st,
            ValueView::Function { declaration, closure },
            args,
            fuel,
        )->Run_0.environment.lookup(declaration.params[i].lexeme) == Some(args[i]),
{
    parsed_parameters_differ(tokens, pos, depth);
    parameters_hold_arguments(st, declaration, closure, args, fuel, i);
}

/// The closure property, at the declaration: the function value that a
/// declaration binds holds the scope that is current at the declaration.
pub proof fn declaration_captures_scope(st: EvaluatorView, declaration: FunctionView, fuel: nat)
    requires
        st.environment.wf(),
    ensures
        exec_stmt(st, StmtView::Function(declaration), fuel).0.environment.lookup(
            declaration.name.lexeme,
        ) == Some(ValueView::Function { declaration, closure: st.environment.current }),
{
    let env = st.environment;
    let value = ValueView::Function { declaration, closure: env.current };
    let after = env.define(declaration.name.lexeme, value);
    let scope = after.scopes[env.current as int];
    position_of_last(scope.names, declaration.name.lexeme, scope.names.len() - 1);
    assert(after.pin().lookup(declaration.name.lexeme) == after.lookup(declaration.name.lexeme));
}

/// The closure property, at the call: the body of a function runs in a new
/// scope that lies inside the scope of the declaration, whatever scope is
/// current at the call.
pub proof fn call_runs_in_declaration_scope(
    st: EvaluatorView,
    declaration: FunctionView,
    closure: nat,
    args: Seq<ValueView>,
    fuel: nat,
)
    requires
        st.environment.wf(),
        begin_call(st, ValueView::Function { declaration, closure }, args, fuel) is Run,
    ensures
        ({
            let entry = begin_call(
                st,
                ValueView::Function { declaration, closure },
                args,
                fuel,
            )->Run_0.environment;
            &&& entry.current == st.environment.scopes.len()
            &&& entry.scopes[entry.current as int].enclosing == Some(closure)
        }),
{
    let entered = st.environment.enter(closure);
    enter_wf(st.environment, closure);
    bind_appends(entered, declaration.params, args, 0);
}

/// A `return` ends the statement list it stands in: no later statement of
/// the list runs.
pub proof fn return_ends_list(
    st: EvaluatorView,
    stmts: Seq<StmtView>,
    from: nat,
    last: ValueView,
    fuel: nat,
)
    requires
        from < stmts.len(),
        is_return(exec_stmt(st, stmts[from as int], fuel).1),
    ensures
        exec_list(st, stmts, from, last, fuel) == exec_stmt(st, stmts[from as int], fuel),
{
}

/// A `return` passes through the block and the loop around it: they end
/// with it.
pub proof fn return_passes_through(st: EvaluatorView, s: StmtView, fuel: nat)
    ensures
        s matches StmtView::Block(stmts) ==> exec_stmt(st, s, fuel).1 == exec_list(
            st.open_scope(),
            stmts,
            0,
            ValueView::Nil,
            fuel,
        ).1,
        s matches StmtView::While(condition, body) ==> {
            let (st1, c) = eval_expr(st, condition, fuel);
            c == Ok::<ValueView, LoxErrorView>(ValueView::Boolean(true)) && fuel > 0 && is_return(
                exec_stmt(st1, *body, (fuel - 1) as nat).1,
            ) ==> exec_stmt(st, s, fuel) == exec_stmt(st1, *body, (fuel - 1) as nat)
        },
{
    if let StmtView::While(condition, body) = s {
        assert(exec_stmt(st, s, fuel) == exec_loop(st, s, fuel));
        assert(loop_condition(s) == Some(condition));
    }
}

/// Non-local return. Where the body of a function ends with a `return`,
/// the call has the value returned, and the scope of the caller is current
/// again: the return leaves this one call, and nothing around it.
pub proof fn return_leaves_one_call(
    st: EvaluatorView,
    declaration: FunctionView,
    closure: nat,
    args: Seq<ValueView>,
    fuel: nat,
)
    requires
        st.environment.wf(),
        begin_call(st, ValueView::Function { declaration, closure }, args, fuel) is Run,
    ensures
        ({
            let callee = ValueView::Function { declaration, closure };
            let entry = begin_call(st, callee, args, fuel)->Run_0;
            let (body, result) = exec_list(
                entry,
                declaration.body,
                0,
                ValueView::Nil,
                (fuel - 1) as nat,
            );
            let (after, value) = call_value(st, callee, args, fuel);
            &&& after.environment.current == st.environment.current
            &&& keeps(st.environment, after.environment)
            &&& after.output == body.output
            &&& (result matches EvalResultView::Return(ValueView::Return(v)) ==> value == Ok::<
                ValueView,
                LoxErrorView,
            >(*v))
            &&& (result is Return && !is_return(result) ==> value == Ok::<ValueView, LoxErrorView>(
                ValueView::Nil,
            ))
        }),
{
    call_keeps(st, ValueView::Function { declaration, closure }, args, fuel);
}

/// A new binding is the value of its name.
pub proof fn define_then_lookup(env: EnvironmentView, name: Seq<char>, value: ValueView)
    requires
        env.wf(),
    ensures
        env.define(name, value).lookup(name) == Some(value),
{
    let scope = env.define(name, value).scopes[env.current as int];
    position_of_last(scope.names, name, scope.names.len() - 1);
}

/// An assignment changes the binding that was visible, in the scope that
/// holds it, and the new value is the value of the name.
pub proof fn assign_then_lookup(env: EnvironmentView, name: Seq<char>, value: ValueView)
    requires
        env.wf(),
        env.assign(name, value) is Some,
    ensures
        env.assign(name, value).unwrap().lookup(name) == Some(value),
        env.assign(name, value).unwrap().holder(env.current, name) == env.holder(
            env.current,
            name,
        ),
{
    let after = env.assign(name, value).unwrap();
    assign_keeps(env, name, value);
    crate::lox::evaluator::holder_in_range(env, env.current, name);
    let s = env.holder(env.current, name).unwrap() as int;
    crate::lox::evaluator::position_in_range(env.scopes[s].names, name);
    assert forall|i: int| 0 <= i <= env.current implies (#[trigger] after.scopes[i]).enclosing
        == env.scopes[i].enclosing && after.scopes[i].binds(name) == env.scopes[i].binds(name) by {
        if i != s {
            assert(after.scopes[i] == env.scopes[i]);
        } else {
            assert(after.scopes[i].names == env.scopes[i].names);
        }
    }
    holder_agrees(env, after, env.current, name);
    assert(env.scopes[s].wf());
}

/// An assignment to a name that no scope binds fails.
pub proof fn assign_needs_binding(env: EnvironmentView, name: Seq<char>, value: ValueView)
    ensures
        env.assign(name, value) is Some <==> env.lookup(name) is Some,
{
}


/// Division by zero. A division of a number by a zero of either sign is
/// the division-by-zero error.
pub proof fn division_by_zero_fails(
    st: EvaluatorView,
    left: ExprView,
    operator: TokenView,
    right: ExprView,
    fuel: nat,
)
    requires
        operator.token_type == TokenType::Slash,
        eval_expr(st, left, fuel).1 matches Ok(ValueView::Number(_)),
        eval_expr(eval_expr(st, left, fuel).0, right, fuel).1 matches Ok(ValueView::Number(r))
            && is_zero(r),
    ensures
        eval_expr(
            st,
            ExprView::Binary { left: Box::new(left), operator, right: Box::new(right) },
            fuel,
        ).1 == Err::<ValueView, LoxErrorView>(LoxErrorView::DivisionByZero),
{
}

/// Division. A division of a number by a number that is no zero is their
/// quotient.
pub proof fn division_gives_quotient(
    st: EvaluatorView,
    left: ExprView,
    operator: TokenView,
    right: ExprView,
    fuel: nat,
    l: u64,
    r: u64,
)
    requires
        operator.token_type == TokenType::Slash,
        eval_expr(st, left, fuel).1 == Ok::<ValueView, LoxErrorView>(ValueView::Number(l)),
        eval_expr(eval_expr(st, left, fuel).0, right, fuel).1 == Ok::<ValueView, LoxErrorView>(
            ValueView::Number(r),
        ),
        !is_zero(r),
    ensures
        eval_expr(
            st,
            ExprView::Binary { left: Box::new(left), operator, right: Box::new(right) },
            fuel,
        ).1 == Ok::<ValueView, LoxErrorView>(ValueView::Number(quotient_bits(l, r))),
{
}

/// Strict conditions. An `if` whose condition has a value other than
/// `true` or `false` is the non-boolean-condition error, and neither
/// branch runs.
pub proof fn condition_must_be_boolean(
    st: EvaluatorView,
    condition: ExprView,
    then_branch: StmtView,
    else_branch: Option<Box<StmtView>>,
    fuel: nat,
)
    requires
        eval_expr(st, condition, fuel).1 matches Ok(v) && !(v is Boolean),
    ensures
        exec_stmt(
            st,
            StmtView::If {
                condition: Box::new(condition),
                then_branch: Box::new(then_branch),
                else_branch,
            },
            fuel,
        ) == (
            eval_expr(st, condition, fuel).0,
            EvalResultView::Error(LoxErrorView::NonBooleanCondition(condition_text())),
        ),
{
}

/// Strict conditions in loops. A `while` whose condition has a value other
/// than `true` or `false` is the non-boolean-condition error.
pub proof fn loop_condition_must_be_boolean(
    st: EvaluatorView,
    condition: ExprView,
    body: StmtView,
    fuel: nat,
)
    requires
        eval_expr(st, condition, fuel).1 matches Ok(v) && !(v is Boolean),
    ensures
        exec_stmt(st, StmtView::While(condition, Box::new(body)), fuel) == (
            eval_expr(st, condition, fuel).0,
            EvalResultView::Error(LoxErrorView::NonBooleanCondition(condition_text())),
        ),
{
    let s = StmtView::While(condition, Box::new(body));
    assert(exec_stmt(st, s, fuel) == exec_loop(st, s, fuel));
    assert(loop_condition(s) == Some(condition));
}

/// `return` outside a function. A statement that starts with `return`
/// and stands in no function body does not parse: the error is
/// return-outside-function, whatever follows the keyword.
pub proof fn return_outside_function_fails(tokens: Seq<TokenView>, pos: int, depth: nat)
    requires
        check(tokens, pos, TokenType::Return),
    ensures
        statement(tokens, pos, depth, false).result == Err::<StmtView, LoxErrorView>(
            LoxErrorView::ReturnOutsideFunction,
        ),
        declaration(tokens, pos, depth, false).result == Err::<StmtView, LoxErrorView>(
            LoxErrorView::ReturnOutsideFunction,
        ),
{
}

/// The recursion limit. An expression nested deeper than the limit does
/// not parse.
pub proof fn nesting_past_limit_fails(tokens: Seq<TokenView>, pos: int, depth: nat)
    requires
        depth > MAX_RECURSION_DEPTH,
    ensures
        expression(tokens, pos, depth) == fail::<ExprView>("Recursion depth exceeded."@, pos),
{
}

/// A string body without a closing quote runs to the end of the input.
pub proof fn string_runs_to_end(src: Seq<char>, pos: int, line: nat)
    requires
        0 <= pos <= src.len(),
        forall|j: int| pos <= j < src.len() ==> src[j] != '"',
    ensures
        string_end(src, pos, line).0 == src.len(),
    decreases src.len() - pos,
{
    if pos < src.len() {
        string_runs_to_end(src, pos + 1, crate::lox::scanner::line_after(src[pos], line));
    }
}

/// Unterminated strings. Where a double quote has no second one after it,
/// scanning fails with the unterminated-string error, which names the
/// last line of the input.
pub proof fn unterminated_string_fails(src: Seq<char>, pos: int, line: nat, done: Seq<TokenView>)
    requires
        0 <= pos < src.len(),
        src[pos] == '"',
        forall|j: int| pos < j < src.len() ==> src[j] != '"',
    ensures
        scan_from(src, pos, line, done) == Err::<Seq<TokenView>, LoxErrorView>(
            LoxErrorView::UnterminatedString(
                unterminated_text(string_end(src, pos + 1, line).1),
            ),
        ),
{
    string_runs_to_end(src, pos + 1, line);
    assert(step_at(src, pos, line).found is Error);
}


/// The condition of a `for`, which is `true` where none is written.
pub open spec fn written_condition(condition: Option<ExprView>) -> ExprView {
    match condition {
        Some(c) => c,
        None => ExprView::Literal { value: LiteralView::Boolean(true) },
    }
}

/// The `while` that a `for` loops as: its body is a block of the body of
/// the `for` and its increment.
pub open spec fn looping(
    condition: Option<ExprView>,
    increment: Option<ExprView>,
    body: StmtView,
) -> StmtView {
    StmtView::While(
        written_condition(condition),
        Box::new(
            StmtView::Block(
                match increment {
                    Some(i) => seq![body, StmtView::Expression(i)],
                    None => seq![body],
                },
            ),
        ),
    )
}

/// The statement that a `for` stands for: a block of the initializer and
/// the `while`.
pub open spec fn desugared(
    initializer: Option<Box<StmtView>>,
    condition: Option<ExprView>,
    increment: Option<ExprView>,
    body: StmtView,
) -> StmtView {
    StmtView::Block(
        match initializer {
            Some(i) => seq![*i, looping(condition, increment, body)],
            None => seq![looping(condition, increment, body)],
        },
    )
}

/// The iterations of a `for` are those of the `while` it loops as.
pub proof fn for_loops_as_while(
    st: EvaluatorView,
    initializer: Option<Box<StmtView>>,
    condition: Option<ExprView>,
    increment: Option<ExprView>,
    body: StmtView,
    fuel: nat,
)
    ensures
        exec_loop(
            st,
            StmtView::For { initializer, condition, increment, body: Box::new(body) },
            fuel,
        ) == exec_loop(st, looping(condition, increment, body), fuel),
    decreases fuel,
{
    let f = StmtView::For { initializer, condition, increment, body: Box::new(body) };
    let w = looping(condition, increment, body);
    let test = written_condition(condition);
    assert(loop_condition(f) == condition);
    assert(loop_condition(w) == Some(test));
    let (st1, c) = eval_expr(st, test, fuel);
    assert((st1, c) == match loop_condition(f) {
        Some(condition) => eval_expr(st, condition, fuel),
        None => (st, Ok::<ValueView, LoxErrorView>(ValueView::Boolean(true))),
    });
    if c == Ok::<ValueView, LoxErrorView>(ValueView::Boolean(true)) && fuel > 0 {
        let less = (fuel - 1) as nat;
        let scope = st1.environment.current;
        let step = match increment {
            Some(i) => seq![body, StmtView::Expression(i)],
            None => seq![body],
        };
        let inner = st1.open_scope();
        let (st2, r) = exec_stmt(inner, body, less);
        // The block that is the body of the `while`.
        assert(exec_stmt(st1, StmtView::Block(step), less) == ({
            let (after, result) = exec_list(inner, step, 0, ValueView::Nil, less);
            (after.close_scope(scope), result)
        }));
        assert(step[0] == body);
        if r is Error || is_return(r) {
            assert(exec_list(inner, step, 0, ValueView::Nil, less) == (st2, r));
        } else {
            let v = r->Return_0;
            match increment {
                Some(i) => {
                    assert(step[1] == StmtView::Expression(i));
                    let (st3, value) = eval_expr(st2, i, less);
                    assert(exec_list(inner, step, 0, ValueView::Nil, less) == exec_list(
                        st2,
                        step,
                        1,
                        v,
                        less,
                    ));
                    if value is Ok {
                        assert(exec_stmt(st2, step[1], less) == (
                            st3,
                            EvalResultView::Return(ValueView::Nil),
                        ));
                        assert(exec_list(st2, step, 1, v, less) == exec_list(
                            st3,
                            step,
                            2,
                            ValueView::Nil,
                            less,
                        ));
                        for_loops_as_while(
                            st3.close_scope(scope),
                            initializer,
                            condition,
                            increment,
                            body,
                            less,
                        );
                    } else {
                        assert(exec_stmt(st2, step[1], less) == (
                            st3,
                            EvalResultView::Error(value->Err_0),
                        ));
                    }
                },
                None => {
                    assert(exec_list(inner, step, 0, ValueView::Nil, less) == exec_list(
                        st2,
                        step,
                        1,
                        v,
                        less,
                    ));
                    for_loops_as_while(
                        st2.close_scope(scope),
                        initializer,
                        condition,
                        increment,
                        body,
                        less,
                    );
                },
            }
        }
    }
}

/// A `for` runs as the statement it stands for: a block that holds the
/// initializer and a `while`, whose body is a block of the body and the
/// increment.
pub proof fn for_runs_as_while(
    st: EvaluatorView,
    initializer: Option<Box<StmtView>>,
    condition: Option<ExprView>,
    increment: Option<ExprView>,
    body: StmtView,
    fuel: nat,
)
    ensures
        exec_stmt(
            st,
            StmtView::For { initializer, condition, increment, body: Box::new(body) },
            fuel,
        ) == exec_stmt(st, desugared(initializer, condition, increment, body), fuel),
{
    let f = StmtView::For { initializer, condition, increment, body: Box::new(body) };
    let w = looping(condition, increment, body);
    let scope = st.environment.current;
    let inner = st.open_scope();
    match initializer {
        Some(i) => {
            let list = seq![*i, w];
            let (st1, r) = exec_stmt(inner, *i, fuel);
            assert(list[0] == *i);
            assert(list[1] == w);
            assert(desugared(initializer, condition, increment, body) == StmtView::Block(list));
            assert(exec_stmt(st, StmtView::Block(list), fuel) == ({
                let (after, result) = exec_list(inner, list, 0, ValueView::Nil, fuel);
                (after.close_scope(scope), result)
            }));
            if r is Error || is_return(r) {
                assert(exec_list(inner, list, 0, ValueView::Nil, fuel) == (st1, r));
            } else {
                let v = r->Return_0;
                for_loops_as_while(st1, initializer, condition, increment, body, fuel);
                let (st2, r2) = exec_loop(st1, w, fuel);
                assert(exec_stmt(st1, w, fuel) == (st2, r2));
                assert(exec_list(inner, list, 0, ValueView::Nil, fuel) == exec_list(
                    st1,
                    list,
                    1,
                    v,
                    fuel,
                ));
                loop_result(st1, w, fuel);
                if r2 is Error || is_return(r2) {
                    assert(exec_list(st1, list, 1, v, fuel) == (st2, r2));
                } else {
                    assert(exec_list(st1, list, 1, v, fuel) == exec_list(
                        st2,
                        list,
                        2,
                        r2->Return_0,
                        fuel,
                    ));
                    assert(exec_list(st2, list, 2, r2->Return_0, fuel) == (st2, r2));
                }
            }
        },
        None => {
            let list = seq![w];
            assert(list[0] == w);
            assert(desugared(initializer, condition, increment, body) == StmtView::Block(list));
            assert(exec_stmt(st, StmtView::Block(list), fuel) == ({
                let (after, result) = exec_list(inner, list, 0, ValueView::Nil, fuel);
                (after.close_scope(scope), result)
            }));
            for_loops_as_while(inner, initializer, condition, increment, body, fuel);
            let (st2, r2) = exec_loop(inner, w, fuel);
            assert(exec_stmt(inner, w, fuel) == (st2, r2));
            loop_result(inner, w, fuel);
            if r2 is Error || is_return(r2) {
                assert(exec_list(inner, list, 0, ValueView::Nil, fuel) == (st2, r2));
            } else {
                assert(exec_list(inner, list, 0, ValueView::Nil, fuel) == exec_list(
                    st2,
                    list,
                    1,
                    r2->Return_0,
                    fuel,
                ));
                assert(exec_list(st2, list, 1, r2->Return_0, fuel) == (st2, r2));
            }
        },
    }
}

/// A loop ends with an error, with a `return`, or with `nil`.
pub proof fn loop_result(st: EvaluatorView, s: StmtView, fuel: nat)
    ensures
        ({
            let r = exec_loop(st, s, fuel).1;
            r is Error || is_return(r) || r == EvalResultView::Return(ValueView::Nil)
        }),
    decreases fuel,
{
    let (st1, c) = match loop_condition(s) {
        Some(condition) => eval_expr(st, condition, fuel),
        None => (st, Ok(ValueView::Boolean(true))),
    };
    if c == Ok::<ValueView, LoxErrorView>(ValueView::Boolean(true)) && fuel > 0 {
        let less = (fuel - 1) as nat;
        match s {
            StmtView::While(_, body) => {
                let (st2, r) = exec_stmt(st1, *body, less);
                if !(r is Error || is_return(r)) {
                    loop_result(st2, s, less);
                }
            },
            StmtView::For { increment, body, .. } => {
                let scope = st1.environment.current;
                let (st2, r) = exec_stmt(st1.open_scope(), *body, less);
                if !(r is Error || is_return(r)) {
                    let (st3, i) = match increment {
                        Some(i) => eval_expr(st2, i, less),
                        None => (st2, Ok(ValueView::Nil)),
                    };
                    if i is Ok {
                        loop_result(st3.close_scope(scope), s, less);
                    }
                }
            },
            _ => {},
        }
    }
}


/// Whether `/*` stands at `pos`.
pub open spec fn opens(src: Seq<char>, pos: int) -> bool {
    0 <= pos && pos + 1 < src.len() && src[pos] == '/' && src[pos + 1] == '*'
}

/// Whether `*/` stands at `pos`.
pub open spec fn closes(src: Seq<char>, pos: int) -> bool {
    0 <= pos && pos + 1 < src.len() && src[pos] == '*' && src[pos + 1] == '/'
}

/// Whether no comment opens or closes between `from` and `to`.
pub open spec fn plain_text(src: Seq<char>, from: int, to: int) -> bool {
    forall|j: int| from <= j < to ==> !opens(src, j) && !closes(src, j)
}

/// The line reached at `to`, from `line` at `from`.
pub open spec fn line_at(src: Seq<char>, from: int, to: int, line: nat) -> nat
    decreases to - from,
{
    if from >= to || from < 0 || from >= src.len() {
        line
    } else {
        line_at(src, from + 1, to, line_after(src[from], line))
    }
}

/// Inside a comment, text in which no comment opens or closes is passed
/// over.
pub proof fn comment_passes_plain_text(src: Seq<char>, from: int, to: int, depth: nat, line: nat)
    requires
        depth > 0,
        0 <= from <= to <= src.len(),
        plain_text(src, from, to),
    ensures
        comment_end(src, from, depth, line) == comment_end(
            src,
            to,
            depth,
            line_at(src, from, to, line),
        ),
    decreases to - from,
{
    if from < to {
        assert(!opens(src, from) && !closes(src, from));
        comment_passes_plain_text(src, from + 1, to, depth, line_after(src[from], line));
    }
}

/// Nested comments. A block comment that holds one other block comment
/// ends where its own `*/` ends, not at that of the inner one: the
/// scanner passes over both and finds no token in them.
pub proof fn nested_comment_is_skipped(
    src: Seq<char>,
    pos: int,
    inner: int,
    inner_end: int,
    end: int,
    line: nat,
)
    requires
        0 <= pos,
        pos + 2 <= inner,
        inner + 2 <= inner_end,
        inner_end + 2 <= end,
        end + 2 <= src.len(),
        src[pos] == '/',
        opens(src, pos),
        opens(src, inner),
        closes(src, inner_end),
        closes(src, end),
        plain_text(src, pos + 2, inner),
        plain_text(src, inner + 2, inner_end),
        plain_text(src, inner_end + 2, end),
    ensures
        step_at(src, pos, line).found == Lexeme::Skip,
        step_at(src, pos, line).next == end + 2,
{
    let l1 = line_at(src, pos + 2, inner, line);
    comment_passes_plain_text(src, pos + 2, inner, 1, line);
    assert(comment_end(src, inner, 1, l1) == comment_end(src, inner + 2, 2, l1));
    let l2 = line_at(src, inner + 2, inner_end, l1);
    comment_passes_plain_text(src, inner + 2, inner_end, 2, l1);
    assert(comment_end(src, inner_end, 2, l2) == comment_end(src, inner_end + 2, 1, l2));
    let l3 = line_at(src, inner_end + 2, end, l2);
    comment_passes_plain_text(src, inner_end + 2, end, 1, l2);
    assert(comment_end(src, end, 1, l3) == comment_end(src, end + 2, 0, l3));
    assert(comment_end(src, end + 2, 0, l3) == (end + 2, l3, 0nat));
    assert(step_at(src, pos, line) == slash(src, pos, line));
}

/// Unterminated comments. A block comment in which no comment closes
/// fails with an error that names the last line of the input.
pub proof fn unterminated_comment_fails(src: Seq<char>, pos: int, line: nat, done: Seq<TokenView>)
    requires
        0 <= pos,
        pos + 2 <= src.len(),
        opens(src, pos),
        forall|j: int| pos + 2 <= j < src.len() ==> !closes(src, j),
    ensures
        scan_from(src, pos, line, done) is Err,
        step_at(src, pos, line).found is Error,
{
    comment_stays_open(src, pos + 2, 1, line);
    assert(step_at(src, pos, line) == slash(src, pos, line));
}

/// A comment in which no comment closes is open at the end of the input.
pub proof fn comment_stays_open(src: Seq<char>, from: int, depth: nat, line: nat)
    requires
        depth > 0,
        0 <= from <= src.len(),
        forall|j: int| from <= j < src.len() ==> !closes(src, j),
    ensures
        comment_end(src, from, depth, line).2 > 0,
    decreases src.len() - from,
{
    if from < src.len() {
        assert(!closes(src, from));
        if opens(src, from) {
            comment_stays_open(src, from + 2, depth + 1, line);
        } else {
            comment_stays_open(src, from + 1, depth, line_after(src[from], line));
        }
    }
}


/// Whether the lines of `a` are the first lines of `b`.
pub open spec fn begins(a: Seq<Seq<char>>, b: Seq<Seq<char>>) -> bool {
    a.len() <= b.len() && b.take(a.len() as int) == a
}

/// Lines that begin lines that begin others begin those.
pub proof fn begins_chain(a: Seq<Seq<char>>, b: Seq<Seq<char>>, c: Seq<Seq<char>>)
    requires
        begins(a, b),
        begins(b, c),
    ensures
        begins(a, c),
{
    assert(c.take(a.len() as int) =~= c.take(b.len() as int).take(a.len() as int));
}

/// What stays of the state `a` in the state `b` that running code leaves:
/// every line printed, in its place, and the clock: it is held or runs as
/// before, with the same readings, of which none is handed out again.
pub open spec fn lasts(a: EvaluatorView, b: EvaluatorView) -> bool {
    begins(a.output, b.output) && b.held == a.held && b.readings == a.readings && a.taken
        <= b.taken
}

/// Evaluating an expression takes back nothing that was printed.
pub proof fn eval_expr_lasts(st: EvaluatorView, e: ExprView, fuel: nat)
    ensures
        lasts(st, eval_expr(st, e, fuel).0),
    decreases fuel, 1nat, e, 0nat,
{
    assert(st.output.take(st.output.len() as int) =~= st.output);
    match e {
        ExprView::Grouping { expression } => {
            eval_expr_lasts(st, *expression, fuel);
        },
        ExprView::Unary { operator, operand } => {
            eval_expr_lasts(st, *operand, fuel);
        },
        ExprView::Binary { left, operator, right } => {
            eval_expr_lasts(st, *left, fuel);
            let (st1, l) = eval_expr(st, *left, fuel);
            if l is Ok {
                eval_expr_lasts(st1, *right, fuel);
                begins_chain(st.output, st1.output, eval_expr(st1, *right, fuel).0.output);
            }
        },
        ExprView::Assign { name, value } => {
            eval_expr_lasts(st, *value, fuel);
        },
        ExprView::Call { callee, arguments } => {
            eval_expr_lasts(st, *callee, fuel);
            let (st1, f) = eval_expr(st, *callee, fuel);
            if let Ok(f) = f {
                eval_args_lasts(st1, arguments, Seq::empty(), fuel);
                let (st2, a) = eval_args(st1, arguments, Seq::empty(), fuel);
                begins_chain(st.output, st1.output, st2.output);
                if let Ok(args) = a {
                    call_lasts(st2, f, args, fuel);
                    begins_chain(st.output, st2.output, call_value(st2, f, args, fuel).0.output);
                }
            }
        },
        _ => {},
    }
}

/// A call takes back nothing that was printed.
pub proof fn call_lasts(st: EvaluatorView, callee: ValueView, args: Seq<ValueView>, fuel: nat)
    ensures
        lasts(st, call_value(st, callee, args, fuel).0),
    decreases fuel, 0nat, callee, 0nat,
{
    assert(st.output.take(st.output.len() as int) =~= st.output);
    match begin_call(st, callee, args, fuel) {
        CallStart::Done(st1, r) => {},
        CallStart::Run(st1, body) => {
            exec_list_lasts(st1, body, 0, ValueView::Nil, (fuel - 1) as nat);
        },
    }
}

/// Evaluating arguments takes back nothing that was printed.
pub proof fn eval_args_lasts(
    st: EvaluatorView,
    args: Seq<ExprView>,
    done: Seq<ValueView>,
    fuel: nat,
)
    ensures
        lasts(st, eval_args(st, args, done, fuel).0),
    decreases fuel, 1nat, args, args.len() - done.len(),
{
    assert(st.output.take(st.output.len() as int) =~= st.output);
    if done.len() < args.len() {
        eval_expr_lasts(st, args[done.len() as int], fuel);
        let (st1, v) = eval_expr(st, args[done.len() as int], fuel);
        if let Ok(v) = v {
            eval_args_lasts(st1, args, done.push(v), fuel);
            begins_chain(
                st.output,
                st1.output,
                eval_args(st1, args, done.push(v), fuel).0.output,
            );
        }
    }
}

/// Running a statement list takes back nothing that was printed.
pub proof fn exec_list_lasts(
    st: EvaluatorView,
    stmts: Seq<StmtView>,
    from: nat,
    last: ValueView,
    fuel: nat,
)
    ensures
        lasts(st, exec_list(st, stmts, from, last, fuel).0),
    decreases fuel, 2nat, stmts, stmts.len() - from,
{
    assert(st.output.take(st.output.len() as int) =~= st.output);
    if from < stmts.len() {
        exec_stmt_lasts(st, stmts[from as int], fuel);
        let (st1, r) = exec_stmt(st, stmts[from as int], fuel);
        if let EvalResultView::Return(v) = r {
            if !is_return(r) {
                exec_list_lasts(st1, stmts, from + 1, v, fuel);
                begins_chain(
                    st.output,
                    st1.output,
                    exec_list(st1, stmts, from + 1, v, fuel).0.output,
                );
            }
        }
    }
}

/// Running a loop takes back nothing that was printed.
pub proof fn exec_loop_lasts(st: EvaluatorView, s: StmtView, fuel: nat)
    ensures
        lasts(st, exec_loop(st, s, fuel).0),
    decreases fuel, 2nat, s, 0nat,
{
    assert(st.output.take(st.output.len() as int) =~= st.output);
    if let Some(condition) = loop_condition(s) {
        eval_expr_lasts(st, condition, fuel);
    }
    let (st1, c) = match loop_condition(s) {
        Some(condition) => eval_expr(st, condition, fuel),
        None => (st, Ok(ValueView::Boolean(true))),
    };
    if c == Ok::<ValueView, LoxErrorView>(ValueView::Boolean(true)) && fuel > 0 {
        let less = (fuel - 1) as nat;
        match s {
            StmtView::While(_, body) => {
                exec_stmt_lasts(st1, *body, less);
                let (st2, r) = exec_stmt(st1, *body, less);
                begins_chain(st.output, st1.output, st2.output);
                if !(r is Error || is_return(r)) {
                    exec_loop_lasts(st2, s, less);
                    begins_chain(st.output, st2.output, exec_loop(st2, s, less).0.output);
                }
            },
            StmtView::For { increment, body, .. } => {
                let scope = st1.environment.current;
                exec_stmt_lasts(st1.open_scope(), *body, less);
                let (st2, r) = exec_stmt(st1.open_scope(), *body, less);
                begins_chain(st.output, st1.output, st2.output);
                if !(r is Error || is_return(r)) {
                    if let Some(i) = increment {
                        eval_expr_lasts(st2, i, less);
                    }
                    let (st3, i) = match increment {
                        Some(i) => eval_expr(st2, i, less),
                        None => (st2, Ok(ValueView::Nil)),
                    };
                    assert(st2.output.take(st2.output.len() as int) =~= st2.output);
                    begins_chain(st.output, st2.output, st3.output);
                    if i is Ok {
                        let st4 = st3.close_scope(scope);
                        exec_loop_lasts(st4, s, less);
                        begins_chain(st.output, st4.output, exec_loop(st4, s, less).0.output);
                    }
                }
            },
            _ => {},
        }
    }
}

/// Output is kept. Whatever a statement does and however it ends, the
/// lines printed before it are there after it, in their places, and the
/// clock reading is the same; `print` alone adds a line.
pub proof fn exec_stmt_lasts(st: EvaluatorView, s: StmtView, fuel: nat)
    ensures
        lasts(st, exec_stmt(st, s, fuel).0),
    decreases fuel, 2nat, s, 1nat,
{
    assert(st.output.take(st.output.len() as int) =~= st.output);
    match s {
        StmtView::Expression(e) => {
            eval_expr_lasts(st, e, fuel);
        },
        StmtView::Print(e) => {
            eval_expr_lasts(st, e, fuel);
            let (st1, v) = eval_expr(st, e, fuel);
            if let Ok(v) = v {
                let line = crate::lox::evaluator::value_text(v);
                assert(st1.output.push(line).take(st1.output.len() as int) =~= st1.output);
                begins_chain(st.output, st1.output, st1.output.push(line));
            }
        },
        StmtView::Var { name, initializer } => {
            if let Some(e) = initializer {
                eval_expr_lasts(st, e, fuel);
            }
        },
        StmtView::Block(stmts) => {
            exec_list_lasts(st.open_scope(), stmts, 0, ValueView::Nil, fuel);
        },
        StmtView::If { condition, then_branch, else_branch } => {
            eval_expr_lasts(st, *condition, fuel);
            let (st1, c) = eval_expr(st, *condition, fuel);
            if c == Ok::<ValueView, LoxErrorView>(ValueView::Boolean(true)) {
                exec_stmt_lasts(st1, *then_branch, fuel);
                begins_chain(
                    st.output,
                    st1.output,
                    exec_stmt(st1, *then_branch, fuel).0.output,
                );
            } else if c == Ok::<ValueView, LoxErrorView>(ValueView::Boolean(false)) {
                if let Some(branch) = else_branch {
                    exec_stmt_lasts(st1, *branch, fuel);
                    begins_chain(
                        st.output,
                        st1.output,
                        exec_stmt(st1, *branch, fuel).0.output,
                    );
                }
            }
        },
        StmtView::While(_, _) => {
            exec_loop_lasts(st, s, fuel);
        },
        StmtView::For { initializer, .. } => {
            let st0 = st.open_scope();
            if let Some(i) = initializer {
                exec_stmt_lasts(st0, *i, fuel);
            }
            let (st1, r) = match initializer {
                Some(i) => exec_stmt(st0, *i, fuel),
                None => (st0, EvalResultView::Return(ValueView::Nil)),
            };
            if !(r is Error || is_return(r)) {
                exec_loop_lasts(st1, s, fuel);
                begins_chain(st.output, st1.output, exec_loop(st1, s, fuel).0.output);
            }
        },
        StmtView::Return { keyword, value } => {
            if let Some(e) = value {
                eval_expr_lasts(st, e, fuel);
            }
        },
        _ => {},
    }
}

/// Every token sequence that the scanner makes ends with the end-of-file
/// token, and holds no other.
pub proof fn one_end_of_file(src: Seq<char>, pos: int, line: nat, done: Seq<TokenView>)
    requires
        forall|i: int| 0 <= i < done.len() ==> (#[trigger] done[i]).token_type != TokenType::Eof,
    ensures
        scan_from(src, pos, line, done) matches Ok(tokens) ==> {
            &&& tokens.len() > 0
            &&& tokens.last().token_type == TokenType::Eof
            &&& forall|i: int|
                0 <= i < tokens.len() - 1 ==> (#[trigger] tokens[i]).token_type != TokenType::Eof
        },
    decreases src.len() - pos,
{
    if !(pos < 0 || pos >= src.len()) {
        let step = step_at(src, pos, line);
        let next = if pos < step.next <= src.len() {
            step.next
        } else {
            pos + 1
        };
        match step.found {
            Lexeme::Error(e) => {},
            Lexeme::Skip => {
                one_end_of_file(src, next, step.line, done);
            },
            Lexeme::Token(t) => {
                assert(t.token_type != TokenType::Eof);
                one_end_of_file(src, next, step.line, done.push(t));
            },
        }
    }
}


/// Whether the values of a table name no scope beyond the first `count`.
pub open spec fn table_grounded(entries: Seq<(Seq<char>, ValueView)>, count: nat) -> bool
    decreases entries,
{
    forall|i: int| 0 <= i < entries.len() ==> grounded(#[trigger] entries[i].1, count)
}

/// Whether a value names no scope beyond the first `count`: the scope of
/// every function in it is one of them.
pub open spec fn grounded(v: ValueView, count: nat) -> bool
    decreases v,
{
    match v {
        ValueView::Function { declaration, closure } => closure < count,
        ValueView::Return(inner) => grounded(*inner, count),
        ValueView::Class { name, methods } => table_grounded(methods, count),
        ValueView::Instance { class, fields } => grounded(*class, count) && table_grounded(
            fields,
            count,
        ),
        _ => true,
    }
}

/// Whether every value that the scopes hold names pinned scopes alone.
pub open spec fn all_grounded(env: EnvironmentView) -> bool {
    forall|i: int, j: int|
        0 <= i < env.scopes.len() && 0 <= j < env.scopes[i].values.len() ==> grounded(
            #[trigger] env.scopes[i].values[j],
            env.pinned,
        )
}

/// A value that names scopes among the first `count` names scopes among
/// more.
pub proof fn grounded_among_more(v: ValueView, count: nat, more: nat)
    requires
        grounded(v, count),
        count <= more,
    ensures
        grounded(v, more),
    decreases v,
{
    match v {
        ValueView::Return(inner) => {
            grounded_among_more(*inner, count, more);
        },
        ValueView::Class { name, methods } => {
            assert(table_grounded(methods, count));
            assert forall|i: int| 0 <= i < methods.len() implies grounded(
                #[trigger] methods[i].1,
                more,
            ) by {
                assert(grounded(methods[i].1, count));
                grounded_among_more(methods[i].1, count, more);
            }
            assert(table_grounded(methods, more));
        },
        ValueView::Instance { class, fields } => {
            grounded_among_more(*class, count, more);
            assert(table_grounded(fields, count));
            assert forall|i: int| 0 <= i < fields.len() implies grounded(
                #[trigger] fields[i].1,
                more,
            ) by {
                assert(grounded(fields[i].1, count));
                grounded_among_more(fields[i].1, count, more);
            }
            assert(table_grounded(fields, more));
        },
        _ => {},
    }
}

/// Whether a result holds a value that names scopes among the first
/// `count`, or none.
pub open spec fn outcome_grounded(r: Result<ValueView, LoxErrorView>, count: nat) -> bool {
    match r {
        Ok(v) => grounded(v, count),
        Err(_) => true,
    }
}

/// Whether the result of a statement holds a value that names scopes among
/// the first `count`, or none.
pub open spec fn result_grounded(r: EvalResultView, count: nat) -> bool {
    match r {
        EvalResultView::Return(v) => grounded(v, count),
        EvalResultView::Error(_) => true,
    }
}

/// Whether the state is sound: its scopes are well formed and every value
/// in them names pinned scopes alone, which stay for good.
pub open spec fn sound(st: EvaluatorView) -> bool {
    st.environment.wf() && all_grounded(st.environment)
}

/// A binding of a grounded value keeps the scopes grounded.
pub proof fn define_grounded(env: EnvironmentView, name: Seq<char>, value: ValueView)
    requires
        env.wf(),
        all_grounded(env),
        grounded(value, env.pinned),
    ensures
        all_grounded(env.define(name, value)),
{
    let after = env.define(name, value);
    assert forall|i: int, j: int|
        0 <= i < after.scopes.len() && 0 <= j < after.scopes[i].values.len() implies grounded(
        #[trigger] after.scopes[i].values[j],
        after.pinned,
    ) by {
        if i == env.current && j == env.scopes[i].values.len() {
        } else {
            assert(after.scopes[i].values[j] == env.scopes[i].values[j]);
        }
    }
}

/// The declaration of a function keeps the scopes grounded: its scope is
/// pinned.
pub proof fn declare_grounded(env: EnvironmentView, declaration: FunctionView)
    requires
        env.wf(),
        all_grounded(env),
    ensures
        all_grounded(
            env.define(
                declaration.name.lexeme,
                ValueView::Function { declaration, closure: env.current },
            ).pin(),
        ),
{
    let value = ValueView::Function { declaration, closure: env.current };
    let defined = env.define(declaration.name.lexeme, value);
    let after = defined.pin();
    assert forall|i: int, j: int|
        0 <= i < after.scopes.len() && 0 <= j < after.scopes[i].values.len() implies grounded(
        #[trigger] after.scopes[i].values[j],
        after.pinned,
    ) by {
        if i == env.current && j == env.scopes[i].values.len() {
        } else {
            assert(after.scopes[i].values[j] == env.scopes[i].values[j]);
            grounded_among_more(env.scopes[i].values[j], env.pinned, after.pinned);
        }
    }
}

/// An assignment of a grounded value keeps the scopes grounded.
pub proof fn assign_grounded(env: EnvironmentView, name: Seq<char>, value: ValueView)
    requires
        env.wf(),
        all_grounded(env),
        grounded(value, env.pinned),
        env.assign(name, value) is Some,
    ensures
        all_grounded(env.assign(name, value).unwrap()),
{
    let after = env.assign(name, value).unwrap();
    crate::lox::evaluator::holder_in_range(env, env.current, name);
    let s = env.holder(env.current, name).unwrap() as int;
    crate::lox::evaluator::position_in_range(env.scopes[s].names, name);
    let p = position(env.scopes[s].names, name).unwrap();
    assert(env.scopes[s].wf());
    assert forall|i: int, j: int|
        0 <= i < after.scopes.len() && 0 <= j < after.scopes[i].values.len() implies grounded(
        #[trigger] after.scopes[i].values[j],
        after.pinned,
    ) by {
        if i == s && j == p {
        } else {
            assert(after.scopes[i].values[j] == env.scopes[i].values[j]);
        }
    }
}

/// A new scope keeps the scopes grounded.
pub proof fn enter_grounded(env: EnvironmentView, parent: nat)
    requires
        env.wf(),
        all_grounded(env),
    ensures
        all_grounded(env.enter(parent)),
{
    let after = env.enter(parent);
    assert forall|i: int, j: int|
        0 <= i < after.scopes.len() && 0 <= j < after.scopes[i].values.len() implies grounded(
        #[trigger] after.scopes[i].values[j],
        after.pinned,
    ) by {
        assert(after.scopes[i] == env.scopes[i]);
    }
}

/// Leaving a scope keeps the scopes grounded.
pub proof fn leave_grounded(env: EnvironmentView, parent: nat)
    requires
        env.wf(),
        all_grounded(env),
    ensures
        all_grounded(env.leave(parent)),
{
    let after = env.leave(parent);
    assert forall|i: int, j: int|
        0 <= i < after.scopes.len() && 0 <= j < after.scopes[i].values.len() implies grounded(
        #[trigger] after.scopes[i].values[j],
        after.pinned,
    ) by {
        assert(after.scopes[i] == env.scopes[i]);
    }
}

/// Binding grounded arguments keeps the scopes grounded.
pub proof fn bind_grounded(
    env: EnvironmentView,
    params: Seq<TokenView>,
    args: Seq<ValueView>,
    from: nat,
)
    requires
        env.wf(),
        all_grounded(env),
        params.len() == args.len(),
        forall|i: int| 0 <= i < args.len() ==> grounded(#[trigger] args[i], env.pinned),
    ensures
        all_grounded(bind(env, params, args, from)),
    decreases params.len() - from,
{
    if from < params.len() {
        let next = env.define(params[from as int].lexeme, args[from as int]);
        define_keeps(env, params[from as int].lexeme, args[from as int]);
        define_grounded(env, params[from as int].lexeme, args[from as int]);
        bind_grounded(next, params, args, from + 1);
    }
}

/// The value of a name in grounded scopes is grounded.
pub proof fn lookup_grounded(env: EnvironmentView, name: Seq<char>)
    requires
        env.wf(),
        all_grounded(env),
    ensures
        env.lookup(name) matches Some(v) ==> grounded(v, env.pinned),
{
    crate::lox::evaluator::holder_in_range(env, env.current, name);
    if let Some(s) = env.holder(env.current, name) {
        crate::lox::evaluator::position_in_range(env.scopes[s as int].names, name);
        assert(env.scopes[s as int].wf());
    }
}

/// What an operator gives holds no function.
pub proof fn operators_give_plain_values(
    op: TokenType,
    l: ValueView,
    r: ValueView,
    count: nat,
)
    ensures
        outcome_grounded(crate::lox::evaluator::unary_value(op, l), count),
        outcome_grounded(crate::lox::evaluator::binary_value(op, l, r), count),
{
}

/// The value of a literal holds no function.
pub proof fn literals_are_plain_values(value: LiteralView, count: nat)
    ensures
        grounded(crate::lox::evaluator::literal_value(value), count),
{
}

/// Evaluating an expression in a sound state leaves a sound state and a
/// grounded value.
pub proof fn eval_expr_sound(st: EvaluatorView, e: ExprView, fuel: nat)
    requires
        sound(st),
    ensures
        sound(eval_expr(st, e, fuel).0),
        outcome_grounded(eval_expr(st, e, fuel).1, eval_expr(st, e, fuel).0.environment.pinned),
    decreases fuel, 1nat, e, 0nat,
{
    match e {
        ExprView::Literal { value } => {
            literals_are_plain_values(value, st.environment.pinned);
        },
        ExprView::Variable { name } => {
            lookup_grounded(st.environment, name.lexeme);
        },
        ExprView::Grouping { expression } => {
            eval_expr_sound(st, *expression, fuel);
        },
        ExprView::Unary { operator, operand } => {
            eval_expr_sound(st, *operand, fuel);
            let (st1, v) = eval_expr(st, *operand, fuel);
            if let Ok(v) = v {
                operators_give_plain_values(operator.token_type, v, v, st1.environment.pinned);
            }
        },
        ExprView::Binary { left, operator, right } => {
            eval_expr_sound(st, *left, fuel);
            let (st1, l) = eval_expr(st, *left, fuel);
            if let Ok(l) = l {
                eval_expr_sound(st1, *right, fuel);
                let (st2, r) = eval_expr(st1, *right, fuel);
                if let Ok(r) = r {
                    operators_give_plain_values(
                        operator.token_type,
                        l,
                        r,
                        st2.environment.pinned,
                    );
                }
            }
        },
        ExprView::Assign { name, value } => {
            eval_expr_sound(st, *value, fuel);
            let (st1, v) = eval_expr(st, *value, fuel);
            if let Ok(v) = v {
                if st1.environment.assign(name.lexeme, v) is Some {
                    assign_keeps(st1.environment, name.lexeme, v);
                    assign_grounded(st1.environment, name.lexeme, v);
                }
            }
        },
        ExprView::Call { callee, arguments } => {
            eval_expr_sound(st, *callee, fuel);
            let (st1, f) = eval_expr(st, *callee, fuel);
            if let Ok(f) = f {
                eval_args_sound(st1, arguments, Seq::empty(), fuel);
                let (st2, a) = eval_args(st1, arguments, Seq::empty(), fuel);
                eval_args_keeps(st1, arguments, Seq::empty(), fuel);
                grounded_among_more(f, st1.environment.pinned, st2.environment.pinned);
                if let Ok(args) = a {
                    call_sound(st2, f, args, fuel);
                }
            }
        },
        _ => {},
    }
}

/// A call in a sound state, of a grounded value on grounded arguments,
/// leaves a sound state and a grounded value.
pub proof fn call_sound(st: EvaluatorView, callee: ValueView, args: Seq<ValueView>, fuel: nat)
    requires
        sound(st),
        grounded(callee, st.environment.pinned),
        forall|i: int| 0 <= i < args.len() ==> grounded(#[trigger] args[i], st.environment.pinned),
    ensures
        sound(call_value(st, callee, args, fuel).0),
        outcome_grounded(
            call_value(st, callee, args, fuel).1,
            call_value(st, callee, args, fuel).0.environment.pinned,
        ),
    decreases fuel, 0nat, callee, 0nat,
{
    match begin_call(st, callee, args, fuel) {
        CallStart::Done(st1, r) => {},
        CallStart::Run(st1, body) => {
            let closure = callee->closure;
            let params = callee->declaration.params;
            let entered = st.environment.enter(closure);
            enter_wf(st.environment, closure);
            enter_grounded(st.environment, closure);
            bind_keeps(entered, params, args, 0);
            bind_grounded(entered, params, args, 0);
            exec_list_sound(st1, body, 0, ValueView::Nil, (fuel - 1) as nat);
            call_keeps(st, callee, args, fuel);
            let (st2, r) = exec_list(st1, body, 0, ValueView::Nil, (fuel - 1) as nat);
            leave_grounded(st2.environment, st.environment.current);
        },
    }
}

/// Evaluating arguments in a sound state leaves a sound state and grounded
/// values.
pub proof fn eval_args_sound(
    st: EvaluatorView,
    args: Seq<ExprView>,
    done: Seq<ValueView>,
    fuel: nat,
)
    requires
        sound(st),
        forall|i: int| 0 <= i < done.len() ==> grounded(#[trigger] done[i], st.environment.pinned),
    ensures
        sound(eval_args(st, args, done, fuel).0),
        eval_args(st, args, done, fuel).1 matches Ok(values) ==> forall|i: int|
            0 <= i < values.len() ==> grounded(
                #[trigger] values[i],
                eval_args(st, args, done, fuel).0.environment.pinned,
            ),
    decreases fuel, 1nat, args, args.len() - done.len(),
{
    if done.len() < args.len() {
        eval_expr_sound(st, args[done.len() as int], fuel);
        eval_expr_keeps(st, args[done.len() as int], fuel);
        let (st1, v) = eval_expr(st, args[done.len() as int], fuel);
        if let Ok(v) = v {
            let next = done.push(v);
            assert forall|i: int| 0 <= i < next.len() implies grounded(
                #[trigger] next[i],
                st1.environment.pinned,
            ) by {
                if i < done.len() {
                    grounded_among_more(done[i], st.environment.pinned, st1.environment.pinned);
                }
            }
            eval_args_sound(st1, args, next, fuel);
        }
    }
}

/// Running a statement list in a sound state leaves a sound state and a
/// grounded value.
pub proof fn exec_list_sound(
    st: EvaluatorView,
    stmts: Seq<StmtView>,
    from: nat,
    last: ValueView,
    fuel: nat,
)
    requires
        sound(st),
        grounded(last, st.environment.pinned),
    ensures
        sound(exec_list(st, stmts, from, last, fuel).0),
        result_grounded(
            exec_list(st, stmts, from, last, fuel).1,
            exec_list(st, stmts, from, last, fuel).0.environment.pinned,
        ),
    decreases fuel, 2nat, stmts, stmts.len() - from,
{
    if from < stmts.len() {
        exec_stmt_sound(st, stmts[from as int], fuel);
        let (st1, r) = exec_stmt(st, stmts[from as int], fuel);
        if let EvalResultView::Return(v) = r {
            if !is_return(r) {
                exec_list_sound(st1, stmts, from + 1, v, fuel);
            }
        }
    }
}

/// Running a loop in a sound state leaves a sound state and a grounded
/// value.
pub proof fn exec_loop_sound(st: EvaluatorView, s: StmtView, fuel: nat)
    requires
        sound(st),
    ensures
        sound(exec_loop(st, s, fuel).0),
        result_grounded(exec_loop(st, s, fuel).1, exec_loop(st, s, fuel).0.environment.pinned),
    decreases fuel, 2nat, s, 0nat,
{
    if let Some(condition) = loop_condition(s) {
        eval_expr_sound(st, condition, fuel);
    }
    let (st1, c) = match loop_condition(s) {
        Some(condition) => eval_expr(st, condition, fuel),
        None => (st, Ok(ValueView::Boolean(true))),
    };
    if c == Ok::<ValueView, LoxErrorView>(ValueView::Boolean(true)) && fuel > 0 {
        let less = (fuel - 1) as nat;
        match s {
            StmtView::While(_, body) => {
                exec_stmt_sound(st1, *body, less);
                let (st2, r) = exec_stmt(st1, *body, less);
                if !(r is Error || is_return(r)) {
                    exec_loop_sound(st2, s, less);
                }
            },
            StmtView::For { increment, body, .. } => {
                let scope = st1.environment.current;
                enter_wf(st1.environment, scope);
                enter_grounded(st1.environment, scope);
                exec_stmt_sound(st1.open_scope(), *body, less);
                exec_stmt_keeps(st1.open_scope(), *body, less);
                let (st2, r) = exec_stmt(st1.open_scope(), *body, less);
                scoped_keeps(st1.environment, scope, st2.environment);
                leave_grounded(st2.environment, scope);
                if !(r is Error || is_return(r)) {
                    if let Some(i) = increment {
                        eval_expr_sound(st2, i, less);
                        eval_expr_keeps(st2, i, less);
                    }
                    let (st3, i) = match increment {
                        Some(i) => eval_expr(st2, i, less),
                        None => (st2, Ok(ValueView::Nil)),
                    };
                    keeps_itself(st2.environment);
                    keeps_chain(st1.open_scope().environment, st2.environment, st3.environment);
                    scoped_keeps(st1.environment, scope, st3.environment);
                    leave_grounded(st3.environment, scope);
                    if i is Ok {
                        exec_loop_sound(st3.close_scope(scope), s, less);
                    }
                }
            },
            _ => {},
        }
    }
}

/// Soundness is kept. In a state whose values name pinned scopes alone, a
/// statement leaves such a state, and a value that names such scopes: no
/// function is ever without the scope of its declaration.
pub proof fn exec_stmt_sound(st: EvaluatorView, s: StmtView, fuel: nat)
    requires
        sound(st),
    ensures
        sound(exec_stmt(st, s, fuel).0),
        result_grounded(exec_stmt(st, s, fuel).1, exec_stmt(st, s, fuel).0.environment.pinned),
    decreases fuel, 2nat, s, 1nat,
{
    let current = st.environment.current;
    match s {
        StmtView::Expression(e) => {
            eval_expr_sound(st, e, fuel);
        },
        StmtView::Print(e) => {
            eval_expr_sound(st, e, fuel);
        },
        StmtView::Var { name, initializer } => {
            if let Some(e) = initializer {
                eval_expr_sound(st, e, fuel);
            }
            let (st1, v) = match initializer {
                Some(e) => eval_expr(st, e, fuel),
                None => (st, Ok(ValueView::Nil)),
            };
            if let Ok(v) = v {
                define_keeps(st1.environment, name.lexeme, v);
                define_grounded(st1.environment, name.lexeme, v);
            }
        },
        StmtView::Block(stmts) => {
            enter_wf(st.environment, current);
            enter_grounded(st.environment, current);
            exec_list_sound(st.open_scope(), stmts, 0, ValueView::Nil, fuel);
            exec_list_keeps(st.open_scope(), stmts, 0, ValueView::Nil, fuel);
            let (st1, r) = exec_list(st.open_scope(), stmts, 0, ValueView::Nil, fuel);
            scoped_keeps(st.environment, current, st1.environment);
            leave_grounded(st1.environment, current);
        },
        StmtView::If { condition, then_branch, else_branch } => {
            eval_expr_sound(st, *condition, fuel);
            let (st1, c) = eval_expr(st, *condition, fuel);
            if c == Ok::<ValueView, LoxErrorView>(ValueView::Boolean(true)) {
                exec_stmt_sound(st1, *then_branch, fuel);
            } else if c == Ok::<ValueView, LoxErrorView>(ValueView::Boolean(false)) {
                if let Some(branch) = else_branch {
                    exec_stmt_sound(st1, *branch, fuel);
                }
            }
        },
        StmtView::While(_, _) => {
            exec_loop_sound(st, s, fuel);
        },
        StmtView::For { initializer, .. } => {
            enter_wf(st.environment, current);
            enter_grounded(st.environment, current);
            let st0 = st.open_scope();
            keeps_itself(st0.environment);
            if let Some(i) = initializer {
                exec_stmt_sound(st0, *i, fuel);
                exec_stmt_keeps(st0, *i, fuel);
            }
            let (st1, r) = match initializer {
                Some(i) => exec_stmt(st0, *i, fuel),
                None => (st0, EvalResultView::Return(ValueView::Nil)),
            };
            if r is Error || is_return(r) {
                scoped_keeps(st.environment, current, st1.environment);
                leave_grounded(st1.environment, current);
            } else {
                exec_loop_sound(st1, s, fuel);
                exec_loop_keeps(st1, s, fuel);
                let (st2, r2) = exec_loop(st1, s, fuel);
                keeps_chain(st0.environment, st1.environment, st2.environment);
                scoped_keeps(st.environment, current, st2.environment);
                leave_grounded(st2.environment, current);
            }
        },
        StmtView::Function(declaration) => {
            let value = ValueView::Function { declaration, closure: current };
            define_keeps(st.environment, declaration.name.lexeme, value);
            pin_keeps(st.environment.define(declaration.name.lexeme, value));
            declare_grounded(st.environment, declaration);
        },
        StmtView::Return { keyword, value } => {
            if let Some(e) = value {
                eval_expr_sound(st, e, fuel);
            }
        },
        StmtView::Class { .. } => {},
    }
}

/// The state of a new evaluator is sound.
pub proof fn initial_state_is_sound()
    ensures
        sound(EvaluatorView::initial()),
{
}

/// In a sound state every function that a name gives has the scope of its
/// declaration, which is pinned: a call of it does not fail for want of
/// that scope.
pub proof fn functions_have_scopes(st: EvaluatorView, name: Seq<char>)
    requires
        sound(st),
    ensures
        st.environment.lookup(name) matches Some(ValueView::Function { declaration, closure })
            ==> closure < st.environment.pinned && closure < st.environment.scopes.len(),
{
    lookup_grounded(st.environment, name);
}


/// The decimal that stands for a number is read back as that number, and
/// has no more than 17 digits; or it is the exact expansion of the number.
pub proof fn shortest_reads_back(bits: u64, exact: Scientific, p: nat)
    requires
        p >= 1,
    ensures
        ({
            let decimal = shortest(bits, exact, p);
            decimal == exact || (reads_back(bits, decimal) && decimal.digits.len() <= 17)
        }),
    decreases 18 - p,
{
    if !(p >= exact.digits.len() || p > 17) {
        let near = crate::lox::number::rounded(exact, p, crate::lox::number::rounds_up(exact, p));
        let far = crate::lox::number::rounded(exact, p, !crate::lox::number::rounds_up(exact, p));
        rounded_is_short(exact, p, true);
        rounded_is_short(exact, p, false);
        if !reads_back(bits, near) && !reads_back(bits, far) {
            shortest_reads_back(bits, exact, p + 1);
        }
    }
}

/// Stripping zeros makes no text longer.
pub proof fn strip_is_short(s: Seq<char>)
    ensures
        crate::lox::number::strip_zeros(s).len() <= s.len(),
    decreases s.len(),
{
    if s.len() > 1 && s.last() == '0' {
        strip_is_short(s.drop_last());
    }
}

/// A decimal rounded to `p` digits has no more than `p` digits.
pub proof fn rounded_is_short(exact: Scientific, p: nat, up: bool)
    requires
        1 <= p <= exact.digits.len(),
    ensures
        crate::lox::number::rounded(exact, p, up).digits.len() <= p,
{
    let head = exact.digits.take(p as int);
    strip_is_short(head);
    strip_is_short(crate::lox::number::incremented(head));
}

/// A program that parses is parsed to its end: the parser stops where
/// nothing but the end of the input is left.
pub proof fn parse_reaches_end(tokens: Seq<TokenView>, pos: int, done: Seq<StmtView>)
    ensures
        program(tokens, pos, done).result is Ok ==> at_end(tokens, program(tokens, pos, done).pos),
    decreases tokens.len() - pos,
{
    if !at_end(tokens, pos) {
        let next = declaration(tokens, pos, 0, false);
        if let Ok(s) = next.result {
            parse_reaches_end(
                tokens,
                crate::lox::parser::reached(next.pos, pos + 1, tokens),
                done.push(s),
            );
        }
    }
}

} // verus!
