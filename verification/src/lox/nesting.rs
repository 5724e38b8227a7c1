//! Statements inside statements: the way from a statement to one nested in
//! it, and what a `return` at the end of such a way does.
use crate::lox::ast::{ExprView, FunctionView, StmtView};
use crate::lox::error::LoxErrorView;
use crate::lox::evaluator::{
    begin_call, call_value, eval_expr, exec_list, exec_loop, exec_stmt, is_return, loop_condition,
    EvalResultView, EvaluatorView, ValueView,
};
use crate::lox::laws::call_keeps;
use crate::lox::token::TokenView;
use vstd::prelude::*;

verus! {

/// One step from a statement to a statement inside it.
pub enum Inward {
    /// To the statement at this index of a block.
    Item(nat),
    /// To the first branch of an `if`.
    Then,
    /// To the second branch of an `if`.
    Else,
    /// To the body of a loop, in the iteration of this number, counted
    /// from zero.
    Body(nat),
}

/// The state, and the value of the last statement, after the statements
/// from `from` up to `to` of a list, where each of them ends without an
/// error and without a `return`.
pub open spec fn passes(
    st: EvaluatorView,
    stmts: Seq<StmtView>,
    from: nat,
    to: nat,
    last: ValueView,
    fuel: nat,
) -> Option<(EvaluatorView, ValueView)>
    decreases to - from,
{
    if from >= to {
        Some((st, last))
    } else if from >= stmts.len() {
        None
    } else {
        let (st1, r) = exec_stmt(st, stmts[from as int], fuel);
        match r {
            EvalResultView::Error(_) => None,
            EvalResultView::Return(v) => if is_return(r) {
                None
            } else {
                passes(st1, stmts, from + 1, to, v, fuel)
            },
        }
    }
}

/// The body of a loop.
pub open spec fn loop_body(s: StmtView) -> StmtView {
    match s {
        StmtView::While(_, body) => *body,
        StmtView::For { body, .. } => *body,
        _ => s,
    }
}

/// The state in which the loop `s`, run as a statement in `st`, tests its
/// condition for the first time: a `for` has opened its scope and run its
/// initializer.
pub open spec fn loop_start(st: EvaluatorView, s: StmtView, fuel: nat) -> Option<EvaluatorView> {
    match s {
        StmtView::While(_, _) => Some(st),
        StmtView::For { initializer, .. } => {
            let (st1, r) = match initializer {
                Some(i) => exec_stmt(st.open_scope(), *i, fuel),
                None => (st.open_scope(), EvalResultView::Return(ValueView::Nil)),
            };
            if r is Error || is_return(r) {
                None
            } else {
                Some(st1)
            }
        },
        _ => None,
    }
}

/// The state after the test of an iteration that begins in `st`, where the
/// condition is true and fuel is left.
pub open spec fn tested(st: EvaluatorView, s: StmtView, fuel: nat) -> Option<EvaluatorView> {
    let (st1, c) = match loop_condition(s) {
        Some(condition) => eval_expr(st, condition, fuel),
        None => (st, Ok(ValueView::Boolean(true))),
    };
    if c == Ok::<ValueView, LoxErrorView>(ValueView::Boolean(true)) && fuel > 0 && (s is While
        || s is For) {
        Some(st1)
    } else {
        None
    }
}

/// The state in which the body runs after the test left `st`: the body of
/// a `for` has a scope of its own.
pub open spec fn body_state(st: EvaluatorView, s: StmtView) -> EvaluatorView {
    if s is For {
        st.open_scope()
    } else {
        st
    }
}

/// The state after one whole iteration that begins in `st`: the condition
/// is true, the body ends without an error and without a `return`, and the
/// increment has a value.
pub open spec fn turn(st: EvaluatorView, s: StmtView, fuel: nat) -> Option<EvaluatorView> {
    match tested(st, s, fuel) {
        None => None,
        Some(st1) => {
            let (st2, r) = exec_stmt(body_state(st1, s), loop_body(s), (fuel - 1) as nat);
            if r is Error || is_return(r) {
                None
            } else {
                match s {
                    StmtView::For { increment, .. } => {
                        let (st3, i) = match increment {
                            Some(i) => eval_expr(st2, i, (fuel - 1) as nat),
                            None => (st2, Ok(ValueView::Nil)),
                        };
                        if i is Ok {
                            Some(st3.close_scope(st1.environment.current))
                        } else {
                            None
                        }
                    },
                    _ => Some(st2),
                }
            }
        },
    }
}

/// The state after `count` whole iterations, the first of which begins in
/// `st`.
pub open spec fn turns(st: EvaluatorView, s: StmtView, fuel: nat, count: nat) -> Option<
    EvaluatorView,
>
    decreases count,
{
    if count == 0 {
        Some(st)
    } else {
        match turn(st, s, fuel) {
            Some(st1) => turns(st1, s, (fuel - 1) as nat, (count - 1) as nat),
            None => None,
        }
    }
}

/// Where control arrives when it goes the way `path` into the statement
/// `s`, run in `st`: the state, the statement and the fuel at the end of
/// the way. Control goes a step into a block where the statements before
/// the index end without an error and without a `return`, into a branch
/// where the condition selects it, and into the body of a loop where the
/// iterations before end so and the condition is true once more.
pub open spec fn arrives(st: EvaluatorView, s: StmtView, fuel: nat, path: Seq<Inward>) -> Option<
    (EvaluatorView, StmtView, nat),
>
    decreases path.len(),
{
    if path.len() == 0 {
        Some((st, s, fuel))
    } else {
        let rest = path.drop_first();
        match path[0] {
            Inward::Item(index) => match s {
                StmtView::Block(stmts) => if index < stmts.len() {
                    match passes(st.open_scope(), stmts, 0, index, ValueView::Nil, fuel) {
                        Some((st1, _)) => arrives(st1, stmts[index as int], fuel, rest),
                        None => None,
                    }
                } else {
                    None
                },
                _ => None,
            },
            Inward::Then => match s {
                StmtView::If { condition, then_branch, else_branch } => {
                    let (st1, c) = eval_expr(st, *condition, fuel);
                    if c == Ok::<ValueView, LoxErrorView>(ValueView::Boolean(true)) {
                        arrives(st1, *then_branch, fuel, rest)
                    } else {
                        None
                    }
                },
                _ => None,
            },
            Inward::Else => match s {
                StmtView::If { condition, then_branch, else_branch: Some(branch) } => {
                    let (st1, c) = eval_expr(st, *condition, fuel);
                    if c == Ok::<ValueView, LoxErrorView>(ValueView::Boolean(false)) {
                        arrives(st1, *branch, fuel, rest)
                    } else {
                        None
                    }
                },
                _ => None,
            },
            Inward::Body(count) => match loop_start(st, s, fuel) {
                Some(st0) => match turns(st0, s, fuel, count) {
                    Some(st1) => match tested(st1, s, (fuel - count) as nat) {
                        Some(st2) => arrives(
                            body_state(st2, s),
                            loop_body(s),
                            (fuel - count - 1) as nat,
                            rest,
                        ),
                        None => None,
                    },
                    None => None,
                },
                None => None,
            },
        }
    }
}

/// After statements that end without an error and without a `return`, the
/// list goes on with the next.
pub proof fn passes_then_rest(
    st: EvaluatorView,
    stmts: Seq<StmtView>,
    from: nat,
    to: nat,
    last: ValueView,
    fuel: nat,
)
    requires
        from <= to,
        passes(st, stmts, from, to, last, fuel) is Some,
    ensures
        ({
            let (st1, v) = passes(st, stmts, from, to, last, fuel)->Some_0;
            exec_list(st, stmts, from, last, fuel) == exec_list(st1, stmts, to, v, fuel)
        }),
    decreases to - from,
{
    if from < to {
        let (st1, r) = exec_stmt(st, stmts[from as int], fuel);
        passes_then_rest(st1, stmts, from + 1, to, r->Return_0, fuel);
    }
}

/// After whole iterations the loop goes on with the next, with a unit of
/// fuel less for each.
pub proof fn turns_then_rest(st: EvaluatorView, s: StmtView, fuel: nat, count: nat)
    requires
        turns(st, s, fuel, count) is Some,
    ensures
        count <= fuel,
        exec_loop(st, s, fuel) == exec_loop(
            turns(st, s, fuel, count)->Some_0,
            s,
            (fuel - count) as nat,
        ),
    decreases count,
{
    if count > 0 {
        let st1 = turn(st, s, fuel)->Some_0;
        turns_then_rest(st1, s, (fuel - 1) as nat, (count - 1) as nat);
    }
}

/// A `return` that ends the body of a loop ends the loop: the loop has the
/// result of the body, and nothing more is printed.
pub proof fn return_ends_loop(st: EvaluatorView, s: StmtView, fuel: nat)
    requires
        tested(st, s, fuel) is Some,
        is_return(
            exec_stmt(
                body_state(tested(st, s, fuel)->Some_0, s),
                loop_body(s),
                (fuel - 1) as nat,
            ).1,
        ),
    ensures
        ({
            let body = exec_stmt(
                body_state(tested(st, s, fuel)->Some_0, s),
                loop_body(s),
                (fuel - 1) as nat,
            );
            exec_loop(st, s, fuel).1 == body.1 && exec_loop(st, s, fuel).0.output == body.0.output
        }),
{
}

/// Non-local return, through any nesting. Where control arrives at a
/// statement that ends with a `return`, going any way through blocks,
/// branches and loop bodies, the statement at the start of the way ends
/// with that `return`: it has the same result, and nothing is printed
/// after it.
pub proof fn return_unwinds(st: EvaluatorView, s: StmtView, fuel: nat, path: Seq<Inward>)
    requires
        arrives(st, s, fuel, path) is Some,
        ({
            let (st1, s1, fuel1) = arrives(st, s, fuel, path)->Some_0;
            is_return(exec_stmt(st1, s1, fuel1).1)
        }),
    ensures
        ({
            let (st1, s1, fuel1) = arrives(st, s, fuel, path)->Some_0;
            exec_stmt(st, s, fuel).1 == exec_stmt(st1, s1, fuel1).1 && exec_stmt(
                st,
                s,
                fuel,
            ).0.output == exec_stmt(st1, s1, fuel1).0.output
        }),
    decreases path.len(),
{
    if path.len() > 0 {
        let rest = path.drop_first();
        match path[0] {
            Inward::Item(index) => {
                let stmts = s->Block_0;
                let (st1, last) = passes(st.open_scope(), stmts, 0, index, ValueView::Nil, fuel)->Some_0;
                passes_then_rest(st.open_scope(), stmts, 0, index, ValueView::Nil, fuel);
                return_unwinds(st1, stmts[index as int], fuel, rest);
            },
            Inward::Then => {
                let (st1, c) = eval_expr(st, *s->If_condition, fuel);
                return_unwinds(st1, *s->If_then_branch, fuel, rest);
            },
            Inward::Else => {
                let (st1, c) = eval_expr(st, *s->If_condition, fuel);
                return_unwinds(st1, *s->If_else_branch->Some_0, fuel, rest);
            },
            Inward::Body(count) => {
                let st0 = loop_start(st, s, fuel)->Some_0;
                let st1 = turns(st0, s, fuel, count)->Some_0;
                turns_then_rest(st0, s, fuel, count);
                let left = (fuel - count) as nat;
                let st2 = tested(st1, s, left)->Some_0;
                return_unwinds(body_state(st2, s), loop_body(s), (left - 1) as nat, rest);
                return_ends_loop(st1, s, left);
                if s is While {
                    assert(exec_stmt(st, s, fuel) == exec_loop(st, s, fuel));
                }
            },
        }
    }
}

/// Non-local return from a call. Where the body of a function gets to a
/// `return` with a value, which stands in the statement `index` of the
/// body at the end of any way through blocks, branches and loop bodies,
/// the call has that value. Nothing is printed after the value was
/// computed, so no later statement ran, and the scope of the caller is
/// current again.
pub proof fn return_ends_call(
    st: EvaluatorView,
    declaration: FunctionView,
    closure: nat,
    args: Seq<ValueView>,
    fuel: nat,
    index: nat,
    path: Seq<Inward>,
    keyword: TokenView,
    value: ExprView,
    v: ValueView,
)
    requires
        st.environment.wf(),
        begin_call(st, ValueView::Function { declaration, closure }, args, fuel) is Run,
        index < declaration.body.len(),
        ({
            let entry = begin_call(
                st,
                ValueView::Function { declaration, closure },
                args,
                fuel,
            )->Run_0;
            let before = passes(
                entry,
                declaration.body,
                0,
                index,
                ValueView::Nil,
                (fuel - 1) as nat,
            );
            &&& before is Some
            &&& arrives(
                before->Some_0.0,
                declaration.body[index as int],
                (fuel - 1) as nat,
                path,
            ) matches Some((st1, s1, fuel1)) && s1 == (StmtView::Return {
                keyword,
                value: Some(value),
            }) && eval_expr(st1, value, fuel1).1 == Ok::<ValueView, LoxErrorView>(v)
        }),
    ensures
        ({
            let entry = begin_call(
                st,
                ValueView::Function { declaration, closure },
                args,
                fuel,
            )->Run_0;
            let before = passes(
                entry,
                declaration.body,
                0,
                index,
                ValueView::Nil,
                (fuel - 1) as nat,
            )->Some_0.0;
            let (st1, s1, fuel1) = arrives(
                before,
                declaration.body[index as int],
                (fuel - 1) as nat,
                path,
            )->Some_0;
            let after = call_value(st, ValueView::Function { declaration, closure }, args, fuel);
            &&& after.1 == Ok::<ValueView, LoxErrorView>(v)
            &&& after.0.output == eval_expr(st1, value, fuel1).0.output
            &&& after.0.environment.current == st.environment.current
        }),
{
    let callee = ValueView::Function { declaration, closure };
    let entry = begin_call(st, callee, args, fuel)->Run_0;
    let left = (fuel - 1) as nat;
    let before = passes(entry, declaration.body, 0, index, ValueView::Nil, left)->Some_0;
    passes_then_rest(entry, declaration.body, 0, index, ValueView::Nil, left);
    let (st1, s1, fuel1) = arrives(before.0, declaration.body[index as int], left, path)->Some_0;
    assert(is_return(exec_stmt(st1, s1, fuel1).1));
    return_unwinds(before.0, declaration.body[index as int], left, path);
    call_keeps(st, callee, args, fuel);
}

} // verus!
