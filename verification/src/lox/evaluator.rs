//! The tree-walking evaluator: values, environments and execution.
use crate::lox::ast::{
    exprs_view, stmts_view, Expr, ExprView, FunctionDecl, FunctionView, Stmt, StmtView,
};
use crate::lox::error::{LoxError, LoxErrorView};
use crate::lox::number::{
    difference_bits, display_text, equal, integer_bits, is_zero, less, negated, product_bits,
    quotient_bits, remainder_bits, sum_bits, Number,
};
use crate::lox::text::{nat_string, nat_text, push_text, string_of};
use crate::lox::token::{Token, TokenView};
use crate::lox::token_type::{LiteralValue, LiteralView, TokenType};
use crate::share;
use crate::lox::text::same_text;
use std::rc::Rc;
use std::time::{Duration, SystemTime, SystemTimeError};
use vstd::prelude::*;

verus! {

/// The functions that the host provides.
#[derive(Debug, Clone, Copy, PartialEq, Eq, Structural)]
pub enum NativeFunction {
    /// Seconds since the Unix epoch.
    Clock,
}

/// A value at run time.
#[derive(Debug)]
pub enum Value {
    Nil,
    Boolean(bool),
    Number(Number),
    String(String),
    /// The value of a `return` on its way out of the function.
    Return(Box<Value>),
    /// A function with the scope in which it was declared.
    Function { declaration: Rc<FunctionDecl>, closure: usize },
    Class { name: String, methods: Rc<Vec<(String, Value)>> },
    Instance { class: Rc<Value>, fields: Rc<Vec<(String, Value)>> },
    NativeFunction(NativeFunction),
}

/// The mathematical content of a `Value`.
pub enum ValueView {
    Nil,
    Boolean(bool),
    Number(u64),
    String(Seq<char>),
    Return(Box<ValueView>),
    Function { declaration: FunctionView, closure: nat },
    Class { name: Seq<char>, methods: Seq<(Seq<char>, ValueView)> },
    Instance { class: Box<ValueView>, fields: Seq<(Seq<char>, ValueView)> },
    NativeFunction(NativeFunction),
}

/// The contents of a table of named values.
pub open spec fn table_view(entries: Seq<(String, Value)>) -> Seq<(Seq<char>, ValueView)>
    decreases entries,
{
    Seq::new(
        entries.len(),
        |i: int|
            if 0 <= i < entries.len() {
                (entries[i].0@, value_view(entries[i].1))
            } else {
                arbitrary()
            },
    )
}

/// The content of a value.
pub open spec fn value_view(v: Value) -> ValueView
    decreases v,
{
    match v {
        Value::Nil => ValueView::Nil,
        Value::Boolean(b) => ValueView::Boolean(b),
        Value::Number(n) => ValueView::Number(n.bits),
        Value::String(s) => ValueView::String(s@),
        Value::Return(inner) => ValueView::Return(Box::new(value_view(*inner))),
        Value::Function { declaration, closure } => ValueView::Function {
            declaration: (*declaration)@,
            closure: closure as nat,
        },
        Value::Class { name, methods } => ValueView::Class {
            name: name@,
            methods: table_view((*methods)@),
        },
        Value::Instance { class, fields } => ValueView::Instance {
            class: Box::new(value_view(*class)),
            fields: table_view((*fields)@),
        },
        Value::NativeFunction(f) => ValueView::NativeFunction(f),
    }
}

impl View for Value {
    type V = ValueView;

    open spec fn view(&self) -> ValueView {
        value_view(*self)
    }
}

impl Clone for Value {
    fn clone(&self) -> (r: Value)
        ensures
            r@ == self@,
        decreases self,
    {
        match self {
            Value::Nil => Value::Nil,
            Value::Boolean(b) => Value::Boolean(*b),
            Value::Number(n) => Value::Number(*n),
            Value::String(s) => Value::String(s.clone()),
            Value::Return(inner) => Value::Return(Box::new((**inner).clone())),
            Value::Function { declaration, closure } => Value::Function {
                declaration: share(declaration),
                closure: *closure,
            },
            Value::Class { name, methods } => Value::Class {
                name: name.clone(),
                methods: share(methods),
            },
            Value::Instance { class, fields } => Value::Instance {
                class: share(class),
                fields: share(fields),
            },
            Value::NativeFunction(f) => Value::NativeFunction(*f),
        }
    }
}


/// The bindings of one scope, in the order in which they were made, and the
/// scope around it.
pub struct Scope {
    names: Vec<String>,
    values: Vec<Value>,
    enclosing: Option<usize>,
}

/// The mathematical content of a `Scope`. A name may occur more than once:
/// the last occurrence is the binding.
pub struct ScopeView {
    pub names: Seq<Seq<char>>,
    pub values: Seq<ValueView>,
    pub enclosing: Option<nat>,
}

/// Index of the last occurrence of `name`.
pub open spec fn position(names: Seq<Seq<char>>, name: Seq<char>) -> Option<int>
    decreases names.len(),
{
    if names.len() == 0 {
        None
    } else if names.last() == name {
        Some(names.len() - 1)
    } else {
        position(names.drop_last(), name)
    }
}

/// The index that `position` finds lies in the list and holds the name.
pub proof fn position_in_range(names: Seq<Seq<char>>, name: Seq<char>)
    ensures
        position(names, name) matches Some(i) ==> 0 <= i < names.len() && names[i] == name,
    decreases names.len(),
{
    if names.len() > 0 && names.last() != name {
        position_in_range(names.drop_last(), name);
    }
}

impl ScopeView {
    /// Every name has its value.
    pub open spec fn wf(self) -> bool {
        self.names.len() == self.values.len()
    }

    /// Whether the scope binds `name`.
    pub open spec fn binds(self, name: Seq<char>) -> bool {
        position(self.names, name) is Some
    }

    /// The value that the scope gives to `name`, which it binds.
    pub open spec fn value_of(self, name: Seq<char>) -> ValueView {
        self.values[position(self.names, name).unwrap()]
    }

    /// The scope with one more binding, which hides any earlier one of
    /// the name.
    pub open spec fn define(self, name: Seq<char>, value: ValueView) -> ScopeView {
        ScopeView { names: self.names.push(name), values: self.values.push(value), ..self }
    }

    /// The scope with a new value for `name`, which it binds.
    pub open spec fn assign(self, name: Seq<char>, value: ValueView) -> ScopeView {
        ScopeView {
            values: self.values.update(position(self.names, name).unwrap(), value),
            ..self
        }
    }
}

impl View for Scope {
    type V = ScopeView;

    closed spec fn view(&self) -> ScopeView {
        ScopeView {
            names: self.names@.map_values(|n: String| n@),
            values: self.values@.map_values(|v: Value| v@),
            enclosing: match self.enclosing {
                Some(p) => Some(p as nat),
                None => None,
            },
        }
    }
}

impl Scope {
    fn new(enclosing: Option<usize>) -> (r: Scope)
        ensures
            r@ == (ScopeView {
                names: Seq::empty(),
                values: Seq::empty(),
                enclosing: match enclosing {
                    Some(p) => Some(p as nat),
                    None => None,
                },
            }),
    {
        let r = Scope { names: Vec::new(), values: Vec::new(), enclosing };
        assert(r@.names =~= Seq::empty());
        assert(r@.values =~= Seq::empty());
        r
    }

    fn find(&self, name: &str) -> (r: Option<usize>)
        ensures
            match r {
                Some(i) => position(self@.names, name@) == Some(i as int),
                None => position(self@.names, name@) is None,
            },
    {
        let ghost names = self@.names;
        let mut i: usize = self.names.len();
        assert(names.take(i as int) =~= names);
        while i > 0
            invariant
                i <= self.names.len(),
                names == self@.names,
                names.len() == self.names.len(),
                position(names, name@) == position(names.take(i as int), name@),
            decreases i,
        {
            assert(names.take(i as int).last() == self.names[i - 1]@);
            assert(names.take(i as int).drop_last() =~= names.take(i - 1));
            if same_text(self.names[i - 1].as_str(), name) {
                return Some(i - 1);
            }
            i -= 1;
        }
        None
    }

    fn define(&mut self, name: String, value: Value)
        ensures
            final(self)@ == old(self)@.define(name@, value@),
    {
        self.names.push(name);
        self.values.push(value);
        assert(final(self)@.names =~= old(self)@.names.push(name@));
        assert(final(self)@.values =~= old(self)@.values.push(value@));
    }
}


/// The scopes of a running program, in the order in which they were
/// made. A function value names the scope it was declared in by its index;
/// `current` is the innermost scope of the code that runs now. The first
/// `pinned` scopes are those that a function may name: they stay for good.
/// A scope above them goes when the code that made it leaves it.
pub struct Environment {
    scopes: Vec<Scope>,
    current: usize,
    pinned: usize,
}

/// The mathematical content of an `Environment`.
pub struct EnvironmentView {
    pub scopes: Seq<ScopeView>,
    pub current: nat,
    pub pinned: nat,
}

impl EnvironmentView {
    /// Every scope pairs its names with values and lies inside an older one.
    pub open spec fn wf(self) -> bool {
        &&& self.current < self.scopes.len()
        &&& self.pinned <= self.scopes.len()
        &&& forall|i: int| 0 <= i < self.scopes.len() ==> (#[trigger] self.scopes[i]).wf()
        &&& forall|i: int|
            0 <= i < self.scopes.len() ==> (match (#[trigger] self.scopes[i]).enclosing {
                Some(p) => p < i,
                None => true,
            })
    }

    /// The innermost scope, from `scope` outwards, that binds `name`.
    pub open spec fn holder(self, scope: nat, name: Seq<char>) -> Option<nat>
        decreases scope,
    {
        if scope >= self.scopes.len() {
            None
        } else if self.scopes[scope as int].binds(name) {
            Some(scope)
        } else {
            match self.scopes[scope as int].enclosing {
                Some(p) => if p < scope {
                    self.holder(p, name)
                } else {
                    None
                },
                None => None,
            }
        }
    }

    /// The value that `name` has in the current scope.
    pub open spec fn lookup(self, name: Seq<char>) -> Option<ValueView> {
        match self.holder(self.current, name) {
            Some(s) => Some(self.scopes[s as int].value_of(name)),
            None => None,
        }
    }

    /// A new binding in the current scope.
    pub open spec fn define(self, name: Seq<char>, value: ValueView) -> EnvironmentView {
        EnvironmentView {
            scopes: self.scopes.update(
                self.current as int,
                self.scopes[self.current as int].define(name, value),
            ),
            ..self
        }
    }

    /// A new value for the innermost binding of `name`, if there is one.
    pub open spec fn assign(self, name: Seq<char>, value: ValueView) -> Option<EnvironmentView> {
        match self.holder(self.current, name) {
            Some(s) => Some(
                EnvironmentView {
                    scopes: self.scopes.update(s as int, self.scopes[s as int].assign(name, value)),
                    ..self
                },
            ),
            None => None,
        }
    }

    /// A new empty scope inside `parent`, made current.
    pub open spec fn enter(self, parent: nat) -> EnvironmentView {
        EnvironmentView {
            scopes: self.scopes.push(
                ScopeView { names: Seq::empty(), values: Seq::empty(), enclosing: Some(parent) },
            ),
            current: self.scopes.len(),
            ..self
        }
    }

    /// The number of scopes that stay when the current scope is left: those
    /// below it, and the pinned ones.
    pub open spec fn staying(self) -> nat {
        if self.pinned > self.current {
            self.pinned
        } else {
            self.current
        }
    }

    /// The current scope left for the scope `parent`, which becomes
    /// current: the current scope and those above it go, but for the
    /// pinned ones.
    pub open spec fn leave(self, parent: nat) -> EnvironmentView {
        EnvironmentView { scopes: self.scopes.take(self.staying() as int), current: parent, ..self }
    }

    /// The current scope pinned, with those below it: a function was
    /// declared in it.
    pub open spec fn pin(self) -> EnvironmentView {
        EnvironmentView {
            pinned: if self.pinned > self.current {
                self.pinned
            } else {
                self.current + 1
            },
            ..self
        }
    }
}

/// The scope that `holder` finds is a scope, no younger than the one the
/// search started in, and binds the name.
pub proof fn holder_in_range(env: EnvironmentView, scope: nat, name: Seq<char>)
    ensures
        env.holder(scope, name) matches Some(s) ==> s <= scope && s < env.scopes.len()
            && env.scopes[s as int].binds(name),
    decreases scope,
{
    if scope < env.scopes.len() && !env.scopes[scope as int].binds(name) {
        match env.scopes[scope as int].enclosing {
            Some(p) => {
                if p < scope {
                    holder_in_range(env, p, name);
                }
            },
            None => {},
        }
    }
}

/// The message of an assignment to a name that is not bound.
pub open spec fn not_defined_text(name: Seq<char>) -> Seq<char> {
    "Variable '"@ + name + "' not defined."@
}

impl View for Environment {
    type V = EnvironmentView;

    closed spec fn view(&self) -> EnvironmentView {
        EnvironmentView {
            scopes: self.scopes@.map_values(|s: Scope| s@),
            current: self.current as nat,
            pinned: self.pinned as nat,
        }
    }
}

impl Environment {
    /// An environment with one empty scope, the global one.
    pub fn new() -> (r: Environment)
        ensures
            r@.wf(),
            r@ == (EnvironmentView {
                scopes: seq![
                    ScopeView { names: Seq::empty(), values: Seq::empty(), enclosing: None },
                ],
                current: 0,
                pinned: 0,
            }),
    {
        let mut scopes: Vec<Scope> = Vec::new();
        scopes.push(Scope::new(None));
        let r = Environment { scopes, current: 0, pinned: 0 };
        assert(r@.scopes =~= seq![
            ScopeView { names: Seq::empty(), values: Seq::empty(), enclosing: None },
        ]);
        r
    }

    /// The environment with a new empty scope inside its current one.
    pub fn with_enclosing(enclosing: Environment) -> (r: Environment)
        requires
            enclosing@.wf(),
        ensures
            r@.wf(),
            r@ == enclosing@.enter(enclosing@.current),
    {
        let mut r = enclosing;
        let parent = r.current;
        r.enter(parent);
        r
    }

    /// Opens a new empty scope inside `parent` and makes it current.
    pub fn enter(&mut self, parent: usize)
        requires
            old(self)@.wf(),
            parent < old(self)@.scopes.len(),
        ensures
            final(self)@.wf(),
            final(self)@ == old(self)@.enter(parent as nat),
    {
        let index = self.scopes.len();
        self.scopes.push(Scope::new(Some(parent)));
        self.current = index;
        assert(final(self)@.scopes =~= old(self)@.enter(parent as nat).scopes);
    }

    /// The index of the current scope.
    pub fn current(&self) -> (r: usize)
        ensures
            r == self@.current,
    {
        self.current
    }

    /// The number of scopes made so far.
    pub fn scope_count(&self) -> (r: usize)
        ensures
            r == self@.scopes.len(),
    {
        self.scopes.len()
    }

    /// Leaves the current scope for the scope `parent`, which lies below
    /// it: the current scope and those above it are dropped, but for the
    /// pinned ones.
    pub fn leave(&mut self, parent: usize)
        requires
            old(self)@.wf(),
            parent < old(self)@.current,
        ensures
            final(self)@.wf(),
            final(self)@ == old(self)@.leave(parent as nat),
    {
        let staying = if self.pinned > self.current {
            self.pinned
        } else {
            self.current
        };
        self.scopes.truncate(staying);
        self.current = parent;
        assert(final(self)@.scopes =~= old(self)@.scopes.take(staying as int));
    }

    /// Pins the current scope and those below it, for a function declared
    /// in it, and returns its index.
    pub fn pin(&mut self) -> (r: usize)
        requires
            old(self)@.wf(),
        ensures
            final(self)@.wf(),
            final(self)@ == old(self)@.pin(),
            r == old(self)@.current,
    {
        assert(self.current < self.scopes.len()) by {
            assert(self@.scopes.len() == self.scopes.len());
        }
        if self.pinned <= self.current {
            self.pinned = self.current + 1;
        }
        self.current
    }

    /// Binds `name` in the current scope, over any binding it had there.
    pub fn define(&mut self, name: String, value: Value)
        requires
            old(self)@.wf(),
        ensures
            final(self)@.wf(),
            final(self)@.scopes.len() == old(self)@.scopes.len(),
            final(self)@ == old(self)@.define(name@, value@),
    {
        let current = self.current;
        self.scopes[current].define(name, value);
        assert(final(self)@.scopes =~= old(self)@.define(name@, value@).scopes);
    }

    /// Leaving a scope promotes none of its bindings: this changes nothing.
    pub fn merge_to_parent(&mut self)
        ensures
            final(self)@ == old(self)@,
    {
    }

    /// The index of the innermost scope that binds `name`, and the index of
    /// the binding in it.
    fn locate(&self, name: &str) -> (r: Option<(usize, usize)>)
        requires
            self@.wf(),
        ensures
            match r {
                Some((s, i)) => self@.holder(self@.current, name@) == Some(s as nat) && position(
                    self@.scopes[s as int].names,
                    name@,
                ) == Some(i as int) && s < self.scopes.len() && i < self.scopes[s as int].values.len(),
                None => self@.holder(self@.current, name@) is None,
            },
    {
        let mut scope = self.current;
        loop
            invariant
                self@.wf(),
                scope < self.scopes.len(),
                self@.holder(self@.current, name@) == self@.holder(scope as nat, name@),
            decreases scope,
        {
            assert(self@.scopes[scope as int] == self.scopes[scope as int]@);
            match self.scopes[scope].find(name) {
                Some(i) => {
                    proof {
                        position_in_range(self@.scopes[scope as int].names, name@);
                        assert(self@.scopes[scope as int].wf());
                    }
                    return Some((scope, i));
                },
                None => {},
            }
            match self.scopes[scope].enclosing {
                Some(p) => {
                    scope = p;
                },
                None => {
                    return None;
                },
            }
        }
    }

    /// The value of the innermost binding of `name`.
    pub fn get(&self, name: &str) -> (r: Option<Value>)
        requires
            self@.wf(),
        ensures
            match r {
                Some(v) => self@.lookup(name@) == Some(v@),
                None => self@.lookup(name@) is None,
            },
    {
        match self.locate(name) {
            Some((s, i)) => {
                assert(self@.scopes[s as int] == self.scopes[s as int]@);
                Some(self.scopes[s].values[i].clone())
            },
            None => None,
        }
    }

    /// Gives the innermost binding of `name` a new value; fails, and
    /// changes nothing, where no scope binds it.
    pub fn assign(&mut self, name: String, value: Value) -> (r: Result<(), String>)
        requires
            old(self)@.wf(),
        ensures
            final(self)@.wf(),
            final(self)@.scopes.len() == old(self)@.scopes.len(),
            match old(self)@.assign(name@, value@) {
                Some(env) => r is Ok && final(self)@ == env,
                None => final(self)@ == old(self)@ && (r matches Err(text) && text@
                    == not_defined_text(name@)),
            },
    {
        match self.locate(name.as_str()) {
            Some((s, i)) => {
                assert(self@.scopes[s as int] == self.scopes[s as int]@);
                self.scopes[s].values[i] = value;
                assert(final(self)@.scopes[s as int].values =~= old(self)@.scopes[s as int].assign(
                    name@,
                    value@,
                ).values);
                assert(final(self)@.scopes =~= old(self)@.assign(name@, value@).unwrap().scopes);
                Ok(())
            },
            None => {
                let mut text = String::from_str("Variable '");
                text.append(name.as_str());
                text.append("' not defined.");
                Err(text)
            },
        }
    }
}


/// How a statement ended: with a value, or with an error.
#[derive(Debug)]
pub enum EvalResult {
    Return(Value),
    Error(LoxError),
}

/// The mathematical content of an `EvalResult`.
pub enum EvalResultView {
    Return(ValueView),
    Error(LoxErrorView),
}

impl View for EvalResult {
    type V = EvalResultView;

    open spec fn view(&self) -> EvalResultView {
        match self {
            EvalResult::Return(v) => EvalResultView::Return(v@),
            EvalResult::Error(e) => EvalResultView::Error(e@),
        }
    }
}

/// The content of the result of an expression.
pub open spec fn outcome_view(r: Result<Value, LoxError>) -> Result<ValueView, LoxErrorView> {
    match r {
        Ok(v) => Ok(v@),
        Err(e) => Err(e@),
    }
}

/// The state of a running program.
pub struct Evaluator {
    environment: Environment,
    output: Vec<String>,
    held: Option<u64>,
    heard: Ghost<Seq<u64>>,
}

/// The mathematical content of an `Evaluator`: the scopes, the lines
/// printed so far, and the clock.
///
/// A clock that is held gives the same reading to every `clock()`. One
/// that runs gives the readings of `readings` one after the other, each
/// to one call; `taken` counts the calls so far.
pub struct EvaluatorView {
    pub environment: EnvironmentView,
    pub output: Seq<Seq<char>>,
    pub held: Option<u64>,
    pub readings: Seq<u64>,
    pub taken: nat,
}

impl View for Evaluator {
    type V = EvaluatorView;

    closed spec fn view(&self) -> EvaluatorView {
        EvaluatorView {
            environment: self.environment@,
            output: self.output@.map_values(|line: String| line@),
            held: self.held,
            readings: self.heard@,
            taken: self.heard@.len(),
        }
    }
}

/// The most loop iterations and calls that may be nested in one another
/// before execution is given up.
pub const STEP_LIMIT: u64 = 0xffff_ffff_ffff_ffff;

/// The message for a program that ran into the step limit.
pub open spec fn limit_text() -> Seq<char> {
    "Execution limit reached."@
}

/// The message for a condition that is no boolean.
pub open spec fn condition_text() -> Seq<char> {
    "Condition must evaluate to a boolean."@
}

/// Only `nil` and `false` are false to `!`.
pub open spec fn truthy(v: ValueView) -> bool {
    match v {
        ValueView::Boolean(b) => b,
        ValueView::Nil => false,
        _ => true,
    }
}

/// The value of a literal.
pub open spec fn literal_value(l: LiteralView) -> ValueView {
    match l {
        LiteralView::String(s) => ValueView::String(s),
        LiteralView::Number(n) => ValueView::Number(n),
        LiteralView::Boolean(b) => ValueView::Boolean(b),
        LiteralView::Nil => ValueView::Nil,
    }
}

/// The line that `print` writes for a value.
pub open spec fn value_text(v: ValueView) -> Seq<char> {
    match v {
        ValueView::Nil => "Nil"@,
        ValueView::Boolean(b) => if b {
            "true"@
        } else {
            "false"@
        },
        ValueView::Number(n) => display_text(n),
        ValueView::String(s) => s,
        ValueView::Function { declaration, closure } => "<fn "@ + declaration.name.lexeme + ">"@,
        ValueView::NativeFunction(_) => "<native fn>"@,
        _ => "Unsupported value"@,
    }
}

/// `==` of the language: values of one kind among nil, booleans, numbers
/// and strings are compared; any other pair is unequal.
pub open spec fn values_equal(a: ValueView, b: ValueView) -> bool {
    match (a, b) {
        (ValueView::Nil, ValueView::Nil) => true,
        (ValueView::Boolean(x), ValueView::Boolean(y)) => x == y,
        (ValueView::Number(x), ValueView::Number(y)) => equal(x, y),
        (ValueView::String(x), ValueView::String(y)) => x == y,
        _ => false,
    }
}

/// Failure of an operation on values of the wrong kind.
pub open spec fn mismatch(text: Seq<char>) -> Result<ValueView, LoxErrorView> {
    Err(LoxErrorView::InvalidTypeConversion(text))
}

/// The value of a unary operator applied to a value.
pub open spec fn unary_value(op: TokenType, v: ValueView) -> Result<ValueView, LoxErrorView> {
    match op {
        TokenType::Minus => match v {
            ValueView::Number(n) => Ok(ValueView::Number(negated(n))),
            _ => mismatch("Operand must be a number for unary minus."@),
        },
        TokenType::Bang => Ok(ValueView::Boolean(!truthy(v))),
        _ => mismatch("Invalid unary operator."@),
    }
}

/// The value of an arithmetic operator applied to two numbers.
pub open spec fn arithmetic_value(op: TokenType, l: u64, r: u64) -> Result<
    ValueView,
    LoxErrorView,
> {
    match op {
        TokenType::Plus => Ok(ValueView::Number(sum_bits(l, r))),
        TokenType::Minus => Ok(ValueView::Number(difference_bits(l, r))),
        TokenType::Star => Ok(ValueView::Number(product_bits(l, r))),
        TokenType::Slash => if is_zero(r) {
            Err(LoxErrorView::DivisionByZero)
        } else {
            Ok(ValueView::Number(quotient_bits(l, r)))
        },
        TokenType::Percent => Ok(ValueView::Number(remainder_bits(l, r))),
        TokenType::Less => Ok(ValueView::Boolean(less(l, r))),
        TokenType::LessEqual => Ok(ValueView::Boolean(less(l, r) || equal(l, r))),
        TokenType::Greater => Ok(ValueView::Boolean(less(r, l))),
        _ => Ok(ValueView::Boolean(less(r, l) || equal(l, r))),
    }
}

/// The message for an operator that met something other than two numbers.
pub open spec fn operands_text(op: TokenType) -> Seq<char> {
    match op {
        TokenType::Plus => "Operands must be two numbers or two strings for '+'."@,
        TokenType::Minus => "Operands must be numbers for '-'."@,
        TokenType::Star => "Operands must be numbers for '*'."@,
        TokenType::Slash => "Operands must be numbers for '/'."@,
        TokenType::Percent => "Operands must be numbers for '%'."@,
        _ => "Operands must be numbers for comparison."@,
    }
}

/// Whether the operator works on two numbers: arithmetic and ordering.
pub open spec fn is_arithmetic(op: TokenType) -> bool {
    op == TokenType::Plus || op == TokenType::Minus || op == TokenType::Star || op
        == TokenType::Slash || op == TokenType::Percent || op == TokenType::Less || op
        == TokenType::LessEqual || op == TokenType::Greater || op == TokenType::GreaterEqual
}

/// The value of a binary operator applied to two values.
pub open spec fn binary_value(op: TokenType, l: ValueView, r: ValueView) -> Result<
    ValueView,
    LoxErrorView,
> {
    if op == TokenType::EqualEqual {
        Ok(ValueView::Boolean(values_equal(l, r)))
    } else if op == TokenType::BangEqual {
        Ok(ValueView::Boolean(!values_equal(l, r)))
    } else if is_arithmetic(op) {
        match (l, r) {
            (ValueView::Number(x), ValueView::Number(y)) => arithmetic_value(op, x, y),
            (ValueView::String(x), ValueView::String(y)) => if op == TokenType::Plus {
                Ok(ValueView::String(x + y))
            } else {
                mismatch(operands_text(op))
            },
            _ => mismatch(operands_text(op)),
        }
    } else {
        mismatch("Invalid binary operator."@)
    }
}

/// The message of a call with the wrong number of arguments.
pub open spec fn arity_text(expected: nat, got: nat) -> Seq<char> {
    "Expected "@ + nat_text(expected) + " arguments but got "@ + nat_text(got) + "."@
}

/// The environment after binding the parameters from `from` on to the
/// arguments, in order, in the current scope.
pub open spec fn bind(
    env: EnvironmentView,
    params: Seq<TokenView>,
    args: Seq<ValueView>,
    from: nat,
) -> EnvironmentView
    decreases params.len() - from,
{
    if from >= params.len() {
        env
    } else {
        bind(env.define(params[from as int].lexeme, args[from as int]), params, args, from + 1)
    }
}

/// A call, before the body runs: either it is over already, or the body is
/// to run in the state given.
pub enum CallStart {
    Done(EvaluatorView, Result<ValueView, LoxErrorView>),
    Run(EvaluatorView, Seq<StmtView>),
}

/// Dispatch on the kind of the callee. A function gets a new scope inside
/// the scope of its declaration, with its parameters bound to the
/// arguments.
pub open spec fn begin_call(
    st: EvaluatorView,
    callee: ValueView,
    args: Seq<ValueView>,
    fuel: nat,
) -> CallStart {
    match callee {
        ValueView::Function { declaration, closure } => if declaration.params.len() != args.len() {
            CallStart::Done(
                st,
                mismatch(arity_text(declaration.params.len(), args.len())),
            )
        } else if closure >= st.environment.scopes.len() {
            CallStart::Done(st, Err(LoxErrorView::RuntimeError("Function has no scope."@)))
        } else if fuel == 0 {
            CallStart::Done(st, Err(LoxErrorView::RuntimeError(limit_text())))
        } else {
            CallStart::Run(
                EvaluatorView {
                    environment: bind(st.environment.enter(closure), declaration.params, args, 0),
                    ..st
                },
                declaration.body,
            )
        },
        ValueView::NativeFunction(NativeFunction::Clock) => CallStart::Done(
            st.tick(),
            Ok(ValueView::Number(integer_bits(st.reading()))),
        ),
        _ => CallStart::Done(st, mismatch("Can only call functions."@)),
    }
}

/// A call, after the body ran: the scope of the caller is current again,
/// and the value of a `return` is the value of the call, `nil` without one.
pub open spec fn end_call(st: EvaluatorView, body: EvalResultView, caller: nat) -> (
    EvaluatorView,
    Result<ValueView, LoxErrorView>,
) {
    (
        EvaluatorView { environment: st.environment.leave(caller), ..st },
        match body {
            EvalResultView::Return(ValueView::Return(v)) => Ok(*v),
            EvalResultView::Return(_) => Ok(ValueView::Nil),
            EvalResultView::Error(e) => Err(e),
        },
    )
}

impl EvaluatorView {
    /// The same state with other scopes.
    pub open spec fn with_environment(self, environment: EnvironmentView) -> EvaluatorView {
        EvaluatorView { environment, ..self }
    }

    /// A new scope inside the current one.
    pub open spec fn open_scope(self) -> EvaluatorView {
        self.with_environment(self.environment.enter(self.environment.current))
    }

    /// The current scope left for `scope`, which is current again.
    pub open spec fn close_scope(self, scope: nat) -> EvaluatorView {
        self.with_environment(self.environment.leave(scope))
    }

    /// The same state with one more line printed.
    pub open spec fn print(self, line: Seq<char>) -> EvaluatorView {
        EvaluatorView { output: self.output.push(line), ..self }
    }

    /// What the next `clock()` gives: the reading at which the clock is
    /// held, else the next of the readings, and zero where none is left.
    pub open spec fn reading(self) -> u64 {
        match self.held {
            Some(reading) => reading,
            None => if self.taken < self.readings.len() {
                self.readings[self.taken as int]
            } else {
                0
            },
        }
    }

    /// The state after a `clock()`: a running clock has given one more
    /// reading.
    pub open spec fn tick(self) -> EvaluatorView {
        match self.held {
            Some(_) => self,
            None => EvaluatorView { taken: self.taken + 1, ..self },
        }
    }

    /// The same state with the clock held at `reading`.
    pub open spec fn hold(self, reading: u64) -> EvaluatorView {
        EvaluatorView { held: Some(reading), ..self }
    }

    /// The same state with the clock running.
    pub open spec fn release(self) -> EvaluatorView {
        EvaluatorView { held: None, ..self }
    }

    /// The same state with `readings` as the readings of the clock.
    pub open spec fn at(self, readings: Seq<u64>) -> EvaluatorView {
        EvaluatorView { readings, ..self }
    }

    /// Whether this state can come after `before` in one run: the clock is
    /// held or runs as before, and its readings begin with those of
    /// `before`, which are all where the clock is held.
    pub open spec fn follows(self, before: EvaluatorView) -> bool {
        self.held == before.held && starts(before.readings, self.readings) && (self.held is Some
            ==> self.readings == before.readings)
    }
}

/// Whether `all` begins with the readings `first`.
pub open spec fn starts(first: Seq<u64>, all: Seq<u64>) -> bool {
    first.len() <= all.len() && forall|i: int| 0 <= i < first.len() ==> all[i] == first[i]
}

/// Readings that begin readings that begin others begin those; readings
/// begin with themselves, and a state stays the same under its own.
pub proof fn starts_chain()
    ensures
        forall|a: Seq<u64>, b: Seq<u64>, c: Seq<u64>|
            #![trigger starts(a, b), starts(b, c)]
            starts(a, b) && starts(b, c) ==> starts(a, c),
        forall|st: EvaluatorView, readings: Seq<u64>|
            #![trigger st.at(readings)]
            starts(readings, readings),
        forall|st: EvaluatorView| #[trigger] st.at(st.readings) == st,
{
}

/// The value of an expression, and the state after evaluating it.
/// Operands are evaluated from left to right.
pub open spec fn eval_expr(st: EvaluatorView, e: ExprView, fuel: nat) -> (
    EvaluatorView,
    Result<ValueView, LoxErrorView>,
)
    decreases fuel, 0nat, e, 0nat,
{
    match e {
        ExprView::Literal { value } => (st, Ok(literal_value(value))),
        ExprView::Variable { name } => match st.environment.lookup(name.lexeme) {
            Some(v) => (st, Ok(v)),
            None => (st, Err(LoxErrorView::UndefinedVariable(name.lexeme))),
        },
        ExprView::Grouping { expression } => eval_expr(st, *expression, fuel),
        ExprView::Unary { operator, operand } => {
            let (st1, v) = eval_expr(st, *operand, fuel);
            match v {
                Ok(v) => (st1, unary_value(operator.token_type, v)),
                Err(e) => (st1, Err(e)),
            }
        },
        ExprView::Binary { left, operator, right } => {
            let (st1, l) = eval_expr(st, *left, fuel);
            match l {
                Ok(l) => {
                    let (st2, r) = eval_expr(st1, *right, fuel);
                    match r {
                        Ok(r) => (st2, binary_value(operator.token_type, l, r)),
                        Err(e) => (st2, Err(e)),
                    }
                },
                Err(e) => (st1, Err(e)),
            }
        },
        ExprView::Assign { name, value } => {
            let (st1, v) = eval_expr(st, *value, fuel);
            match v {
                Ok(v) => match st1.environment.assign(name.lexeme, v) {
                    Some(env) => (st1.with_environment(env), Ok(v)),
                    None => (st1, Err(LoxErrorView::UndefinedVariable(name.lexeme))),
                },
                Err(e) => (st1, Err(e)),
            }
        },
        ExprView::Call { callee, arguments } => {
            let (st1, f) = eval_expr(st, *callee, fuel);
            match f {
                Ok(f) => {
                    let (st2, a) = eval_args(st1, arguments, Seq::empty(), fuel);
                    match a {
                        Ok(args) => match begin_call(st2, f, args, fuel) {
                            CallStart::Done(st3, r) => (st3, r),
                            CallStart::Run(st3, body) => {
                                let (st4, r) = exec_list(
                                    st3,
                                    body,
                                    0,
                                    ValueView::Nil,
                                    (fuel - 1) as nat,
                                );
                                end_call(st4, r, st2.environment.current)
                            },
                        },
                        Err(e) => (st2, Err(e)),
                    }
                },
                Err(e) => (st1, Err(e)),
            }
        },
        _ => (st, mismatch("Unsupported expression."@)),
    }
}

/// The values of the arguments after the first `done.len()`, appended to
/// `done`, in source order.
pub open spec fn eval_args(
    st: EvaluatorView,
    args: Seq<ExprView>,
    done: Seq<ValueView>,
    fuel: nat,
) -> (EvaluatorView, Result<Seq<ValueView>, LoxErrorView>)
    decreases fuel, 0nat, args, args.len() - done.len(),
{
    if done.len() >= args.len() {
        (st, Ok(done))
    } else {
        let (st1, v) = eval_expr(st, args[done.len() as int], fuel);
        match v {
            Ok(v) => eval_args(st1, args, done.push(v), fuel),
            Err(e) => (st1, Err(e)),
        }
    }
}

/// Whether a result carries the value of a `return`.
pub open spec fn is_return(r: EvalResultView) -> bool {
    r matches EvalResultView::Return(ValueView::Return(_))
}

/// The statements from `from` on, in order. An error or a `return` ends
/// the list at once; otherwise the value of the last statement is the
/// result (`last` where none is left).
pub open spec fn exec_list(
    st: EvaluatorView,
    stmts: Seq<StmtView>,
    from: nat,
    last: ValueView,
    fuel: nat,
) -> (EvaluatorView, EvalResultView)
    decreases fuel, 1nat, stmts, stmts.len() - from,
{
    if from >= stmts.len() {
        (st, EvalResultView::Return(last))
    } else {
        let (st1, r) = exec_stmt(st, stmts[from as int], fuel);
        match r {
            EvalResultView::Error(_) => (st1, r),
            EvalResultView::Return(v) => if is_return(r) {
                (st1, r)
            } else {
                exec_list(st1, stmts, from + 1, v, fuel)
            },
        }
    }
}

/// The condition of a loop statement; a `for` without one loops for ever.
pub open spec fn loop_condition(s: StmtView) -> Option<ExprView> {
    match s {
        StmtView::While(condition, _) => Some(condition),
        StmtView::For { condition, .. } => condition,
        _ => None,
    }
}

/// The iterations of a `while` or `for` statement `s`. Each iteration
/// tests the condition, which must be a boolean, and takes one unit of
/// fuel. The body of a `for` runs in a scope of its own, in which the
/// increment is evaluated after it.
pub open spec fn exec_loop(st: EvaluatorView, s: StmtView, fuel: nat) -> (
    EvaluatorView,
    EvalResultView,
)
    decreases fuel, 1nat, s, 0nat,
{
    let (st1, c) = match loop_condition(s) {
        Some(condition) => eval_expr(st, condition, fuel),
        None => (st, Ok(ValueView::Boolean(true))),
    };
    match c {
        Err(e) => (st1, EvalResultView::Error(e)),
        Ok(ValueView::Boolean(false)) => (st1, EvalResultView::Return(ValueView::Nil)),
        Ok(ValueView::Boolean(true)) => if fuel == 0 {
            (st1, EvalResultView::Error(LoxErrorView::RuntimeError(limit_text())))
        } else {
            match s {
                StmtView::While(_, body) => {
                    let (st2, r) = exec_stmt(st1, *body, (fuel - 1) as nat);
                    if r is Error || is_return(r) {
                        (st2, r)
                    } else {
                        exec_loop(st2, s, (fuel - 1) as nat)
                    }
                },
                StmtView::For { increment, body, .. } => {
                    let scope = st1.environment.current;
                    let (st2, r) = exec_stmt(st1.open_scope(), *body, (fuel - 1) as nat);
                    if r is Error || is_return(r) {
                        (st2.close_scope(scope), r)
                    } else {
                        let (st3, i) = match increment {
                            Some(i) => eval_expr(st2, i, (fuel - 1) as nat),
                            None => (st2, Ok(ValueView::Nil)),
                        };
                        match i {
                            Err(e) => (st3.close_scope(scope), EvalResultView::Error(e)),
                            Ok(_) => exec_loop(st3.close_scope(scope), s, (fuel - 1) as nat),
                        }
                    }
                },
                _ => (st1, EvalResultView::Return(ValueView::Nil)),
            }
        },
        Ok(_) => (st1, EvalResultView::Error(LoxErrorView::NonBooleanCondition(condition_text()))),
    }
}

/// The effect of a statement, and how it ended.
pub open spec fn exec_stmt(st: EvaluatorView, s: StmtView, fuel: nat) -> (
    EvaluatorView,
    EvalResultView,
)
    decreases fuel, 1nat, s, 1nat,
{
    match s {
        StmtView::Expression(e) => {
            let (st1, v) = eval_expr(st, e, fuel);
            match v {
                Ok(_) => (st1, EvalResultView::Return(ValueView::Nil)),
                Err(e) => (st1, EvalResultView::Error(e)),
            }
        },
        StmtView::Print(e) => {
            let (st1, v) = eval_expr(st, e, fuel);
            match v {
                Ok(v) => (st1.print(value_text(v)), EvalResultView::Return(ValueView::Nil)),
                Err(e) => (st1, EvalResultView::Error(e)),
            }
        },
        StmtView::Var { name, initializer } => {
            let (st1, v) = match initializer {
                Some(e) => eval_expr(st, e, fuel),
                None => (st, Ok(ValueView::Nil)),
            };
            match v {
                Ok(v) => (
                    st1.with_environment(st1.environment.define(name.lexeme, v)),
                    EvalResultView::Return(ValueView::Nil),
                ),
                Err(e) => (st1, EvalResultView::Error(e)),
            }
        },
        StmtView::Block(stmts) => {
            let (st1, r) = exec_list(st.open_scope(), stmts, 0, ValueView::Nil, fuel);
            (st1.close_scope(st.environment.current), r)
        },
        StmtView::If { condition, then_branch, else_branch } => {
            let (st1, c) = eval_expr(st, *condition, fuel);
            match c {
                Err(e) => (st1, EvalResultView::Error(e)),
                Ok(ValueView::Boolean(true)) => exec_stmt(st1, *then_branch, fuel),
                Ok(ValueView::Boolean(false)) => match else_branch {
                    Some(branch) => exec_stmt(st1, *branch, fuel),
                    None => (st1, EvalResultView::Return(ValueView::Nil)),
                },
                Ok(_) => (
                    st1,
                    EvalResultView::Error(LoxErrorView::NonBooleanCondition(condition_text())),
                ),
            }
        },
        StmtView::While(_, _) => exec_loop(st, s, fuel),
        StmtView::For { initializer, .. } => {
            let (st1, r) = match initializer {
                Some(i) => exec_stmt(st.open_scope(), *i, fuel),
                None => (st.open_scope(), EvalResultView::Return(ValueView::Nil)),
            };
            if r is Error || is_return(r) {
                (st1.close_scope(st.environment.current), r)
            } else {
                let (st2, r) = exec_loop(st1, s, fuel);
                (st2.close_scope(st.environment.current), r)
            }
        },
        StmtView::Function(declaration) => (
            st.with_environment(
                st.environment.define(
                    declaration.name.lexeme,
                    ValueView::Function { declaration, closure: st.environment.current },
                ).pin(),
            ),
            EvalResultView::Return(ValueView::Nil),
        ),
        StmtView::Return { keyword, value } => {
            let (st1, v) = match value {
                Some(e) => eval_expr(st, e, fuel),
                None => (st, Ok(ValueView::Nil)),
            };
            match v {
                Ok(v) => (st1, EvalResultView::Return(ValueView::Return(Box::new(v)))),
                Err(e) => (st1, EvalResultView::Error(e)),
            }
        },
        StmtView::Class { .. } => (
            st,
            EvalResultView::Error(LoxErrorView::InvalidTypeConversion("Unsupported statement."@)),
        ),
    }
}


/// The value of a call of `callee` on `args`, and the state after it.
pub open spec fn call_value(st: EvaluatorView, callee: ValueView, args: Seq<ValueView>, fuel: nat) -> (
    EvaluatorView,
    Result<ValueView, LoxErrorView>,
) {
    match begin_call(st, callee, args, fuel) {
        CallStart::Done(st1, r) => (st1, r),
        CallStart::Run(st1, body) => {
            let (st2, r) = exec_list(st1, body, 0, ValueView::Nil, (fuel - 1) as nat);
            end_call(st2, r, st.environment.current)
        },
    }
}

/// The contents of a value list.
pub open spec fn values_view(values: Seq<Value>) -> Seq<ValueView> {
    values.map_values(|v: Value| v@)
}

/// The printed lines, with a line feed between one and the next.
pub open spec fn joined(lines: Seq<Seq<char>>) -> Seq<char>
    decreases lines.len(),
{
    if lines.len() == 0 {
        Seq::empty()
    } else if lines.len() == 1 {
        lines[0]
    } else {
        joined(lines.drop_last()) + seq!['\n'] + lines.last()
    }
}

fn type_error(text: &str) -> (r: LoxError)
    ensures
        r@ == LoxErrorView::InvalidTypeConversion(text@),
{
    LoxError::InvalidTypeConversion(String::from_str(text))
}

fn runtime_error(text: &str) -> (r: LoxError)
    ensures
        r@ == LoxErrorView::RuntimeError(text@),
{
    LoxError::RuntimeError(String::from_str(text))
}

fn condition_error() -> (r: LoxError)
    ensures
        r@ == LoxErrorView::NonBooleanCondition(condition_text()),
{
    LoxError::NonBooleanCondition(String::from_str("Condition must evaluate to a boolean."))
}

impl Value {
    /// The line that `print` writes for the value.
    pub fn to_string(&self) -> (r: String)
        ensures
            r@ == value_text(self@),
    {
        match self {
            Value::Nil => String::from_str("Nil"),
            Value::Boolean(b) => if *b {
                String::from_str("true")
            } else {
                String::from_str("false")
            },
            Value::Number(n) => n.display(),
            Value::String(s) => s.clone(),
            Value::Function { declaration, closure } => {
                let mut r = String::from_str("<fn ");
                r.append(declaration.name.lexeme.as_str());
                r.append(">");
                r
            },
            Value::NativeFunction(_) => String::from_str("<native fn>"),
            _ => String::from_str("Unsupported value"),
        }
    }

    /// Whether the value carries the value of a `return`.
    pub fn is_return(&self) -> (r: bool)
        ensures
            r == (self@ is Return),
    {
        match self {
            Value::Return(_) => true,
            _ => false,
        }
    }
}

fn is_truthy(value: &Value) -> (r: bool)
    ensures
        r == truthy(value@),
{
    match value {
        Value::Boolean(b) => *b,
        Value::Nil => false,
        _ => true,
    }
}

fn literal_to_value(literal: &LiteralValue) -> (r: Value)
    ensures
        r@ == literal_value(literal@),
{
    match literal {
        LiteralValue::Boolean(b) => Value::Boolean(*b),
        LiteralValue::Number(n) => Value::Number(*n),
        LiteralValue::String(s) => Value::String(s.clone()),
        LiteralValue::Nil => Value::Nil,
    }
}

fn same_value(a: &Value, b: &Value) -> (r: bool)
    ensures
        r == values_equal(a@, b@),
{
    match (a, b) {
        (Value::Nil, Value::Nil) => true,
        (Value::Boolean(x), Value::Boolean(y)) => *x == *y,
        (Value::Number(x), Value::Number(y)) => x.equals(*y),
        (Value::String(x), Value::String(y)) => same_text(x.as_str(), y.as_str()),
        _ => false,
    }
}

fn unary(op: TokenType, value: Value) -> (r: Result<Value, LoxError>)
    ensures
        outcome_view(r) == unary_value(op, value@),
{
    match op {
        TokenType::Minus => match value {
            Value::Number(n) => Ok(Value::Number(n.negate())),
            _ => Err(type_error("Operand must be a number for unary minus.")),
        },
        TokenType::Bang => Ok(Value::Boolean(!is_truthy(&value))),
        _ => Err(type_error("Invalid unary operator.")),
    }
}

fn arithmetic(op: TokenType, l: Number, r: Number) -> (out: Result<Value, LoxError>)
    requires
        is_arithmetic(op),
    ensures
        outcome_view(out) == arithmetic_value(op, l.bits, r.bits),
{
    match op {
        TokenType::Plus => Ok(Value::Number(l.plus(r))),
        TokenType::Minus => Ok(Value::Number(l.minus(r))),
        TokenType::Star => Ok(Value::Number(l.times(r))),
        TokenType::Slash => if r.is_zero() {
            Err(LoxError::DivisionByZero)
        } else {
            Ok(Value::Number(l.divided_by(r)))
        },
        TokenType::Percent => Ok(Value::Number(l.remainder(r))),
        TokenType::Less => Ok(Value::Boolean(l.less_than(r))),
        TokenType::LessEqual => Ok(Value::Boolean(l.less_or_equal(r))),
        TokenType::Greater => Ok(Value::Boolean(l.greater_than(r))),
        _ => Ok(Value::Boolean(l.greater_or_equal(r))),
    }
}

fn operands_error(op: TokenType) -> (r: LoxError)
    ensures
        r@ == LoxErrorView::InvalidTypeConversion(operands_text(op)),
{
    match op {
        TokenType::Plus => type_error("Operands must be two numbers or two strings for '+'."),
        TokenType::Minus => type_error("Operands must be numbers for '-'."),
        TokenType::Star => type_error("Operands must be numbers for '*'."),
        TokenType::Slash => type_error("Operands must be numbers for '/'."),
        TokenType::Percent => type_error("Operands must be numbers for '%'."),
        _ => type_error("Operands must be numbers for comparison."),
    }
}

fn arithmetic_operator(op: TokenType) -> (r: bool)
    ensures
        r == is_arithmetic(op),
{
    match op {
        TokenType::Plus | TokenType::Minus | TokenType::Star | TokenType::Slash
        | TokenType::Percent | TokenType::Less | TokenType::LessEqual | TokenType::Greater
        | TokenType::GreaterEqual => true,
        _ => false,
    }
}

fn binary(op: TokenType, l: Value, r: Value) -> (out: Result<Value, LoxError>)
    ensures
        outcome_view(out) == binary_value(op, l@, r@),
{
    if op == TokenType::EqualEqual {
        Ok(Value::Boolean(same_value(&l, &r)))
    } else if op == TokenType::BangEqual {
        Ok(Value::Boolean(!same_value(&l, &r)))
    } else if arithmetic_operator(op) {
        match (l, r) {
            (Value::Number(x), Value::Number(y)) => arithmetic(op, x, y),
            (Value::String(x), Value::String(y)) => if op == TokenType::Plus {
                Ok(Value::String(x.concat(y.as_str())))
            } else {
                Err(operands_error(op))
            },
            _ => Err(operands_error(op)),
        }
    } else {
        Err(type_error("Invalid binary operator."))
    }
}

fn arity_error(expected: usize, got: usize) -> (r: LoxError)
    ensures
        r@ == LoxErrorView::InvalidTypeConversion(arity_text(expected as nat, got as nat)),
{
    let mut text = String::from_str("Expected ");
    text.append(nat_string(expected as u64).as_str());
    text.append(" arguments but got ");
    text.append(nat_string(got as u64).as_str());
    text.append(".");
    LoxError::InvalidTypeConversion(text)
}


impl Evaluator {
    /// The scopes are well formed.
    pub open spec fn wf(&self) -> bool {
        self@.environment.wf()
    }

    /// No scope of `before` is missing.
    pub open spec fn extends(&self, before: &Evaluator) -> bool {
        self@.environment.scopes.len() >= before@.environment.scopes.len()
    }

    /// The value of an expression, with `fuel` as the most calls and loop
    /// iterations that may be nested in one another.
    ///
    /// Each `clock()` of a running clock reads the system clock when it is
    /// called. So the contract speaks of readings: whatever readings begin
    /// with those taken so far, under them the expression has this value
    /// and leaves this state; the readings taken are among them.
    pub fn evaluate(&mut self, expr: &Expr, fuel: u64) -> (r: Result<Value, LoxError>)
        requires
            old(self).wf(),
        ensures
            final(self).wf(),
            final(self).extends(old(self)),
            final(self)@.follows(old(self)@),
            final(self)@.environment.current == old(self)@.environment.current,
            forall|o: Seq<u64>| #[trigger]
                starts(final(self)@.readings, o) ==> (final(self)@.at(o), outcome_view(r)) == eval_expr(
                    old(self)@.at(o),
                    expr@,
                    fuel as nat,
                ),
            (final(self)@, outcome_view(r)) == eval_expr(
                old(self)@.at(final(self)@.readings),
                expr@,
                fuel as nat,
            ),
        decreases fuel, 1nat, expr, 0nat,
    {
        proof {
            starts_chain();
        }
        match expr {
            Expr::Literal { value } => Ok(literal_to_value(value)),
            Expr::Variable { name } => match self.environment.get(name.lexeme.as_str()) {
                Some(v) => Ok(v),
                None => Err(LoxError::UndefinedVariable(name.lexeme.clone())),
            },
            Expr::Grouping { expression } => self.evaluate(expression, fuel),
            Expr::Unary { operator, operand } => {
                match self.evaluate(operand, fuel) {
                    Ok(v) => unary(operator.token_type, v),
                    Err(e) => Err(e),
                }
            },
            Expr::Binary { left, operator, right } => {
                match self.evaluate(left, fuel) {
                    Ok(l) => match self.evaluate(right, fuel) {
                        Ok(r) => binary(operator.token_type, l, r),
                        Err(e) => Err(e),
                    },
                    Err(e) => Err(e),
                }
            },
            Expr::Assign { name, value } => {
                match self.evaluate(value, fuel) {
                    Ok(v) => match self.environment.assign(name.lexeme.clone(), v.clone()) {
                        Ok(()) => Ok(v),
                        Err(_) => Err(LoxError::UndefinedVariable(name.lexeme.clone())),
                    },
                    Err(e) => Err(e),
                }
            },
            Expr::Call { callee, arguments } => {
                let function = match self.evaluate(callee, fuel) {
                    Ok(f) => f,
                    Err(e) => {
                        return Err(e);
                    },
                };
                let args = match self.evaluate_arguments(arguments, fuel) {
                    Ok(args) => args,
                    Err(e) => {
                        return Err(e);
                    },
                };
                self.evaluate_call(function, args, fuel)
            },
            _ => Err(type_error("Unsupported expression.")),
        }
    }

    /// The values of the arguments of a call, in source order.
    fn evaluate_arguments(&mut self, arguments: &Vec<Expr>, fuel: u64) -> (r: Result<
        Vec<Value>,
        LoxError,
    >)
        requires
            old(self).wf(),
        ensures
            final(self).wf(),
            final(self).extends(old(self)),
            final(self)@.follows(old(self)@),
            final(self)@.environment.current == old(self)@.environment.current,
            forall|o: Seq<u64>| #[trigger]
                starts(final(self)@.readings, o) ==> (
                    final(self)@.at(o),
                    match r {
                        Ok(values) => Ok(values_view(values@)),
                        Err(e) => Err(e@),
                    },
                ) == eval_args(
                    old(self)@.at(o),
                    exprs_view(arguments@),
                    Seq::empty(),
                    fuel as nat,
                ),
        decreases fuel, 1nat, arguments, 0nat,
    {
        proof {
            starts_chain();
        }
        let ghost exprs = exprs_view(arguments@);
        let mut args: Vec<Value> = Vec::new();
        let mut i: usize = 0;
        assert(values_view(args@) =~= Seq::empty());
        while i < arguments.len()
            invariant
                self.wf(),
                self.extends(old(self)),
                self@.follows(old(self)@),
                self@.environment.current == old(self)@.environment.current,
                exprs == exprs_view(arguments@),
                i == args.len(),
                i <= arguments.len(),
                forall|o: Seq<u64>| #[trigger]
                    starts(self@.readings, o) ==> eval_args(
                        old(self)@.at(o),
                        exprs,
                        Seq::empty(),
                        fuel as nat,
                    ) == eval_args(self@.at(o), exprs, values_view(args@), fuel as nat),
            decreases arguments.len() - i,
        {
            proof {
                starts_chain();
            }
            let ghost done = values_view(args@);
            match self.evaluate(&arguments[i], fuel) {
                Ok(v) => {
                    args.push(v);
                    assert(values_view(args@) =~= done.push(v@));
                },
                Err(e) => {
                    return Err(e);
                },
            }
            i += 1;
        }
        Ok(args)
    }

    /// Opens the scope of a call inside the scope `closure` and binds the
    /// parameters to the arguments in it.
    fn enter_function(&mut self, declaration: &Rc<FunctionDecl>, closure: usize, args: &Vec<Value>)
        requires
            old(self).wf(),
            closure < old(self)@.environment.scopes.len(),
            args.len() == declaration.params.len(),
        ensures
            final(self).wf(),
            final(self)@ == (EvaluatorView {
                environment: bind(
                    old(self)@.environment.enter(closure as nat),
                    (**declaration)@.params,
                    values_view(args@),
                    0,
                ),
                ..old(self)@
            }),
            final(self)@.environment.current == old(self)@.environment.scopes.len(),
            final(self)@.environment.scopes.len() == old(self)@.environment.scopes.len() + 1,
    {
        self.environment.enter(closure);
        let ghost entered = self@.environment;
        let ghost params = (**declaration)@.params;
        let ghost values = values_view(args@);
        let mut i: usize = 0;
        while i < args.len()
            invariant
                self.wf(),
                i <= args.len(),
                args.len() == declaration.params.len(),
                params == (**declaration)@.params,
                values == values_view(args@),
                self@.output == old(self)@.output,
                self@.held == old(self)@.held,
                self@.readings == old(self)@.readings,
                self@.taken == old(self)@.taken,
                self@.environment.current == entered.current,
                self@.environment.scopes.len() == entered.scopes.len(),
                bind(entered, params, values, 0) == bind(
                    self@.environment,
                    params,
                    values,
                    i as nat,
                ),
            decreases args.len() - i,
        {
            self.environment.define(declaration.params[i].lexeme.clone(), args[i].clone());
            i += 1;
        }
    }

    /// The value of a call of `function` on `args`, under every run of
    /// readings that begins with those taken so far.
    pub fn evaluate_call(&mut self, function: Value, args: Vec<Value>, fuel: u64) -> (r: Result<
        Value,
        LoxError,
    >)
        requires
            old(self).wf(),
        ensures
            final(self).wf(),
            final(self).extends(old(self)),
            final(self)@.follows(old(self)@),
            final(self)@.environment.current == old(self)@.environment.current,
            forall|o: Seq<u64>| #[trigger]
                starts(final(self)@.readings, o) ==> (final(self)@.at(o), outcome_view(r)) == call_value(
                    old(self)@.at(o),
                    function@,
                    values_view(args@),
                    fuel as nat,
                ),
            (final(self)@, outcome_view(r)) == call_value(
                old(self)@.at(final(self)@.readings),
                function@,
                values_view(args@),
                fuel as nat,
            ),
        decreases fuel, 0nat, function, 0nat,
    {
        proof {
            starts_chain();
        }
        match function {
            Value::Function { declaration, closure } => {
                if declaration.params.len() != args.len() {
                    return Err(arity_error(declaration.params.len(), args.len()));
                }
                if closure >= self.environment.scope_count() {
                    return Err(runtime_error("Function has no scope."));
                }
                if fuel == 0 {
                    return Err(runtime_error("Execution limit reached."));
                }
                let caller = self.environment.current();
                self.enter_function(&declaration, closure, &args);
                let result = self.execute_list(&declaration.body, fuel - 1);
                self.environment.leave(caller);
                match result {
                    EvalResult::Return(Value::Return(v)) => Ok(*v),
                    EvalResult::Return(_) => Ok(Value::Nil),
                    EvalResult::Error(e) => Err(e),
                }
            },
            Value::NativeFunction(NativeFunction::Clock) => {
                let reading = match self.held {
                    Some(reading) => reading,
                    None => {
                        let reading = wall_clock_seconds();
                        self.heard = Ghost(self.heard@.push(reading));
                        reading
                    },
                };
                Ok(Value::Number(Number::from_integer(reading)))
            },
            _ => Err(type_error("Can only call functions.")),
        }
    }

    /// The statements of a list, in order.
    #[verifier::loop_isolation(false)]
    fn execute_list(&mut self, stmts: &Vec<Stmt>, fuel: u64) -> (r: EvalResult)
        requires
            old(self).wf(),
        ensures
            final(self).wf(),
            final(self).extends(old(self)),
            final(self)@.follows(old(self)@),
            final(self)@.environment.current == old(self)@.environment.current,
            forall|o: Seq<u64>| #[trigger]
                starts(final(self)@.readings, o) ==> (final(self)@.at(o), r@) == exec_list(
                    old(self)@.at(o),
                    stmts_view(stmts@),
                    0,
                    ValueView::Nil,
                    fuel as nat,
                ),
        decreases fuel, 2nat, stmts, 0nat,
    {
        proof {
            starts_chain();
        }
        let ghost list = stmts_view(stmts@);
        let mut last = Value::Nil;
        let mut i: usize = 0;
        while i < stmts.len()
            invariant
                self.wf(),
                self.extends(old(self)),
                self@.follows(old(self)@),
                self@.environment.current == old(self)@.environment.current,
                i <= stmts.len(),
                forall|o: Seq<u64>| #[trigger]
                    starts(self@.readings, o) ==> exec_list(
                        old(self)@.at(o),
                        list,
                        0,
                        ValueView::Nil,
                        fuel as nat,
                    ) == exec_list(self@.at(o), list, i as nat, last@, fuel as nat),
            decreases stmts.len() - i,
        {
            match self.execute(&stmts[i], fuel) {
                EvalResult::Error(e) => {
                    return EvalResult::Error(e);
                },
                EvalResult::Return(v) => {
                    if v.is_return() {
                        return EvalResult::Return(v);
                    }
                    last = v;
                },
            }
            i += 1;
        }
        EvalResult::Return(last)
    }

    /// The iterations of a `while` or `for` statement.
    #[verifier::loop_isolation(false)]
    fn run_loop(&mut self, stmt: &Stmt, fuel: u64) -> (r: EvalResult)
        requires
            old(self).wf(),
        ensures
            final(self).wf(),
            final(self).extends(old(self)),
            final(self)@.follows(old(self)@),
            final(self)@.environment.current == old(self)@.environment.current,
            forall|o: Seq<u64>| #[trigger]
                starts(final(self)@.readings, o) ==> (final(self)@.at(o), r@) == exec_loop(
                    old(self)@.at(o),
                    stmt@,
                    fuel as nat,
                ),
        decreases fuel, 2nat, stmt, 0nat,
    {
        proof {
            starts_chain();
        }
        let mut remaining = fuel;
        loop
            invariant
                self.wf(),
                self.extends(old(self)),
                self@.follows(old(self)@),
                self@.environment.current == old(self)@.environment.current,
                remaining <= fuel,
                forall|o: Seq<u64>| #[trigger]
                    starts(self@.readings, o) ==> exec_loop(old(self)@.at(o), stmt@, fuel as nat)
                        == exec_loop(self@.at(o), stmt@, remaining as nat),
            decreases remaining,
        {
            let condition = match stmt {
                Stmt::While(condition, _) => self.evaluate(condition, remaining),
                Stmt::For { condition: Some(condition), .. } => self.evaluate(condition, remaining),
                _ => Ok(Value::Boolean(true)),
            };
            match condition {
                Err(e) => {
                    return EvalResult::Error(e);
                },
                Ok(Value::Boolean(false)) => {
                    return EvalResult::Return(Value::Nil);
                },
                Ok(Value::Boolean(true)) => {},
                Ok(_) => {
                    return EvalResult::Error(condition_error());
                },
            }
            if remaining == 0 {
                return EvalResult::Error(runtime_error("Execution limit reached."));
            }
            match stmt {
                Stmt::While(_, body) => {
                    match self.execute(body, remaining - 1) {
                        EvalResult::Error(e) => {
                            return EvalResult::Error(e);
                        },
                        EvalResult::Return(v) => {
                            if v.is_return() {
                                return EvalResult::Return(v);
                            }
                        },
                    }
                },
                Stmt::For { increment, body, .. } => {
                    let scope = self.environment.current();
                    self.environment.enter(scope);
                    match self.execute(body, remaining - 1) {
                        EvalResult::Error(e) => {
                            self.environment.leave(scope);
                            return EvalResult::Error(e);
                        },
                        EvalResult::Return(v) => {
                            if v.is_return() {
                                self.environment.leave(scope);
                                return EvalResult::Return(v);
                            }
                        },
                    }
                    match increment {
                        Some(increment) => {
                            match self.evaluate(increment, remaining - 1) {
                                Ok(_) => {},
                                Err(e) => {
                                    self.environment.leave(scope);
                                    return EvalResult::Error(e);
                                },
                            }
                        },
                        None => {},
                    }
                    self.environment.leave(scope);
                },
                _ => {
                    return EvalResult::Return(Value::Nil);
                },
            }
            remaining = remaining - 1;
        }
    }

    /// The effect of a statement, under every run of readings that begins
    /// with those taken so far.
    pub fn execute(&mut self, stmt: &Stmt, fuel: u64) -> (r: EvalResult)
        requires
            old(self).wf(),
        ensures
            final(self).wf(),
            final(self).extends(old(self)),
            final(self)@.follows(old(self)@),
            final(self)@.environment.current == old(self)@.environment.current,
            forall|o: Seq<u64>| #[trigger]
                starts(final(self)@.readings, o) ==> (final(self)@.at(o), r@) == exec_stmt(
                    old(self)@.at(o),
                    stmt@,
                    fuel as nat,
                ),
            (final(self)@, r@) == exec_stmt(
                old(self)@.at(final(self)@.readings),
                stmt@,
                fuel as nat,
            ),
        decreases fuel, 2nat, stmt, 1nat,
    {
        proof {
            starts_chain();
        }
        match stmt {
            Stmt::Expression(e) => match self.evaluate(e, fuel) {
                Ok(_) => EvalResult::Return(Value::Nil),
                Err(e) => EvalResult::Error(e),
            },
            Stmt::Print(e) => match self.evaluate(e, fuel) {
                Ok(v) => {
                    let ghost lines = self@.output;
                    self.output.push(v.to_string());
                    assert(self@.output =~= lines.push(value_text(v@)));
                    EvalResult::Return(Value::Nil)
                },
                Err(e) => EvalResult::Error(e),
            },
            Stmt::Var { name, initializer } => {
                let value = match initializer {
                    Some(e) => match self.evaluate(e, fuel) {
                        Ok(v) => v,
                        Err(e) => {
                            return EvalResult::Error(e);
                        },
                    },
                    None => Value::Nil,
                };
                self.environment.define(name.lexeme.clone(), value);
                EvalResult::Return(Value::Nil)
            },
            Stmt::Block(stmts) => {
                let scope = self.environment.current();
                self.environment.enter(scope);
                let r = self.execute_list(stmts, fuel);
                self.environment.leave(scope);
                r
            },
            Stmt::If { condition, then_branch, else_branch } => {
                match self.evaluate(condition, fuel) {
                    Err(e) => EvalResult::Error(e),
                    Ok(Value::Boolean(true)) => self.execute(then_branch, fuel),
                    Ok(Value::Boolean(false)) => match else_branch {
                        Some(branch) => self.execute(branch, fuel),
                        None => EvalResult::Return(Value::Nil),
                    },
                    Ok(_) => EvalResult::Error(condition_error()),
                }
            },
            Stmt::While(_, _) => self.run_loop(stmt, fuel),
            Stmt::For { initializer, .. } => {
                let scope = self.environment.current();
                self.environment.enter(scope);
                match initializer {
                    Some(i) => {
                        match self.execute(i, fuel) {
                            EvalResult::Error(e) => {
                                self.environment.leave(scope);
                                return EvalResult::Error(e);
                            },
                            EvalResult::Return(v) => {
                                if v.is_return() {
                                    self.environment.leave(scope);
                                    return EvalResult::Return(v);
                                }
                            },
                        }
                    },
                    None => {},
                }
                let r = self.run_loop(stmt, fuel);
                self.environment.leave(scope);
                r
            },
            Stmt::Function(declaration) => {
                let closure = self.environment.current();
                self.environment.define(
                    declaration.name.lexeme.clone(),
                    Value::Function { declaration: share(declaration), closure },
                );
                self.environment.pin();
                EvalResult::Return(Value::Nil)
            },
            Stmt::Return { keyword, value } => {
                match value {
                    Some(e) => match self.evaluate(e, fuel) {
                        Ok(v) => EvalResult::Return(Value::Return(Box::new(v))),
                        Err(e) => EvalResult::Error(e),
                    },
                    None => EvalResult::Return(Value::Return(Box::new(Value::Nil))),
                }
            },
            Stmt::Class { .. } => EvalResult::Error(type_error("Unsupported statement.")),
        }
    }
}


/// A point in time on the system clock.
#[verifier::external_type_specification]
#[verifier::external_body]
pub struct ExSystemTime(std::time::SystemTime);

/// The failure of `SystemTime::duration_since`: the second point lies
/// after the first.
#[verifier::external_type_specification]
#[verifier::external_body]
pub struct ExSystemTimeError(std::time::SystemTimeError);

/// `SystemTime::now`: the present time on the system clock. Nothing is
/// claimed of it.
#[verifier::external_body]
fn now() -> SystemTime {
    SystemTime::now()
}

/// `SystemTime::duration_since` the Unix epoch: the time between the epoch
/// and `time`, or a failure where `time` lies before the epoch. Nothing is
/// claimed of either.
#[verifier::external_body]
fn since_epoch(time: &SystemTime) -> Result<Duration, SystemTimeError> {
    time.duration_since(SystemTime::UNIX_EPOCH)
}

/// `Duration::as_secs`: the whole seconds of a duration. Nothing is claimed
/// of them.
#[verifier::external_body]
fn whole_seconds(elapsed: &Duration) -> u64 {
    elapsed.as_secs()
}

/// Seconds since the Unix epoch on the system clock; zero where the clock
/// stands before the epoch.
fn wall_clock_seconds() -> u64 {
    match since_epoch(&now()) {
        Ok(elapsed) => whole_seconds(&elapsed),
        Err(_) => 0,
    }
}

impl EvaluatorView {
    /// The state of a new evaluator: one scope, which binds `clock`, and
    /// nothing printed.
    pub open spec fn initial() -> EvaluatorView {
        EvaluatorView {
            environment: EnvironmentView {
                scopes: seq![
                    ScopeView {
                        names: seq!["clock"@],
                        values: seq![ValueView::NativeFunction(NativeFunction::Clock)],
                        enclosing: None,
                    },
                ],
                current: 0,
                pinned: 0,
            },
            output: Seq::empty(),
            held: None,
            readings: Seq::empty(),
            taken: 0,
        }
    }
}

impl Evaluator {
    /// An evaluator whose global scope binds the native functions.
    pub fn new() -> (r: Evaluator)
        ensures
            r.wf(),
            r@ == EvaluatorView::initial(),
    {
        let mut environment = Environment::new();
        environment.define(String::from_str("clock"), Value::NativeFunction(NativeFunction::Clock));
        let r = Evaluator {
            environment,
            output: Vec::new(),
            held: None,
            heard: Ghost(Seq::empty()),
        };
        assert(r@.output =~= Seq::empty());
        assert(r@.environment.scopes =~= EvaluatorView::initial().environment.scopes) by {
            assert(r@.environment.scopes[0].names =~= seq!["clock"@]);
            assert(r@.environment.scopes[0].values =~= seq![
                ValueView::NativeFunction(NativeFunction::Clock),
            ]);
        }
        r
    }

    /// Runs the statements in order with the clock held at `reading`, which
    /// every `clock()` gives. Stops at the first error; what was printed
    /// before stays in the output.
    pub fn evaluate_statements_at(&mut self, statements: Vec<Stmt>, reading: u64) -> (r:
        EvalResult)
        requires
            old(self).wf(),
        ensures
            final(self).wf(),
            final(self).extends(old(self)),
            final(self)@.follows(old(self)@.hold(reading)),
            (final(self)@, r@) == exec_list(
                old(self)@.hold(reading),
                stmts_view(statements@),
                0,
                ValueView::Nil,
                STEP_LIMIT as nat,
            ),
    {
        self.held = Some(reading);
        let r = self.execute_list(&statements, STEP_LIMIT);
        proof {
            assert(starts(self@.readings, self@.readings));
            assert(self@.at(self@.readings) == self@);
            assert(old(self)@.hold(reading).at(self@.readings) == old(self)@.hold(reading));
        }
        r
    }

    /// Runs the statements in order. Each `clock()` reads the system clock
    /// when it is called: the run is the one that the readings taken give,
    /// which stand at the end of `readings` afterwards.
    pub fn evaluate_statements(&mut self, statements: Vec<Stmt>) -> (r: EvalResult)
        requires
            old(self).wf(),
        ensures
            final(self).wf(),
            final(self).extends(old(self)),
            final(self)@.follows(old(self)@.release()),
            (final(self)@, r@) == exec_list(
                old(self)@.release().at(final(self)@.readings),
                stmts_view(statements@),
                0,
                ValueView::Nil,
                STEP_LIMIT as nat,
            ),
    {
        self.held = None;
        let r = self.execute_list(&statements, STEP_LIMIT);
        proof {
            assert(starts(self@.readings, self@.readings));
            assert(self@.at(self@.readings) == self@);
        }
        r
    }

    /// The lines printed so far, with a line feed between one and the
    /// next.
    pub fn get_output(&self) -> (r: String)
        ensures
            r@ == joined(self@.output),
    {
        let ghost lines = self@.output;
        let mut out: Vec<char> = Vec::new();
        let mut i: usize = 0;
        assert(lines.take(0) =~= Seq::empty());
        while i < self.output.len()
            invariant
                i <= self.output.len(),
                lines == self@.output,
                lines.len() == self.output.len(),
                out@ == joined(lines.take(i as int)),
            decreases self.output.len() - i,
        {
            assert(lines.take(i + 1).drop_last() =~= lines.take(i as int));
            assert(lines.take(i + 1).last() == self.output[i as int]@);
            if i > 0 {
                out.push('\n');
            }
            push_text(&mut out, self.output[i].as_str());
            i += 1;
            assert(out@ =~= joined(lines.take(i as int))) by {
                if i == 1 {
                    assert(lines.take(1)[0] == lines.take(1).last());
                }
            }
        }
        assert(lines.take(lines.len() as int) =~= lines);
        string_of(&out)
    }
}

} // verus!
