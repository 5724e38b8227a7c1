//! The error type shared by every stage of the interpreter.
use crate::lox::text::push_char;
use vstd::prelude::*;

verus! {

/// An error raised while reading, parsing or running a program.
#[derive(Debug, PartialEq)]
pub enum LoxError {
    /// The named script could not be opened.
    FileNotFound(String),
    /// An operator, a call or a literal met a value of the wrong kind.
    InvalidTypeConversion(String),
    /// Reading or writing failed.
    IoError(String),
    /// The token stream is not a program.
    ParseError(String),
    /// A string literal or a block comment runs to the end of the input.
    UnterminatedString(String),
    /// A character that starts no token.
    UnexpectedCharacter(char),
    /// A name that no enclosing scope binds.
    UndefinedVariable(String),
    /// A division whose divisor is zero.
    DivisionByZero,
    /// A condition that is no boolean.
    NonBooleanCondition(String),
    /// `return` outside every function body.
    ReturnOutsideFunction,
    /// A parameter name that occurs twice in one declaration.
    DuplicateParameterName(String),
    /// Any other failure at run time.
    RuntimeError(String),
}

/// The mathematical content of a `LoxError`.
pub enum LoxErrorView {
    FileNotFound(Seq<char>),
    InvalidTypeConversion(Seq<char>),
    IoError(Seq<char>),
    ParseError(Seq<char>),
    UnterminatedString(Seq<char>),
    UnexpectedCharacter(char),
    UndefinedVariable(Seq<char>),
    DivisionByZero,
    NonBooleanCondition(Seq<char>),
    ReturnOutsideFunction,
    DuplicateParameterName(Seq<char>),
    RuntimeError(Seq<char>),
}

impl View for LoxError {
    type V = LoxErrorView;

    open spec fn view(&self) -> LoxErrorView {
        match self {
            LoxError::FileNotFound(s) => LoxErrorView::FileNotFound(s@),
            LoxError::InvalidTypeConversion(s) => LoxErrorView::InvalidTypeConversion(s@),
            LoxError::IoError(s) => LoxErrorView::IoError(s@),
            LoxError::ParseError(s) => LoxErrorView::ParseError(s@),
            LoxError::UnterminatedString(s) => LoxErrorView::UnterminatedString(s@),
            LoxError::UnexpectedCharacter(c) => LoxErrorView::UnexpectedCharacter(*c),
            LoxError::UndefinedVariable(s) => LoxErrorView::UndefinedVariable(s@),
            LoxError::DivisionByZero => LoxErrorView::DivisionByZero,
            LoxError::NonBooleanCondition(s) => LoxErrorView::NonBooleanCondition(s@),
            LoxError::ReturnOutsideFunction => LoxErrorView::ReturnOutsideFunction,
            LoxError::DuplicateParameterName(s) => LoxErrorView::DuplicateParameterName(s@),
            LoxError::RuntimeError(s) => LoxErrorView::RuntimeError(s@),
        }
    }
}

/// `head`, then `detail` between single quotes, then a closing bracket.
pub open spec fn quoted(head: Seq<char>, detail: Seq<char>) -> Seq<char> {
    head + detail + "']"@
}

impl LoxErrorView {
    /// The one-line message shown to the user.
    pub open spec fn text(self) -> Seq<char> {
        match self {
            LoxErrorView::FileNotFound(s) => quoted("[Error: File not found '"@, s),
            LoxErrorView::InvalidTypeConversion(s) => quoted(
                "[Error: Invalid type conversion '"@,
                s,
            ),
            LoxErrorView::IoError(s) => quoted("[Error: IO error '"@, s),
            LoxErrorView::ParseError(s) => quoted("[Error: Parse error '"@, s),
            LoxErrorView::UnterminatedString(s) => quoted("[Error: Unterminated string '"@, s),
            LoxErrorView::UnexpectedCharacter(c) => quoted(
                "[Error: Unexpected character '"@,
                seq![c],
            ),
            LoxErrorView::UndefinedVariable(s) => quoted("[Error: Undefined variable '"@, s),
            LoxErrorView::DivisionByZero => "[Error: Division by zero]"@,
            LoxErrorView::NonBooleanCondition(s) => quoted("[Error: Non-boolean condition '"@, s),
            LoxErrorView::ReturnOutsideFunction => "[Error: Cannot return from outside a function.]"@,
            LoxErrorView::DuplicateParameterName(s) => quoted(
                "[Error: Duplicate parameter name '"@,
                s,
            ),
            LoxErrorView::RuntimeError(s) => quoted("[Error: Runtime error '"@, s),
        }
    }
}

fn quote(head: &str, detail: &str) -> (r: String)
    ensures
        r@ == quoted(head@, detail@),
{
    let mut s = String::from_str(head);
    s.append(detail);
    s.append("']");
    s
}

impl LoxError {
    /// The one-line message shown to the user.
    pub fn to_string(&self) -> (r: String)
        ensures
            r@ == self@.text(),
    {
        match self {
            LoxError::FileNotFound(s) => quote("[Error: File not found '", s.as_str()),
            LoxError::InvalidTypeConversion(s) => quote(
                "[Error: Invalid type conversion '",
                s.as_str(),
            ),
            LoxError::IoError(s) => quote("[Error: IO error '", s.as_str()),
            LoxError::ParseError(s) => quote("[Error: Parse error '", s.as_str()),
            LoxError::UnterminatedString(s) => quote("[Error: Unterminated string '", s.as_str()),
            LoxError::UnexpectedCharacter(c) => {
                let mut r = String::from_str("[Error: Unexpected character '");
                push_char(&mut r, *c);
                r.append("']");
                assert(r@ == quoted("[Error: Unexpected character '"@, seq![*c]));
                r
            },
            LoxError::UndefinedVariable(s) => quote("[Error: Undefined variable '", s.as_str()),
            LoxError::DivisionByZero => String::from_str("[Error: Division by zero]"),
            LoxError::NonBooleanCondition(s) => quote(
                "[Error: Non-boolean condition '",
                s.as_str(),
            ),
            LoxError::ReturnOutsideFunction => String::from_str(
                "[Error: Cannot return from outside a function.]",
            ),
            LoxError::DuplicateParameterName(s) => quote(
                "[Error: Duplicate parameter name '",
                s.as_str(),
            ),
            LoxError::RuntimeError(s) => quote("[Error: Runtime error '", s.as_str()),
        }
    }
}

} // verus!
