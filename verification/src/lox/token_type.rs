//! Token kinds and the payload of literal tokens.
use crate::lox::number::{number_text, Number};
use vstd::prelude::*;

verus! {

/// The kind of a token.
#[derive(Debug, Clone, Copy, PartialEq, Eq, Structural)]
pub enum TokenType {
    // Single-character tokens
    LeftParen,
    RightParen,
    LeftBrace,
    RightBrace,
    Comma,
    Dot,
    Minus,
    Plus,
    Semicolon,
    Slash,
    Star,
    Percent,
    // One or two character tokens
    Bang,
    BangEqual,
    Equal,
    EqualEqual,
    Greater,
    GreaterEqual,
    Less,
    LessEqual,
    // Literals
    Identifier,
    StringLit,
    Number,
    // Keywords
    And,
    Class,
    Else,
    False,
    Fun,
    For,
    If,
    Nil,
    Or,
    Print,
    Return,
    Super,
    This,
    True,
    Var,
    While,
    /// The end of the input.
    Eof,
}

/// The value of a literal, as the source text gives it.
#[derive(Debug, PartialEq)]
pub enum LiteralValue {
    String(String),
    Number(Number),
    Boolean(bool),
    Nil,
}

/// The mathematical content of a `LiteralValue`.
pub enum LiteralView {
    String(Seq<char>),
    Number(u64),
    Boolean(bool),
    Nil,
}

impl View for LiteralValue {
    type V = LiteralView;

    open spec fn view(&self) -> LiteralView {
        match self {
            LiteralValue::String(s) => LiteralView::String(s@),
            LiteralValue::Number(n) => LiteralView::Number(n.bits),
            LiteralValue::Boolean(b) => LiteralView::Boolean(*b),
            LiteralValue::Nil => LiteralView::Nil,
        }
    }
}

impl Clone for LiteralValue {
    fn clone(&self) -> (r: LiteralValue)
        ensures
            r@ == self@,
    {
        match self {
            LiteralValue::String(s) => LiteralValue::String(s.clone()),
            LiteralValue::Number(n) => LiteralValue::Number(*n),
            LiteralValue::Boolean(b) => LiteralValue::Boolean(*b),
            LiteralValue::Nil => LiteralValue::Nil,
        }
    }
}

/// The text of a literal: a number by its shortest decimal, a string by
/// its characters.
pub open spec fn literal_text(value: LiteralView) -> Seq<char> {
    match value {
        LiteralView::Number(n) => number_text(n),
        LiteralView::String(s) => s,
        LiteralView::Boolean(b) => if b {
            "true"@
        } else {
            "false"@
        },
        LiteralView::Nil => "nil"@,
    }
}

impl LiteralValue {
    /// The text of the literal.
    pub fn to_string(&self) -> (r: String)
        ensures
            r@ == literal_text(self@),
    {
        match self {
            LiteralValue::Number(n) => n.to_text(),
            LiteralValue::String(s) => s.clone(),
            LiteralValue::Boolean(b) => if *b {
                String::from_str("true")
            } else {
                String::from_str("false")
            },
            LiteralValue::Nil => String::from_str("nil"),
        }
    }

    /// The number that a number literal holds.
    pub fn as_number(&self) -> (r: Option<Number>)
        ensures
            r == match self@ {
                LiteralView::Number(bits) => Some(Number { bits }),
                _ => None,
            },
    {
        match self {
            LiteralValue::Number(n) => Some(*n),
            _ => None,
        }
    }
}

} // verus!
