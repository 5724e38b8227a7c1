//! An interpreter for the Lox language: a scanner, a parser, a printer of
//! syntax trees and a tree-walking evaluator, and a bytecode compiler with
//! its stack machine.
use crate::lox::error::{LoxError, LoxErrorView};
use crate::lox::evaluator::{
    exec_list, joined, EvalResult, EvalResultView, Evaluator, EvaluatorView,
    ValueView, STEP_LIMIT,
};
use crate::lox::lines::{canonical_text_ignores_lines, unlined_tokens};
use crate::lox::parser::{parse, Parser};
use crate::lox::printer::{program_text, AstPrinter};
use crate::lox::scanner::{scan, Scanner};
use std::rc::Rc;
use vstd::prelude::*;

pub mod lox;
pub mod tool;
pub mod vm;

verus! {

/// Another handle on a shared value (`Rc::clone`): the two are equal.
#[verifier::external_body]
pub(crate) fn share<T>(rc: &Rc<T>) -> (r: Rc<T>)
    ensures
        r == *rc,
{
    rc.clone()
}

/// The message for a source text without statements.
pub open spec fn empty_text() -> Seq<char> {
    "No valid statements produced"@
}

/// What interpreting a source text in state `st` does: the state after it,
/// and everything printed so far or the first error. A text that does not
/// scan or parse, or holds no statement, leaves the state as it is.
pub open spec fn interpret(source: Seq<char>, st: EvaluatorView) -> (
    EvaluatorView,
    Result<Seq<char>, LoxErrorView>,
) {
    match scan(source) {
        Err(e) => (st, Err(e)),
        Ok(tokens) => match parse(tokens) {
            Err(e) => (st, Err(e)),
            Ok(statements) => if statements.len() == 0 {
                (st, Err(LoxErrorView::ParseError(empty_text())))
            } else {
                let (after, result) = exec_list(
                    st,
                    statements,
                    0,
                    ValueView::Nil,
                    STEP_LIMIT as nat,
                );
                match result {
                    EvalResultView::Return(_) => (after, Ok(joined(after.output))),
                    EvalResultView::Error(e) => (after, Err(e)),
                }
            },
        },
    }
}

/// The content of the result of an interpretation.
pub open spec fn text_view(r: Result<String, LoxError>) -> Result<Seq<char>, LoxErrorView> {
    match r {
        Ok(s) => Ok(s@),
        Err(e) => Err(e@),
    }
}

/// Interprets `source` in `evaluator`, whose bindings and output persist,
/// with the clock held at `reading`, which every `clock()` gives.
pub fn run_with_evaluator_at(source: &str, evaluator: &mut Evaluator, reading: u64) -> (r: Result<
    String,
    LoxError,
>)
    requires
        old(evaluator).wf(),
    ensures
        final(evaluator).wf(),
        (final(evaluator)@.hold(reading), text_view(r)) == interpret(
            source@,
            old(evaluator)@.hold(reading),
        ),
{
    let mut scanner = Scanner::new(source);
    let tokens = match scanner.scan_tokens() {
        Ok(tokens) => tokens,
        Err(e) => {
            return Err(e);
        },
    };
    let mut parser = Parser::new(tokens);
    let statements = match parser.parse() {
        Ok(statements) => statements,
        Err(e) => {
            return Err(e);
        },
    };
    if statements.len() == 0 {
        return Err(LoxError::ParseError(String::from_str("No valid statements produced")));
    }
    match evaluator.evaluate_statements_at(statements, reading) {
        EvalResult::Return(_) => Ok(evaluator.get_output()),
        EvalResult::Error(e) => Err(e),
    }
}

/// Interprets `source` in `evaluator`, whose bindings and output persist.
/// Each `clock()` reads the system clock when it is called: the run is the
/// one that the readings taken give, which stand at the end of `readings`
/// afterwards.
pub fn run_with_evaluator(source: &str, evaluator: &mut Evaluator) -> (r: Result<String, LoxError>)
    requires
        old(evaluator).wf(),
    ensures
        final(evaluator).wf(),
        final(evaluator)@.release().follows(old(evaluator)@.release()),
        (final(evaluator)@.release(), text_view(r)) == interpret(
            source@,
            old(evaluator)@.release().at(final(evaluator)@.readings),
        ),
{
    let mut scanner = Scanner::new(source);
    let tokens = match scanner.scan_tokens() {
        Ok(tokens) => tokens,
        Err(e) => {
            assert(evaluator@.at(evaluator@.readings) == evaluator@);
            return Err(e);
        },
    };
    let mut parser = Parser::new(tokens);
    let statements = match parser.parse() {
        Ok(statements) => statements,
        Err(e) => {
            assert(evaluator@.at(evaluator@.readings) == evaluator@);
            return Err(e);
        },
    };
    if statements.len() == 0 {
        assert(evaluator@.at(evaluator@.readings) == evaluator@);
        return Err(LoxError::ParseError(String::from_str("No valid statements produced")));
    }
    match evaluator.evaluate_statements(statements) {
        EvalResult::Return(_) => Ok(evaluator.get_output()),
        EvalResult::Error(e) => Err(e),
    }
}

/// Interprets `source` in a new evaluator, with the clock held at
/// `reading`, which every `clock()` gives: everything printed, or the
/// first error.
pub fn run_at(source: &str, reading: u64) -> (r: Result<String, LoxError>)
    ensures
        text_view(r) == interpret(source@, EvaluatorView::initial().hold(reading)).1,
{
    let mut evaluator = Evaluator::new();
    run_with_evaluator_at(source, &mut evaluator, reading)
}

/// Interprets `source` in a new evaluator: everything printed, or the
/// first error. Each `clock()` reads the system clock when it is called,
/// so the run is the one that some readings of the clock give.
pub fn run(source: &str) -> (r: Result<String, LoxError>)
    ensures
        exists|readings: Seq<u64>|
            text_view(r) == (#[trigger] interpret(
                source@,
                EvaluatorView::initial().at(readings),
            )).1,
{
    let mut evaluator = Evaluator::new();
    let r = run_with_evaluator(source, &mut evaluator);
    assert(text_view(r) == interpret(
        source@,
        EvaluatorView::initial().at(evaluator@.readings),
    ).1);
    r
}

/// The canonical text of the program that `source` holds.
pub open spec fn canonical_text(source: Seq<char>) -> Result<Seq<char>, LoxErrorView> {
    match scan(source) {
        Err(e) => Err(e),
        Ok(tokens) => match parse(tokens) {
            Err(e) => Err(e),
            Ok(statements) => Ok(program_text(statements)),
        },
    }
}

/// Scans and parses `source` and prints the program in canonical form,
/// one line for each statement.
pub fn canonical(source: &str) -> (r: Result<String, LoxError>)
    ensures
        text_view(r) == canonical_text(source@),
{
    let mut scanner = Scanner::new(source);
    let tokens = match scanner.scan_tokens() {
        Ok(tokens) => tokens,
        Err(e) => {
            return Err(e);
        },
    };
    let mut parser = Parser::new(tokens);
    let statements = match parser.parse() {
        Ok(statements) => statements,
        Err(e) => {
            return Err(e);
        },
    };
    let mut printer = AstPrinter;
    Ok(printer.print_program(&statements))
}


/// The canonical text of a program depends on its tokens alone: two source
/// texts with the same tokens have the same canonical text, or fail alike.
pub proof fn canonical_text_follows_tokens(first: Seq<char>, second: Seq<char>)
    requires
        scan(first) == scan(second),
    ensures
        canonical_text(first) == canonical_text(second),
{
}

/// The canonical text of a program depends on what its tokens are, not on
/// where they stand: two source texts whose tokens differ in nothing but
/// their lines have the same canonical text, or fail with the same parse
/// error. White space and comments between the tokens do not matter.
pub proof fn canonical_text_follows_lexemes(first: Seq<char>, second: Seq<char>)
    requires
        scan(first) matches Ok(a) && scan(second) matches Ok(b) && unlined_tokens(a)
            == unlined_tokens(b),
    ensures
        canonical_text(first) == canonical_text(second),
{
    canonical_text_ignores_lines(scan(first)->Ok_0, scan(second)->Ok_0);
}

} // verus!
