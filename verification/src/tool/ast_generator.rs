//! The source text of the syntax tree types, made from tables of their
//! variants.
use crate::lox::text::{push_text, string_of};
use vstd::prelude::*;

verus! {

/// One line for each of the first `n` variants: the name, then the fields
/// in braces.
pub open spec fn variants_text(rows: Seq<(Seq<char>, Seq<char>)>, n: nat) -> Seq<char>
    decreases n,
{
    if n == 0 || n > rows.len() {
        Seq::empty()
    } else {
        variants_text(rows, (n - 1) as nat) + "    "@ + rows[n - 1].0 + " { "@ + rows[n - 1].1
            + " },\n"@
    }
}

/// The variants of an expression, with their fields.
pub open spec fn expression_rows() -> Seq<(Seq<char>, Seq<char>)> {
    seq![
        ("Binary"@, "left: Box<Expr>, operator: Token, right: Box<Expr>"@),
        ("Grouping"@, "expression: Box<Expr>"@),
        ("Literal"@, "value: LiteralValue"@),
        ("Unary"@, "operator: Token, operand: Box<Expr>"@),
    ]
}

/// The variants of a statement, with their fields.
pub open spec fn statement_rows() -> Seq<(Seq<char>, Seq<char>)> {
    seq![("Expression"@, "Expr"@), ("Print"@, "Expr"@)]
}

/// The text of the file: the imports, then the two types.
pub open spec fn source_text() -> Seq<char> {
    "use crate::lox::token::Token;\n"@ + "use crate::lox::token_type::LiteralValue;\n"@
        + "\n#[derive(Debug)]\n"@ + "pub enum Expr {\n"@ + variants_text(expression_rows(), 4)
        + "}\n\n"@ + "pub enum Stmt {\n"@ + variants_text(statement_rows(), 2) + "}\n\n"@
}

/// The contents of a table of variants.
pub open spec fn rows_view(rows: Seq<(&'static str, &'static str)>) -> Seq<(Seq<char>, Seq<char>)> {
    rows.map_values(|row: (&'static str, &'static str)| (row.0@, row.1@))
}

fn write_variants(out: &mut Vec<char>, rows: &Vec<(&'static str, &'static str)>)
    ensures
        final(out)@ == old(out)@ + variants_text(rows_view(rows@), rows.len() as nat),
{
    let ghost list = rows_view(rows@);
    let mut i: usize = 0;
    assert(out@ =~= old(out)@ + variants_text(list, 0));
    while i < rows.len()
        invariant
            i <= rows.len(),
            list == rows_view(rows@),
            out@ == old(out)@ + variants_text(list, i as nat),
        decreases rows.len() - i,
    {
        push_text(out, "    ");
        push_text(out, rows[i].0);
        push_text(out, " { ");
        push_text(out, rows[i].1);
        push_text(out, " },\n");
        i += 1;
        assert(out@ =~= old(out)@ + variants_text(list, i as nat));
    }
}

/// The source text of the syntax tree types.
pub fn ast_source() -> (r: String)
    ensures
        r@ == source_text(),
{
    let mut out: Vec<char> = Vec::new();
    push_text(&mut out, "use crate::lox::token::Token;\n");
    push_text(&mut out, "use crate::lox::token_type::LiteralValue;\n");
    push_text(&mut out, "\n#[derive(Debug)]\n");
    push_text(&mut out, "pub enum Expr {\n");
    let mut node_types: Vec<(&'static str, &'static str)> = Vec::new();
    node_types.push(("Binary", "left: Box<Expr>, operator: Token, right: Box<Expr>"));
    node_types.push(("Grouping", "expression: Box<Expr>"));
    node_types.push(("Literal", "value: LiteralValue"));
    node_types.push(("Unary", "operator: Token, operand: Box<Expr>"));
    assert(rows_view(node_types@) =~= expression_rows());
    write_variants(&mut out, &node_types);
    push_text(&mut out, "}\n\n");
    push_text(&mut out, "pub enum Stmt {\n");
    let mut stmt_types: Vec<(&'static str, &'static str)> = Vec::new();
    stmt_types.push(("Expression", "Expr"));
    stmt_types.push(("Print", "Expr"));
    assert(rows_view(stmt_types@) =~= statement_rows());
    write_variants(&mut out, &stmt_types);
    push_text(&mut out, "}\n\n");
    assert(out@ =~= source_text());
    string_of(&out)
}

} // verus!
