//! The simplified syntax tree that the bytecode compiler lowers.
use crate::lox::number::Number;
use vstd::prelude::*;

verus! {

/// A binary operator.
#[derive(Debug, Clone, Copy, PartialEq, Eq, Structural)]
pub enum BinaryOperator {
    Plus,
    Minus,
    Star,
    Slash,
    Equals,
}

/// A unary operator.
#[derive(Debug, Clone, Copy, PartialEq, Eq, Structural)]
pub enum UnaryOperator {
    Plus,
    Minus,
    Star,
    Slash,
    Equals,
}

/// A node of the simplified tree.
#[derive(Debug, PartialEq)]
#[allow(inconsistent_fields)]
pub enum ASTNode {
    NumberLiteral(Number),
    StringLiteral(String),
    VariableDeclaration { name: String, initializer: Box<ASTNode> },
    VariableReference(String),
    BinaryExpression { left: Box<ASTNode>, operator: BinaryOperator, right: Box<ASTNode> },
    UnaryExpression { operator: UnaryOperator, right: Box<ASTNode> },
    Grouping(Box<ASTNode>),
    IfStatement { condition: Box<ASTNode>, then_branch: Vec<ASTNode>, else_branch: Option<Vec<ASTNode>> },
    WhileStatement { condition: Box<ASTNode>, body: Vec<ASTNode> },
    FunctionDeclaration { name: String, parameters: Vec<String>, body: Vec<ASTNode> },
    FunctionCall { name: String, arguments: Vec<ASTNode> },
    ExpressionStatement(Box<ASTNode>),
    ReturnStatement(Option<Box<ASTNode>>),
    Program(Vec<ASTNode>),
}

/// The mathematical content of an `ASTNode`.
#[allow(inconsistent_fields)]
pub enum NodeView {
    NumberLiteral(u64),
    StringLiteral(Seq<char>),
    VariableDeclaration { name: Seq<char>, initializer: Box<NodeView> },
    VariableReference(Seq<char>),
    BinaryExpression { left: Box<NodeView>, operator: BinaryOperator, right: Box<NodeView> },
    UnaryExpression { operator: UnaryOperator, right: Box<NodeView> },
    Grouping(Box<NodeView>),
    IfStatement { condition: Box<NodeView>, then_branch: Seq<NodeView>, else_branch: Option<Seq<NodeView>> },
    WhileStatement { condition: Box<NodeView>, body: Seq<NodeView> },
    FunctionDeclaration { name: Seq<char>, parameters: Seq<Seq<char>>, body: Seq<NodeView> },
    FunctionCall { name: Seq<char>, arguments: Seq<NodeView> },
    ExpressionStatement(Box<NodeView>),
    ReturnStatement(Option<Box<NodeView>>),
    Program(Seq<NodeView>),
}

/// The contents of a node list.
pub open spec fn nodes_view(nodes: Seq<ASTNode>) -> Seq<NodeView>
    decreases nodes,
{
    Seq::new(
        nodes.len(),
        |i: int|
            if 0 <= i < nodes.len() {
                node_view(nodes[i])
            } else {
                arbitrary()
            },
    )
}

/// The content of a node.
pub open spec fn node_view(node: ASTNode) -> NodeView
    decreases node,
{
    match node {
        ASTNode::NumberLiteral(n) => NodeView::NumberLiteral(n.bits),
        ASTNode::StringLiteral(s) => NodeView::StringLiteral(s@),
        ASTNode::VariableDeclaration { name, initializer } => NodeView::VariableDeclaration {
            name: name@,
            initializer: Box::new(node_view(*initializer)),
        },
        ASTNode::VariableReference(name) => NodeView::VariableReference(name@),
        ASTNode::BinaryExpression { left, operator, right } => NodeView::BinaryExpression {
            left: Box::new(node_view(*left)),
            operator,
            right: Box::new(node_view(*right)),
        },
        ASTNode::UnaryExpression { operator, right } => NodeView::UnaryExpression {
            operator,
            right: Box::new(node_view(*right)),
        },
        ASTNode::Grouping(inner) => NodeView::Grouping(Box::new(node_view(*inner))),
        ASTNode::IfStatement { condition, then_branch, else_branch } => NodeView::IfStatement {
            condition: Box::new(node_view(*condition)),
            then_branch: nodes_view(then_branch@),
            else_branch: match else_branch {
                Some(branch) => Some(nodes_view(branch@)),
                None => None,
            },
        },
        ASTNode::WhileStatement { condition, body } => NodeView::WhileStatement {
            condition: Box::new(node_view(*condition)),
            body: nodes_view(body@),
        },
        ASTNode::FunctionDeclaration { name, parameters, body } => NodeView::FunctionDeclaration {
            name: name@,
            parameters: parameters@.map_values(|p: String| p@),
            body: nodes_view(body@),
        },
        ASTNode::FunctionCall { name, arguments } => NodeView::FunctionCall {
            name: name@,
            arguments: nodes_view(arguments@),
        },
        ASTNode::ExpressionStatement(inner) => NodeView::ExpressionStatement(
            Box::new(node_view(*inner)),
        ),
        ASTNode::ReturnStatement(value) => NodeView::ReturnStatement(
            match value {
                Some(v) => Some(Box::new(node_view(*v))),
                None => None,
            },
        ),
        ASTNode::Program(nodes) => NodeView::Program(nodes_view(nodes@)),
    }
}

impl View for ASTNode {
    type V = NodeView;

    open spec fn view(&self) -> NodeView {
        node_view(*self)
    }
}

} // verus!
