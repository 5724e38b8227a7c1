//! The compiler: a simplified syntax tree to a chunk of bytecode.
use crate::vm::ast_node::{nodes_view, ASTNode, BinaryOperator, NodeView, UnaryOperator};
use crate::vm::chunk::{encoding, Chunk, ChunkView, Constant, ConstantView, OpCode};
use crate::vm::vm::{Function, FunctionView};
use std::rc::Rc;
use vstd::prelude::*;

verus! {

/// The chunk with one more instruction.
pub open spec fn emit(chunk: ChunkView, op: OpCode) -> ChunkView {
    ChunkView { code: chunk.code + encoding(op), ..chunk }
}

/// The chunk with one more constant.
pub open spec fn intern(chunk: ChunkView, constant: ConstantView) -> ChunkView {
    ChunkView { constants: chunk.constants.push(constant), ..chunk }
}

/// The message for a constant pool that is full.
pub open spec fn full_text() -> Seq<char> {
    "Too many constants in one chunk."@
}

/// The message for a jump that two bytes cannot hold.
pub open spec fn far_text() -> Seq<char> {
    "Jump too large."@
}

/// The chunk with one more constant and the instruction, made by
/// `instruction` from the index of the constant, that uses it. The pool
/// holds no more than 256 constants.
pub open spec fn with_constant(
    chunk: ChunkView,
    constant: ConstantView,
    instruction: spec_fn(u8) -> OpCode,
) -> (ChunkView, Result<(), Seq<char>>) {
    if chunk.constants.len() >= 256 {
        (chunk, Err(full_text()))
    } else {
        (emit(intern(chunk, constant), instruction(chunk.constants.len() as u8)), Ok(()))
    }
}

/// The chunk with the jump at `slot` leading to the end of the code.
pub open spec fn patch(chunk: ChunkView, slot: int) -> (ChunkView, Result<(), Seq<char>>) {
    if chunk.code.len() - slot - 2 > 0xffff {
        (chunk, Err(far_text()))
    } else {
        (Chunk::patched(chunk, slot), Ok(()))
    }
}

/// The name of an operator, for messages.
pub open spec fn binary_name(operator: BinaryOperator) -> Seq<char> {
    match operator {
        BinaryOperator::Plus => "Plus"@,
        BinaryOperator::Minus => "Minus"@,
        BinaryOperator::Star => "Star"@,
        BinaryOperator::Slash => "Slash"@,
        BinaryOperator::Equals => "Equals"@,
    }
}

/// The name of an operator, for messages.
pub open spec fn unary_name(operator: UnaryOperator) -> Seq<char> {
    match operator {
        UnaryOperator::Plus => "Plus"@,
        UnaryOperator::Minus => "Minus"@,
        UnaryOperator::Star => "Star"@,
        UnaryOperator::Slash => "Slash"@,
        UnaryOperator::Equals => "Equals"@,
    }
}

/// The name of the kind of a node that is not lowered, for messages.
pub open spec fn kind_name(node: NodeView) -> Seq<char> {
    match node {
        NodeView::StringLiteral(_) => "StringLiteral"@,
        NodeView::Grouping(_) => "Grouping"@,
        NodeView::WhileStatement { .. } => "WhileStatement"@,
        NodeView::ExpressionStatement(_) => "ExpressionStatement"@,
        NodeView::Program(_) => "Program"@,
        _ => "Node"@,
    }
}

/// The instruction of a binary operator, where it has one.
pub open spec fn binary_instruction(operator: BinaryOperator) -> Option<OpCode> {
    match operator {
        BinaryOperator::Plus => Some(OpCode::OpAdd),
        BinaryOperator::Minus => Some(OpCode::OpSubtract),
        BinaryOperator::Star => Some(OpCode::OpMultiply),
        BinaryOperator::Slash => Some(OpCode::OpDivide),
        BinaryOperator::Equals => None,
    }
}

/// The code of the nodes from `from` on, appended to the chunk, up to the
/// first that fails.
pub open spec fn lower_all(chunk: ChunkView, nodes: Seq<NodeView>, from: nat) -> (
    ChunkView,
    Result<(), Seq<char>>,
)
    decreases nodes, nodes.len() - from,
{
    if from >= nodes.len() {
        (chunk, Ok(()))
    } else {
        let (next, r) = lower(chunk, nodes[from as int]);
        match r {
            Ok(_) => lower_all(next, nodes, from + 1),
            Err(_) => (next, r),
        }
    }
}

/// The branches of an `if` node, of which the condition is lowered
/// already: a conditional jump over the first branch, which ends with a
/// jump over the second.
pub open spec fn lower_branches(chunk: ChunkView, node: NodeView) -> (
    ChunkView,
    Result<(), Seq<char>>,
)
    decreases node, 1nat,
{
    match node {
        NodeView::IfStatement { condition, then_branch, else_branch } => {
            let first = chunk.code.len() + 1;
            let (c1, r1) = lower_all(
                emit(emit(chunk, OpCode::OpJumpIfFalse(0)), OpCode::OpPop),
                then_branch,
                0,
            );
            match r1 {
                Err(_) => (c1, r1),
                Ok(_) => {
                    let second = c1.code.len() + 1;
                    let (c2, r2) = patch(emit(c1, OpCode::OpJump(0)), first as int);
                    match r2 {
                        Err(_) => (c2, r2),
                        Ok(_) => {
                            let (c3, r3) = match else_branch {
                                Some(branch) => lower_all(c2, branch, 0),
                                None => (c2, Ok(())),
                            };
                            match r3 {
                                Err(_) => (c3, r3),
                                Ok(_) => patch(c3, second as int),
                            }
                        },
                    }
                },
            }
        },
        _ => (chunk, Ok(())),
    }
}

/// The code of a node, appended to the chunk; or the chunk as far as it
/// was written when lowering failed, with the reason.
pub open spec fn lower(chunk: ChunkView, node: NodeView) -> (ChunkView, Result<(), Seq<char>>)
    decreases node, 2nat,
{
    match node {
        NodeView::NumberLiteral(value) => with_constant(
            chunk,
            ConstantView::Number(value),
            |index: u8| OpCode::OpConstant(index),
        ),
        NodeView::BinaryExpression { left, operator, right } => {
            let (c1, r1) = lower(chunk, *left);
            match r1 {
                Err(_) => (c1, r1),
                Ok(_) => {
                    let (c2, r2) = lower(c1, *right);
                    match r2 {
                        Err(_) => (c2, r2),
                        Ok(_) => match binary_instruction(operator) {
                            Some(op) => (emit(c2, op), Ok(())),
                            None => (
                                c2,
                                Err("Unsupported binary operator: "@ + binary_name(operator)),
                            ),
                        },
                    }
                },
            }
        },
        NodeView::UnaryExpression { operator, right } => {
            let (c1, r1) = lower(chunk, *right);
            match r1 {
                Err(_) => (c1, r1),
                Ok(_) => if operator == UnaryOperator::Minus {
                    (emit(c1, OpCode::OpNegate), Ok(()))
                } else {
                    (c1, Err("Unsupported unary operator: "@ + unary_name(operator)))
                },
            }
        },
        NodeView::VariableDeclaration { name, initializer } => {
            let (c1, r1) = lower(chunk, *initializer);
            match r1 {
                Err(_) => (c1, r1),
                Ok(_) => with_constant(
                    c1,
                    ConstantView::String(name),
                    |index: u8| OpCode::OpDefineGlobal(index),
                ),
            }
        },
        NodeView::VariableReference(name) => with_constant(
            chunk,
            ConstantView::String(name),
            |index: u8| OpCode::OpGetGlobal(index),
        ),
        NodeView::IfStatement { condition, then_branch, else_branch } => {
            let (c1, r1) = lower(chunk, *condition);
            match r1 {
                Err(_) => (c1, r1),
                Ok(_) => lower_branches(c1, node),
            }
        },
        NodeView::FunctionDeclaration { name, parameters, body } => {
            let (inner, r1) = lower_all(
                ChunkView { code: Seq::empty(), constants: Seq::empty() },
                body,
                0,
            );
            match r1 {
                Err(_) => (chunk, r1),
                Ok(_) => with_constant(
                    chunk,
                    ConstantView::Function(
                        FunctionView {
                            name,
                            chunk: emit(inner, OpCode::OpReturn),
                            arity: parameters.len(),
                        },
                    ),
                    |index: u8| OpCode::OpConstant(index),
                ),
            }
        },
        NodeView::FunctionCall { name, arguments } => {
            let (c1, r1) = lower_all(chunk, arguments, 0);
            match r1 {
                Err(_) => (c1, r1),
                Ok(_) => if arguments.len() > 255 {
                    (c1, Err("Too many arguments in one call."@))
                } else {
                    with_constant(
                        c1,
                        ConstantView::String(name),
                        |index: u8| OpCode::OpCall(arguments.len() as u8, index),
                    )
                },
            }
        },
        NodeView::ReturnStatement(value) => {
            let (c1, r1) = match value {
                Some(v) => lower(chunk, *v),
                None => with_constant(
                    chunk,
                    ConstantView::Number(0),
                    |index: u8| OpCode::OpConstant(index),
                ),
            };
            match r1 {
                Err(_) => (c1, r1),
                Ok(_) => (emit(c1, OpCode::OpReturn), Ok(())),
            }
        },
        _ => (chunk, Err("Unsupported AST node: "@ + kind_name(node))),
    }
}

/// The code of a program: that of its node, then a return.
pub open spec fn compiled(chunk: ChunkView, node: NodeView) -> (ChunkView, Result<(), Seq<char>>) {
    let (c1, r1) = lower(chunk, node);
    match r1 {
        Err(_) => (c1, r1),
        Ok(_) => (emit(c1, OpCode::OpReturn), Ok(())),
    }
}


/// The code of a program that compiles ends with a return.
pub proof fn compiled_code_returns(chunk: ChunkView, node: NodeView)
    ensures
        compiled(chunk, node).1 is Ok ==> compiled(chunk, node).0.code.len() > 0 && compiled(
            chunk,
            node,
        ).0.code.last() == 0x07u8,
{
}

/// The compiler of one chunk.
pub struct Compiler {
    chunk: Chunk,
}

impl View for Compiler {
    type V = ChunkView;

    closed spec fn view(&self) -> ChunkView {
        self.chunk@
    }
}

fn message(head: &str, name: &str) -> (r: String)
    ensures
        r@ == head@ + name@,
{
    let mut text = String::from_str(head);
    text.append(name);
    text
}

fn binary_operator_name(operator: BinaryOperator) -> (r: &'static str)
    ensures
        r@ == binary_name(operator),
{
    match operator {
        BinaryOperator::Plus => "Plus",
        BinaryOperator::Minus => "Minus",
        BinaryOperator::Star => "Star",
        BinaryOperator::Slash => "Slash",
        BinaryOperator::Equals => "Equals",
    }
}

fn unary_operator_name(operator: UnaryOperator) -> (r: &'static str)
    ensures
        r@ == unary_name(operator),
{
    match operator {
        UnaryOperator::Plus => "Plus",
        UnaryOperator::Minus => "Minus",
        UnaryOperator::Star => "Star",
        UnaryOperator::Slash => "Slash",
        UnaryOperator::Equals => "Equals",
    }
}

fn node_kind_name(node: &ASTNode) -> (r: &'static str)
    ensures
        r@ == kind_name(node@),
{
    match node {
        ASTNode::StringLiteral(_) => "StringLiteral",
        ASTNode::Grouping(_) => "Grouping",
        ASTNode::WhileStatement { .. } => "WhileStatement",
        ASTNode::ExpressionStatement(_) => "ExpressionStatement",
        ASTNode::Program(_) => "Program",
        _ => "Node",
    }
}

impl Compiler {
    /// A compiler with an empty chunk.
    pub fn new() -> (r: Compiler)
        ensures
            r@ == (ChunkView { code: Seq::empty(), constants: Seq::empty() }),
    {
        Compiler { chunk: Chunk::new() }
    }

    /// The index that the next constant gets, where the pool has room.
    fn next_index(&self) -> (r: Result<u8, String>)
        ensures
            match r {
                Ok(index) => self@.constants.len() < 256 && index == self@.constants.len(),
                Err(text) => self@.constants.len() >= 256 && text@ == full_text(),
            },
    {
        let count = self.chunk.constants.len();
        if count >= 256 {
            Err(String::from_str("Too many constants in one chunk."))
        } else {
            Ok(count as u8)
        }
    }

    /// Makes the jump at `slot` lead to the end of the code.
    fn patch(&mut self, slot: usize) -> (r: Result<(), String>)
        requires
            slot + 2 <= old(self)@.code.len(),
        ensures
            (
                final(self)@,
                match r {
                    Ok(()) => Ok(()),
                    Err(text) => Err(text@),
                },
            ) == patch(old(self)@, slot as int),
    {
        if self.chunk.code.len() - slot - 2 > 0xffff {
            Err(String::from_str("Jump too large."))
        } else {
            self.chunk.patch_jump(slot);
            Ok(())
        }
    }

    /// Lowers the nodes of a list in order.
    fn compile_all(&mut self, nodes: &Vec<ASTNode>) -> (r: Result<(), String>)
        ensures
            final(self)@.code.len() >= old(self)@.code.len(),
            (
                final(self)@,
                match r {
                    Ok(()) => Ok(()),
                    Err(text) => Err(text@),
                },
            ) == lower_all(old(self)@, nodes_view(nodes@), 0),
        decreases nodes, 0nat,
    {
        let ghost list = nodes_view(nodes@);
        let mut i: usize = 0;
        while i < nodes.len()
            invariant
                i <= nodes.len(),
                list == nodes_view(nodes@),
                self@.code.len() >= old(self)@.code.len(),
                lower_all(old(self)@, list, 0) == lower_all(self@, list, i as nat),
            decreases nodes.len() - i,
        {
            match self.compile_node(&nodes[i]) {
                Ok(()) => {},
                Err(e) => {
                    return Err(e);
                },
            }
            i += 1;
        }
        Ok(())
    }

    /// Lowers the branches of an `if` node.
    fn compile_branches(&mut self, node: &ASTNode) -> (r: Result<(), String>)
        requires
            node is IfStatement,
        ensures
            final(self)@.code.len() >= old(self)@.code.len(),
            (
                final(self)@,
                match r {
                    Ok(()) => Ok(()),
                    Err(text) => Err(text@),
                },
            ) == lower_branches(old(self)@, node@),
        decreases node, 1nat,
    {
        match node {
            ASTNode::IfStatement { condition, then_branch, else_branch } => {
                let jump_if_false = self.chunk.write_jump(OpCode::OpJumpIfFalse(0));
                self.chunk.write_op(OpCode::OpPop);
                match self.compile_all(then_branch) {
                    Ok(()) => {},
                    Err(e) => {
                        return Err(e);
                    },
                }
                let jump_to_end = self.chunk.write_jump(OpCode::OpJump(0));
                match self.patch(jump_if_false) {
                    Ok(()) => {},
                    Err(e) => {
                        return Err(e);
                    },
                }
                match else_branch {
                    Some(branch) => {
                        match self.compile_all(branch) {
                            Ok(()) => {},
                            Err(e) => {
                                return Err(e);
                            },
                        }
                    },
                    None => {},
                }
                self.patch(jump_to_end)
            },
            _ => Ok(()),
        }
    }

    /// Lowers a node: appends its code to the chunk.
    fn compile_node(&mut self, node: &ASTNode) -> (r: Result<(), String>)
        ensures
            final(self)@.code.len() >= old(self)@.code.len(),
            (
                final(self)@,
                match r {
                    Ok(()) => Ok(()),
                    Err(text) => Err(text@),
                },
            ) == lower(old(self)@, node@),
        decreases node, 2nat,
    {
        match node {
            ASTNode::BinaryExpression { left, operator, right } => {
                match self.compile_node(left) {
                    Ok(()) => {},
                    Err(e) => {
                        return Err(e);
                    },
                }
                match self.compile_node(right) {
                    Ok(()) => {},
                    Err(e) => {
                        return Err(e);
                    },
                }
                match operator {
                    BinaryOperator::Plus => self.chunk.write_op(OpCode::OpAdd),
                    BinaryOperator::Minus => self.chunk.write_op(OpCode::OpSubtract),
                    BinaryOperator::Star => self.chunk.write_op(OpCode::OpMultiply),
                    BinaryOperator::Slash => self.chunk.write_op(OpCode::OpDivide),
                    _ => {
                        return Err(
                            message(
                                "Unsupported binary operator: ",
                                binary_operator_name(*operator),
                            ),
                        );
                    },
                }
                Ok(())
            },
            ASTNode::UnaryExpression { operator, right } => {
                match self.compile_node(right) {
                    Ok(()) => {},
                    Err(e) => {
                        return Err(e);
                    },
                }
                match operator {
                    UnaryOperator::Minus => self.chunk.write_op(OpCode::OpNegate),
                    _ => {
                        return Err(
                            message("Unsupported unary operator: ", unary_operator_name(*operator)),
                        );
                    },
                }
                Ok(())
            },
            ASTNode::VariableDeclaration { name, initializer } => {
                match self.compile_node(initializer) {
                    Ok(()) => {},
                    Err(e) => {
                        return Err(e);
                    },
                }
                let index = match self.next_index() {
                    Ok(index) => index,
                    Err(e) => {
                        return Err(e);
                    },
                };
                self.chunk.add_constant(Constant::String(name.clone()));
                self.chunk.write_op(OpCode::OpDefineGlobal(index));
                Ok(())
            },
            ASTNode::VariableReference(name) => {
                let index = match self.next_index() {
                    Ok(index) => index,
                    Err(e) => {
                        return Err(e);
                    },
                };
                self.chunk.add_constant(Constant::String(name.clone()));
                self.chunk.write_op(OpCode::OpGetGlobal(index));
                Ok(())
            },
            ASTNode::IfStatement { condition, then_branch, else_branch } => {
                match self.compile_node(condition) {
                    Ok(()) => {},
                    Err(e) => {
                        return Err(e);
                    },
                }
                self.compile_branches(node)
            },
            ASTNode::FunctionDeclaration { name, parameters, body } => {
                let mut function_compiler = Compiler { chunk: Chunk::new() };
                match function_compiler.compile_all(body) {
                    Ok(()) => {},
                    Err(e) => {
                        return Err(e);
                    },
                }
                function_compiler.chunk.write_op(OpCode::OpReturn);
                let index = match self.next_index() {
                    Ok(index) => index,
                    Err(e) => {
                        return Err(e);
                    },
                };
                let function = Function {
                    name: name.clone(),
                    chunk: function_compiler.chunk,
                    arity: parameters.len(),
                };
                let ghost content = function@;
                let shared = Rc::new(function);
                assert((*shared)@ == content);
                self.chunk.add_constant(Constant::Function(shared));
                self.chunk.write_op(OpCode::OpConstant(index));
                Ok(())
            },
            ASTNode::NumberLiteral(value) => {
                let index = match self.next_index() {
                    Ok(index) => index,
                    Err(e) => {
                        return Err(e);
                    },
                };
                self.chunk.add_constant(Constant::Number(*value));
                self.chunk.write_op(OpCode::OpConstant(index));
                Ok(())
            },
            ASTNode::FunctionCall { name, arguments } => {
                match self.compile_all(arguments) {
                    Ok(()) => {},
                    Err(e) => {
                        return Err(e);
                    },
                }
                if arguments.len() > 255 {
                    return Err(String::from_str("Too many arguments in one call."));
                }
                let index = match self.next_index() {
                    Ok(index) => index,
                    Err(e) => {
                        return Err(e);
                    },
                };
                self.chunk.add_constant(Constant::String(name.clone()));
                self.chunk.write_op(OpCode::OpCall(arguments.len() as u8, index));
                Ok(())
            },
            ASTNode::ReturnStatement(value) => {
                match value {
                    Some(expr) => {
                        match self.compile_node(expr) {
                            Ok(()) => {},
                            Err(e) => {
                                return Err(e);
                            },
                        }
                    },
                    None => {
                        let index = match self.next_index() {
                            Ok(index) => index,
                            Err(e) => {
                                return Err(e);
                            },
                        };
                        self.chunk.add_constant(
                            Constant::Number(crate::lox::number::Number { bits: 0 }),
                        );
                        self.chunk.write_op(OpCode::OpConstant(index));
                    },
                }
                self.chunk.write_op(OpCode::OpReturn);
                Ok(())
            },
            _ => Err(message("Unsupported AST node: ", node_kind_name(node))),
        }
    }

    /// Compiles a program: the code of its node, then a return. The
    /// result is the chunk of this compiler, which holds what was written
    /// of it also where compiling fails.
    pub fn compile(&mut self, node: &ASTNode) -> (r: Result<&Chunk, String>)
        ensures
            (
                final(self)@,
                match r {
                    Ok(chunk) => Ok(()),
                    Err(text) => Err(text@),
                },
            ) == compiled(old(self)@, node@),
            r matches Ok(chunk) ==> chunk@ == final(self)@,
    {
        match self.compile_node(node) {
            Ok(()) => {},
            Err(e) => {
                return Err(e);
            },
        }
        self.chunk.write_op(OpCode::OpReturn);
        Ok(&self.chunk)
    }
}

} // verus!
