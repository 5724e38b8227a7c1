use crafting_interpreter::lox::error::LoxError;
use crafting_interpreter::lox::number::Number;
use crafting_interpreter::vm::ast_node::{ASTNode, BinaryOperator, UnaryOperator};
use crafting_interpreter::vm::chunk::{Chunk, Constant, OpCode};
use crafting_interpreter::vm::compiler::Compiler;
use crafting_interpreter::vm::traits::{ArithmeticOps, Comparable};
use crafting_interpreter::vm::vm::{CallFrame, Function, GlobalTable, VM};
use std::rc::Rc;

fn num(value: f64) -> Number {
    Number::from_bits(value.to_bits())
}

fn number(value: f64) -> ASTNode {
    ASTNode::NumberLiteral(num(value))
}

fn stack_values(vm: &VM) -> Vec<f64> {
    vm.stack
        .iter()
        .map(|c| match c {
            Constant::Number(n) => f64::from_bits(n.to_bits()),
            other => panic!("not a number: {:?}", other),
        })
        .collect()
}

#[test]
fn test_compile_number_literal() {
    let mut compiler = Compiler::new();
    let ast = number(42.0);

    let chunk = compiler.compile(&ast).expect("Failed to compile");
    assert_eq!(chunk.code, vec![0x01, 0x00, 0x07]); // OpConstant + index 0 + OpReturn
    assert_eq!(chunk.constants, vec![Constant::Number(num(42.0))]);
}

#[test]
fn test_compile_binary_expression() {
    let mut compiler = Compiler::new();
    let ast = ASTNode::BinaryExpression {
        left: Box::new(number(1.0)),
        operator: BinaryOperator::Plus,
        right: Box::new(number(2.0)),
    };

    let chunk = compiler.compile(&ast).expect("Failed to compile");
    assert_eq!(
        chunk.code,
        vec![0x01, 0x00, 0x01, 0x01, 0x02, 0x07] // OpConstant(1) + OpConstant(2) + OpAdd + OpReturn
    );
    assert_eq!(
        chunk.constants,
        vec![Constant::Number(num(1.0)), Constant::Number(num(2.0))]
    );
}

#[test]
fn test_compile_variable_declaration() {
    let mut compiler = Compiler::new();
    let ast = ASTNode::VariableDeclaration {
        name: "x".to_string(),
        initializer: Box::new(number(10.0)),
    };

    let chunk = compiler.compile(&ast).expect("Failed to compile");
    assert_eq!(
        chunk.code,
        vec![0x01, 0x00, 0x0B, 0x01, 0x07] // OpConstant(10) + OpDefineGlobal("x") + OpReturn
    );
    assert_eq!(
        chunk.constants,
        vec![Constant::Number(num(10.0)), Constant::String("x".to_string())]
    );
}

#[test]
fn test_compile_if_statement() {
    let mut compiler = Compiler::new();
    let ast = ASTNode::IfStatement {
        condition: Box::new(number(1.0)),
        then_branch: vec![number(2.0)],
        else_branch: Some(vec![number(3.0)]),
    };

    let chunk = compiler.compile(&ast).expect("Failed to compile");

    assert!(chunk.code.contains(&0x09)); // OpJumpIfFalse
    assert!(chunk.code.contains(&0x08)); // OpJump
    assert_eq!(
        chunk.constants,
        vec![
            Constant::Number(num(1.0)),
            Constant::Number(num(2.0)),
            Constant::Number(num(3.0))
        ]
    );
}

#[test]
fn compile_if_statement_patches_both_jumps() {
    let mut compiler = Compiler::new();
    let ast = ASTNode::IfStatement {
        condition: Box::new(number(1.0)),
        then_branch: vec![number(2.0)],
        else_branch: Some(vec![number(3.0)]),
    };
    let chunk = compiler.compile(&ast).expect("Failed to compile");
    assert_eq!(
        chunk.code,
        vec![
            0x01, 0x00, // condition
            0x09, 0x06, 0x00, // jump over the first branch: 6 bytes
            0x0A, // pop
            0x01, 0x01, // first branch
            0x08, 0x02, 0x00, // jump over the second branch: 2 bytes
            0x01, 0x02, // second branch
            0x07,
        ]
    );
}

#[test]
fn compile_variable_reference_reads_the_global() {
    let mut compiler = Compiler::new();
    let chunk = compiler
        .compile(&ASTNode::VariableReference("x".to_string()))
        .expect("Failed to compile");
    assert_eq!(chunk.code, vec![0x0C, 0x00, 0x07]);
    assert_eq!(chunk.constants, vec![Constant::String("x".to_string())]);
}

#[test]
fn compile_unary_call_and_return() {
    let mut compiler = Compiler::new();
    let ast = ASTNode::ReturnStatement(Some(Box::new(ASTNode::FunctionCall {
        name: "f".to_string(),
        arguments: vec![ASTNode::UnaryExpression {
            operator: UnaryOperator::Minus,
            right: Box::new(number(4.0)),
        }],
    })));
    let chunk = compiler.compile(&ast).expect("Failed to compile");
    assert_eq!(chunk.code, vec![0x01, 0x00, 0x06, 0x0E, 0x01, 0x01, 0x07, 0x07]);

    let mut compiler = Compiler::new();
    let chunk = compiler
        .compile(&ASTNode::ReturnStatement(None))
        .expect("Failed to compile");
    assert_eq!(chunk.code, vec![0x01, 0x00, 0x07, 0x07]);
    assert_eq!(chunk.constants, vec![Constant::Number(num(0.0))]);
}

#[test]
fn compile_function_declaration_nests_a_chunk() {
    let mut compiler = Compiler::new();
    let ast = ASTNode::FunctionDeclaration {
        name: "f".to_string(),
        parameters: vec!["a".to_string(), "b".to_string()],
        body: vec![ASTNode::ReturnStatement(Some(Box::new(number(1.0))))],
    };
    let chunk = compiler.compile(&ast).expect("Failed to compile");
    assert_eq!(chunk.code, vec![0x01, 0x00, 0x07]);
    match &chunk.constants[0] {
        Constant::Function(function) => {
            assert_eq!(function.name, "f");
            assert_eq!(function.arity, 2);
            assert_eq!(function.chunk.code, vec![0x01, 0x00, 0x07, 0x07]);
        }
        other => panic!("not a function: {:?}", other),
    }
}

#[test]
fn compile_rejects_what_it_cannot_lower() {
    let mut compiler = Compiler::new();
    let ast = ASTNode::BinaryExpression {
        left: Box::new(number(1.0)),
        operator: BinaryOperator::Equals,
        right: Box::new(number(2.0)),
    };
    assert_eq!(
        compiler.compile(&ast).err(),
        Some("Unsupported binary operator: Equals".to_string())
    );

    let mut compiler = Compiler::new();
    let ast = ASTNode::UnaryExpression {
        operator: UnaryOperator::Plus,
        right: Box::new(number(1.0)),
    };
    assert_eq!(
        compiler.compile(&ast).err(),
        Some("Unsupported unary operator: Plus".to_string())
    );

    let mut compiler = Compiler::new();
    assert_eq!(
        compiler.compile(&ASTNode::Program(vec![])).err(),
        Some("Unsupported AST node: Program".to_string())
    );
}

#[test]
fn compile_fails_when_the_pool_is_full() {
    let mut compiler = Compiler::new();
    let many: Vec<ASTNode> = (0..257).map(|i| number(i as f64)).collect();
    let ast = ASTNode::IfStatement {
        condition: Box::new(number(1.0)),
        then_branch: many,
        else_branch: None,
    };
    assert_eq!(
        compiler.compile(&ast).err(),
        Some("Too many constants in one chunk.".to_string())
    );
}

#[test]
fn write_op_encodes_every_instruction() {
    let mut chunk = Chunk::new();
    let ops = vec![
        OpCode::OpConstant(7),
        OpCode::OpAdd,
        OpCode::OpSubtract,
        OpCode::OpMultiply,
        OpCode::OpDivide,
        OpCode::OpNegate,
        OpCode::OpReturn,
        OpCode::OpJump(0x1234),
        OpCode::OpJumpIfFalse(0xABCD),
        OpCode::OpPop,
        OpCode::OpDefineGlobal(1),
        OpCode::OpGetGlobal(2),
        OpCode::OpSetGlobal(3),
        OpCode::OpCall(2, 9),
    ];
    for op in ops {
        chunk.write_op(op);
    }
    assert_eq!(
        chunk.code,
        vec![
            0x01, 7, 0x02, 0x03, 0x04, 0x05, 0x06, 0x07, 0x08, 0x34, 0x12, 0x09, 0xCD, 0xAB, 0x0A,
            0x0B, 1, 0x0C, 2, 0x0D, 3, 0x0E, 2, 9,
        ]
    );
}

#[test]
fn jumps_are_patched_in_place() {
    let mut chunk = Chunk::new();
    chunk.write_op(OpCode::OpPop);
    let slot = chunk.write_jump(OpCode::OpJump(0));
    assert_eq!(slot, 2);
    for _ in 0..300 {
        chunk.write_op(OpCode::OpPop);
    }
    chunk.patch_jump(slot);
    assert_eq!(&chunk.code[..4], &[0x0A, 0x08, 0x2C, 0x01]);
    assert_eq!(chunk.code.len(), 304);
    assert_eq!(chunk.add_constant(Constant::Number(num(1.0))), 0);
    assert_eq!(chunk.add_constant(Constant::String("s".to_string())), 1);
}

#[test]
fn vm_runs_arithmetic() {
    let mut compiler = Compiler::new();
    let ast = ASTNode::BinaryExpression {
        left: Box::new(number(1.0)),
        operator: BinaryOperator::Plus,
        right: Box::new(ASTNode::BinaryExpression {
            left: Box::new(number(6.0)),
            operator: BinaryOperator::Slash,
            right: Box::new(ASTNode::UnaryExpression {
                operator: UnaryOperator::Minus,
                right: Box::new(number(4.0)),
            }),
        }),
    };
    compiler.compile(&ast).expect("Failed to compile");
    let mut chunk = Chunk::new();
    for op in [
        OpCode::OpConstant(0),
        OpCode::OpConstant(1),
        OpCode::OpConstant(2),
        OpCode::OpNegate,
        OpCode::OpDivide,
        OpCode::OpAdd,
        OpCode::OpConstant(0),
        OpCode::OpSubtract,
        OpCode::OpConstant(2),
        OpCode::OpMultiply,
        OpCode::OpReturn,
    ] {
        chunk.write_op(op);
    }
    chunk.add_constant(Constant::Number(num(1.0)));
    chunk.add_constant(Constant::Number(num(6.0)));
    chunk.add_constant(Constant::Number(num(4.0)));
    let mut vm = VM::new(chunk);
    assert_eq!(vm.execute(), Ok(()));
    assert_eq!(stack_values(&vm), vec![((1.0 + 6.0 / -4.0) - 1.0) * 4.0]);
}

#[test]
fn vm_division_by_zero_is_an_error() {
    let mut chunk = Chunk::new();
    chunk.add_constant(Constant::Number(num(1.0)));
    chunk.add_constant(Constant::Number(num(0.0)));
    chunk.write_op(OpCode::OpConstant(0));
    chunk.write_op(OpCode::OpConstant(1));
    chunk.write_op(OpCode::OpDivide);
    let mut vm = VM::new(chunk);
    assert_eq!(vm.execute(), Err(LoxError::DivisionByZero));
    assert_eq!(stack_values(&vm), vec![1.0, 0.0]);
}

#[test]
fn vm_type_mismatch_and_underflow_are_errors() {
    let mut chunk = Chunk::new();
    chunk.add_constant(Constant::Number(num(1.0)));
    chunk.add_constant(Constant::String("s".to_string()));
    chunk.write_op(OpCode::OpConstant(0));
    chunk.write_op(OpCode::OpConstant(1));
    chunk.write_op(OpCode::OpAdd);
    let mut vm = VM::new(chunk);
    assert_eq!(
        vm.execute(),
        Err(LoxError::RuntimeError("Operands must be numbers.".to_string()))
    );

    let mut chunk = Chunk::new();
    chunk.write_op(OpCode::OpPop);
    let mut vm = VM::new(chunk);
    assert_eq!(
        vm.execute(),
        Err(LoxError::RuntimeError("Stack underflow".to_string()))
    );

    let mut vm = VM::new(Chunk { code: vec![0x01], constants: vec![] });
    assert_eq!(
        vm.execute(),
        Err(LoxError::RuntimeError("Truncated instruction.".to_string()))
    );

    let mut vm = VM::new(Chunk { code: vec![0xFF], constants: vec![] });
    assert_eq!(
        vm.execute(),
        Err(LoxError::RuntimeError("Unknown OpCode: 255".to_string()))
    );

    let mut vm = VM::new(Chunk { code: vec![0x01, 0x03], constants: vec![] });
    assert_eq!(
        vm.execute(),
        Err(LoxError::RuntimeError("Constant index out of range.".to_string()))
    );
}

#[test]
fn vm_globals() {
    let mut chunk = Chunk::new();
    chunk.add_constant(Constant::Number(num(5.0)));
    chunk.add_constant(Constant::Number(num(8.0)));
    chunk.write_op(OpCode::OpConstant(0));
    chunk.write_op(OpCode::OpDefineGlobal(3));
    chunk.write_op(OpCode::OpGetGlobal(3));
    chunk.write_op(OpCode::OpConstant(1));
    chunk.write_op(OpCode::OpSetGlobal(3));
    chunk.write_op(OpCode::OpGetGlobal(3));
    chunk.write_op(OpCode::OpReturn);
    let mut vm = VM::new(chunk);
    assert_eq!(vm.execute(), Ok(()));
    assert_eq!(stack_values(&vm), vec![5.0, 8.0]);

    let mut chunk = Chunk::new();
    chunk.add_constant(Constant::Number(num(5.0)));
    chunk.write_op(OpCode::OpConstant(0));
    chunk.write_op(OpCode::OpDefineGlobal(3));
    chunk.write_op(OpCode::OpConstant(0));
    chunk.write_op(OpCode::OpDefineGlobal(3));
    let mut vm = VM::new(chunk);
    assert_eq!(
        vm.execute(),
        Err(LoxError::RuntimeError("Global variable already defined".to_string()))
    );

    let mut chunk = Chunk::new();
    chunk.write_op(OpCode::OpGetGlobal(9));
    let mut vm = VM::new(chunk);
    assert_eq!(
        vm.execute(),
        Err(LoxError::RuntimeError("Undefined global variable at index 9".to_string()))
    );
}

#[test]
fn vm_jumps() {
    // 0: constant 0 (zero); 2: jump-if-false +2; 5: constant 1; 7: constant 2; 9: return
    let mut chunk = Chunk::new();
    chunk.add_constant(Constant::Number(num(0.0)));
    chunk.add_constant(Constant::Number(num(1.0)));
    chunk.add_constant(Constant::Number(num(2.0)));
    chunk.write_op(OpCode::OpConstant(0));
    chunk.write_op(OpCode::OpJumpIfFalse(2));
    chunk.write_op(OpCode::OpConstant(1));
    chunk.write_op(OpCode::OpConstant(2));
    chunk.write_op(OpCode::OpReturn);
    let mut vm = VM::new(chunk);
    assert_eq!(vm.execute(), Ok(()));
    assert_eq!(stack_values(&vm), vec![2.0]);

    let mut chunk = Chunk::new();
    chunk.add_constant(Constant::Number(num(7.0)));
    chunk.add_constant(Constant::Number(num(1.0)));
    chunk.add_constant(Constant::Number(num(2.0)));
    chunk.write_op(OpCode::OpConstant(0));
    chunk.write_op(OpCode::OpJumpIfFalse(2));
    chunk.write_op(OpCode::OpConstant(1));
    chunk.write_op(OpCode::OpJump(2));
    chunk.write_op(OpCode::OpConstant(2));
    chunk.write_op(OpCode::OpReturn);
    let mut vm = VM::new(chunk);
    assert_eq!(vm.execute(), Ok(()));
    assert_eq!(stack_values(&vm), vec![1.0]);
}

#[test]
fn vm_calls_and_returns() {
    // The function adds its two arguments.
    let mut body = Chunk::new();
    body.write_op(OpCode::OpAdd);
    body.write_op(OpCode::OpReturn);
    let function = Function::new("add", body, 2);

    let mut chunk = Chunk::new();
    chunk.add_constant(Constant::Number(num(10.0)));
    chunk.add_constant(Constant::Number(num(3.0)));
    chunk.add_constant(Constant::Number(num(4.0)));
    chunk.add_constant(Constant::Function(Rc::new(function)));
    chunk.write_op(OpCode::OpConstant(0));
    chunk.write_op(OpCode::OpConstant(1));
    chunk.write_op(OpCode::OpConstant(2));
    chunk.write_op(OpCode::OpConstant(3));
    chunk.write_op(OpCode::OpCall(2, 3));
    chunk.write_op(OpCode::OpNegate);
    chunk.write_op(OpCode::OpReturn);
    let mut vm = VM::new(chunk);
    assert_eq!(vm.execute(), Ok(()));
    assert_eq!(stack_values(&vm), vec![10.0, -7.0]);
    assert!(vm.frames.is_empty());
}

#[test]
fn vm_call_checks_the_callee() {
    let mut chunk = Chunk::new();
    chunk.add_constant(Constant::Number(num(10.0)));
    chunk.write_op(OpCode::OpConstant(0));
    chunk.write_op(OpCode::OpCall(0, 0));
    let mut vm = VM::new(chunk);
    assert_eq!(
        vm.execute(),
        Err(LoxError::RuntimeError("Expected a function on the stack".to_string()))
    );

    let mut chunk = Chunk::new();
    chunk.add_constant(Constant::Function(Rc::new(Function::new("f", Chunk::new(), 1))));
    chunk.write_op(OpCode::OpConstant(0));
    chunk.write_op(OpCode::OpCall(2, 0));
    let mut vm = VM::new(chunk);
    assert_eq!(
        vm.execute(),
        Err(LoxError::RuntimeError("Expected 1 arguments but got 2".to_string()))
    );
}

#[test]
fn global_table_and_frames() {
    let mut table = GlobalTable::new();
    assert!(table.get(1).is_none());
    assert_eq!(table.define(1, Constant::Number(num(1.0))), Ok(()));
    assert_eq!(
        table.define(1, Constant::Number(num(2.0))),
        Err("Global variable already defined")
    );
    assert_eq!(table.get(1), Some(&Constant::Number(num(1.0))));
    table.set(1, Constant::Number(num(3.0)));
    table.set(2, Constant::String("s".to_string()));
    assert_eq!(table.get(1), Some(&Constant::Number(num(3.0))));
    assert_eq!(table.get(2), Some(&Constant::String("s".to_string())));
    assert!(table.contains(2) && !table.contains(3));

    let frame = CallFrame::new(Rc::new(Function::new("f", Chunk::new(), 0)), 4);
    assert_eq!(frame.ip, 0);
    assert_eq!(frame.base_pointer, 4);
    assert_eq!(frame.function.name, "f");
}

#[test]
fn constants_do_arithmetic() {
    let six = Constant::Number(num(6.0));
    let four = Constant::Number(num(4.0));
    assert_eq!(six.clone().add(four.clone()), Constant::Number(num(10.0)));
    assert_eq!(six.clone().subtract(four.clone()), Constant::Number(num(2.0)));
    assert_eq!(six.clone().multiply(four.clone()), Constant::Number(num(24.0)));
    assert_eq!(six.clone().divide(four.clone()), Constant::Number(num(1.5)));
    assert!(six.equals(num(6.0)));
    assert!(!six.equals(num(4.0)));
    assert!(!Constant::String("6".to_string()).equals(num(6.0)));
    assert!(Constant::Number(num(0.0)).equals(num(-0.0)));
    assert_eq!(six.to_string(), "6");
    assert_eq!(Constant::Number(num(1.5)).to_string(), "1.5");
    assert_eq!(Constant::String("s".to_string()).to_string(), "s");
    let function = Function::new("f", Chunk::new(), 0);
    assert_eq!(Constant::Function(Rc::new(function)).to_string(), "f");
}

/// Whole numbers under the four operations.
#[derive(Debug, PartialEq)]
struct Whole(i64);

impl ArithmeticOps for Whole {
    fn add(self, other: Self) -> Self {
        Whole(self.0 + other.0)
    }
    fn subtract(self, other: Self) -> Self {
        Whole(self.0 - other.0)
    }
    fn multiply(self, other: Self) -> Self {
        Whole(self.0 * other.0)
    }
    fn divide(self, other: Self) -> Self {
        Whole(self.0 / other.0)
    }
}

impl Comparable for Whole {
    fn equals(&self, other: Number) -> bool {
        f64::from_bits(other.to_bits()) == self.0 as f64
    }
}

#[test]
fn other_types_do_arithmetic() {
    assert_eq!(Whole(6).add(Whole(4)), Whole(10));
    assert_eq!(Whole(6).subtract(Whole(4)), Whole(2));
    assert_eq!(Whole(6).multiply(Whole(4)), Whole(24));
    assert_eq!(Whole(6).divide(Whole(4)), Whole(1));
    assert!(Whole(6).equals(num(6.0)));
}
