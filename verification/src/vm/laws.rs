//! Laws of the compiler and the machine: the code of an arithmetic
//! expression, run on the machine, leaves the value of the expression.
use crate::lox::error::LoxErrorView;
use crate::lox::number::{
    difference_bits, is_zero, negated, product_bits, quotient_bits, sum_bits,
};
use crate::vm::ast_node::{BinaryOperator, NodeView, UnaryOperator};
use crate::vm::chunk::{encoding, ChunkView, ConstantView, OpCode};
use crate::vm::compiler::{binary_instruction, compiled, emit, intern, lower};
use crate::vm::vm::{Effect, VmView};
use vstd::prelude::*;

verus! {

/// Whether a node is an arithmetic expression: numbers under `+`, `-`,
/// `*`, `/` and the unary `-`.
pub open spec fn is_arithmetic(node: NodeView) -> bool
    decreases node,
{
    match node {
        NodeView::NumberLiteral(_) => true,
        NodeView::BinaryExpression { left, operator, right } => operator != BinaryOperator::Equals
            && is_arithmetic(*left) && is_arithmetic(*right),
        NodeView::UnaryExpression { operator, right } => operator == UnaryOperator::Minus
            && is_arithmetic(*right),
        _ => false,
    }
}

/// The value of an arithmetic expression: the bits of a number, or none
/// where it divides by zero.
pub open spec fn value(node: NodeView) -> Option<u64>
    decreases node,
{
    match node {
        NodeView::NumberLiteral(n) => Some(n),
        NodeView::BinaryExpression { left, operator, right } => match (value(*left), value(*right)) {
            (Some(a), Some(b)) => match operator {
                BinaryOperator::Plus => Some(sum_bits(a, b)),
                BinaryOperator::Minus => Some(difference_bits(a, b)),
                BinaryOperator::Star => Some(product_bits(a, b)),
                BinaryOperator::Slash => if is_zero(b) {
                    None
                } else {
                    Some(quotient_bits(a, b))
                },
                BinaryOperator::Equals => None,
            },
            _ => None,
        },
        NodeView::UnaryExpression { operator, right } => match value(*right) {
            Some(a) => Some(negated(a)),
            None => None,
        },
        _ => None,
    }
}

/// The number of instructions in the code of an arithmetic expression.
pub open spec fn cost(node: NodeView) -> nat
    decreases node,
{
    match node {
        NodeView::BinaryExpression { left, operator, right } => cost(*left) + cost(*right) + 1,
        NodeView::UnaryExpression { operator, right } => cost(*right) + 1,
        _ => 1,
    }
}

/// The machine after `count` instructions; none where the program ends or
/// fails before.
pub open spec fn steps(vm: VmView, count: nat) -> Option<VmView>
    decreases count,
{
    if count == 0 {
        Some(vm)
    } else {
        match vm.step() {
            Effect::Next(next) => steps(next, (count - 1) as nat),
            _ => None,
        }
    }
}

/// Instructions run one after the other.
pub proof fn steps_add(vm: VmView, first: nat, second: nat)
    ensures
        steps(vm, first + second) == match steps(vm, first) {
            Some(middle) => steps(middle, second),
            None => None,
        },
    decreases first,
{
    if first > 0 {
        match vm.step() {
            Effect::Next(next) => {
                steps_add(next, (first - 1) as nat, second);
                assert(first + second - 1 == (first - 1) + second);
            },
            _ => {},
        }
    }
}

/// A run goes through the instructions that the machine takes.
pub proof fn run_after_steps(vm: VmView, count: nat, fuel: nat)
    requires
        steps(vm, count) is Some,
        fuel >= count,
    ensures
        vm.run(fuel) == steps(vm, count).unwrap().run((fuel - count) as nat),
    decreases count,
{
    if count > 0 {
        match vm.step() {
            Effect::Next(next) => {
                run_after_steps(next, (count - 1) as nat, (fuel - 1) as nat);
            },
            _ => {},
        }
    }
}

/// Whether the chunk `whole` starts with the code and the constants of
/// `part`.
pub open spec fn starts_with(whole: ChunkView, part: ChunkView) -> bool {
    &&& part.code.len() <= whole.code.len()
    &&& part.constants.len() <= whole.constants.len()
    &&& forall|i: int| 0 <= i < part.code.len() ==> whole.code[i] == part.code[i]
    &&& forall|i: int| 0 <= i < part.constants.len() ==> whole.constants[i] == part.constants[i]
}

/// Lowering an arithmetic expression adds to the chunk and changes nothing
/// that is in it.
pub proof fn lower_extends(chunk: ChunkView, node: NodeView)
    requires
        is_arithmetic(node),
    ensures
        starts_with(lower(chunk, node).0, chunk),
    decreases node,
{
    match node {
        NodeView::BinaryExpression { left, operator, right } => {
            lower_extends(chunk, *left);
            let (c1, r1) = lower(chunk, *left);
            if r1 is Ok {
                lower_extends(c1, *right);
            }
        },
        NodeView::UnaryExpression { operator, right } => {
            lower_extends(chunk, *right);
        },
        _ => {},
    }
}

/// Compiler and machine agree on arithmetic. Where an arithmetic
/// expression with a value is lowered onto a chunk, and the machine runs
/// a chunk that starts with the result, from the place where the code of
/// the expression starts: after as many instructions as the expression
/// has, the machine stands behind that code and the value of the
/// expression is on top of the stack, over what was there.
pub proof fn code_leaves_value(vm: VmView, chunk: ChunkView, node: NodeView)
    requires
        is_arithmetic(node),
        value(node) is Some,
        lower(chunk, node).1 is Ok,
        vm.frames.len() == 0,
        vm.ip == chunk.code.len(),
        starts_with(vm.chunk, lower(chunk, node).0),
    ensures
        steps(vm, cost(node)) == Some(
            VmView {
                ip: lower(chunk, node).0.code.len(),
                stack: vm.stack.push(ConstantView::Number(value(node).unwrap())),
                ..vm
            },
        ),
    decreases node,
{
    let (after, done) = lower(chunk, node);
    lower_extends(chunk, node);
    match node {
        NodeView::NumberLiteral(n) => {
            let index = chunk.constants.len() as u8;
            assert(after == emit(intern(chunk, ConstantView::Number(n)), OpCode::OpConstant(index)));
            assert(after.code == chunk.code + seq![0x01u8, index]);
            assert(after.code[chunk.code.len() as int] == 0x01u8);
            assert(after.code[chunk.code.len() as int + 1] == index);
            assert(after.constants[index as int] == ConstantView::Number(n));
            assert(vm.code() == vm.chunk.code);
            let moved = vm.at((vm.ip + 2) as nat);
            assert(vm.step() == moved.apply(0x01, index, 0));
            assert(moved.constants()[index as int] == ConstantView::Number(n));
            let next = moved.push(ConstantView::Number(n));
            assert(vm.step() == Effect::Next(next));
            assert(steps(next, 0) == Some(next));
        },
        NodeView::BinaryExpression { left, operator, right } => {
            let (c1, r1) = lower(chunk, *left);
            let (c2, r2) = lower(c1, *right);
            let op = binary_instruction(operator).unwrap();
            assert(after == emit(c2, op));
            lower_extends(chunk, *left);
            lower_extends(c1, *right);
            let a = value(*left).unwrap();
            let b = value(*right).unwrap();
            code_leaves_value(vm, chunk, *left);
            let vm1 = VmView {
                ip: c1.code.len(),
                stack: vm.stack.push(ConstantView::Number(a)),
                ..vm
            };
            code_leaves_value(vm1, c1, *right);
            let vm2 = VmView {
                ip: c2.code.len(),
                stack: vm1.stack.push(ConstantView::Number(b)),
                ..vm1
            };
            steps_add(vm, cost(*left), cost(*right));
            steps_add(vm, cost(*left) + cost(*right), 1);
            let byte = encoding(op)[0];
            assert(after.code == c2.code + encoding(op));
            assert(encoding(op).len() == 1);
            assert(after.code[c2.code.len() as int] == byte);
            assert(0x02 <= byte <= 0x05);
            let moved = vm2.at((vm2.ip + 1) as nat);
            assert(vm2.code() == vm2.chunk.code);
            assert(vm2.step() == moved.apply(byte, 0, 0));
            assert(moved.stack[moved.stack.len() - 1] == ConstantView::Number(b));
            assert(moved.stack[moved.stack.len() - 2] == ConstantView::Number(a));
            let result = ConstantView::Number(value(node).unwrap());
            let next = moved.pop().pop().push(result);
            assert(moved.arithmetic(byte) == Effect::Next(next));
            assert(next.stack =~= vm.stack.push(result));
            assert(steps(vm2, 1) == steps(next, 0));
        },
        NodeView::UnaryExpression { operator, right } => {
            let (c1, r1) = lower(chunk, *right);
            assert(after == emit(c1, OpCode::OpNegate));
            lower_extends(chunk, *right);
            let a = value(*right).unwrap();
            code_leaves_value(vm, chunk, *right);
            let vm1 = VmView {
                ip: c1.code.len(),
                stack: vm.stack.push(ConstantView::Number(a)),
                ..vm
            };
            steps_add(vm, cost(*right), 1);
            assert(after.code == c1.code + seq![0x06u8]);
            assert(after.code[c1.code.len() as int] == 0x06u8);
            let moved = vm1.at((vm1.ip + 1) as nat);
            assert(vm1.code() == vm1.chunk.code);
            assert(vm1.step() == moved.apply(0x06, 0, 0));
            let result = ConstantView::Number(negated(a));
            let next = moved.pop().push(result);
            assert(vm1.step() == Effect::Next(next));
            assert(next.stack =~= vm.stack.push(result));
            assert(steps(vm1, 1) == steps(next, 0));
        },
        _ => {},
    }
}


/// A new machine for a chunk.
pub open spec fn machine(chunk: ChunkView) -> VmView {
    VmView { ip: 0, chunk, stack: Seq::empty(), globals: Map::empty(), frames: Seq::empty() }
}

/// A compiled arithmetic program computes its value. Where an arithmetic
/// expression with a value compiles, a new machine that runs the chunk
/// ends without an error, and the value of the expression is all that is
/// on its stack.
pub proof fn program_leaves_value(node: NodeView, fuel: nat)
    requires
        is_arithmetic(node),
        value(node) is Some,
        compiled(ChunkView { code: Seq::empty(), constants: Seq::empty() }, node).1 is Ok,
        fuel >= cost(node),
    ensures
        ({
            let chunk = compiled(
                ChunkView { code: Seq::empty(), constants: Seq::empty() },
                node,
            ).0;
            let (end, result) = machine(chunk).run(fuel);
            &&& result == Ok::<(), LoxErrorView>(())
            &&& end.stack == seq![ConstantView::Number(value(node).unwrap())]
        }),
{
    let empty = ChunkView { code: Seq::empty(), constants: Seq::empty() };
    let (body, r) = lower(empty, node);
    let chunk = emit(body, OpCode::OpReturn);
    assert(compiled(empty, node).0 == chunk);
    let vm = machine(chunk);
    assert(starts_with(chunk, body));
    code_leaves_value(vm, empty, node);
    let end = VmView {
        ip: body.code.len(),
        stack: vm.stack.push(ConstantView::Number(value(node).unwrap())),
        ..vm
    };
    run_after_steps(vm, cost(node), fuel);
    assert(chunk.code[body.code.len() as int] == 0x07u8);
    assert(end.code() == chunk.code);
    assert(end.step() == Effect::Stop);
    assert(end.stack =~= seq![ConstantView::Number(value(node).unwrap())]);
}

} // verus!
