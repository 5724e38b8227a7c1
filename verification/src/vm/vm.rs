//! The stack machine that runs a chunk.
use crate::lox::error::{LoxError, LoxErrorView};
use crate::lox::number::{
    difference_bits, is_zero, negated, product_bits, quotient_bits, sum_bits, Number,
};
use crate::lox::text::{nat_string, nat_text};
use crate::vm::chunk::{constants_view, Chunk, ChunkView, Constant, ConstantView};
use crate::vm::traits::ArithmeticOps;
use std::collections::HashMap;
use std::rc::Rc;
use vstd::prelude::*;

verus! {

broadcast use vstd::std_specs::hash::group_hash_axioms;

/// A function: its name, its code and the number of its parameters.
#[derive(Debug, PartialEq)]
pub struct Function {
    pub name: String,
    pub chunk: Chunk,
    pub arity: usize,
}

/// The mathematical content of a `Function`.
pub struct FunctionView {
    pub name: Seq<char>,
    pub chunk: ChunkView,
    pub arity: nat,
}

impl View for Function {
    type V = FunctionView;

    open spec fn view(&self) -> FunctionView {
        crate::vm::chunk::function_view(*self)
    }
}

impl Function {
    /// A function of the given parts.
    pub fn new(name: &str, chunk: Chunk, arity: usize) -> (r: Function)
        ensures
            r@ == (FunctionView { name: name@, chunk: chunk@, arity: arity as nat }),
    {
        Function { name: String::from_str(name), chunk, arity }
    }
}


/// The global variables, by the index of their name in the constant pool.
pub struct GlobalTable {
    globals: HashMap<usize, Constant>,
}

impl View for GlobalTable {
    type V = Map<usize, ConstantView>;

    closed spec fn view(&self) -> Map<usize, ConstantView> {
        self.globals@.map_values(|c: Constant| c@)
    }
}

impl GlobalTable {
    /// A table without globals.
    pub fn new() -> (r: GlobalTable)
        ensures
            r@ == Map::<usize, ConstantView>::empty(),
    {
        let r = GlobalTable { globals: HashMap::new() };
        assert(r@ =~= Map::<usize, ConstantView>::empty());
        r
    }

    /// The global with the given index.
    pub fn get(&self, index: usize) -> (r: Option<&Constant>)
        ensures
            match r {
                Some(c) => self@.contains_key(index) && self@[index] == c@,
                None => !self@.contains_key(index),
            },
    {
        self.globals.get(&index)
    }

    /// Whether a global with the given index is defined.
    pub fn contains(&self, index: usize) -> (r: bool)
        ensures
            r == self@.contains_key(index),
    {
        self.globals.contains_key(&index)
    }

    /// Gives the global with the given index a value, defining it if need
    /// be.
    pub fn set(&mut self, index: usize, value: Constant)
        ensures
            final(self)@ == old(self)@.insert(index, value@),
    {
        self.globals.insert(index, value);
        assert(final(self)@ =~= old(self)@.insert(index, value@));
    }

    /// Defines a global; fails, and changes nothing, where it is defined
    /// already.
    pub fn define(&mut self, index: usize, value: Constant) -> (r: Result<(), &'static str>)
        ensures
            match r {
                Ok(()) => !old(self)@.contains_key(index) && final(self)@ == old(self)@.insert(
                    index,
                    value@,
                ),
                Err(text) => old(self)@.contains_key(index) && final(self)@ == old(self)@ && text@
                    == "Global variable already defined"@,
            },
    {
        if self.globals.contains_key(&index) {
            Err("Global variable already defined")
        } else {
            self.globals.insert(index, value);
            assert(final(self)@ =~= old(self)@.insert(index, value@));
            Ok(())
        }
    }
}

/// One activation of a function.
pub struct CallFrame {
    pub function: Rc<Function>,
    /// The position of the next instruction in the code of the function.
    pub ip: usize,
    /// The place on the stack of the first argument.
    pub base_pointer: usize,
}

/// The mathematical content of a `CallFrame`.
pub struct FrameView {
    pub function: FunctionView,
    pub ip: nat,
    pub base_pointer: nat,
}

impl View for CallFrame {
    type V = FrameView;

    open spec fn view(&self) -> FrameView {
        FrameView {
            function: (*self.function)@,
            ip: self.ip as nat,
            base_pointer: self.base_pointer as nat,
        }
    }
}

impl CallFrame {
    /// A frame at the start of `function`.
    pub fn new(function: Rc<Function>, base_pointer: usize) -> (r: CallFrame)
        ensures
            r@ == (FrameView { function: (*function)@, ip: 0, base_pointer: base_pointer as nat }),
    {
        CallFrame { function, ip: 0, base_pointer }
    }
}

/// The machine: the main chunk with its instruction pointer, the value
/// stack, the globals, and the frames of the calls in progress.
pub struct VM {
    pub ip: usize,
    pub chunk: Chunk,
    pub stack: Vec<Constant>,
    pub global_table: GlobalTable,
    pub frames: Vec<CallFrame>,
}

/// The mathematical content of a `VM`.
pub struct VmView {
    pub ip: nat,
    pub chunk: ChunkView,
    pub stack: Seq<ConstantView>,
    pub globals: Map<usize, ConstantView>,
    pub frames: Seq<FrameView>,
}

impl View for VM {
    type V = VmView;

    open spec fn view(&self) -> VmView {
        VmView {
            ip: self.ip as nat,
            chunk: self.chunk@,
            stack: constants_view(self.stack@),
            globals: self.global_table@,
            frames: self.frames@.map_values(|f: CallFrame| f@),
        }
    }
}

/// The most instructions that one run executes.
pub const INSTRUCTION_LIMIT: u64 = 0xffff_ffff_ffff_ffff;

/// What an instruction does to the machine.
pub enum Effect {
    /// The machine goes on in this state.
    Next(VmView),
    /// The program is over.
    Stop,
    Error(LoxErrorView),
}

/// Failure of an instruction, with a message.
pub open spec fn failure(text: Seq<char>) -> Effect {
    Effect::Error(LoxErrorView::RuntimeError(text))
}

/// The number of operand bytes of an opcode.
pub open spec fn operand_count(opcode: u8) -> nat {
    if opcode == 0x01 || opcode == 0x0B || opcode == 0x0C || opcode == 0x0D {
        1
    } else if opcode == 0x08 || opcode == 0x09 || opcode == 0x0E {
        2
    } else {
        0
    }
}

/// The message for a global that was never defined.
pub open spec fn undefined_text(index: nat) -> Seq<char> {
    "Undefined global variable at index "@ + nat_text(index)
}

/// The message for a byte that is no opcode.
pub open spec fn unknown_text(opcode: nat) -> Seq<char> {
    "Unknown OpCode: "@ + nat_text(opcode)
}

/// The message for a call with the wrong number of arguments.
pub open spec fn arguments_text(expected: nat, got: nat) -> Seq<char> {
    "Expected "@ + nat_text(expected) + " arguments but got "@ + nat_text(got)
}

/// Whether a condition is false: only the number zero is.
pub open spec fn is_false(c: ConstantView) -> bool {
    match c {
        ConstantView::Number(n) => is_zero(n),
        _ => false,
    }
}

impl VmView {
    /// The code that runs now: that of the innermost call in progress,
    /// else the main chunk.
    pub open spec fn code(self) -> Seq<u8> {
        if self.frames.len() == 0 {
            self.chunk.code
        } else {
            self.frames.last().function.chunk.code
        }
    }

    /// The constant pool of the code that runs now.
    pub open spec fn constants(self) -> Seq<ConstantView> {
        if self.frames.len() == 0 {
            self.chunk.constants
        } else {
            self.frames.last().function.chunk.constants
        }
    }

    /// The position of the next instruction in the code that runs now.
    pub open spec fn pointer(self) -> nat {
        if self.frames.len() == 0 {
            self.ip
        } else {
            self.frames.last().ip
        }
    }

    /// The machine with the next instruction at `ip`.
    pub open spec fn at(self, ip: nat) -> VmView {
        if self.frames.len() == 0 {
            VmView { ip, ..self }
        } else {
            VmView {
                frames: self.frames.update(
                    self.frames.len() - 1,
                    FrameView { ip, ..self.frames.last() },
                ),
                ..self
            }
        }
    }

    /// The machine with one more value on the stack.
    pub open spec fn push(self, c: ConstantView) -> VmView {
        VmView { stack: self.stack.push(c), ..self }
    }

    /// The machine without the value on top of the stack.
    pub open spec fn pop(self) -> VmView {
        VmView { stack: self.stack.drop_last(), ..self }
    }

    /// The effect of an arithmetic instruction: the two operands leave
    /// the stack and the result takes their place.
    pub open spec fn arithmetic(self, opcode: u8) -> Effect {
        if self.stack.len() < 2 {
            failure("Stack underflow"@)
        } else {
            let b = self.stack[self.stack.len() - 1];
            let a = self.stack[self.stack.len() - 2];
            match (a, b) {
                (ConstantView::Number(x), ConstantView::Number(y)) => {
                    let rest = self.pop().pop();
                    if opcode == 0x02 {
                        Effect::Next(rest.push(ConstantView::Number(sum_bits(x, y))))
                    } else if opcode == 0x03 {
                        Effect::Next(rest.push(ConstantView::Number(difference_bits(x, y))))
                    } else if opcode == 0x04 {
                        Effect::Next(rest.push(ConstantView::Number(product_bits(x, y))))
                    } else if is_zero(y) {
                        Effect::Error(LoxErrorView::DivisionByZero)
                    } else {
                        Effect::Next(rest.push(ConstantView::Number(quotient_bits(x, y))))
                    }
                },
                _ => failure("Operands must be numbers."@),
            }
        }
    }

    /// The effect of a return: at the top level the program is over; in a
    /// call, the frame leaves, the stack is cut back to the base of the
    /// frame, and the value returned is pushed.
    pub open spec fn leave(self) -> Effect {
        if self.frames.len() == 0 {
            Effect::Stop
        } else if self.stack.len() == 0 {
            failure("Stack underflow"@)
        } else {
            let value = self.stack.last();
            let rest = self.stack.drop_last();
            let base = self.frames.last().base_pointer as int;
            let kept = if base < rest.len() {
                rest.take(base)
            } else {
                rest
            };
            Effect::Next(VmView { stack: kept.push(value), frames: self.frames.drop_last(), ..self })
        }
    }

    /// The effect of a call with `count` arguments: the function on top
    /// of the stack leaves it, and a frame for it is pushed whose base is
    /// the first argument.
    pub open spec fn enter(self, count: nat) -> Effect {
        if self.stack.len() == 0 {
            failure("Expected a function on the stack"@)
        } else {
            match self.stack.last() {
                ConstantView::Function(function) => if function.arity != count {
                    failure(arguments_text(function.arity, count))
                } else if self.stack.len() - 1 < count {
                    failure("Stack underflow"@)
                } else {
                    Effect::Next(
                        VmView {
                            stack: self.stack.drop_last(),
                            frames: self.frames.push(
                                FrameView {
                                    function,
                                    ip: 0,
                                    base_pointer: (self.stack.len() - 1 - count) as nat,
                                },
                            ),
                            ..self
                        },
                    )
                },
                _ => failure("Expected a function on the stack"@),
            }
        }
    }

    /// The effect of a jump whose offset has the low byte `low` and the
    /// high byte `high`: the pointer moves forward by the offset.
    pub open spec fn jump(self, low: u8, high: u8) -> Effect {
        let target = self.pointer() + low + 256 * high;
        if target > usize::MAX {
            failure("Jump out of range."@)
        } else {
            Effect::Next(self.at(target as nat))
        }
    }

    /// The effect of the instruction with the given opcode and operand
    /// bytes, on the machine whose pointer is past the instruction.
    pub open spec fn apply(self, opcode: u8, first: u8, second: u8) -> Effect {
        if opcode == 0x01 {
            if first < self.constants().len() {
                Effect::Next(self.push(self.constants()[first as int]))
            } else {
                failure("Constant index out of range."@)
            }
        } else if 0x02 <= opcode <= 0x05 {
            self.arithmetic(opcode)
        } else if opcode == 0x06 {
            if self.stack.len() == 0 {
                failure("Stack underflow"@)
            } else {
                match self.stack.last() {
                    ConstantView::Number(n) => Effect::Next(
                        self.pop().push(ConstantView::Number(negated(n))),
                    ),
                    _ => failure("Operands must be numbers."@),
                }
            }
        } else if opcode == 0x07 {
            self.leave()
        } else if opcode == 0x08 {
            self.jump(first, second)
        } else if opcode == 0x09 {
            if self.stack.len() == 0 {
                failure("Stack underflow"@)
            } else if is_false(self.stack.last()) {
                self.pop().jump(first, second)
            } else {
                Effect::Next(self.pop())
            }
        } else if opcode == 0x0A {
            if self.stack.len() == 0 {
                failure("Stack underflow"@)
            } else {
                Effect::Next(self.pop())
            }
        } else if opcode == 0x0B {
            if self.stack.len() == 0 {
                failure("Stack underflow"@)
            } else if self.globals.contains_key(first as usize) {
                failure("Global variable already defined"@)
            } else {
                Effect::Next(
                    VmView {
                        globals: self.globals.insert(first as usize, self.stack.last()),
                        ..self.pop()
                    },
                )
            }
        } else if opcode == 0x0C {
            if self.globals.contains_key(first as usize) {
                Effect::Next(self.push(self.globals[first as usize]))
            } else {
                failure(undefined_text(first as nat))
            }
        } else if opcode == 0x0D {
            if self.stack.len() == 0 {
                failure("Stack underflow"@)
            } else {
                Effect::Next(
                    VmView {
                        globals: self.globals.insert(first as usize, self.stack.last()),
                        ..self.pop()
                    },
                )
            }
        } else if opcode == 0x0E {
            self.enter(first as nat)
        } else {
            failure(unknown_text(opcode as nat))
        }
    }

    /// One instruction: the machine reads the opcode at its pointer and
    /// the operands after it, moves its pointer past them, and applies the
    /// instruction. At the end of the code the program is over.
    pub open spec fn step(self) -> Effect {
        let code = self.code();
        let ip = self.pointer() as int;
        if ip >= code.len() {
            Effect::Stop
        } else {
            let opcode = code[ip];
            let count = operand_count(opcode) as int;
            if ip + count >= code.len() {
                failure("Truncated instruction."@)
            } else {
                let first = if count >= 1 {
                    code[ip + 1]
                } else {
                    0u8
                };
                let second = if count >= 2 {
                    code[ip + 2]
                } else {
                    0u8
                };
                self.at((ip + 1 + count) as nat).apply(opcode, first, second)
            }
        }
    }

    /// The run of the machine: instructions are executed until the program
    /// is over, one fails, or more than `fuel` of them were executed. An
    /// instruction that fails leaves the machine as it was.
    pub open spec fn run(self, fuel: nat) -> (VmView, Result<(), LoxErrorView>)
        decreases fuel,
    {
        match self.step() {
            Effect::Stop => (self, Ok(())),
            Effect::Error(e) => (self, Err(e)),
            Effect::Next(next) => if fuel == 0 {
                (next, Err(LoxErrorView::RuntimeError("Execution limit reached."@)))
            } else {
                next.run((fuel - 1) as nat)
            },
        }
    }
}


fn failed<T>(text: &str) -> (r: Result<T, LoxError>)
    ensures
        r matches Err(e) && e@ == LoxErrorView::RuntimeError(text@),
{
    Err(LoxError::RuntimeError(String::from_str(text)))
}

/// Whether what an instruction did is what `effect` says: on an error the
/// machine is as it was.
spec fn done(before: VmView, after: VmView, r: Result<(), LoxError>, effect: Effect) -> bool {
    match effect {
        Effect::Next(next) => r is Ok && after == next,
        Effect::Stop => false,
        Effect::Error(e) => after == before && (r matches Err(x) && x@ == e),
    }
}

impl VM {
    /// A machine at the start of `chunk`, with an empty stack.
    pub fn new(chunk: Chunk) -> (r: VM)
        ensures
            r@ == (VmView {
                ip: 0,
                chunk: chunk@,
                stack: Seq::empty(),
                globals: Map::empty(),
                frames: Seq::empty(),
            }),
    {
        let r = VM {
            ip: 0,
            chunk,
            stack: Vec::new(),
            global_table: GlobalTable::new(),
            frames: Vec::new(),
        };
        assert(r@.stack =~= Seq::empty());
        assert(r@.frames =~= Seq::empty());
        r
    }

    fn code_len(&self) -> (r: usize)
        ensures
            r == self@.code().len(),
    {
        if self.frames.len() == 0 {
            self.chunk.code.len()
        } else {
            self.frames[self.frames.len() - 1].function.chunk.code.len()
        }
    }

    fn code_byte(&self, index: usize) -> (r: u8)
        requires
            index < self@.code().len(),
        ensures
            r == self@.code()[index as int],
    {
        if self.frames.len() == 0 {
            self.chunk.code[index]
        } else {
            self.frames[self.frames.len() - 1].function.chunk.code[index]
        }
    }

    fn pointer(&self) -> (r: usize)
        ensures
            r == self@.pointer(),
    {
        if self.frames.len() == 0 {
            self.ip
        } else {
            self.frames[self.frames.len() - 1].ip
        }
    }

    fn set_pointer(&mut self, ip: usize)
        ensures
            final(self)@ == old(self)@.at(ip as nat),
            final(self).stack == old(self).stack,
    {
        if self.frames.len() == 0 {
            self.ip = ip;
        } else {
            let last = self.frames.len() - 1;
            self.frames[last].ip = ip;
            assert(final(self)@.frames =~= old(self)@.at(ip as nat).frames);
        }
    }

    fn push(&mut self, value: Constant)
        ensures
            final(self)@ == old(self)@.push(value@),
            final(self).stack.len() == old(self).stack.len() + 1,
    {
        self.stack.push(value);
        assert(final(self)@.stack =~= old(self)@.stack.push(value@));
    }

    fn pop(&mut self) -> (r: Constant)
        requires
            old(self)@.stack.len() > 0,
        ensures
            final(self)@ == old(self)@.pop(),
            final(self).stack.len() == old(self).stack.len() - 1,
            r@ == old(self)@.stack.last(),
    {
        let value = self.stack.pop().unwrap();
        assert(final(self)@.stack =~= old(self)@.stack.drop_last());
        value
    }

    /// Pushes the constant with the given index.
    fn op_constant(&mut self, index: usize, next: usize) -> (r: Result<(), LoxError>)
        requires
            index < 256,
        ensures
            done(
                old(self)@,
                final(self)@,
                r,
                old(self)@.at(next as nat).apply(0x01, index as u8, 0),
            ),
    {
        let ghost moved = self@.at(next as nat);
        assert(moved.constants() == self@.constants());
        let constant = if self.frames.len() == 0 {
            if index < self.chunk.constants.len() {
                Some(self.chunk.constants[index].clone())
            } else {
                None
            }
        } else {
            let frame = &self.frames[self.frames.len() - 1];
            if index < frame.function.chunk.constants.len() {
                Some(frame.function.chunk.constants[index].clone())
            } else {
                None
            }
        };
        match constant {
            Some(c) => {
                self.set_pointer(next);
                self.push(c);
                Ok(())
            },
            None => failed("Constant index out of range."),
        }
    }

    /// The two numbers on top of the stack, where there are two.
    fn operands(&self) -> (r: Result<(Number, Number), LoxError>)
        ensures
            match r {
                Ok((a, b)) => self@.stack.len() >= 2 && self@.stack[self@.stack.len() - 2]
                    == ConstantView::Number(a.bits) && self@.stack[self@.stack.len() - 1]
                    == ConstantView::Number(b.bits),
                Err(e) => if self@.stack.len() < 2 {
                    e@ == LoxErrorView::RuntimeError("Stack underflow"@)
                } else {
                    e@ == LoxErrorView::RuntimeError("Operands must be numbers."@) && !(
                    self@.stack[self@.stack.len() - 2] is Number && self@.stack[self@.stack.len()
                        - 1] is Number)
                },
            },
    {
        let n = self.stack.len();
        if n < 2 {
            return failed("Stack underflow");
        }
        match (&self.stack[n - 2], &self.stack[n - 1]) {
            (Constant::Number(a), Constant::Number(b)) => Ok((*a, *b)),
            _ => failed("Operands must be numbers."),
        }
    }

    fn binary(&mut self, opcode: u8, next: usize) -> (r: Result<(), LoxError>)
        requires
            0x02 <= opcode <= 0x05,
        ensures
            done(old(self)@, final(self)@, r, old(self)@.at(next as nat).arithmetic(opcode)),
    {
        let ghost moved = self@.at(next as nat);
        assert(moved.stack == self@.stack);
        let (a, b) = match self.operands() {
            Ok(pair) => pair,
            Err(e) => {
                return Err(e);
            },
        };
        if opcode == 0x05 && b.is_zero() {
            return Err(LoxError::DivisionByZero);
        }
        self.set_pointer(next);
        let right = self.pop();
        let left = self.pop();
        let result = if opcode == 0x02 {
            left.add(right)
        } else if opcode == 0x03 {
            left.subtract(right)
        } else if opcode == 0x04 {
            left.multiply(right)
        } else {
            left.divide(right)
        };
        self.push(result);
        Ok(())
    }

    fn op_add(&mut self, next: usize) -> (r: Result<(), LoxError>)
        ensures
            done(old(self)@, final(self)@, r, old(self)@.at(next as nat).arithmetic(0x02)),
    {
        self.binary(0x02, next)
    }

    fn op_subtract(&mut self, next: usize) -> (r: Result<(), LoxError>)
        ensures
            done(old(self)@, final(self)@, r, old(self)@.at(next as nat).arithmetic(0x03)),
    {
        self.binary(0x03, next)
    }

    fn op_multiply(&mut self, next: usize) -> (r: Result<(), LoxError>)
        ensures
            done(old(self)@, final(self)@, r, old(self)@.at(next as nat).arithmetic(0x04)),
    {
        self.binary(0x04, next)
    }

    fn op_divide(&mut self, next: usize) -> (r: Result<(), LoxError>)
        ensures
            done(old(self)@, final(self)@, r, old(self)@.at(next as nat).arithmetic(0x05)),
    {
        self.binary(0x05, next)
    }

    fn op_negate(&mut self, next: usize) -> (r: Result<(), LoxError>)
        ensures
            done(old(self)@, final(self)@, r, old(self)@.at(next as nat).apply(0x06, 0, 0)),
    {
        let ghost moved = self@.at(next as nat);
        assert(moved.stack == self@.stack);
        let n = self.stack.len();
        if n == 0 {
            return failed("Stack underflow");
        }
        let value = match &self.stack[n - 1] {
            Constant::Number(v) => v.negate(),
            _ => {
                return failed("Operands must be numbers.");
            },
        };
        self.set_pointer(next);
        self.pop();
        self.push(Constant::Number(value));
        Ok(())
    }

    /// Leaves the innermost call with the value on top of the stack.
    fn op_return(&mut self, next: usize) -> (r: Result<(), LoxError>)
        requires
            old(self)@.frames.len() > 0,
        ensures
            done(old(self)@, final(self)@, r, old(self)@.at(next as nat).leave()),
    {
        let ghost moved = self@.at(next as nat);
        assert(moved.stack == self@.stack);
        if self.stack.len() == 0 {
            return failed("Stack underflow");
        }
        self.set_pointer(next);
        let value = self.pop();
        let frame = self.frames.pop().unwrap();
        assert(self@.frames =~= moved.frames.drop_last());
        self.stack.truncate(frame.base_pointer);
        assert(constants_view(self.stack@) =~= if (frame.base_pointer as int)
            < moved.stack.drop_last().len() {
            moved.stack.drop_last().take(frame.base_pointer as int)
        } else {
            moved.stack.drop_last()
        });
        self.push(value);
        Ok(())
    }

    /// Moves the pointer forward from `next` by `offset`.
    fn op_jump(&mut self, offset: usize, next: usize) -> (r: Result<(), LoxError>)
        requires
            offset < 65536,
        ensures
            done(
                old(self)@,
                final(self)@,
                r,
                old(self)@.at(next as nat).jump((offset % 256) as u8, (offset / 256) as u8),
            ),
    {
        let ghost moved = self@.at(next as nat);
        assert(moved.pointer() == next);
        if offset > usize::MAX - next {
            return failed("Jump out of range.");
        }
        self.set_pointer(next + offset);
        assert(self@ =~= moved.at((next + offset) as nat)) by {
            assert(self@.frames =~= moved.at((next + offset) as nat).frames);
        }
        Ok(())
    }

    /// Pops the condition and jumps if it is false.
    fn op_jump_false(&mut self, offset: usize, next: usize) -> (r: Result<(), LoxError>)
        requires
            offset < 65536,
        ensures
            done(
                old(self)@,
                final(self)@,
                r,
                old(self)@.at(next as nat).apply(0x09, (offset % 256) as u8, (offset / 256) as u8),
            ),
    {
        let ghost moved = self@.at(next as nat);
        assert(moved.stack == self@.stack);
        assert(moved.pointer() == next);
        let n = self.stack.len();
        if n == 0 {
            return failed("Stack underflow");
        }
        let jumps = match &self.stack[n - 1] {
            Constant::Number(v) => v.is_zero(),
            _ => false,
        };
        if jumps {
            if offset > usize::MAX - next {
                return failed("Jump out of range.");
            }
            self.pop();
            self.set_pointer(next + offset);
            assert(self@ =~= moved.pop().at((next + offset) as nat)) by {
                assert(self@.frames =~= moved.pop().at((next + offset) as nat).frames);
            }
        } else {
            self.set_pointer(next);
            self.pop();
        }
        Ok(())
    }

    fn op_pop(&mut self, next: usize) -> (r: Result<(), LoxError>)
        ensures
            done(old(self)@, final(self)@, r, old(self)@.at(next as nat).apply(0x0A, 0, 0)),
    {
        let ghost moved = self@.at(next as nat);
        assert(moved.stack == self@.stack);
        if self.stack.len() == 0 {
            return failed("Stack underflow");
        }
        self.set_pointer(next);
        self.pop();
        Ok(())
    }

    fn op_define_global(&mut self, index: usize, next: usize) -> (r: Result<(), LoxError>)
        requires
            index < 256,
        ensures
            done(
                old(self)@,
                final(self)@,
                r,
                old(self)@.at(next as nat).apply(0x0B, index as u8, 0),
            ),
    {
        let ghost moved = self@.at(next as nat);
        assert(moved.stack == self@.stack);
        assert(moved.globals == self@.globals);
        if self.stack.len() == 0 {
            return failed("Stack underflow");
        }
        if self.global_table.contains(index) {
            return failed("Global variable already defined");
        }
        self.set_pointer(next);
        let value = self.pop();
        match self.global_table.define(index, value) {
            Ok(()) => Ok(()),
            Err(_) => Ok(()),
        }
    }

    fn op_get_global(&mut self, index: usize, next: usize) -> (r: Result<(), LoxError>)
        requires
            index < 256,
        ensures
            done(
                old(self)@,
                final(self)@,
                r,
                old(self)@.at(next as nat).apply(0x0C, index as u8, 0),
            ),
    {
        let ghost moved = self@.at(next as nat);
        assert(moved.globals == self@.globals);
        let value = match self.global_table.get(index) {
            Some(value) => value.clone(),
            None => {
                let mut text = String::from_str("Undefined global variable at index ");
                text.append(nat_string(index as u64).as_str());
                return Err(LoxError::RuntimeError(text));
            },
        };
        self.set_pointer(next);
        self.push(value);
        Ok(())
    }

    fn op_set_global(&mut self, index: usize, next: usize) -> (r: Result<(), LoxError>)
        requires
            index < 256,
        ensures
            done(
                old(self)@,
                final(self)@,
                r,
                old(self)@.at(next as nat).apply(0x0D, index as u8, 0),
            ),
    {
        let ghost moved = self@.at(next as nat);
        assert(moved.stack == self@.stack);
        assert(moved.globals == self@.globals);
        if self.stack.len() == 0 {
            return failed("Stack underflow");
        }
        self.set_pointer(next);
        let value = self.pop();
        self.global_table.set(index, value);
        Ok(())
    }

    /// Calls the function on top of the stack with `argument_count`
    /// arguments.
    fn op_call(&mut self, argument_count: usize, next: usize) -> (r: Result<(), LoxError>)
        ensures
            done(
                old(self)@,
                final(self)@,
                r,
                old(self)@.at(next as nat).enter(argument_count as nat),
            ),
    {
        let ghost moved = self@.at(next as nat);
        assert(moved.stack == self@.stack);
        let n = self.stack.len();
        if n == 0 {
            return failed("Expected a function on the stack");
        }
        let function = match &self.stack[n - 1] {
            Constant::Function(function) => crate::share(function),
            _ => {
                return failed("Expected a function on the stack");
            },
        };
        if function.arity != argument_count {
            let mut text = String::from_str("Expected ");
            text.append(nat_string(function.arity as u64).as_str());
            text.append(" arguments but got ");
            text.append(nat_string(argument_count as u64).as_str());
            return Err(LoxError::RuntimeError(text));
        }
        if n - 1 < argument_count {
            return failed("Stack underflow");
        }
        self.set_pointer(next);
        self.pop();
        let base_pointer = self.stack.len() - argument_count;
        let ghost frames = self@.frames;
        self.frames.push(CallFrame::new(function, base_pointer));
        assert(self@.frames =~= frames.push(
            FrameView { function: (*function)@, ip: 0, base_pointer: base_pointer as nat },
        ));
        Ok(())
    }

    /// One instruction. The result says whether the program goes on; on
    /// an error the machine is as it was.
    fn step(&mut self) -> (r: Result<bool, LoxError>)
        ensures
            match old(self)@.step() {
                Effect::Next(next) => r matches Ok(true) && final(self)@ == next,
                Effect::Stop => r matches Ok(false) && final(self)@ == old(self)@,
                Effect::Error(e) => final(self)@ == old(self)@ && (r matches Err(x) && x@ == e),
            },
    {
        let length = self.code_len();
        let ip = self.pointer();
        if ip >= length {
            return Ok(false);
        }
        let opcode = self.code_byte(ip);
        let count: usize = if opcode == 0x01 || opcode == 0x0B || opcode == 0x0C || opcode == 0x0D {
            1
        } else if opcode == 0x08 || opcode == 0x09 || opcode == 0x0E {
            2
        } else {
            0
        };
        if count >= length - ip {
            return failed("Truncated instruction.");
        }
        let first: u8 = if count >= 1 {
            self.code_byte(ip + 1)
        } else {
            0
        };
        let second: u8 = if count >= 2 {
            self.code_byte(ip + 2)
        } else {
            0
        };
        let next = ip + 1 + count;
        let offset: usize = first as usize + 256 * (second as usize);
        let done = if opcode == 0x01 {
            self.op_constant(first as usize, next)
        } else if opcode == 0x02 {
            self.op_add(next)
        } else if opcode == 0x03 {
            self.op_subtract(next)
        } else if opcode == 0x04 {
            self.op_multiply(next)
        } else if opcode == 0x05 {
            self.op_divide(next)
        } else if opcode == 0x06 {
            self.op_negate(next)
        } else if opcode == 0x07 {
            if self.frames.len() == 0 {
                return Ok(false);
            }
            self.op_return(next)
        } else if opcode == 0x08 {
            self.op_jump(offset, next)
        } else if opcode == 0x09 {
            self.op_jump_false(offset, next)
        } else if opcode == 0x0A {
            self.op_pop(next)
        } else if opcode == 0x0B {
            self.op_define_global(first as usize, next)
        } else if opcode == 0x0C {
            self.op_get_global(first as usize, next)
        } else if opcode == 0x0D {
            self.op_set_global(first as usize, next)
        } else if opcode == 0x0E {
            self.op_call(first as usize, next)
        } else {
            let mut text = String::from_str("Unknown OpCode: ");
            text.append(nat_string(opcode as u64).as_str());
            Err(LoxError::RuntimeError(text))
        };
        match done {
            Ok(()) => Ok(true),
            Err(e) => Err(e),
        }
    }

    /// Runs the machine until the program is over or an instruction
    /// fails; then the machine is as it was before that instruction.
    pub fn execute(&mut self) -> (r: Result<(), LoxError>)
        ensures
            (
                final(self)@,
                match r {
                    Ok(()) => Ok(()),
                    Err(e) => Err(e@),
                },
            ) == old(self)@.run(INSTRUCTION_LIMIT as nat),
    {
        let mut budget = INSTRUCTION_LIMIT;
        loop
            invariant
                old(self)@.run(INSTRUCTION_LIMIT as nat) == self@.run(budget as nat),
            decreases budget,
        {
            let ghost before = self@;
            match self.step() {
                Ok(true) => {
                    if budget == 0 {
                        return failed("Execution limit reached.");
                    }
                    budget = budget - 1;
                },
                Ok(false) => {
                    return Ok(());
                },
                Err(e) => {
                    return Err(e);
                },
            }
        }
    }
}

} // verus!
