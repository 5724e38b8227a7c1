//! Bytecode: the instruction stream of a chunk and its constant pool.
use crate::lox::number::{number_text, Number};
use crate::vm::vm::{Function, FunctionView};
use std::rc::Rc;
use vstd::prelude::*;

verus! {

/// An instruction.
#[derive(Debug, Clone, Copy, PartialEq, Eq, Structural)]
pub enum OpCode {
    /// Pushes the constant with the given index.
    OpConstant(u8),
    OpAdd,
    OpSubtract,
    OpMultiply,
    OpDivide,
    OpNegate,
    /// Leaves the current function with the value on top of the stack.
    OpReturn,
    /// Jumps forward by the given number of bytes.
    OpJump(u16),
    /// Pops the condition and jumps forward if it is false.
    OpJumpIfFalse(u16),
    OpPop,
    OpDefineGlobal(u8),
    OpGetGlobal(u8),
    OpSetGlobal(u8),
    /// Calls the function on top of the stack: the number of arguments,
    /// and the index of the name of the callee.
    OpCall(u8, u8),
}

/// The low byte of a jump offset.
pub open spec fn low_byte(offset: u16) -> u8 {
    (offset & 0xff) as u8
}

/// The high byte of a jump offset.
pub open spec fn high_byte(offset: u16) -> u8 {
    (offset >> 8) as u8
}

/// The bytes of an instruction: its opcode, then its operands. A jump
/// offset takes two bytes, the low one first.
pub open spec fn encoding(op: OpCode) -> Seq<u8> {
    match op {
        OpCode::OpConstant(index) => seq![0x01u8, index],
        OpCode::OpAdd => seq![0x02u8],
        OpCode::OpSubtract => seq![0x03u8],
        OpCode::OpMultiply => seq![0x04u8],
        OpCode::OpDivide => seq![0x05u8],
        OpCode::OpNegate => seq![0x06u8],
        OpCode::OpReturn => seq![0x07u8],
        OpCode::OpJump(offset) => seq![0x08u8, low_byte(offset), high_byte(offset)],
        OpCode::OpJumpIfFalse(offset) => seq![0x09u8, low_byte(offset), high_byte(offset)],
        OpCode::OpPop => seq![0x0Au8],
        OpCode::OpDefineGlobal(index) => seq![0x0Bu8, index],
        OpCode::OpGetGlobal(index) => seq![0x0Cu8, index],
        OpCode::OpSetGlobal(index) => seq![0x0Du8, index],
        OpCode::OpCall(arg_count, func_index) => seq![0x0Eu8, arg_count, func_index],
    }
}

/// A constant of a chunk.
#[derive(Debug, PartialEq)]
pub enum Constant {
    Number(Number),
    String(String),
    Function(Rc<Function>),
}

/// An instruction stream with its constant pool.
#[derive(Debug, PartialEq)]
pub struct Chunk {
    pub code: Vec<u8>,
    pub constants: Vec<Constant>,
}

/// The mathematical content of a `Constant`.
pub enum ConstantView {
    Number(u64),
    String(Seq<char>),
    Function(FunctionView),
}

/// The mathematical content of a `Chunk`.
pub struct ChunkView {
    pub code: Seq<u8>,
    pub constants: Seq<ConstantView>,
}

/// The contents of a constant pool.
pub open spec fn constants_view(constants: Seq<Constant>) -> Seq<ConstantView>
    decreases constants,
{
    Seq::new(
        constants.len(),
        |i: int|
            if 0 <= i < constants.len() {
                constant_view(constants[i])
            } else {
                arbitrary()
            },
    )
}

/// The content of a chunk.
pub open spec fn chunk_view(chunk: Chunk) -> ChunkView
    decreases chunk,
{
    ChunkView { code: chunk.code@, constants: constants_view(chunk.constants@) }
}

/// The content of a function descriptor.
pub open spec fn function_view(function: Function) -> FunctionView
    decreases function,
{
    FunctionView {
        name: function.name@,
        chunk: chunk_view(function.chunk),
        arity: function.arity as nat,
    }
}

/// The content of a constant.
pub open spec fn constant_view(constant: Constant) -> ConstantView
    decreases constant,
{
    match constant {
        Constant::Number(n) => ConstantView::Number(n.bits),
        Constant::String(s) => ConstantView::String(s@),
        Constant::Function(f) => ConstantView::Function(function_view(*f)),
    }
}

impl View for Constant {
    type V = ConstantView;

    open spec fn view(&self) -> ConstantView {
        constant_view(*self)
    }
}

impl View for Chunk {
    type V = ChunkView;

    open spec fn view(&self) -> ChunkView {
        chunk_view(*self)
    }
}

/// The text of a constant: a number by its shortest decimal, a string by
/// its characters, a function by its name.
pub open spec fn constant_text(constant: ConstantView) -> Seq<char> {
    match constant {
        ConstantView::Number(n) => number_text(n),
        ConstantView::String(s) => s,
        ConstantView::Function(f) => f.name,
    }
}

impl Constant {
    /// The text of the constant.
    pub fn to_string(&self) -> (r: String)
        ensures
            r@ == constant_text(self@),
    {
        match self {
            Constant::Number(n) => n.to_text(),
            Constant::String(s) => s.clone(),
            Constant::Function(f) => f.name.clone(),
        }
    }
}

impl Clone for Constant {
    fn clone(&self) -> (r: Constant)
        ensures
            r@ == self@,
    {
        match self {
            Constant::Number(n) => Constant::Number(*n),
            Constant::String(s) => Constant::String(s.clone()),
            Constant::Function(f) => Constant::Function(crate::share(f)),
        }
    }
}

impl Clone for Chunk {
    fn clone(&self) -> (r: Chunk)
        ensures
            r@ == self@,
    {
        let mut code: Vec<u8> = Vec::new();
        let mut i: usize = 0;
        while i < self.code.len()
            invariant
                i <= self.code.len(),
                code@ == self.code@.take(i as int),
            decreases self.code.len() - i,
        {
            code.push(self.code[i]);
            i += 1;
            assert(code@ =~= self.code@.take(i as int));
        }
        assert(self.code@.take(self.code.len() as int) =~= self.code@);
        let mut constants: Vec<Constant> = Vec::new();
        let mut j: usize = 0;
        while j < self.constants.len()
            invariant
                j <= self.constants.len(),
                constants.len() == j,
                forall|k: int| 0 <= k < j ==> (#[trigger] constants@[k])@ == self.constants@[k]@,
            decreases self.constants.len() - j,
        {
            constants.push(self.constants[j].clone());
            j += 1;
        }
        let r = Chunk { code, constants };
        assert(r@.constants =~= self@.constants);
        r
    }
}

impl Chunk {
    /// An empty chunk.
    pub fn new() -> (r: Chunk)
        ensures
            r@ == (ChunkView { code: Seq::empty(), constants: Seq::empty() }),
    {
        let r = Chunk { code: Vec::new(), constants: Vec::new() };
        assert(r@.constants =~= Seq::empty());
        r
    }

    /// Appends the bytes of an instruction.
    pub fn write_op(&mut self, op: OpCode)
        ensures
            final(self)@ == (ChunkView { code: old(self)@.code + encoding(op), ..old(self)@ }),
    {
        match op {
            OpCode::OpConstant(index) => {
                self.code.push(0x01);
                self.code.push(index);
            },
            OpCode::OpAdd => {
                self.code.push(0x02);
            },
            OpCode::OpSubtract => {
                self.code.push(0x03);
            },
            OpCode::OpMultiply => {
                self.code.push(0x04);
            },
            OpCode::OpDivide => {
                self.code.push(0x05);
            },
            OpCode::OpNegate => {
                self.code.push(0x06);
            },
            OpCode::OpReturn => {
                self.code.push(0x07);
            },
            OpCode::OpJump(offset) => {
                self.code.push(0x08);
                self.code.push((offset & 0xff) as u8);
                self.code.push((offset >> 8) as u8);
            },
            OpCode::OpJumpIfFalse(offset) => {
                self.code.push(0x09);
                self.code.push((offset & 0xff) as u8);
                self.code.push((offset >> 8) as u8);
            },
            OpCode::OpPop => {
                self.code.push(0x0A);
            },
            OpCode::OpDefineGlobal(index) => {
                self.code.push(0x0B);
                self.code.push(index);
            },
            OpCode::OpGetGlobal(index) => {
                self.code.push(0x0C);
                self.code.push(index);
            },
            OpCode::OpSetGlobal(index) => {
                self.code.push(0x0D);
                self.code.push(index);
            },
            OpCode::OpCall(arg_count, func_index) => {
                self.code.push(0x0E);
                self.code.push(arg_count);
                self.code.push(func_index);
            },
        }
        assert(final(self)@.code =~= old(self)@.code + encoding(op));
    }

    /// Appends a constant to the pool and returns its index.
    pub fn add_constant(&mut self, constant: Constant) -> (r: usize)
        ensures
            r == old(self)@.constants.len(),
            final(self)@ == (ChunkView {
                constants: old(self)@.constants.push(constant@),
                ..old(self)@
            }),
    {
        self.constants.push(constant);
        assert(final(self)@.constants =~= old(self)@.constants.push(constant@));
        self.constants.len() - 1
    }

    /// Appends an instruction and returns the place of its first operand:
    /// for a jump, the place of the offset to be patched.
    pub fn write_jump(&mut self, op: OpCode) -> (r: usize)
        ensures
            r == old(self)@.code.len() + 1,
            final(self)@ == (ChunkView { code: old(self)@.code + encoding(op), ..old(self)@ }),
    {
        let start = self.code.len();
        self.write_op(op);
        assert(self.code.len() > start) by {
            assert(encoding(op).len() >= 1);
        }
        start + 1
    }

    /// The chunk with the offset at `offset` set to the distance from the
    /// end of that jump to the end of the code.
    pub open spec fn patched(chunk: ChunkView, offset: int) -> ChunkView {
        let distance = (chunk.code.len() - offset - 2) as u16;
        ChunkView {
            code: chunk.code.update(offset, low_byte(distance)).update(
                offset + 1,
                high_byte(distance),
            ),
            ..chunk
        }
    }

    /// Makes the jump whose offset stands at `offset` lead to the end of
    /// the code.
    pub fn patch_jump(&mut self, offset: usize)
        requires
            offset + 2 <= old(self)@.code.len(),
            old(self)@.code.len() - offset - 2 <= 0xffff,
        ensures
            final(self)@ == Self::patched(old(self)@, offset as int),
    {
        let distance: u16 = (self.code.len() - offset - 2) as u16;
        self.code[offset] = (distance & 0xff) as u8;
        self.code[offset + 1] = (distance >> 8) as u8;
        assert(final(self)@.code =~= Self::patched(old(self)@, offset as int).code);
    }
}

} // verus!
