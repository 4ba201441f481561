//! The instructions that the transformations read and write, and their binary form.

use vstd::bytes::{spec_u32_to_le_bytes, spec_u64_to_le_bytes, u32_to_le_bytes, u64_to_le_bytes};
use vstd::prelude::*;

use crate::leb128;
use crate::util::{BlockType, ValType};

verus! {

/// Whether a number has 32 or 64 bits.
#[derive(Clone, Copy, Debug, PartialEq, Eq, Structural)]
pub enum Width {
    W32,
    W64,
}

/// A comparison of two integers.
#[derive(Clone, Copy, Debug, PartialEq, Eq, Structural)]
pub enum IntRelOp {
    Eq,
    Ne,
    LtS,
    LtU,
    GtS,
    GtU,
    LeS,
    LeU,
    GeS,
    GeU,
}

/// A comparison of two floating-point numbers.
#[derive(Clone, Copy, Debug, PartialEq, Eq, Structural)]
pub enum FloatRelOp {
    Eq,
    Ne,
    Lt,
    Gt,
    Le,
    Ge,
}

/// An operation on one integer.
#[derive(Clone, Copy, Debug, PartialEq, Eq, Structural)]
pub enum IntUnOp {
    Clz,
    Ctz,
    Popcnt,
}

/// An operation on two integers.
#[derive(Clone, Copy, Debug, PartialEq, Eq, Structural)]
pub enum IntBinOp {
    Add,
    Sub,
    Mul,
    DivS,
    DivU,
    RemS,
    RemU,
    And,
    Or,
    Xor,
    Shl,
    ShrS,
    ShrU,
    Rotl,
    Rotr,
}

/// An operation on one floating-point number.
#[derive(Clone, Copy, Debug, PartialEq, Eq, Structural)]
pub enum FloatUnOp {
    Neg,
    Sqrt,
}

/// An operation on two floating-point numbers.
#[derive(Clone, Copy, Debug, PartialEq, Eq, Structural)]
pub enum FloatBinOp {
    Add,
    Sub,
    Mul,
    Div,
    Min,
    Max,
}

/// The immediate of a memory instruction.
#[derive(Clone, Copy, Debug, PartialEq, Eq, Structural)]
pub struct MemArg {
    /// The constant added to the address operand.
    pub offset: u64,
    /// The base-2 logarithm of the alignment that the access promises.
    pub align: u32,
    /// The memory that is accessed.
    pub memory_index: u32,
}

/// One instruction.
#[derive(Clone, Copy, Debug, PartialEq, Eq, Structural)]
pub enum Instruction {
    Unreachable,
    Block(BlockType),
    Loop(BlockType),
    If(BlockType),
    Else,
    End,
    Br(u32),
    BrIf(u32),
    Call(u32),
    Drop,
    LocalGet(u32),
    LocalSet(u32),
    LocalTee(u32),
    GlobalGet(u32),
    GlobalSet(u32),
    /// `i32.load`.
    I32Load(MemArg),
    /// `i32.load8_u`.
    I32Load8U(MemArg),
    /// `i32.store`.
    I32Store(MemArg),
    /// `i32.store8`.
    I32Store8(MemArg),
    /// The load of a floating-point number of the given width.
    FloatLoad(Width, MemArg),
    /// The store of a floating-point number of the given width.
    FloatStore(Width, MemArg),
    MemorySize(u32),
    MemoryGrow(u32),
    I32Const(i32),
    I64Const(i64),
    /// `f32.const`, with the bits of the constant.
    F32Const(u32),
    /// `f64.const`, with the bits of the constant.
    F64Const(u64),
    /// `i32.eqz` or `i64.eqz`.
    IntEqz(Width),
    IntCompare(Width, IntRelOp),
    FloatCompare(Width, FloatRelOp),
    IntUnary(Width, IntUnOp),
    IntBinary(Width, IntBinOp),
    FloatUnary(Width, FloatUnOp),
    FloatBinary(Width, FloatBinOp),
    /// The conversion of an integer of width `from`, read as signed or not, to a floating-point
    /// number of width `to`.
    Convert { to: Width, from: Width, signed: bool },
}

impl ValType {
    /// The byte that stands for this type.
    pub open spec fn spec_code(self) -> u8 {
        match self {
            ValType::I32 => 0x7F,
            ValType::I64 => 0x7E,
            ValType::F32 => 0x7D,
            ValType::F64 => 0x7C,
        }
    }

    #[verifier::when_used_as_spec(spec_code)]
    pub fn code(self) -> (r: u8)
        ensures
            r == self.spec_code(),
    {
        match self {
            ValType::I32 => 0x7F,
            ValType::I64 => 0x7E,
            ValType::F32 => 0x7D,
            ValType::F64 => 0x7C,
        }
    }

    /// The integer type of a width.
    pub open spec fn spec_of_int(width: Width) -> ValType {
        match width {
            Width::W32 => ValType::I32,
            Width::W64 => ValType::I64,
        }
    }

    #[verifier::when_used_as_spec(spec_of_int)]
    pub fn of_int(width: Width) -> (r: ValType)
        ensures
            r == Self::spec_of_int(width),
    {
        match width {
            Width::W32 => ValType::I32,
            Width::W64 => ValType::I64,
        }
    }

    /// The floating-point type of a width.
    pub open spec fn spec_of_float(width: Width) -> ValType {
        match width {
            Width::W32 => ValType::F32,
            Width::W64 => ValType::F64,
        }
    }

    #[verifier::when_used_as_spec(spec_of_float)]
    pub fn of_float(width: Width) -> (r: ValType)
        ensures
            r == Self::spec_of_float(width),
    {
        match width {
            Width::W32 => ValType::F32,
            Width::W64 => ValType::F64,
        }
    }
}

impl BlockType {
    /// The binary form: a marker for the empty type, the byte of a result type, or a type index
    /// as a signed number.
    pub open spec fn encoding(self) -> Seq<u8> {
        match self {
            BlockType::Empty => seq![0x40u8],
            BlockType::Result(ty) => seq![ty.spec_code()],
            BlockType::Func(typeidx) => leb128::signed(typeidx as int),
        }
    }

    /// Append the binary form to `sink`.
    pub fn encode(self, sink: &mut Vec<u8>)
        ensures
            final(sink)@ == old(sink)@ + self.encoding(),
    {
        match self {
            BlockType::Empty => {
                sink.push(0x40);
                assert(sink@ =~= old(sink)@ + self.encoding());
            },
            BlockType::Result(ty) => {
                sink.push(ty.code());
                assert(sink@ =~= old(sink)@ + self.encoding());
            },
            BlockType::Func(typeidx) => {
                leb128::write_i64(sink, typeidx as i64);
            },
        }
    }
}

impl MemArg {
    /// The binary form: the alignment, flagged where a memory other than the first is meant and
    /// then followed by that memory's index, and the offset.
    pub open spec fn encoding(self) -> Seq<u8> {
        if self.memory_index == 0 {
            leb128::unsigned(self.align as nat) + leb128::unsigned(self.offset as nat)
        } else {
            leb128::unsigned((self.align | 64) as nat) + leb128::unsigned(
                self.memory_index as nat,
            ) + leb128::unsigned(self.offset as nat)
        }
    }

    /// Append the binary form to `sink`.
    pub fn encode(self, sink: &mut Vec<u8>)
        ensures
            final(sink)@ == old(sink)@ + self.encoding(),
    {
        if self.memory_index == 0 {
            leb128::write_u32(sink, self.align);
            leb128::write_u64(sink, self.offset);
            assert(sink@ =~= old(sink)@ + self.encoding());
        } else {
            leb128::write_u32(sink, self.align | 64);
            leb128::write_u32(sink, self.memory_index);
            leb128::write_u64(sink, self.offset);
            assert(sink@ =~= old(sink)@ + self.encoding());
        }
    }
}

impl Width {
    /// `narrow` for 32 bits and `wide` for 64 bits.
    pub open spec fn spec_pick(self, narrow: u8, wide: u8) -> u8 {
        match self {
            Width::W32 => narrow,
            Width::W64 => wide,
        }
    }

    #[verifier::when_used_as_spec(spec_pick)]
    pub fn pick(self, narrow: u8, wide: u8) -> (r: u8)
        ensures
            r == self.spec_pick(narrow, wide),
    {
        match self {
            Width::W32 => narrow,
            Width::W64 => wide,
        }
    }
}

impl IntRelOp {
    /// The place of the comparison among those of one integer type.
    pub open spec fn spec_index(self) -> u8 {
        match self {
            IntRelOp::Eq => 0,
            IntRelOp::Ne => 1,
            IntRelOp::LtS => 2,
            IntRelOp::LtU => 3,
            IntRelOp::GtS => 4,
            IntRelOp::GtU => 5,
            IntRelOp::LeS => 6,
            IntRelOp::LeU => 7,
            IntRelOp::GeS => 8,
            IntRelOp::GeU => 9,
        }
    }

    #[verifier::when_used_as_spec(spec_index)]
    pub fn index(self) -> (r: u8)
        ensures
            r == self.spec_index(),
    {
        match self {
            IntRelOp::Eq => 0,
            IntRelOp::Ne => 1,
            IntRelOp::LtS => 2,
            IntRelOp::LtU => 3,
            IntRelOp::GtS => 4,
            IntRelOp::GtU => 5,
            IntRelOp::LeS => 6,
            IntRelOp::LeU => 7,
            IntRelOp::GeS => 8,
            IntRelOp::GeU => 9,
        }
    }
}

impl FloatRelOp {
    /// The place of the comparison among those of one floating-point type.
    pub open spec fn spec_index(self) -> u8 {
        match self {
            FloatRelOp::Eq => 0,
            FloatRelOp::Ne => 1,
            FloatRelOp::Lt => 2,
            FloatRelOp::Gt => 3,
            FloatRelOp::Le => 4,
            FloatRelOp::Ge => 5,
        }
    }

    #[verifier::when_used_as_spec(spec_index)]
    pub fn index(self) -> (r: u8)
        ensures
            r == self.spec_index(),
    {
        match self {
            FloatRelOp::Eq => 0,
            FloatRelOp::Ne => 1,
            FloatRelOp::Lt => 2,
            FloatRelOp::Gt => 3,
            FloatRelOp::Le => 4,
            FloatRelOp::Ge => 5,
        }
    }
}

impl IntUnOp {
    /// The place of the operation among the arithmetic of one integer type.
    pub open spec fn spec_index(self) -> u8 {
        match self {
            IntUnOp::Clz => 0,
            IntUnOp::Ctz => 1,
            IntUnOp::Popcnt => 2,
        }
    }

    #[verifier::when_used_as_spec(spec_index)]
    pub fn index(self) -> (r: u8)
        ensures
            r == self.spec_index(),
    {
        match self {
            IntUnOp::Clz => 0,
            IntUnOp::Ctz => 1,
            IntUnOp::Popcnt => 2,
        }
    }
}

impl IntBinOp {
    /// The place of the operation among the arithmetic of one integer type.
    pub open spec fn spec_index(self) -> u8 {
        match self {
            IntBinOp::Add => 3,
            IntBinOp::Sub => 4,
            IntBinOp::Mul => 5,
            IntBinOp::DivS => 6,
            IntBinOp::DivU => 7,
            IntBinOp::RemS => 8,
            IntBinOp::RemU => 9,
            IntBinOp::And => 10,
            IntBinOp::Or => 11,
            IntBinOp::Xor => 12,
            IntBinOp::Shl => 13,
            IntBinOp::ShrS => 14,
            IntBinOp::ShrU => 15,
            IntBinOp::Rotl => 16,
            IntBinOp::Rotr => 17,
        }
    }

    #[verifier::when_used_as_spec(spec_index)]
    pub fn index(self) -> (r: u8)
        ensures
            r == self.spec_index(),
    {
        match self {
            IntBinOp::Add => 3,
            IntBinOp::Sub => 4,
            IntBinOp::Mul => 5,
            IntBinOp::DivS => 6,
            IntBinOp::DivU => 7,
            IntBinOp::RemS => 8,
            IntBinOp::RemU => 9,
            IntBinOp::And => 10,
            IntBinOp::Or => 11,
            IntBinOp::Xor => 12,
            IntBinOp::Shl => 13,
            IntBinOp::ShrS => 14,
            IntBinOp::ShrU => 15,
            IntBinOp::Rotl => 16,
            IntBinOp::Rotr => 17,
        }
    }
}

impl FloatUnOp {
    /// The place of the operation among the arithmetic of one floating-point type.
    pub open spec fn spec_index(self) -> u8 {
        match self {
            FloatUnOp::Neg => 1,
            FloatUnOp::Sqrt => 6,
        }
    }

    #[verifier::when_used_as_spec(spec_index)]
    pub fn index(self) -> (r: u8)
        ensures
            r == self.spec_index(),
    {
        match self {
            FloatUnOp::Neg => 1,
            FloatUnOp::Sqrt => 6,
        }
    }
}

impl FloatBinOp {
    /// The place of the operation among the arithmetic of one floating-point type.
    pub open spec fn spec_index(self) -> u8 {
        match self {
            FloatBinOp::Add => 7,
            FloatBinOp::Sub => 8,
            FloatBinOp::Mul => 9,
            FloatBinOp::Div => 10,
            FloatBinOp::Min => 11,
            FloatBinOp::Max => 12,
        }
    }

    #[verifier::when_used_as_spec(spec_index)]
    pub fn index(self) -> (r: u8)
        ensures
            r == self.spec_index(),
    {
        match self {
            FloatBinOp::Add => 7,
            FloatBinOp::Sub => 8,
            FloatBinOp::Mul => 9,
            FloatBinOp::Div => 10,
            FloatBinOp::Min => 11,
            FloatBinOp::Max => 12,
        }
    }
}

impl Instruction {
    /// The byte that names the instruction.
    pub open spec fn spec_opcode(self) -> u8 {
        match self {
            Instruction::Unreachable => 0x00,
            Instruction::Block(_) => 0x02,
            Instruction::Loop(_) => 0x03,
            Instruction::If(_) => 0x04,
            Instruction::Else => 0x05,
            Instruction::End => 0x0B,
            Instruction::Br(_) => 0x0C,
            Instruction::BrIf(_) => 0x0D,
            Instruction::Call(_) => 0x10,
            Instruction::Drop => 0x1A,
            Instruction::LocalGet(_) => 0x20,
            Instruction::LocalSet(_) => 0x21,
            Instruction::LocalTee(_) => 0x22,
            Instruction::GlobalGet(_) => 0x23,
            Instruction::GlobalSet(_) => 0x24,
            Instruction::I32Load(_) => 0x28,
            Instruction::I32Load8U(_) => 0x2D,
            Instruction::I32Store(_) => 0x36,
            Instruction::I32Store8(_) => 0x3A,
            Instruction::FloatLoad(w, _) => w.spec_pick(0x2A, 0x2B),
            Instruction::FloatStore(w, _) => w.spec_pick(0x38, 0x39),
            Instruction::MemorySize(_) => 0x3F,
            Instruction::MemoryGrow(_) => 0x40,
            Instruction::I32Const(_) => 0x41,
            Instruction::I64Const(_) => 0x42,
            Instruction::F32Const(_) => 0x43,
            Instruction::F64Const(_) => 0x44,
            Instruction::IntEqz(w) => w.spec_pick(0x45, 0x50),
            Instruction::IntCompare(w, op) => (w.spec_pick(0x46, 0x51) + op.spec_index()) as u8,
            Instruction::FloatCompare(w, op) => (w.spec_pick(0x5B, 0x61) + op.spec_index()) as u8,
            Instruction::IntUnary(w, op) => (w.spec_pick(0x67, 0x79) + op.spec_index()) as u8,
            Instruction::IntBinary(w, op) => (w.spec_pick(0x67, 0x79) + op.spec_index()) as u8,
            Instruction::FloatUnary(w, op) => (w.spec_pick(0x8B, 0x99) + op.spec_index()) as u8,
            Instruction::FloatBinary(w, op) => (w.spec_pick(0x8B, 0x99) + op.spec_index()) as u8,
            Instruction::Convert { to, from, signed } => (to.spec_pick(0xB2, 0xB7) + from.spec_pick(
                0,
                2,
            ) + if signed {
                0u8
            } else {
                1u8
            }) as u8,
        }
    }

    #[verifier::when_used_as_spec(spec_opcode)]
    pub fn opcode(self) -> (r: u8)
        ensures
            r == self.spec_opcode(),
    {
        match self {
            Instruction::Unreachable => 0x00,
            Instruction::Block(_) => 0x02,
            Instruction::Loop(_) => 0x03,
            Instruction::If(_) => 0x04,
            Instruction::Else => 0x05,
            Instruction::End => 0x0B,
            Instruction::Br(_) => 0x0C,
            Instruction::BrIf(_) => 0x0D,
            Instruction::Call(_) => 0x10,
            Instruction::Drop => 0x1A,
            Instruction::LocalGet(_) => 0x20,
            Instruction::LocalSet(_) => 0x21,
            Instruction::LocalTee(_) => 0x22,
            Instruction::GlobalGet(_) => 0x23,
            Instruction::GlobalSet(_) => 0x24,
            Instruction::I32Load(_) => 0x28,
            Instruction::I32Load8U(_) => 0x2D,
            Instruction::I32Store(_) => 0x36,
            Instruction::I32Store8(_) => 0x3A,
            Instruction::FloatLoad(w, _) => w.pick(0x2A, 0x2B),
            Instruction::FloatStore(w, _) => w.pick(0x38, 0x39),
            Instruction::MemorySize(_) => 0x3F,
            Instruction::MemoryGrow(_) => 0x40,
            Instruction::I32Const(_) => 0x41,
            Instruction::I64Const(_) => 0x42,
            Instruction::F32Const(_) => 0x43,
            Instruction::F64Const(_) => 0x44,
            Instruction::IntEqz(w) => w.pick(0x45, 0x50),
            Instruction::IntCompare(w, op) => w.pick(0x46, 0x51) + op.index(),
            Instruction::FloatCompare(w, op) => w.pick(0x5B, 0x61) + op.index(),
            Instruction::IntUnary(w, op) => w.pick(0x67, 0x79) + op.index(),
            Instruction::IntBinary(w, op) => w.pick(0x67, 0x79) + op.index(),
            Instruction::FloatUnary(w, op) => w.pick(0x8B, 0x99) + op.index(),
            Instruction::FloatBinary(w, op) => w.pick(0x8B, 0x99) + op.index(),
            Instruction::Convert { to, from, signed } => {
                let sign: u8 = if signed {
                    0
                } else {
                    1
                };
                to.pick(0xB2, 0xB7) + from.pick(0, 2) + sign
            },
        }
    }

    /// The binary form of what follows the opcode.
    pub open spec fn immediates(self) -> Seq<u8> {
        match self {
            Instruction::Block(bt) | Instruction::Loop(bt) | Instruction::If(bt) => bt.encoding(),
            Instruction::Br(i)
            | Instruction::BrIf(i)
            | Instruction::Call(i)
            | Instruction::LocalGet(i)
            | Instruction::LocalSet(i)
            | Instruction::LocalTee(i)
            | Instruction::GlobalGet(i)
            | Instruction::GlobalSet(i)
            | Instruction::MemorySize(i)
            | Instruction::MemoryGrow(i) => leb128::unsigned(i as nat),
            Instruction::I32Load(m)
            | Instruction::I32Load8U(m)
            | Instruction::I32Store(m)
            | Instruction::I32Store8(m)
            | Instruction::FloatLoad(_, m)
            | Instruction::FloatStore(_, m) => m.encoding(),
            Instruction::I32Const(v) => leb128::signed(v as int),
            Instruction::I64Const(v) => leb128::signed(v as int),
            Instruction::F32Const(bits) => spec_u32_to_le_bytes(bits),
            Instruction::F64Const(bits) => spec_u64_to_le_bytes(bits),
            _ => Seq::empty(),
        }
    }

    /// The binary form of the instruction: its opcode, then its immediates.
    pub open spec fn encoding(self) -> Seq<u8> {
        seq![self.spec_opcode()] + self.immediates()
    }

    /// Append the binary form of the instruction to `sink`.
    pub fn encode(self, sink: &mut Vec<u8>)
        ensures
            final(sink)@ == old(sink)@ + self.encoding(),
    {
        sink.push(self.opcode());
        let ghost mid = sink@;
        match self {
            Instruction::Block(bt) | Instruction::Loop(bt) | Instruction::If(bt) => bt.encode(sink),
            Instruction::Br(i)
            | Instruction::BrIf(i)
            | Instruction::Call(i)
            | Instruction::LocalGet(i)
            | Instruction::LocalSet(i)
            | Instruction::LocalTee(i)
            | Instruction::GlobalGet(i)
            | Instruction::GlobalSet(i)
            | Instruction::MemorySize(i)
            | Instruction::MemoryGrow(i) => leb128::write_u32(sink, i),
            Instruction::I32Load(m)
            | Instruction::I32Load8U(m)
            | Instruction::I32Store(m)
            | Instruction::I32Store8(m)
            | Instruction::FloatLoad(_, m)
            | Instruction::FloatStore(_, m) => m.encode(sink),
            Instruction::I32Const(v) => leb128::write_i32(sink, v),
            Instruction::I64Const(v) => leb128::write_i64(sink, v),
            Instruction::F32Const(bits) => {
                let mut bytes = u32_to_le_bytes(bits);
                sink.append(&mut bytes);
            },
            Instruction::F64Const(bits) => {
                let mut bytes = u64_to_le_bytes(bits);
                sink.append(&mut bytes);
            },
            _ => {},
        }
        assert(sink@ =~= mid + self.immediates());
        assert(sink@ =~= old(sink)@ + self.encoding());
    }
}

/// The binary form of a run of instructions: their forms one after the other.
pub open spec fn encoding_of(code: Seq<Instruction>) -> Seq<u8>
    decreases code.len(),
{
    if code.len() == 0 {
        Seq::empty()
    } else {
        encoding_of(code.drop_last()) + code.last().encoding()
    }
}

/// Append the binary form of a run of instructions to `sink`.
pub fn encode_all(code: &[Instruction], sink: &mut Vec<u8>)
    ensures
        final(sink)@ == old(sink)@ + encoding_of(code@),
{
    let mut i: usize = 0;
    while i < code.len()
        invariant
            i <= code@.len(),
            sink@ == old(sink)@ + encoding_of(code@.subrange(0, i as int)),
        decreases code@.len() - i,
    {
        code[i].encode(sink);
        i += 1;
        assert(code@.subrange(0, i as int).drop_last() =~= code@.subrange(0, i - 1));
        assert(sink@ =~= old(sink)@ + encoding_of(code@.subrange(0, i as int)));
    }
    assert(code@.subrange(0, code@.len() as int) =~= code@);
}

/// The form of two runs, one after the other, is the form of the first and then of the second.
pub proof fn lemma_encoding_of_concat(a: Seq<Instruction>, b: Seq<Instruction>)
    ensures
        encoding_of(a + b) == encoding_of(a) + encoding_of(b),
    decreases b.len(),
{
    if b.len() == 0 {
        assert(a + b =~= a);
        assert(encoding_of(a) + encoding_of(b) =~= encoding_of(a));
    } else {
        lemma_encoding_of_concat(a, b.drop_last());
        assert((a + b).drop_last() =~= a + b.drop_last());
        assert((a + b).last() == b.last());
        assert(encoding_of(a + b) =~= encoding_of(a) + encoding_of(b));
    }
}

} // verus!
