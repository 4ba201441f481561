//! The fixed items that every transformed module has: the tapes, the helper functions that push
//! to them and pop from them, and the types of the helpers, which follow the types of the module.

use vstd::prelude::*;

use crate::instruction::{
    FloatBinOp, FloatRelOp, FloatUnOp, Instruction, IntBinOp, MemArg, Width,
};
use crate::module::{FuncType, Global, MemoryType};
use crate::bytes::{list1, list2};
use crate::util::{BlockType, ValType};

verus! {

/// The number of helper types. They come behind the types that stand for those of the source
/// module, so that the type `i` of the source module has its forward form at `2 * i`.
pub const OFFSET_TYPES: u32 = 11;

/// The place, among the helper types, of the type of the dispatch loop: it takes the index of a
/// basic block. The constants that follow are places among the helper types as well.
pub const TYPE_DISPATCH: u32 = 0;

pub const TYPE_TAPE_I32: u32 = 1;

pub const TYPE_TAPE_I32_BWD: u32 = 2;

pub const TYPE_F32_PAIR: u32 = 3;

pub const TYPE_F32_UNARY: u32 = 4;

pub const TYPE_F32_BIN_FWD: u32 = 5;

pub const TYPE_F32_BIN_BWD: u32 = 6;

pub const TYPE_F64_PAIR: u32 = 7;

pub const TYPE_F64_UNARY: u32 = 8;

pub const TYPE_F64_BIN_FWD: u32 = 9;

pub const TYPE_F64_BIN_BWD: u32 = 10;

/// The number of memories that come before those of the source module: the tapes.
pub const OFFSET_MEMORIES: u32 = 3;

pub const MEM_TAPE_ALIGN_1: u32 = 0;

pub const MEM_TAPE_ALIGN_4: u32 = 1;

pub const MEM_TAPE_ALIGN_8: u32 = 2;

/// The number of globals that come before those of the source module: the tape pointers.
pub const OFFSET_GLOBALS: u32 = 3;

pub const GLOBAL_TAPE_ALIGN_1: u32 = 0;

pub const GLOBAL_TAPE_ALIGN_4: u32 = 1;

pub const GLOBAL_TAPE_ALIGN_8: u32 = 2;

/// The number of helper functions, which come before the functions that the source module
/// defines.
pub const OFFSET_FUNCTIONS: u32 = 22;

/// The most functions that a module may import for the function index of every helper to fit
/// in 32 bits: each import becomes two, and the last helper stands 21 places behind them.
pub const MAX_IMPORTS: u32 = 0x7FFF_FFF5;

/// How many items of each kind a module imports.
#[derive(Clone, Copy, Debug, Default, PartialEq, Eq, Structural)]
pub struct NumImports {
    /// The number of imported functions.
    pub func: u32,
}

/// The function indices of the helpers, in a module with a given number of imports.
///
/// Each imported function becomes two imports, and the helpers follow the imports.
pub struct FuncOffsets {
    num_imports: NumImports,
}

impl FuncOffsets {
    #[verifier::type_invariant]
    spec fn inv(self) -> bool {
        self.num_imports.func <= MAX_IMPORTS
    }

    /// The number of imports that the indices account for.
    pub closed spec fn num_imports(self) -> NumImports {
        self.num_imports
    }

    /// The function index of the first helper.
    pub open spec fn spec_offset(self) -> int {
        2 * self.num_imports().func
    }

    pub fn new(num_imports: NumImports) -> (r: Self)
        requires
            num_imports.func <= MAX_IMPORTS,
        ensures
            r.num_imports() == num_imports,
    {
        Self { num_imports }
    }

    pub fn offset(&self) -> (r: u32)
        ensures
            r == self.spec_offset(),
            r + OFFSET_FUNCTIONS - 1 <= u32::MAX,
    {
        proof {
            use_type_invariant(self);
        }
        2 * self.num_imports.func
    }

    /// The helper that pushes a 32-bit integer onto the tape of alignment 4.
    pub fn tape_i32(&self) -> (r: u32)
        ensures
            r == self.spec_offset(),
    {
        self.offset()
    }

    /// The helper that pops a 32-bit integer from the tape of alignment 4.
    pub fn tape_i32_bwd(&self) -> (r: u32)
        ensures
            r == self.spec_offset() + 1,
    {
        self.offset() + 1
    }

    /// The helper for the forward pass of the 32-bit `sqrt`.
    pub fn f32_sqrt_fwd(&self) -> (r: u32)
        ensures
            r == self.spec_offset() + 2,
    {
        self.offset() + 2
    }

    /// The helper for the backward pass of the 32-bit `sqrt`.
    pub fn f32_sqrt_bwd(&self) -> (r: u32)
        ensures
            r == self.spec_offset() + 3,
    {
        self.offset() + 3
    }

    /// The helper for the forward pass of the 32-bit `mul`.
    pub fn f32_mul_fwd(&self) -> (r: u32)
        ensures
            r == self.spec_offset() + 4,
    {
        self.offset() + 4
    }

    /// The helper for the backward pass of the 32-bit `mul`.
    pub fn f32_mul_bwd(&self) -> (r: u32)
        ensures
            r == self.spec_offset() + 5,
    {
        self.offset() + 5
    }

    /// The helper for the forward pass of the 32-bit `div`.
    pub fn f32_div_fwd(&self) -> (r: u32)
        ensures
            r == self.spec_offset() + 6,
    {
        self.offset() + 6
    }

    /// The helper for the backward pass of the 32-bit `div`.
    pub fn f32_div_bwd(&self) -> (r: u32)
        ensures
            r == self.spec_offset() + 7,
    {
        self.offset() + 7
    }

    /// The helper for the forward pass of the 32-bit `min`.
    pub fn f32_min_fwd(&self) -> (r: u32)
        ensures
            r == self.spec_offset() + 8,
    {
        self.offset() + 8
    }

    /// The helper for the backward pass of the 32-bit `min`.
    pub fn f32_min_bwd(&self) -> (r: u32)
        ensures
            r == self.spec_offset() + 9,
    {
        self.offset() + 9
    }

    /// The helper for the forward pass of the 32-bit `max`.
    pub fn f32_max_fwd(&self) -> (r: u32)
        ensures
            r == self.spec_offset() + 10,
    {
        self.offset() + 10
    }

    /// The helper for the backward pass of the 32-bit `max`.
    pub fn f32_max_bwd(&self) -> (r: u32)
        ensures
            r == self.spec_offset() + 11,
    {
        self.offset() + 11
    }

    /// The helper for the forward pass of the 64-bit `sqrt`.
    pub fn f64_sqrt_fwd(&self) -> (r: u32)
        ensures
            r == self.spec_offset() + 12,
    {
        self.offset() + 12
    }

    /// The helper for the backward pass of the 64-bit `sqrt`.
    pub fn f64_sqrt_bwd(&self) -> (r: u32)
        ensures
            r == self.spec_offset() + 13,
    {
        self.offset() + 13
    }

    /// The helper for the forward pass of the 64-bit `mul`.
    pub fn f64_mul_fwd(&self) -> (r: u32)
        ensures
            r == self.spec_offset() + 14,
    {
        self.offset() + 14
    }

    /// The helper for the backward pass of the 64-bit `mul`.
    pub fn f64_mul_bwd(&self) -> (r: u32)
        ensures
            r == self.spec_offset() + 15,
    {
        self.offset() + 15
    }

    /// The helper for the forward pass of the 64-bit `div`.
    pub fn f64_div_fwd(&self) -> (r: u32)
        ensures
            r == self.spec_offset() + 16,
    {
        self.offset() + 16
    }

    /// The helper for the backward pass of the 64-bit `div`.
    pub fn f64_div_bwd(&self) -> (r: u32)
        ensures
            r == self.spec_offset() + 17,
    {
        self.offset() + 17
    }

    /// The helper for the forward pass of the 64-bit `min`.
    pub fn f64_min_fwd(&self) -> (r: u32)
        ensures
            r == self.spec_offset() + 18,
    {
        self.offset() + 18
    }

    /// The helper for the backward pass of the 64-bit `min`.
    pub fn f64_min_bwd(&self) -> (r: u32)
        ensures
            r == self.spec_offset() + 19,
    {
        self.offset() + 19
    }

    /// The helper for the forward pass of the 64-bit `max`.
    pub fn f64_max_fwd(&self) -> (r: u32)
        ensures
            r == self.spec_offset() + 20,
    {
        self.offset() + 20
    }

    /// The helper for the backward pass of the 64-bit `max`.
    pub fn f64_max_bwd(&self) -> (r: u32)
        ensures
            r == self.spec_offset() + 21,
    {
        self.offset() + 21
    }

    /// The helper for one of the floating-point operations that record on a tape, in the
    /// forward or in the backward pass.
    pub open spec fn spec_float_helper(self, width: Width, op: FloatHelper, backward: bool) -> int {
        self.spec_offset() + 2 + match width {
            Width::W32 => 0int,
            Width::W64 => 10int,
        } + match op {
            FloatHelper::Sqrt => 0int,
            FloatHelper::Mul => 2int,
            FloatHelper::Div => 4int,
            FloatHelper::Min => 6int,
            FloatHelper::Max => 8int,
        } + if backward {
            1int
        } else {
            0int
        }
    }

    pub fn float_helper(&self, width: Width, op: FloatHelper, backward: bool) -> (r: u32)
        ensures
            r == self.spec_float_helper(width, op, backward),
    {
        match (width, op, backward) {
            (Width::W32, FloatHelper::Sqrt, false) => self.f32_sqrt_fwd(),
            (Width::W32, FloatHelper::Sqrt, true) => self.f32_sqrt_bwd(),
            (Width::W32, FloatHelper::Mul, false) => self.f32_mul_fwd(),
            (Width::W32, FloatHelper::Mul, true) => self.f32_mul_bwd(),
            (Width::W32, FloatHelper::Div, false) => self.f32_div_fwd(),
            (Width::W32, FloatHelper::Div, true) => self.f32_div_bwd(),
            (Width::W32, FloatHelper::Min, false) => self.f32_min_fwd(),
            (Width::W32, FloatHelper::Min, true) => self.f32_min_bwd(),
            (Width::W32, FloatHelper::Max, false) => self.f32_max_fwd(),
            (Width::W32, FloatHelper::Max, true) => self.f32_max_bwd(),
            (Width::W64, FloatHelper::Sqrt, false) => self.f64_sqrt_fwd(),
            (Width::W64, FloatHelper::Sqrt, true) => self.f64_sqrt_bwd(),
            (Width::W64, FloatHelper::Mul, false) => self.f64_mul_fwd(),
            (Width::W64, FloatHelper::Mul, true) => self.f64_mul_bwd(),
            (Width::W64, FloatHelper::Div, false) => self.f64_div_fwd(),
            (Width::W64, FloatHelper::Div, true) => self.f64_div_bwd(),
            (Width::W64, FloatHelper::Min, false) => self.f64_min_fwd(),
            (Width::W64, FloatHelper::Min, true) => self.f64_min_bwd(),
            (Width::W64, FloatHelper::Max, false) => self.f64_max_fwd(),
            (Width::W64, FloatHelper::Max, true) => self.f64_max_bwd(),
        }
    }
}

/// A floating-point operation whose derivative needs values of the forward pass, which a helper
/// records on a tape.
#[derive(Clone, Copy, Debug, PartialEq, Eq, Structural)]
pub enum FloatHelper {
    Sqrt,
    Mul,
    Div,
    Min,
    Max,
}

/// The floating-point constant zero of a width.
pub open spec fn spec_float_zero(width: Width) -> Instruction {
    match width {
        Width::W32 => Instruction::F32Const(0),
        Width::W64 => Instruction::F64Const(0),
    }
}

#[verifier::when_used_as_spec(spec_float_zero)]
pub fn float_zero(width: Width) -> (r: Instruction)
    ensures
        r == spec_float_zero(width),
{
    match width {
        Width::W32 => Instruction::F32Const(0),
        Width::W64 => Instruction::F64Const(0),
    }
}

/// The most types that a module may have for every type index of the transformed module to fit
/// in 32 bits: each type becomes two, and the helper types follow them.
pub const MAX_TYPES: u32 = 0x7FFF_FFFA;

/// The index of the first helper type in a module that had `num_types` types: each type of the
/// source module has become two, and the helper types follow them.
pub open spec fn spec_helper_types_at(num_types: nat) -> u32 {
    (2 * num_types) as u32
}

/// The index of the first helper type in a module that had `num_types` types.
pub fn helper_types_at(num_types: usize) -> (r: u32)
    requires
        num_types <= MAX_TYPES,
    ensures
        r == spec_helper_types_at(num_types as nat),
        r == 2 * num_types,
        r + OFFSET_TYPES <= u32::MAX,
{
    2 * (num_types as u32)
}

/// The type of a block that takes nothing and leaves two floating-point numbers of a width,
/// where the helper types begin at `base`.
pub open spec fn spec_pair_type(base: u32, width: Width) -> u32 {
    match width {
        Width::W32 => (base + TYPE_F32_PAIR) as u32,
        Width::W64 => (base + TYPE_F64_PAIR) as u32,
    }
}

#[verifier::when_used_as_spec(spec_pair_type)]
pub fn pair_type(base: u32, width: Width) -> (r: u32)
    requires
        base + OFFSET_TYPES <= u32::MAX,
    ensures
        r == spec_pair_type(base, width),
{
    match width {
        Width::W32 => base + TYPE_F32_PAIR,
        Width::W64 => base + TYPE_F64_PAIR,
    }
}

/// A tape: a memory that grows as values are pushed, and a global that holds the offset of the
/// next free byte, which is the size of what the tape holds.
#[derive(Clone, Copy, Debug, PartialEq, Eq, Structural)]
pub struct Tape {
    pub memory: u32,
    pub global: u32,
    /// The base-2 logarithm of the alignment of the values on the tape.
    pub align: u32,
    /// The size in bytes of a value on the tape.
    pub bytes: u32,
}

impl Tape {
    /// The tape for the values of a width: 32-bit integers and floats are on the tape of
    /// alignment 4, 64-bit floats on that of alignment 8.
    pub open spec fn spec_of(width: Width) -> Tape {
        match width {
            Width::W32 => Tape {
                memory: MEM_TAPE_ALIGN_4,
                global: GLOBAL_TAPE_ALIGN_4,
                align: 2,
                bytes: 4,
            },
            Width::W64 => Tape {
                memory: MEM_TAPE_ALIGN_8,
                global: GLOBAL_TAPE_ALIGN_8,
                align: 3,
                bytes: 8,
            },
        }
    }

    #[verifier::when_used_as_spec(spec_of)]
    pub fn of(width: Width) -> (r: Tape)
        ensures
            r == Self::spec_of(width),
    {
        match width {
            Width::W32 => Tape {
                memory: MEM_TAPE_ALIGN_4,
                global: GLOBAL_TAPE_ALIGN_4,
                align: 2,
                bytes: 4,
            },
            Width::W64 => Tape {
                memory: MEM_TAPE_ALIGN_8,
                global: GLOBAL_TAPE_ALIGN_8,
                align: 3,
                bytes: 8,
            },
        }
    }

    /// The tape of single bytes.
    pub open spec fn spec_bytes() -> Tape {
        Tape { memory: MEM_TAPE_ALIGN_1, global: GLOBAL_TAPE_ALIGN_1, align: 0, bytes: 1 }
    }

    #[verifier::when_used_as_spec(spec_bytes)]
    pub fn bytes() -> (r: Tape)
        ensures
            r == Self::spec_bytes(),
    {
        Tape { memory: MEM_TAPE_ALIGN_1, global: GLOBAL_TAPE_ALIGN_1, align: 0, bytes: 1 }
    }

    /// Make room for `bytes` more bytes on the tape: the offset of the free space goes into the
    /// local `local`, the memory grows by the pages that the new end lies beyond its size, which
    /// the local `pages` takes, and the global moves to the new end.
    pub open spec fn grow(self, local: u32, pages: u32, bytes: i32) -> Seq<Instruction> {
        seq![
            Instruction::GlobalGet(self.global),
            Instruction::LocalTee(local),
            Instruction::I32Const((bytes + 65535) as i32),
            Instruction::IntBinary(Width::W32, IntBinOp::Add),
            Instruction::I32Const(16),
            Instruction::IntBinary(Width::W32, IntBinOp::ShrU),
            Instruction::MemorySize(self.memory),
            Instruction::IntBinary(Width::W32, IntBinOp::Sub),
            Instruction::LocalTee(pages),
            Instruction::If(BlockType::Empty),
            Instruction::LocalGet(pages),
            Instruction::MemoryGrow(self.memory),
            Instruction::Drop,
            Instruction::End,
            Instruction::LocalGet(local),
            Instruction::I32Const(bytes),
            Instruction::IntBinary(Width::W32, IntBinOp::Add),
            Instruction::GlobalSet(self.global),
        ]
    }

    pub fn write_grow(self, code: &mut Vec<Instruction>, local: u32, pages: u32, bytes: i32)
        requires
            bytes + 65535 <= i32::MAX,
        ensures
            final(code)@ == old(code)@ + self.grow(local, pages, bytes),
    {
        code.push(Instruction::GlobalGet(self.global));
        code.push(Instruction::LocalTee(local));
        code.push(Instruction::I32Const(bytes + 65535));
        code.push(Instruction::IntBinary(Width::W32, IntBinOp::Add));
        code.push(Instruction::I32Const(16));
        code.push(Instruction::IntBinary(Width::W32, IntBinOp::ShrU));
        code.push(Instruction::MemorySize(self.memory));
        code.push(Instruction::IntBinary(Width::W32, IntBinOp::Sub));
        code.push(Instruction::LocalTee(pages));
        code.push(Instruction::If(BlockType::Empty));
        code.push(Instruction::LocalGet(pages));
        code.push(Instruction::MemoryGrow(self.memory));
        code.push(Instruction::Drop);
        code.push(Instruction::End);
        code.push(Instruction::LocalGet(local));
        code.push(Instruction::I32Const(bytes));
        code.push(Instruction::IntBinary(Width::W32, IntBinOp::Add));
        code.push(Instruction::GlobalSet(self.global));
        assert(code@ =~= old(code)@ + self.grow(local, pages, bytes));
    }

    /// Take `bytes` bytes off the tape: the global moves back, and the local `local` takes the
    /// offset of what is taken.
    pub open spec fn shrink(self, local: u32, bytes: i32) -> Seq<Instruction> {
        seq![
            Instruction::GlobalGet(self.global),
            Instruction::I32Const(bytes),
            Instruction::IntBinary(Width::W32, IntBinOp::Sub),
            Instruction::LocalTee(local),
            Instruction::GlobalSet(self.global),
        ]
    }

    pub fn write_shrink(self, code: &mut Vec<Instruction>, local: u32, bytes: i32)
        ensures
            final(code)@ == old(code)@ + self.shrink(local, bytes),
    {
        code.push(Instruction::GlobalGet(self.global));
        code.push(Instruction::I32Const(bytes));
        code.push(Instruction::IntBinary(Width::W32, IntBinOp::Sub));
        code.push(Instruction::LocalTee(local));
        code.push(Instruction::GlobalSet(self.global));
        assert(code@ =~= old(code)@ + self.shrink(local, bytes));
    }
}

/// A function: its locals as entries of a count and a type, and its instructions.
#[derive(Clone, Debug, PartialEq, Eq)]
pub struct Function {
    pub locals: Vec<(u32, ValType)>,
    pub code: Vec<Instruction>,
}

/// Push a 32-bit integer onto the tape of alignment 4.
pub open spec fn spec_tape_i32() -> (Seq<(u32, ValType)>, Seq<Instruction>) {
    let t = Tape::spec_of(Width::W32);
    (
        seq![(2, ValType::I32)],
        t.grow(1, 2, (t.bytes) as i32) + seq![
            Instruction::LocalGet(1),
            Instruction::LocalGet(0),
            Instruction::I32Store(MemArg { offset: 0, align: t.align, memory_index: t.memory }),
            Instruction::End,
        ],
    )
}

pub fn func_tape_i32() -> (f: Function)
    ensures
        f.locals@ == spec_tape_i32().0,
        f.code@ == spec_tape_i32().1,
{
    let t = Tape::of(Width::W32);
    let mut locals = Vec::new();
    locals.push((2, ValType::I32));
    let mut code = Vec::new();
    t.write_grow(&mut code, 1, 2, (t.bytes) as i32);
    code.push(Instruction::LocalGet(1));
    code.push(Instruction::LocalGet(0));
    code.push(Instruction::I32Store(MemArg { offset: 0, align: t.align, memory_index: t.memory }));
    code.push(Instruction::End);
    assert(code@ =~= spec_tape_i32().1);
    Function { locals, code }
}

/// Pop a 32-bit integer from the tape of alignment 4.
pub open spec fn spec_tape_i32_bwd() -> (Seq<(u32, ValType)>, Seq<Instruction>) {
    let t = Tape::spec_of(Width::W32);
    (
        seq![(1, ValType::I32)],
        t.shrink(0, (t.bytes) as i32) + seq![
            Instruction::LocalGet(0),
            Instruction::I32Load(MemArg { offset: 0, align: t.align, memory_index: t.memory }),
            Instruction::End,
        ],
    )
}

pub fn func_tape_i32_bwd() -> (f: Function)
    ensures
        f.locals@ == spec_tape_i32_bwd().0,
        f.code@ == spec_tape_i32_bwd().1,
{
    let t = Tape::of(Width::W32);
    let mut locals = Vec::new();
    locals.push((1, ValType::I32));
    let mut code = Vec::new();
    t.write_shrink(&mut code, 0, (t.bytes) as i32);
    code.push(Instruction::LocalGet(0));
    code.push(Instruction::I32Load(MemArg { offset: 0, align: t.align, memory_index: t.memory }));
    code.push(Instruction::End);
    assert(code@ =~= spec_tape_i32_bwd().1);
    Function { locals, code }
}

/// Compute a square root, record the result on the tape and return it.
pub open spec fn spec_sqrt_fwd(w: Width) -> (Seq<(u32, ValType)>, Seq<Instruction>) {
    let t = Tape::spec_of(w);
    (
        seq![(1, ValType::spec_of_float(w)), (2, ValType::I32)],
        t.grow(2, 3, (t.bytes) as i32) + seq![
            Instruction::LocalGet(2),
            Instruction::LocalGet(0),
            Instruction::FloatUnary(w, FloatUnOp::Sqrt),
            Instruction::LocalTee(1),
            Instruction::FloatStore(w, MemArg { offset: 0, align: t.align, memory_index: t.memory }),
            Instruction::LocalGet(1),
            Instruction::End,
        ],
    )
}

pub fn func_sqrt_fwd(w: Width) -> (f: Function)
    ensures
        f.locals@ == spec_sqrt_fwd(w).0,
        f.code@ == spec_sqrt_fwd(w).1,
{
    let t = Tape::of(w);
    let mut locals = Vec::new();
    locals.push((1, ValType::of_float(w)));
    locals.push((2, ValType::I32));
    let mut code = Vec::new();
    t.write_grow(&mut code, 2, 3, (t.bytes) as i32);
    code.push(Instruction::LocalGet(2));
    code.push(Instruction::LocalGet(0));
    code.push(Instruction::FloatUnary(w, FloatUnOp::Sqrt));
    code.push(Instruction::LocalTee(1));
    code.push(Instruction::FloatStore(w, MemArg { offset: 0, align: t.align, memory_index: t.memory }));
    code.push(Instruction::LocalGet(1));
    code.push(Instruction::End);
    assert(code@ =~= spec_sqrt_fwd(w).1);
    Function { locals, code }
}

/// Pop the square root `y` and return the adjoint divided by `2y`.
pub open spec fn spec_sqrt_bwd(w: Width) -> (Seq<(u32, ValType)>, Seq<Instruction>) {
    let t = Tape::spec_of(w);
    (
        seq![(1, ValType::spec_of_float(w)), (1, ValType::I32)],
        t.shrink(2, (t.bytes) as i32) + seq![
            Instruction::LocalGet(0),
            Instruction::LocalGet(2),
            Instruction::FloatLoad(w, MemArg { offset: 0, align: t.align, memory_index: t.memory }),
            Instruction::LocalTee(1),
            Instruction::LocalGet(1),
            Instruction::FloatBinary(w, FloatBinOp::Add),
            Instruction::FloatBinary(w, FloatBinOp::Div),
            Instruction::End,
        ],
    )
}

pub fn func_sqrt_bwd(w: Width) -> (f: Function)
    ensures
        f.locals@ == spec_sqrt_bwd(w).0,
        f.code@ == spec_sqrt_bwd(w).1,
{
    let t = Tape::of(w);
    let mut locals = Vec::new();
    locals.push((1, ValType::of_float(w)));
    locals.push((1, ValType::I32));
    let mut code = Vec::new();
    t.write_shrink(&mut code, 2, (t.bytes) as i32);
    code.push(Instruction::LocalGet(0));
    code.push(Instruction::LocalGet(2));
    code.push(Instruction::FloatLoad(w, MemArg { offset: 0, align: t.align, memory_index: t.memory }));
    code.push(Instruction::LocalTee(1));
    code.push(Instruction::LocalGet(1));
    code.push(Instruction::FloatBinary(w, FloatBinOp::Add));
    code.push(Instruction::FloatBinary(w, FloatBinOp::Div));
    code.push(Instruction::End);
    assert(code@ =~= spec_sqrt_bwd(w).1);
    Function { locals, code }
}

/// Record both factors on the tape and return the product.
pub open spec fn spec_mul_fwd(w: Width) -> (Seq<(u32, ValType)>, Seq<Instruction>) {
    let t = Tape::spec_of(w);
    (
        seq![(2, ValType::I32)],
        t.grow(2, 3, (2 * t.bytes) as i32) + seq![
            Instruction::LocalGet(2),
            Instruction::LocalGet(0),
            Instruction::FloatStore(w, MemArg { offset: 0, align: t.align, memory_index: t.memory }),
            Instruction::LocalGet(2),
            Instruction::LocalGet(1),
            Instruction::FloatStore(
                w, MemArg { offset: t.bytes as u64, align: t.align, memory_index: t.memory },
            ),
            Instruction::LocalGet(0),
            Instruction::LocalGet(1),
            Instruction::FloatBinary(w, FloatBinOp::Mul),
            Instruction::End,
        ],
    )
}

pub fn func_mul_fwd(w: Width) -> (f: Function)
    ensures
        f.locals@ == spec_mul_fwd(w).0,
        f.code@ == spec_mul_fwd(w).1,
{
    let t = Tape::of(w);
    let mut locals = Vec::new();
    locals.push((2, ValType::I32));
    let mut code = Vec::new();
    t.write_grow(&mut code, 2, 3, (2 * t.bytes) as i32);
    code.push(Instruction::LocalGet(2));
    code.push(Instruction::LocalGet(0));
    code.push(Instruction::FloatStore(w, MemArg { offset: 0, align: t.align, memory_index: t.memory }));
    code.push(Instruction::LocalGet(2));
    code.push(Instruction::LocalGet(1));
    code.push(
        Instruction::FloatStore(
            w, MemArg { offset: t.bytes as u64, align: t.align, memory_index: t.memory },
        ),
    );
    code.push(Instruction::LocalGet(0));
    code.push(Instruction::LocalGet(1));
    code.push(Instruction::FloatBinary(w, FloatBinOp::Mul));
    code.push(Instruction::End);
    assert(code@ =~= spec_mul_fwd(w).1);
    Function { locals, code }
}

/// Pop both factors and return the adjoint times the second and the adjoint times the first.
pub open spec fn spec_mul_bwd(w: Width) -> (Seq<(u32, ValType)>, Seq<Instruction>) {
    let t = Tape::spec_of(w);
    (
        seq![(1, ValType::I32)],
        t.shrink(1, (2 * t.bytes) as i32) + seq![
            Instruction::LocalGet(0),
            Instruction::LocalGet(1),
            Instruction::FloatLoad(
                w, MemArg { offset: t.bytes as u64, align: t.align, memory_index: t.memory },
            ),
            Instruction::FloatBinary(w, FloatBinOp::Mul),
            Instruction::LocalGet(0),
            Instruction::LocalGet(1),
            Instruction::FloatLoad(w, MemArg { offset: 0, align: t.align, memory_index: t.memory }),
            Instruction::FloatBinary(w, FloatBinOp::Mul),
            Instruction::End,
        ],
    )
}

pub fn func_mul_bwd(w: Width) -> (f: Function)
    ensures
        f.locals@ == spec_mul_bwd(w).0,
        f.code@ == spec_mul_bwd(w).1,
{
    let t = Tape::of(w);
    let mut locals = Vec::new();
    locals.push((1, ValType::I32));
    let mut code = Vec::new();
    t.write_shrink(&mut code, 1, (2 * t.bytes) as i32);
    code.push(Instruction::LocalGet(0));
    code.push(Instruction::LocalGet(1));
    code.push(
        Instruction::FloatLoad(
            w, MemArg { offset: t.bytes as u64, align: t.align, memory_index: t.memory },
        ),
    );
    code.push(Instruction::FloatBinary(w, FloatBinOp::Mul));
    code.push(Instruction::LocalGet(0));
    code.push(Instruction::LocalGet(1));
    code.push(Instruction::FloatLoad(w, MemArg { offset: 0, align: t.align, memory_index: t.memory }));
    code.push(Instruction::FloatBinary(w, FloatBinOp::Mul));
    code.push(Instruction::End);
    assert(code@ =~= spec_mul_bwd(w).1);
    Function { locals, code }
}

/// Record the divisor and the quotient on the tape and return the quotient.
pub open spec fn spec_div_fwd(w: Width) -> (Seq<(u32, ValType)>, Seq<Instruction>) {
    let t = Tape::spec_of(w);
    (
        seq![(1, ValType::spec_of_float(w)), (2, ValType::I32)],
        t.grow(3, 4, (2 * t.bytes) as i32) + seq![
            Instruction::LocalGet(3),
            Instruction::LocalGet(1),
            Instruction::FloatStore(w, MemArg { offset: 0, align: t.align, memory_index: t.memory }),
            Instruction::LocalGet(3),
            Instruction::LocalGet(0),
            Instruction::LocalGet(1),
            Instruction::FloatBinary(w, FloatBinOp::Div),
            Instruction::LocalTee(2),
            Instruction::FloatStore(
                w, MemArg { offset: t.bytes as u64, align: t.align, memory_index: t.memory },
            ),
            Instruction::LocalGet(2),
            Instruction::End,
        ],
    )
}

pub fn func_div_fwd(w: Width) -> (f: Function)
    ensures
        f.locals@ == spec_div_fwd(w).0,
        f.code@ == spec_div_fwd(w).1,
{
    let t = Tape::of(w);
    let mut locals = Vec::new();
    locals.push((1, ValType::of_float(w)));
    locals.push((2, ValType::I32));
    let mut code = Vec::new();
    t.write_grow(&mut code, 3, 4, (2 * t.bytes) as i32);
    code.push(Instruction::LocalGet(3));
    code.push(Instruction::LocalGet(1));
    code.push(Instruction::FloatStore(w, MemArg { offset: 0, align: t.align, memory_index: t.memory }));
    code.push(Instruction::LocalGet(3));
    code.push(Instruction::LocalGet(0));
    code.push(Instruction::LocalGet(1));
    code.push(Instruction::FloatBinary(w, FloatBinOp::Div));
    code.push(Instruction::LocalTee(2));
    code.push(
        Instruction::FloatStore(
            w, MemArg { offset: t.bytes as u64, align: t.align, memory_index: t.memory },
        ),
    );
    code.push(Instruction::LocalGet(2));
    code.push(Instruction::End);
    assert(code@ =~= spec_div_fwd(w).1);
    Function { locals, code }
}

/// Pop the divisor `y` and the quotient `z`, and return the adjoint divided by `y`, and that times `-z`.
pub open spec fn spec_div_bwd(w: Width) -> (Seq<(u32, ValType)>, Seq<Instruction>) {
    let t = Tape::spec_of(w);
    (
        seq![(1, ValType::spec_of_float(w)), (1, ValType::I32)],
        t.shrink(2, (2 * t.bytes) as i32) + seq![
            Instruction::LocalGet(0),
            Instruction::LocalGet(2),
            Instruction::FloatLoad(w, MemArg { offset: 0, align: t.align, memory_index: t.memory }),
            Instruction::FloatBinary(w, FloatBinOp::Div),
            Instruction::LocalTee(1),
            Instruction::LocalGet(1),
            Instruction::LocalGet(2),
            Instruction::FloatLoad(
                w, MemArg { offset: t.bytes as u64, align: t.align, memory_index: t.memory },
            ),
            Instruction::FloatUnary(w, FloatUnOp::Neg),
            Instruction::FloatBinary(w, FloatBinOp::Mul),
            Instruction::End,
        ],
    )
}

pub fn func_div_bwd(w: Width) -> (f: Function)
    ensures
        f.locals@ == spec_div_bwd(w).0,
        f.code@ == spec_div_bwd(w).1,
{
    let t = Tape::of(w);
    let mut locals = Vec::new();
    locals.push((1, ValType::of_float(w)));
    locals.push((1, ValType::I32));
    let mut code = Vec::new();
    t.write_shrink(&mut code, 2, (2 * t.bytes) as i32);
    code.push(Instruction::LocalGet(0));
    code.push(Instruction::LocalGet(2));
    code.push(Instruction::FloatLoad(w, MemArg { offset: 0, align: t.align, memory_index: t.memory }));
    code.push(Instruction::FloatBinary(w, FloatBinOp::Div));
    code.push(Instruction::LocalTee(1));
    code.push(Instruction::LocalGet(1));
    code.push(Instruction::LocalGet(2));
    code.push(
        Instruction::FloatLoad(
            w, MemArg { offset: t.bytes as u64, align: t.align, memory_index: t.memory },
        ),
    );
    code.push(Instruction::FloatUnary(w, FloatUnOp::Neg));
    code.push(Instruction::FloatBinary(w, FloatBinOp::Mul));
    code.push(Instruction::End);
    assert(code@ =~= spec_div_bwd(w).1);
    Function { locals, code }
}

/// Record on the tape whether the second operand is the smaller one, and return the smaller one.
pub open spec fn spec_min_fwd(w: Width) -> (Seq<(u32, ValType)>, Seq<Instruction>) {
    let t = Tape::spec_bytes();
    (
        seq![(2, ValType::I32)],
        t.grow(2, 3, (t.bytes) as i32) + seq![
            Instruction::LocalGet(2),
            Instruction::LocalGet(0),
            Instruction::LocalGet(1),
            Instruction::FloatCompare(w, FloatRelOp::Gt),
            Instruction::I32Store8(MemArg { offset: 0, align: t.align, memory_index: t.memory }),
            Instruction::LocalGet(0),
            Instruction::LocalGet(1),
            Instruction::FloatBinary(w, FloatBinOp::Min),
            Instruction::End,
        ],
    )
}

pub fn func_min_fwd(w: Width) -> (f: Function)
    ensures
        f.locals@ == spec_min_fwd(w).0,
        f.code@ == spec_min_fwd(w).1,
{
    let t = Tape::bytes();
    let mut locals = Vec::new();
    locals.push((2, ValType::I32));
    let mut code = Vec::new();
    t.write_grow(&mut code, 2, 3, (t.bytes) as i32);
    code.push(Instruction::LocalGet(2));
    code.push(Instruction::LocalGet(0));
    code.push(Instruction::LocalGet(1));
    code.push(Instruction::FloatCompare(w, FloatRelOp::Gt));
    code.push(Instruction::I32Store8(MemArg { offset: 0, align: t.align, memory_index: t.memory }));
    code.push(Instruction::LocalGet(0));
    code.push(Instruction::LocalGet(1));
    code.push(Instruction::FloatBinary(w, FloatBinOp::Min));
    code.push(Instruction::End);
    assert(code@ =~= spec_min_fwd(w).1);
    Function { locals, code }
}

/// Pop the record and give the adjoint to the operand that was the smaller one, and zero to the other.
pub open spec fn spec_min_bwd(base: u32, w: Width) -> (Seq<(u32, ValType)>, Seq<Instruction>) {
    let t = Tape::spec_bytes();
    (
        seq![(1, ValType::I32)],
        t.shrink(1, (t.bytes) as i32) + seq![
            Instruction::LocalGet(1),
            Instruction::I32Load8U(MemArg { offset: 0, align: t.align, memory_index: t.memory }),
            Instruction::If(BlockType::Func(spec_pair_type(base, w))),
            spec_float_zero(w),
            Instruction::LocalGet(0),
            Instruction::Else,
            Instruction::LocalGet(0),
            spec_float_zero(w),
            Instruction::End,
            Instruction::End,
        ],
    )
}

pub fn func_min_bwd(base: u32, w: Width) -> (f: Function)
    requires
        base + OFFSET_TYPES <= u32::MAX,
    ensures
        f.locals@ == spec_min_bwd(base, w).0,
        f.code@ == spec_min_bwd(base, w).1,
{
    let t = Tape::bytes();
    let mut locals = Vec::new();
    locals.push((1, ValType::I32));
    let mut code = Vec::new();
    t.write_shrink(&mut code, 1, (t.bytes) as i32);
    code.push(Instruction::LocalGet(1));
    code.push(Instruction::I32Load8U(MemArg { offset: 0, align: t.align, memory_index: t.memory }));
    code.push(Instruction::If(BlockType::Func(pair_type(base, w))));
    code.push(float_zero(w));
    code.push(Instruction::LocalGet(0));
    code.push(Instruction::Else);
    code.push(Instruction::LocalGet(0));
    code.push(float_zero(w));
    code.push(Instruction::End);
    code.push(Instruction::End);
    assert(code@ =~= spec_min_bwd(base, w).1);
    Function { locals, code }
}

/// Record on the tape whether the second operand is the larger one, and return the larger one.
pub open spec fn spec_max_fwd(w: Width) -> (Seq<(u32, ValType)>, Seq<Instruction>) {
    let t = Tape::spec_bytes();
    (
        seq![(2, ValType::I32)],
        t.grow(2, 3, (t.bytes) as i32) + seq![
            Instruction::LocalGet(2),
            Instruction::LocalGet(0),
            Instruction::LocalGet(1),
            Instruction::FloatCompare(w, FloatRelOp::Lt),
            Instruction::I32Store8(MemArg { offset: 0, align: t.align, memory_index: t.memory }),
            Instruction::LocalGet(0),
            Instruction::LocalGet(1),
            Instruction::FloatBinary(w, FloatBinOp::Max),
            Instruction::End,
        ],
    )
}

pub fn func_max_fwd(w: Width) -> (f: Function)
    ensures
        f.locals@ == spec_max_fwd(w).0,
        f.code@ == spec_max_fwd(w).1,
{
    let t = Tape::bytes();
    let mut locals = Vec::new();
    locals.push((2, ValType::I32));
    let mut code = Vec::new();
    t.write_grow(&mut code, 2, 3, (t.bytes) as i32);
    code.push(Instruction::LocalGet(2));
    code.push(Instruction::LocalGet(0));
    code.push(Instruction::LocalGet(1));
    code.push(Instruction::FloatCompare(w, FloatRelOp::Lt));
    code.push(Instruction::I32Store8(MemArg { offset: 0, align: t.align, memory_index: t.memory }));
    code.push(Instruction::LocalGet(0));
    code.push(Instruction::LocalGet(1));
    code.push(Instruction::FloatBinary(w, FloatBinOp::Max));
    code.push(Instruction::End);
    assert(code@ =~= spec_max_fwd(w).1);
    Function { locals, code }
}

/// Pop the record and give the adjoint to the operand that was the larger one, and zero to the other.
pub open spec fn spec_max_bwd(base: u32, w: Width) -> (Seq<(u32, ValType)>, Seq<Instruction>) {
    let t = Tape::spec_bytes();
    (
        seq![(1, ValType::I32)],
        t.shrink(1, (t.bytes) as i32) + seq![
            Instruction::LocalGet(1),
            Instruction::I32Load8U(MemArg { offset: 0, align: t.align, memory_index: t.memory }),
            Instruction::If(BlockType::Func(spec_pair_type(base, w))),
            spec_float_zero(w),
            Instruction::LocalGet(0),
            Instruction::Else,
            Instruction::LocalGet(0),
            spec_float_zero(w),
            Instruction::End,
            Instruction::End,
        ],
    )
}

pub fn func_max_bwd(base: u32, w: Width) -> (f: Function)
    requires
        base + OFFSET_TYPES <= u32::MAX,
    ensures
        f.locals@ == spec_max_bwd(base, w).0,
        f.code@ == spec_max_bwd(base, w).1,
{
    let t = Tape::bytes();
    let mut locals = Vec::new();
    locals.push((1, ValType::I32));
    let mut code = Vec::new();
    t.write_shrink(&mut code, 1, (t.bytes) as i32);
    code.push(Instruction::LocalGet(1));
    code.push(Instruction::I32Load8U(MemArg { offset: 0, align: t.align, memory_index: t.memory }));
    code.push(Instruction::If(BlockType::Func(pair_type(base, w))));
    code.push(float_zero(w));
    code.push(Instruction::LocalGet(0));
    code.push(Instruction::Else);
    code.push(Instruction::LocalGet(0));
    code.push(float_zero(w));
    code.push(Instruction::End);
    code.push(Instruction::End);
    assert(code@ =~= spec_max_bwd(base, w).1);
    Function { locals, code }
}

/// The name, the parameters and the results of the helper type `i`.
pub open spec fn spec_helper_type(i: int) -> (Seq<char>, Seq<ValType>, Seq<ValType>) {
    if i == 0 {
        ("dispatch"@, seq![ValType::I32], Seq::empty())
    } else if i == 1 {
        ("tape_i32"@, seq![ValType::I32], Seq::empty())
    } else if i == 2 {
        ("tape_i32_bwd"@, Seq::empty(), seq![ValType::I32])
    } else if i == 3 {
        ("f32_pair"@, Seq::empty(), seq![ValType::F32, ValType::F32])
    } else if i == 4 {
        ("f32_unary"@, seq![ValType::F32], seq![ValType::F32])
    } else if i == 5 {
        ("f32_bin"@, seq![ValType::F32, ValType::F32], seq![ValType::F32])
    } else if i == 6 {
        ("f32_bin_bwd"@, seq![ValType::F32], seq![ValType::F32, ValType::F32])
    } else if i == 7 {
        ("f64_pair"@, Seq::empty(), seq![ValType::F64, ValType::F64])
    } else if i == 8 {
        ("f64_unary"@, seq![ValType::F64], seq![ValType::F64])
    } else if i == 9 {
        ("f64_bin"@, seq![ValType::F64, ValType::F64], seq![ValType::F64])
    } else {
        ("f64_bin_bwd"@, seq![ValType::F64], seq![ValType::F64, ValType::F64])
    }
}

/// The types that the helpers and the dispatch loops use, each with a name.
pub fn helper_types() -> (types: Vec<(&'static str, FuncType)>)
    ensures
        types@.len() == OFFSET_TYPES,
        forall|i: int|
            0 <= i < OFFSET_TYPES ==> {
                &&& (#[trigger] types@[i]).0@ == spec_helper_type(i).0
                &&& types@[i].1.params@ == spec_helper_type(i).1
                &&& types@[i].1.results@ == spec_helper_type(i).2
            },
{
    let mut types = Vec::new();
    types.push(
        (
            "dispatch",
            FuncType { params: list1(ValType::I32), results: Vec::new() },
        ),
    );
    types.push(
        (
            "tape_i32",
            FuncType { params: list1(ValType::I32), results: Vec::new() },
        ),
    );
    types.push(
        (
            "tape_i32_bwd",
            FuncType { params: Vec::new(), results: list1(ValType::I32) },
        ),
    );
    types.push(
        (
            "f32_pair",
            FuncType { params: Vec::new(), results: list2(ValType::F32, ValType::F32) },
        ),
    );
    types.push(
        (
            "f32_unary",
            FuncType { params: list1(ValType::F32), results: list1(ValType::F32) },
        ),
    );
    types.push(
        (
            "f32_bin",
            FuncType { params: list2(ValType::F32, ValType::F32), results: list1(ValType::F32) },
        ),
    );
    types.push(
        (
            "f32_bin_bwd",
            FuncType { params: list1(ValType::F32), results: list2(ValType::F32, ValType::F32) },
        ),
    );
    types.push(
        (
            "f64_pair",
            FuncType { params: Vec::new(), results: list2(ValType::F64, ValType::F64) },
        ),
    );
    types.push(
        (
            "f64_unary",
            FuncType { params: list1(ValType::F64), results: list1(ValType::F64) },
        ),
    );
    types.push(
        (
            "f64_bin",
            FuncType { params: list2(ValType::F64, ValType::F64), results: list1(ValType::F64) },
        ),
    );
    types.push(
        (
            "f64_bin_bwd",
            FuncType { params: list1(ValType::F64), results: list2(ValType::F64, ValType::F64) },
        ),
    );
    types
}

/// The name of the tape `i`.
pub open spec fn spec_tape_name(i: int) -> Seq<char> {
    if i == 0 {
        "tape_align_1"@
    } else if i == 1 {
        "tape_align_4"@
    } else {
        "tape_align_8"@
    }
}

/// The type of the memory of a tape: empty at first, and free to grow.
pub open spec fn spec_tape_memory() -> MemoryType {
    MemoryType { minimum: 0, maximum: None, memory64: false, shared: false, page_size_log2: None }
}

/// The memories of the tapes, each with a name.
pub fn helper_memories() -> (memories: Vec<(&'static str, MemoryType)>)
    ensures
        memories@.len() == OFFSET_MEMORIES,
        forall|i: int|
            0 <= i < OFFSET_MEMORIES ==> (#[trigger] memories@[i]).0@ == spec_tape_name(i)
                && memories@[i].1 == spec_tape_memory(),
{
    let memory = MemoryType {
        minimum: 0,
        maximum: None,
        memory64: false,
        shared: false,
        page_size_log2: None,
    };
    let mut memories = Vec::new();
    memories.push(("tape_align_1", memory));
    memories.push(("tape_align_4", memory));
    memories.push(("tape_align_8", memory));
    memories
}

/// The globals of the tapes, each with a name: 32-bit integers that can be assigned to and
/// start at zero.
pub fn helper_globals() -> (globals: Vec<(&'static str, Global)>)
    ensures
        globals@.len() == OFFSET_GLOBALS,
        forall|i: int|
            0 <= i < OFFSET_GLOBALS ==> {
                &&& (#[trigger] globals@[i]).0@ == spec_tape_name(i)
                &&& globals@[i].1.val_type == ValType::I32
                &&& globals@[i].1.mutable
                &&& !globals@[i].1.shared
                &&& globals@[i].1.init@ == seq![Instruction::I32Const(0)]
            },
{
    let mut globals = Vec::new();
    globals.push(
        (
            "tape_align_1",
            Global {
                val_type: ValType::I32,
                mutable: true,
                shared: false,
                init: list1(Instruction::I32Const(0)),
            },
        ),
    );
    globals.push(
        (
            "tape_align_4",
            Global {
                val_type: ValType::I32,
                mutable: true,
                shared: false,
                init: list1(Instruction::I32Const(0)),
            },
        ),
    );
    globals.push(
        (
            "tape_align_8",
            Global {
                val_type: ValType::I32,
                mutable: true,
                shared: false,
                init: list1(Instruction::I32Const(0)),
            },
        ),
    );
    globals
}

/// The type of a floating-point helper, where the helper types begin at `base`.
pub open spec fn spec_float_helper_type(base: u32, width: Width, op: FloatHelper, backward: bool) -> u32 {
    match (width, op) {
        (Width::W32, FloatHelper::Sqrt) => (base + TYPE_F32_UNARY) as u32,
        (Width::W64, FloatHelper::Sqrt) => (base + TYPE_F64_UNARY) as u32,
        (Width::W32, _) => if backward {
            (base + TYPE_F32_BIN_BWD) as u32
        } else {
            (base + TYPE_F32_BIN_FWD) as u32
        },
        (Width::W64, _) => if backward {
            (base + TYPE_F64_BIN_BWD) as u32
        } else {
            (base + TYPE_F64_BIN_FWD) as u32
        },
    }
}

/// The locals and the instructions of a floating-point helper, where the helper types begin at
/// `base`.
pub open spec fn spec_float_helper_body(base: u32, width: Width, op: FloatHelper, backward: bool) -> (
    Seq<(u32, ValType)>,
    Seq<Instruction>,
) {
    match (op, backward) {
        (FloatHelper::Sqrt, false) => spec_sqrt_fwd(width),
        (FloatHelper::Sqrt, true) => spec_sqrt_bwd(width),
        (FloatHelper::Mul, false) => spec_mul_fwd(width),
        (FloatHelper::Mul, true) => spec_mul_bwd(width),
        (FloatHelper::Div, false) => spec_div_fwd(width),
        (FloatHelper::Div, true) => spec_div_bwd(width),
        (FloatHelper::Min, false) => spec_min_fwd(width),
        (FloatHelper::Min, true) => spec_min_bwd(base, width),
        (FloatHelper::Max, false) => spec_max_fwd(width),
        (FloatHelper::Max, true) => spec_max_bwd(base, width),
    }
}

/// The name of a floating-point helper.
pub open spec fn spec_float_helper_name(width: Width, op: FloatHelper, backward: bool) -> Seq<
    char,
> {
    match (width, op, backward) {
        (Width::W32, FloatHelper::Sqrt, false) => "f32_sqrt"@,
        (Width::W32, FloatHelper::Sqrt, true) => "f32_sqrt_bwd"@,
        (Width::W32, FloatHelper::Mul, false) => "f32_mul"@,
        (Width::W32, FloatHelper::Mul, true) => "f32_mul_bwd"@,
        (Width::W32, FloatHelper::Div, false) => "f32_div"@,
        (Width::W32, FloatHelper::Div, true) => "f32_div_bwd"@,
        (Width::W32, FloatHelper::Min, false) => "f32_min"@,
        (Width::W32, FloatHelper::Min, true) => "f32_min_bwd"@,
        (Width::W32, FloatHelper::Max, false) => "f32_max"@,
        (Width::W32, FloatHelper::Max, true) => "f32_max_bwd"@,
        (Width::W64, FloatHelper::Sqrt, false) => "f64_sqrt"@,
        (Width::W64, FloatHelper::Sqrt, true) => "f64_sqrt_bwd"@,
        (Width::W64, FloatHelper::Mul, false) => "f64_mul"@,
        (Width::W64, FloatHelper::Mul, true) => "f64_mul_bwd"@,
        (Width::W64, FloatHelper::Div, false) => "f64_div"@,
        (Width::W64, FloatHelper::Div, true) => "f64_div_bwd"@,
        (Width::W64, FloatHelper::Min, false) => "f64_min"@,
        (Width::W64, FloatHelper::Min, true) => "f64_min_bwd"@,
        (Width::W64, FloatHelper::Max, false) => "f64_max"@,
        (Width::W64, FloatHelper::Max, true) => "f64_max_bwd"@,
    }
}

/// The place of a floating-point helper among the helpers.
pub open spec fn spec_float_helper_index(width: Width, op: FloatHelper, backward: bool) -> int {
    2 + match width {
        Width::W32 => 0int,
        Width::W64 => 10int,
    } + match op {
        FloatHelper::Sqrt => 0int,
        FloatHelper::Mul => 2int,
        FloatHelper::Div => 4int,
        FloatHelper::Min => 6int,
        FloatHelper::Max => 8int,
    } + if backward {
        1int
    } else {
        0int
    }
}

/// The name, the type, and the locals and instructions of the helper function `i`, where the
/// helper types begin at `base`.
pub open spec fn spec_helper_function(base: u32, i: int) -> (
    Seq<char>,
    u32,
    (Seq<(u32, ValType)>, Seq<Instruction>),
) {
    if i == 0 {
        ("tape_i32"@, (base + TYPE_TAPE_I32) as u32, spec_tape_i32())
    } else if i == 1 {
        ("tape_i32_bwd"@, (base + TYPE_TAPE_I32_BWD) as u32, spec_tape_i32_bwd())
    } else if i == 2 {
        ("f32_sqrt"@, (base + TYPE_F32_UNARY) as u32, spec_sqrt_fwd(Width::W32))
    } else if i == 3 {
        ("f32_sqrt_bwd"@, (base + TYPE_F32_UNARY) as u32, spec_sqrt_bwd(Width::W32))
    } else if i == 4 {
        ("f32_mul"@, (base + TYPE_F32_BIN_FWD) as u32, spec_mul_fwd(Width::W32))
    } else if i == 5 {
        ("f32_mul_bwd"@, (base + TYPE_F32_BIN_BWD) as u32, spec_mul_bwd(Width::W32))
    } else if i == 6 {
        ("f32_div"@, (base + TYPE_F32_BIN_FWD) as u32, spec_div_fwd(Width::W32))
    } else if i == 7 {
        ("f32_div_bwd"@, (base + TYPE_F32_BIN_BWD) as u32, spec_div_bwd(Width::W32))
    } else if i == 8 {
        ("f32_min"@, (base + TYPE_F32_BIN_FWD) as u32, spec_min_fwd(Width::W32))
    } else if i == 9 {
        ("f32_min_bwd"@, (base + TYPE_F32_BIN_BWD) as u32, spec_min_bwd(base, Width::W32))
    } else if i == 10 {
        ("f32_max"@, (base + TYPE_F32_BIN_FWD) as u32, spec_max_fwd(Width::W32))
    } else if i == 11 {
        ("f32_max_bwd"@, (base + TYPE_F32_BIN_BWD) as u32, spec_max_bwd(base, Width::W32))
    } else if i == 12 {
        ("f64_sqrt"@, (base + TYPE_F64_UNARY) as u32, spec_sqrt_fwd(Width::W64))
    } else if i == 13 {
        ("f64_sqrt_bwd"@, (base + TYPE_F64_UNARY) as u32, spec_sqrt_bwd(Width::W64))
    } else if i == 14 {
        ("f64_mul"@, (base + TYPE_F64_BIN_FWD) as u32, spec_mul_fwd(Width::W64))
    } else if i == 15 {
        ("f64_mul_bwd"@, (base + TYPE_F64_BIN_BWD) as u32, spec_mul_bwd(Width::W64))
    } else if i == 16 {
        ("f64_div"@, (base + TYPE_F64_BIN_FWD) as u32, spec_div_fwd(Width::W64))
    } else if i == 17 {
        ("f64_div_bwd"@, (base + TYPE_F64_BIN_BWD) as u32, spec_div_bwd(Width::W64))
    } else if i == 18 {
        ("f64_min"@, (base + TYPE_F64_BIN_FWD) as u32, spec_min_fwd(Width::W64))
    } else if i == 19 {
        ("f64_min_bwd"@, (base + TYPE_F64_BIN_BWD) as u32, spec_min_bwd(base, Width::W64))
    } else if i == 20 {
        ("f64_max"@, (base + TYPE_F64_BIN_FWD) as u32, spec_max_fwd(Width::W64))
    } else {
        ("f64_max_bwd"@, (base + TYPE_F64_BIN_BWD) as u32, spec_max_bwd(base, Width::W64))
    }
}

/// The helper functions in the order of their indices, each with its name and its type,
/// where the helper types begin at `base`.
pub fn helper_functions(base: u32) -> (helpers: Vec<(&'static str, u32, Function)>)
    requires
        base + OFFSET_TYPES <= u32::MAX,
    ensures
        helpers@.len() == OFFSET_FUNCTIONS,
        forall|i: int|
            0 <= i < OFFSET_FUNCTIONS ==> {
                &&& (#[trigger] helpers@[i]).0@ == spec_helper_function(base, i).0
                &&& helpers@[i].1 == spec_helper_function(base, i).1
                &&& helpers@[i].2.locals@ == spec_helper_function(base, i).2.0
                &&& helpers@[i].2.code@ == spec_helper_function(base, i).2.1
                &&& helpers@[i].2.locals@.len() <= 2
            },
{
    let mut helpers = Vec::new();
    helpers.push(("tape_i32", base + TYPE_TAPE_I32, func_tape_i32()));
    helpers.push(("tape_i32_bwd", base + TYPE_TAPE_I32_BWD, func_tape_i32_bwd()));
    helpers.push(("f32_sqrt", base + TYPE_F32_UNARY, func_sqrt_fwd(Width::W32)));
    helpers.push(("f32_sqrt_bwd", base + TYPE_F32_UNARY, func_sqrt_bwd(Width::W32)));
    helpers.push(("f32_mul", base + TYPE_F32_BIN_FWD, func_mul_fwd(Width::W32)));
    helpers.push(("f32_mul_bwd", base + TYPE_F32_BIN_BWD, func_mul_bwd(Width::W32)));
    helpers.push(("f32_div", base + TYPE_F32_BIN_FWD, func_div_fwd(Width::W32)));
    helpers.push(("f32_div_bwd", base + TYPE_F32_BIN_BWD, func_div_bwd(Width::W32)));
    helpers.push(("f32_min", base + TYPE_F32_BIN_FWD, func_min_fwd(Width::W32)));
    helpers.push(("f32_min_bwd", base + TYPE_F32_BIN_BWD, func_min_bwd(base, Width::W32)));
    helpers.push(("f32_max", base + TYPE_F32_BIN_FWD, func_max_fwd(Width::W32)));
    helpers.push(("f32_max_bwd", base + TYPE_F32_BIN_BWD, func_max_bwd(base, Width::W32)));
    helpers.push(("f64_sqrt", base + TYPE_F64_UNARY, func_sqrt_fwd(Width::W64)));
    helpers.push(("f64_sqrt_bwd", base + TYPE_F64_UNARY, func_sqrt_bwd(Width::W64)));
    helpers.push(("f64_mul", base + TYPE_F64_BIN_FWD, func_mul_fwd(Width::W64)));
    helpers.push(("f64_mul_bwd", base + TYPE_F64_BIN_BWD, func_mul_bwd(Width::W64)));
    helpers.push(("f64_div", base + TYPE_F64_BIN_FWD, func_div_fwd(Width::W64)));
    helpers.push(("f64_div_bwd", base + TYPE_F64_BIN_BWD, func_div_bwd(Width::W64)));
    helpers.push(("f64_min", base + TYPE_F64_BIN_FWD, func_min_fwd(Width::W64)));
    helpers.push(("f64_min_bwd", base + TYPE_F64_BIN_BWD, func_min_bwd(base, Width::W64)));
    helpers.push(("f64_max", base + TYPE_F64_BIN_FWD, func_max_fwd(Width::W64)));
    helpers.push(("f64_max_bwd", base + TYPE_F64_BIN_BWD, func_max_bwd(base, Width::W64)));
    helpers
}

/// The helper function `i` is the floating-point helper whose index it has.
pub proof fn lemma_float_helper_function(base: u32, width: Width, op: FloatHelper, backward: bool)
    ensures
        spec_helper_function(base, spec_float_helper_index(width, op, backward)) == (
            spec_float_helper_name(width, op, backward),
            spec_float_helper_type(base, width, op, backward),
            spec_float_helper_body(base, width, op, backward),
        ),
{
}

} // verus!
