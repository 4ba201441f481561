//! Reverse mode: every function becomes a forward pass, which computes what the function
//! computes and records on the tapes what the derivative needs, and a backward pass, which takes
//! the adjoints of the results and gives the adjoints of the parameters.

use vstd::prelude::*;

use crate::backward::{ReverseFunction, ReverseFunctionView, MAX_BASIC_BLOCKS};
use crate::bytes::{extend, list1, list2, list3, list4, list6, list8};
use crate::error::{Error, Feature, Malformed};
use crate::helper::{
    float_zero, spec_float_zero, FloatHelper, FuncOffsets, NumImports, MAX_IMPORTS, MAX_TYPES,
    OFFSET_FUNCTIONS, OFFSET_MEMORIES,
};
use crate::instruction::{
    encode_all, encoding_of, FloatBinOp, FloatUnOp, Instruction, MemArg, Width,
};
use crate::sections::entries_encoding;
use crate::stack::{count_of, heights, StackHeight};
use crate::util::{
    entry_of, keys_upto, u32_to_usize, vals_upto, BlockType, FuncTypes, LocalMap, TypeMap,
    ValType,
};

verus! {

/// The most functions that a module may have, imports included, for the number of functions of
/// the transformed module, and so every function index, to fit in 32 bits.
pub const MAX_FUNCTIONS: u32 = 0x7FFF_FFF4;

/// How many locals of the backward pass a local of each type takes: integers have no adjoint.
pub open spec fn spec_type_map() -> TypeMap<u32> {
    TypeMap { i32: 0, i64: 0, float32: 1, float64: 1 }
}

#[verifier::when_used_as_spec(spec_type_map)]
pub fn type_map() -> (r: TypeMap<u32>)
    ensures
        r == spec_type_map(),
{
    TypeMap { i32: 0, i64: 0, float32: 1, float64: 1 }
}

/// An open structured control instruction.
#[derive(Clone, Copy, Debug, PartialEq, Eq, Structural)]
pub enum Control {
    Block(BlockType),
    Loop(BlockType),
    If {
        block_type: BlockType,
        /// The height of the operand stack below the values of the `if`.
        stack_height: u32,
    },
}

/// The scratch locals of one function, in the forward and in the backward pass.
#[derive(Clone, Copy, Debug, PartialEq, Eq, Structural)]
pub struct Scratch {
    pub i32_fwd: u32,
    pub f32_fwd: u32,
    pub f64_fwd: u32,
    pub i32_bwd: u32,
    pub f32_bwd: u32,
    pub f64_bwd: u32,
}

impl Scratch {
    /// The floating-point scratch local of the forward pass.
    pub open spec fn spec_float_fwd(self, width: Width) -> u32 {
        match width {
            Width::W32 => self.f32_fwd,
            Width::W64 => self.f64_fwd,
        }
    }

    #[verifier::when_used_as_spec(spec_float_fwd)]
    pub fn float_fwd(self, width: Width) -> (r: u32)
        ensures
            r == self.spec_float_fwd(width),
    {
        match width {
            Width::W32 => self.f32_fwd,
            Width::W64 => self.f64_fwd,
        }
    }

    /// The floating-point scratch local of the backward pass.
    pub open spec fn spec_float_bwd(self, width: Width) -> u32 {
        match width {
            Width::W32 => self.f32_bwd,
            Width::W64 => self.f64_bwd,
        }
    }

    #[verifier::when_used_as_spec(spec_float_bwd)]
    pub fn float_bwd(self, width: Width) -> (r: u32)
        ensures
            r == self.spec_float_bwd(width),
    {
        match width {
            Width::W32 => self.f32_bwd,
            Width::W64 => self.f64_bwd,
        }
    }
}

/// What an instruction other than a control instruction does: how many operands it takes, the
/// types of the values that it leaves, and what stands for it in the forward and in the backward
/// pass.
pub struct Effect {
    pub pops: nat,
    pub pushes: Seq<ValType>,
    pub fwd: Seq<Instruction>,
    pub bwd: Seq<Instruction>,
}

/// The width of a type.
pub open spec fn spec_width_of(ty: ValType) -> Width {
    match ty {
        ValType::I32 | ValType::F32 => Width::W32,
        ValType::I64 | ValType::F64 => Width::W64,
    }
}

#[verifier::when_used_as_spec(spec_width_of)]
pub fn width_of(ty: ValType) -> (r: Width)
    ensures
        r == spec_width_of(ty),
{
    match ty {
        ValType::I32 | ValType::F32 => Width::W32,
        ValType::I64 | ValType::F64 => Width::W64,
    }
}

/// What stays the same while one function is transformed.
pub struct Env {
    /// The parameters and results of every type of the module.
    pub types: Seq<(Seq<ValType>, Seq<ValType>)>,
    /// The type index of every function of the module, imports first.
    pub func_types: Seq<u32>,
    pub num_imports: NumImports,
    /// The number of floating-point results of the function.
    pub num_float_results: u32,
    /// The locals of the function as entries of a count and a type: its parameters, its own
    /// locals and the scratch locals.
    pub locals: Seq<(u32, ValType)>,
    pub scratch: Scratch,
}

impl Env {
    /// The indices that the transformation computes fit in 32 bits.
    pub open spec fn wf(self) -> bool {
        &&& self.types.len() <= MAX_TYPES
        &&& self.func_types.len() <= MAX_FUNCTIONS
        &&& forall|f: int|
            0 <= f < self.func_types.len() ==> (#[trigger] self.func_types[f]) < self.types.len()
        &&& self.num_imports.func <= MAX_IMPORTS
        &&& 3 <= keys_upto(self.locals, self.locals.len() as int) <= u32::MAX
        &&& self.num_float_results + vals_upto(
            self.locals,
            spec_type_map(),
            self.locals.len() as int,
        ) <= u32::MAX
    }

    /// The function index of the first helper.
    pub open spec fn helper_offset(self) -> int {
        2 * self.num_imports.func
    }

    /// The function index of the helper that pushes a 32-bit integer onto the tape.
    pub open spec fn tape_i32(self) -> u32 {
        self.helper_offset() as u32
    }

    /// The function index of the helper that pops a 32-bit integer from the tape.
    pub open spec fn tape_i32_bwd(self) -> u32 {
        (self.helper_offset() + 1) as u32
    }

    /// The function index of a floating-point helper.
    pub open spec fn float_helper(self, width: Width, op: FloatHelper, backward: bool) -> u32 {
        (self.helper_offset() + 2 + match width {
            Width::W32 => 0int,
            Width::W64 => 10int,
        } + match op {
            FloatHelper::Sqrt => 0int,
            FloatHelper::Mul => 2int,
            FloatHelper::Div => 4int,
            FloatHelper::Min => 6int,
            FloatHelper::Max => 8int,
        } + if backward {
            1int
        } else {
            0int
        }) as u32
    }

    /// The forward pass of the function `funcidx` of the source module. Each function becomes
    /// two, and the helpers stand between the imports and the functions that the module defines.
    pub open spec fn forward_index(self, funcidx: u32) -> int {
        if funcidx >= self.num_imports.func {
            2 * funcidx + OFFSET_FUNCTIONS
        } else {
            2 * funcidx
        }
    }

    /// The parameters of a block type.
    pub open spec fn blockty_params(self, block_type: BlockType) -> Result<Seq<ValType>, Error> {
        match block_type {
            BlockType::Empty | BlockType::Result(_) => Ok(Seq::empty()),
            BlockType::Func(typeidx) => if typeidx < self.types.len() {
                Ok(self.types[typeidx as int].0)
            } else {
                Err(Error::Malformed(Malformed::TypeIndex))
            },
        }
    }

    /// The results of a block type.
    pub open spec fn blockty_results(self, block_type: BlockType) -> Result<Seq<ValType>, Error> {
        match block_type {
            BlockType::Empty => Ok(Seq::empty()),
            BlockType::Result(ty) => Ok(seq![ty]),
            BlockType::Func(typeidx) => if typeidx < self.types.len() {
                Ok(self.types[typeidx as int].1)
            } else {
                Err(Error::Malformed(Malformed::TypeIndex))
            },
        }
    }

    /// The block type in the forward pass: a type index becomes the index of the forward form
    /// of the type.
    pub open spec fn blockty(self, block_type: BlockType) -> BlockType {
        match block_type {
            BlockType::Func(typeidx) => BlockType::Func((2 * typeidx) as u32),
            _ => block_type,
        }
    }

    /// The values that a branch to the frame `control` carries: the parameters of a loop, the
    /// results of a block or an `if`.
    pub open spec fn frame_values(self, control: Control) -> Result<Seq<ValType>, Error> {
        match control {
            Control::Block(block_type) => self.blockty_results(block_type),
            Control::Loop(block_type) => self.blockty_params(block_type),
            Control::If { block_type, stack_height: _ } => self.blockty_results(block_type),
        }
    }

    /// The type of the local `index` and, for a floating-point local, the local of the backward
    /// pass that holds its adjoint: the adjoints of the results come first, then one local for
    /// each floating-point local before it. With an integer local comes 0. The three scratch
    /// locals, which stand last, are no locals of the source function.
    pub open spec fn local(self, index: u32) -> Result<(ValType, u32), Error> {
        if index >= keys_upto(self.locals, self.locals.len() as int) - 3 {
            Err(Error::Malformed(Malformed::LocalIndex))
        } else {
            let e = entry_of(self.locals, index as int);
            let ty = self.locals[e].1;
            if ty.spec_is_float() {
                Ok(
                    (
                        ty,
                        (self.num_float_results + vals_upto(self.locals, spec_type_map(), e) + (index
                            - keys_upto(self.locals, e))) as u32,
                    ),
                )
            } else {
                Ok((ty, 0))
            }
        }
    }

    /// The immediates of an access to the memory that holds the values and of one to the memory
    /// that holds their adjoints. Every memory of the source module becomes two, behind the
    /// tapes: the first for the values, the second for the adjoints.
    pub open spec fn memarg(self, memarg: MemArg) -> Result<(MemArg, MemArg), Error> {
        if OFFSET_MEMORIES + 2 * memarg.memory_index + 1 > u32::MAX {
            Err(Error::Malformed(Malformed::TooLarge))
        } else {
            Ok(
                (
                    MemArg {
                        memory_index: (OFFSET_MEMORIES + 2 * memarg.memory_index) as u32,
                        ..memarg
                    },
                    MemArg {
                        memory_index: (OFFSET_MEMORIES + 2 * memarg.memory_index + 1) as u32,
                        ..memarg
                    },
                ),
            )
        }
    }

    /// What stands in the backward pass for a read, a write or a read-and-write of the
    /// floating-point local whose adjoint is in `j`.
    pub open spec fn local_bwd(op: Instruction, ty: ValType, j: u32) -> Seq<Instruction> {
        let w = spec_width_of(ty);
        if !ty.spec_is_float() {
            Seq::empty()
        } else {
            match op {
                Instruction::LocalGet(_) => seq![
                    Instruction::LocalGet(j),
                    Instruction::FloatBinary(w, FloatBinOp::Add),
                    Instruction::LocalSet(j),
                ],
                Instruction::LocalSet(_) => seq![
                    Instruction::LocalGet(j),
                    spec_float_zero(w),
                    Instruction::LocalSet(j),
                ],
                _ => seq![
                    Instruction::LocalGet(j),
                    Instruction::FloatBinary(w, FloatBinOp::Add),
                    spec_float_zero(w),
                    Instruction::LocalSet(j),
                ],
            }
        }
    }

    /// The effect of a floating-point operation on two operands.
    pub open spec fn float_binary(self, w: Width, op: FloatBinOp) -> Effect {
        let tmp = self.scratch.spec_float_bwd(w);
        let same = seq![Instruction::FloatBinary(w, op)];
        let ty = ValType::spec_of_float(w);
        match op {
            FloatBinOp::Add => Effect {
                pops: 2,
                pushes: seq![ty],
                fwd: same,
                bwd: seq![Instruction::LocalTee(tmp), Instruction::LocalGet(tmp)],
            },
            FloatBinOp::Sub => Effect {
                pops: 2,
                pushes: seq![ty],
                fwd: same,
                bwd: seq![
                    Instruction::LocalTee(tmp),
                    Instruction::LocalGet(tmp),
                    Instruction::FloatUnary(w, FloatUnOp::Neg),
                ],
            },
            FloatBinOp::Mul => self.helped(w, FloatHelper::Mul, 2),
            FloatBinOp::Div => self.helped(w, FloatHelper::Div, 2),
            FloatBinOp::Min => self.helped(w, FloatHelper::Min, 2),
            FloatBinOp::Max => self.helped(w, FloatHelper::Max, 2),
        }
    }

    /// The effect of a floating-point operation that a pair of helpers stands for.
    pub open spec fn helped(self, w: Width, op: FloatHelper, pops: nat) -> Effect {
        Effect {
            pops,
            pushes: seq![ValType::spec_of_float(w)],
            fwd: seq![Instruction::Call(self.float_helper(w, op, false))],
            bwd: seq![Instruction::Call(self.float_helper(w, op, true))],
        }
    }

    /// The effect of an instruction that is no control instruction, on the operand stack `stack`.
    pub open spec fn effect(self, op: Instruction, stack: Seq<ValType>) -> Result<Effect, Error> {
        let same = seq![op];
        let none = Seq::<Instruction>::empty();
        match op {
            Instruction::Call(f) => if f >= self.func_types.len() {
                Err(Error::Malformed(Malformed::FunctionIndex))
            } else {
                let ty = self.types[self.func_types[f as int] as int];
                Ok(
                    Effect {
                        pops: ty.0.len(),
                        pushes: ty.1,
                        fwd: seq![Instruction::Call(self.forward_index(f) as u32)],
                        bwd: seq![Instruction::Call((self.forward_index(f) + 1) as u32)],
                    },
                )
            },
            Instruction::Drop => if stack.len() == 0 {
                Err(Error::Malformed(Malformed::OperandStack))
            } else {
                Ok(
                    Effect {
                        pops: 1,
                        pushes: Seq::empty(),
                        fwd: same,
                        bwd: if stack.last().spec_is_float() {
                            seq![spec_float_zero(spec_width_of(stack.last()))]
                        } else {
                            none
                        },
                    },
                )
            },
            Instruction::LocalGet(i) => match self.local(i) {
                Err(e) => Err(e),
                Ok((ty, j)) => Ok(
                    Effect { pops: 0, pushes: seq![ty], fwd: same, bwd: Self::local_bwd(op, ty, j) },
                ),
            },
            Instruction::LocalSet(i) => match self.local(i) {
                Err(e) => Err(e),
                Ok((ty, j)) => Ok(
                    Effect {
                        pops: 1,
                        pushes: Seq::empty(),
                        fwd: same,
                        bwd: Self::local_bwd(op, ty, j),
                    },
                ),
            },
            Instruction::LocalTee(i) => match self.local(i) {
                Err(e) => Err(e),
                Ok((ty, j)) => Ok(
                    Effect { pops: 1, pushes: seq![ty], fwd: same, bwd: Self::local_bwd(op, ty, j) },
                ),
            },
            Instruction::FloatLoad(w, m) => match self.memarg(m) {
                Err(e) => Err(e),
                Ok((primal, adjoint)) => Ok(
                    Effect {
                        pops: 1,
                        pushes: seq![ValType::spec_of_float(w)],
                        fwd: seq![
                            Instruction::LocalTee(self.scratch.i32_fwd),
                            Instruction::Call(self.tape_i32()),
                            Instruction::LocalGet(self.scratch.i32_fwd),
                            Instruction::FloatLoad(w, primal),
                        ],
                        bwd: seq![
                            Instruction::LocalSet(self.scratch.spec_float_bwd(w)),
                            Instruction::Call(self.tape_i32_bwd()),
                            Instruction::LocalTee(self.scratch.i32_bwd),
                            Instruction::LocalGet(self.scratch.i32_bwd),
                            Instruction::FloatLoad(w, adjoint),
                            Instruction::LocalGet(self.scratch.spec_float_bwd(w)),
                            Instruction::FloatBinary(w, FloatBinOp::Add),
                            Instruction::FloatStore(w, adjoint),
                        ],
                    },
                ),
            },
            Instruction::FloatStore(w, m) => match self.memarg(m) {
                Err(e) => Err(e),
                Ok((primal, adjoint)) => Ok(
                    Effect {
                        pops: 2,
                        pushes: Seq::empty(),
                        fwd: seq![
                            Instruction::LocalSet(self.scratch.spec_float_fwd(w)),
                            Instruction::LocalTee(self.scratch.i32_fwd),
                            Instruction::Call(self.tape_i32()),
                            Instruction::LocalGet(self.scratch.i32_fwd),
                            Instruction::LocalGet(self.scratch.spec_float_fwd(w)),
                            Instruction::FloatStore(w, primal),
                        ],
                        bwd: seq![
                            Instruction::Call(self.tape_i32_bwd()),
                            Instruction::LocalTee(self.scratch.i32_bwd),
                            Instruction::FloatLoad(w, adjoint),
                            Instruction::LocalGet(self.scratch.i32_bwd),
                            spec_float_zero(w),
                            Instruction::FloatStore(w, adjoint),
                        ],
                    },
                ),
            },
            Instruction::I32Const(_) => Ok(
                Effect { pops: 0, pushes: seq![ValType::I32], fwd: same, bwd: none },
            ),
            Instruction::I64Const(_) => Ok(
                Effect { pops: 0, pushes: seq![ValType::I64], fwd: same, bwd: none },
            ),
            Instruction::F32Const(_) => Ok(
                Effect {
                    pops: 0,
                    pushes: seq![ValType::F32],
                    fwd: same,
                    bwd: seq![Instruction::Drop],
                },
            ),
            Instruction::F64Const(_) => Ok(
                Effect {
                    pops: 0,
                    pushes: seq![ValType::F64],
                    fwd: same,
                    bwd: seq![Instruction::Drop],
                },
            ),
            Instruction::IntEqz(_) => Ok(
                Effect { pops: 1, pushes: seq![ValType::I32], fwd: same, bwd: none },
            ),
            Instruction::IntCompare(_, _) => Ok(
                Effect { pops: 2, pushes: seq![ValType::I32], fwd: same, bwd: none },
            ),
            Instruction::FloatCompare(w, _) => Ok(
                Effect {
                    pops: 2,
                    pushes: seq![ValType::I32],
                    fwd: same,
                    bwd: seq![spec_float_zero(w), spec_float_zero(w)],
                },
            ),
            Instruction::IntUnary(w, _) => Ok(
                Effect { pops: 1, pushes: seq![ValType::spec_of_int(w)], fwd: same, bwd: none },
            ),
            Instruction::IntBinary(w, _) => Ok(
                Effect { pops: 2, pushes: seq![ValType::spec_of_int(w)], fwd: same, bwd: none },
            ),
            Instruction::FloatUnary(w, FloatUnOp::Neg) => Ok(
                Effect { pops: 1, pushes: seq![ValType::spec_of_float(w)], fwd: same, bwd: same },
            ),
            Instruction::FloatUnary(w, FloatUnOp::Sqrt) => Ok(self.helped(w, FloatHelper::Sqrt, 1)),
            Instruction::FloatBinary(w, op) => Ok(self.float_binary(w, op)),
            Instruction::Convert { to, from: _, signed: _ } => Ok(
                Effect {
                    pops: 1,
                    pushes: seq![ValType::spec_of_float(to)],
                    fwd: same,
                    bwd: seq![Instruction::Drop],
                },
            ),
            _ => Err(Error::Unsupported(Feature::Instruction)),
        }
    }
}

/// What changes while one function is transformed.
pub struct State {
    /// The types of the values on the operand stack of the source function.
    pub operand_stack: Seq<ValType>,
    /// The least height that the operand stack has had since the open basic block began.
    pub height_min: nat,
    /// The open structured control instructions, the function body itself first.
    pub control_stack: Seq<Control>,
    /// The instructions of the forward pass.
    pub fwd: Seq<u8>,
    /// The backward pass.
    pub bwd: ReverseFunctionView,
}

impl State {
    /// The counters fit in 32 bits and the backward pass is well formed.
    pub open spec fn wf(self) -> bool {
        &&& self.operand_stack.len() <= u32::MAX
        &&& self.height_min <= self.operand_stack.len()
        &&& self.bwd.wf()
        &&& self.bwd.counted()
    }

    /// The state after `n` values are popped. A value that was on the stack when the open basic
    /// block began is recorded with the backward pass, which must give it back at the end of the
    /// block.
    pub open spec fn pop_n(self, n: nat) -> State {
        let rest = self.operand_stack.len() - n;
        if rest < self.height_min {
            State {
                operand_stack: self.operand_stack.take(rest),
                height_min: rest as nat,
                bwd: ReverseFunctionView {
                    stacks: self.bwd.stacks + self.operand_stack.subrange(
                        rest,
                        self.height_min as int,
                    ).reverse(),
                    ..self.bwd
                },
                ..self
            }
        } else {
            State { operand_stack: self.operand_stack.take(rest), ..self }
        }
    }

    /// The state after values of the types `types` are pushed.
    pub open spec fn push_all(self, types: Seq<ValType>) -> State {
        State { operand_stack: self.operand_stack + types, ..self }
    }

    /// The state after instructions are written to the forward pass.
    pub open spec fn forward(self, code: Seq<Instruction>) -> State {
        State { fwd: self.fwd + encoding_of(code), ..self }
    }

    /// The state after instructions are written to the backward pass.
    pub open spec fn backward(self, code: Seq<Instruction>) -> State {
        State { bwd: self.bwd.instructions(code), ..self }
    }

    /// The state after an instruction with the effect `effect`, if the stack holds its operands
    /// and stays within 32 bits.
    pub open spec fn apply(self, effect: Effect) -> Result<State, Error> {
        if self.operand_stack.len() < effect.pops {
            Err(Error::Malformed(Malformed::OperandStack))
        } else if self.operand_stack.len() - effect.pops + effect.pushes.len() > u32::MAX {
            Err(Error::Malformed(Malformed::TooLarge))
        } else {
            Ok(
                self.pop_n(effect.pops).push_all(effect.pushes).forward(effect.fwd).backward(
                    effect.bwd,
                ),
            )
        }
    }

    /// What the forward pass does before it leaves a basic block: it pushes the index of the
    /// block on the tape, from which the backward pass learns where it came from.
    pub open spec fn control_store(self, env: Env) -> Seq<Instruction> {
        seq![
            Instruction::I32Const(self.bwd.basic_blocks.len() as i32),
            Instruction::Call(env.tape_i32()),
        ]
    }

    /// Whether the backward pass has room to close the open basic block.
    pub open spec fn can_split(self) -> bool {
        &&& self.bwd.body.len() <= u32::MAX
        &&& self.bwd.stacks.len() + (self.operand_stack.len() - self.height_min) <= u32::MAX
        &&& self.bwd.basic_blocks.len() < MAX_BASIC_BLOCKS
    }

    /// The state after the open basic block is closed.
    ///
    /// The branch values `branch_values` are taken from the stack and put back, so that the
    /// block gives them back whether it made them or not. Then the block is closed with what it
    /// leaves on the stack. The next block begins with the stack cut down to `stack_reset`
    /// values, of which it takes the branch values `branch_values_next`.
    pub open spec fn split(
        self,
        branch_values: Seq<ValType>,
        stack_reset: int,
        branch_values_next: Seq<ValType>,
    ) -> Result<State, Error> {
        if self.operand_stack.len() < branch_values.len() {
            Err(Error::Malformed(Malformed::OperandStack))
        } else {
            let taken = self.pop_n(branch_values.len()).push_all(branch_values);
            if !taken.can_split() {
                Err(Error::Malformed(Malformed::TooLarge))
            } else {
                let stack_end = taken.operand_stack.subrange(
                    taken.height_min as int,
                    taken.operand_stack.len() as int,
                );
                let bwd = taken.bwd.split_basic_block(
                    stack_end,
                    heights(taken.operand_stack),
                    branch_values.len() as u32,
                    branch_values_next.len() as u32,
                );
                let stack = if taken.operand_stack.len() > stack_reset {
                    taken.operand_stack.take(stack_reset)
                } else {
                    taken.operand_stack
                };
                let next = State {
                    operand_stack: stack,
                    height_min: stack.len(),
                    bwd,
                    ..taken
                };
                if stack.len() < branch_values_next.len() {
                    Err(Error::Malformed(Malformed::OperandStack))
                } else {
                    Ok(next.pop_n(branch_values_next.len()).push_all(branch_values_next))
                }
            }
        }
    }
}

impl Env {
    /// The state after `loop`: the frame opens, and a basic block ends in front of the loop,
    /// whose parameters are branch values on both sides.
    pub open spec fn enter_loop(self, state: State, block_type: BlockType) -> Result<State, Error> {
        match self.blockty_params(block_type) {
            Err(e) => Err(e),
            Ok(params) => State {
                control_stack: state.control_stack.push(Control::Loop(block_type)),
                ..state
            }.forward(
                state.control_store(self) + seq![Instruction::Loop(self.blockty(block_type))],
            ).split(params, state.operand_stack.len() as int, params),
        }
    }

    /// The state after `if`: the condition is taken, the frame opens, and a basic block ends.
    pub open spec fn enter_if(self, state: State, block_type: BlockType) -> Result<State, Error> {
        if state.operand_stack.len() == 0 {
            Err(Error::Malformed(Malformed::OperandStack))
        } else {
            match self.blockty_params(block_type) {
                Err(e) => Err(e),
                Ok(params) => {
                    let popped = state.pop_n(1);
                    State {
                        control_stack: state.control_stack.push(
                            Control::If {
                                block_type,
                                stack_height: popped.operand_stack.len() as u32,
                            },
                        ),
                        ..popped
                    }.forward(
                        state.control_store(self) + seq![Instruction::If(self.blockty(block_type))],
                    ).split(params, popped.operand_stack.len() as int, params)
                },
            }
        }
    }

    /// The state after `else`: a basic block ends with the results of the `if`, and the next one
    /// begins where the `if` began, with its parameters.
    pub open spec fn enter_else(self, state: State) -> Result<State, Error> {
        match state.control_stack.last() {
            Control::If { block_type, stack_height } => match self.blockty_results(block_type) {
                Err(e) => Err(e),
                Ok(results) => match self.blockty_params(block_type) {
                    Err(e) => Err(e),
                    Ok(params) => state.forward(
                        state.control_store(self) + seq![Instruction::Else],
                    ).split(results, stack_height as int, params),
                },
            },
            _ => Err(Error::Malformed(Malformed::ControlStack)),
        }
    }

    /// The state after `end`: the innermost frame closes. The end of a loop ends no basic block,
    /// since control only passes through it. The end of the function body ends the last one.
    pub open spec fn leave(self, state: State) -> Result<State, Error> {
        let rest = State { control_stack: state.control_stack.drop_last(), ..state };
        let height = state.operand_stack.len() as int;
        match state.control_stack.last() {
            Control::Loop(_) => Ok(rest.forward(seq![Instruction::End])),
            Control::Block(block_type) => match self.blockty_results(block_type) {
                Err(e) => Err(e),
                Ok(results) => rest.forward(state.control_store(self) + seq![Instruction::End]).split(
                    results,
                    height,
                    if rest.control_stack.len() == 0 {
                        Seq::empty()
                    } else {
                        results
                    },
                ),
            },
            Control::If { block_type, stack_height: _ } => match self.blockty_results(block_type) {
                Err(e) => Err(e),
                Ok(results) => rest.forward(state.control_store(self) + seq![Instruction::End]).split(
                    results,
                    height,
                    results,
                ),
            },
        }
    }

    /// The state after `br`: a basic block ends with the values of the branch, and what follows
    /// begins without them.
    pub open spec fn branch(self, state: State, relative_depth: u32) -> Result<State, Error> {
        if relative_depth >= state.control_stack.len() {
            Err(Error::Malformed(Malformed::ControlStack))
        } else {
            match self.frame_values(
                state.control_stack[state.control_stack.len() - 1 - relative_depth],
            ) {
                Err(e) => Err(e),
                Ok(values) => if state.operand_stack.len() < values.len() {
                    Err(Error::Malformed(Malformed::OperandStack))
                } else {
                    state.forward(
                        state.control_store(self) + seq![Instruction::Br(relative_depth)],
                    ).split(values, state.operand_stack.len() - values.len(), Seq::empty())
                },
            }
        }
    }

    /// The state after `br_if`: the condition is taken, and a basic block ends with the values
    /// of the branch, which are still there if the branch is not taken.
    pub open spec fn branch_if(self, state: State, relative_depth: u32) -> Result<State, Error> {
        if state.operand_stack.len() == 0 {
            Err(Error::Malformed(Malformed::OperandStack))
        } else if relative_depth >= state.control_stack.len() {
            Err(Error::Malformed(Malformed::ControlStack))
        } else {
            match self.frame_values(
                state.control_stack[state.control_stack.len() - 1 - relative_depth],
            ) {
                Err(e) => Err(e),
                Ok(values) => {
                    let popped = state.pop_n(1);
                    popped.forward(
                        state.control_store(self) + seq![Instruction::BrIf(relative_depth)],
                    ).split(values, popped.operand_stack.len() as int, values)
                },
            }
        }
    }

    /// The state after one instruction of the source function, or why the instruction cannot be
    /// transformed.
    #[verifier::opaque]
    pub open spec fn step(self, state: State, op: Instruction) -> Result<State, Error> {
        if state.control_stack.len() == 0 {
            Err(Error::Malformed(Malformed::ControlStack))
        } else {
            match op {
                Instruction::Loop(block_type) => self.enter_loop(state, block_type),
                Instruction::If(block_type) => self.enter_if(state, block_type),
                Instruction::Else => self.enter_else(state),
                Instruction::End => self.leave(state),
                Instruction::Br(relative_depth) => self.branch(state, relative_depth),
                Instruction::BrIf(relative_depth) => self.branch_if(state, relative_depth),
                _ => match self.effect(op, state.operand_stack) {
                    Err(e) => Err(e),
                    Ok(effect) => state.apply(effect),
                },
            }
        }
    }

    /// The state after the first `k` of the instructions `ops`, or the first error on the way.
    pub open spec fn run(self, state: State, ops: Seq<Instruction>, k: nat) -> Result<State, Error>
        decreases k,
    {
        if k == 0 {
            Ok(state)
        } else {
            match self.run(state, ops, (k - 1) as nat) {
                Err(e) => Err(e),
                Ok(before) => self.step(before, ops[k - 1]),
            }
        }
    }
}

impl State {
    /// Popping one more value after `n` is popping `n + 1`.
    pub proof fn lemma_pop_n_step(self, n: nat)
        requires
            n + 1 <= self.operand_stack.len(),
            self.height_min <= self.operand_stack.len(),
        ensures
            self.pop_n(n).pop_n(1) == self.pop_n(n + 1),
    {
        let a = self.pop_n(n).pop_n(1);
        let b = self.pop_n(n + 1);
        assert(a.operand_stack =~= b.operand_stack);
        assert(a.bwd.stacks =~= b.bwd.stacks);
    }

    /// Popping no value changes nothing.
    pub proof fn lemma_pop_n_zero(self)
        requires
            self.height_min <= self.operand_stack.len(),
        ensures
            self.pop_n(0) == self,
    {
        assert(self.pop_n(0).operand_stack =~= self.operand_stack);
    }
}

/// What an instruction other than a control instruction does, as the transformation holds it.
pub struct ExecEffect {
    pub pops: usize,
    pub pushes: Vec<ValType>,
    pub fwd: Vec<Instruction>,
    pub bwd: Vec<Instruction>,
}

impl View for ExecEffect {
    type V = Effect;

    open spec fn view(&self) -> Effect {
        Effect { pops: self.pops as nat, pushes: self.pushes@, fwd: self.fwd@, bwd: self.bwd@ }
    }
}

/// The transformation of one function, instruction by instruction.
pub struct Func<'a> {
    /// All type signatures in the module.
    type_sigs: &'a FuncTypes,
    /// Number of imports in the module.
    num_imports: NumImports,
    /// Type indices for all the functions in the module.
    func_types: &'a [u32],
    /// Number of floating-point results in the type of the source function.
    num_float_results: u32,
    /// Types of locals from the source function, and indices in the backward pass that have been
    /// mapped except for accounting for the results.
    locals: LocalMap,
    operand_stack: Vec<ValType>,
    operand_stack_height: StackHeight,
    /// The minimum operand stack height reached since this was last reset.
    operand_stack_height_min: usize,
    control_stack: Vec<Control>,
    /// The forward pass under construction.
    fwd: Vec<u8>,
    /// The backward pass under construction.
    bwd: ReverseFunction,
    scratch: Scratch,
}

impl<'a> Func<'a> {
    /// What stays the same during the transformation.
    pub closed spec fn env(&self) -> Env {
        Env {
            types: self.type_sigs@,
            func_types: self.func_types@,
            num_imports: self.num_imports,
            num_float_results: self.num_float_results,
            locals: self.locals.entries(),
            scratch: self.scratch,
        }
    }

    /// What the transformation has come to.
    pub closed spec fn state(&self) -> State {
        State {
            operand_stack: self.operand_stack@,
            height_min: self.operand_stack_height_min as nat,
            control_stack: self.control_stack@,
            fwd: self.fwd@,
            bwd: self.bwd@,
        }
    }

    /// The tables are well formed, and the heights are those of the operand stack.
    pub closed spec fn wf(&self) -> bool {
        &&& self.type_sigs.wf()
        &&& self.locals.wf()
        &&& self.locals.type_map() == spec_type_map()
        &&& self.env().wf()
        &&& self.state().wf()
        &&& self.operand_stack_height == heights(self.operand_stack@)
        &&& self.bwd@.num_imports == self.num_imports
    }

    /// A well-formed transformation stands in a well-formed state, over well-formed tables.
    pub proof fn lemma_wf(&self)
        requires
            self.wf(),
        ensures
            self.env().wf(),
            self.state().wf(),
    {
    }

    fn push(&mut self, ty: ValType)
        requires
            old(self).wf(),
            old(self).state().operand_stack.len() < u32::MAX,
        ensures
            final(self).wf(),
            final(self).env() == old(self).env(),
            final(self).state() == old(self).state().push_all(seq![ty]),
    {
        proof {
            crate::stack::lemma_heights_push(self.operand_stack@, ty);
        }
        self.operand_stack.push(ty);
        self.operand_stack_height.push(ty);
        assert(self.operand_stack@ =~= old(self).operand_stack@ + seq![ty]);
    }

    fn push_all(&mut self, types: &[ValType])
        requires
            old(self).wf(),
            old(self).state().operand_stack.len() + types@.len() <= u32::MAX,
        ensures
            final(self).wf(),
            final(self).env() == old(self).env(),
            final(self).state() == old(self).state().push_all(types@),
    {
        let mut i: usize = 0;
        assert(self.operand_stack@ =~= old(self).operand_stack@ + types@.subrange(0, 0));
        while i < types.len()
            invariant
                i <= types@.len(),
                old(self).state().operand_stack.len() + types@.len() <= u32::MAX,
                self.wf(),
                self.env() == old(self).env(),
                self.state() == old(self).state().push_all(types@.subrange(0, i as int)),
            decreases types@.len() - i,
        {
            self.push(types[i]);
            i += 1;
            assert(old(self).operand_stack@ + types@.subrange(0, i - 1) + seq![types@[i - 1]]
                =~= old(self).operand_stack@ + types@.subrange(0, i as int));
        }
        assert(types@.subrange(0, types@.len() as int) =~= types@);
    }

    fn pop(&mut self) -> (ty: ValType)
        requires
            old(self).wf(),
            old(self).state().operand_stack.len() > 0,
        ensures
            final(self).wf(),
            final(self).env() == old(self).env(),
            final(self).state() == old(self).state().pop_n(1),
            ty == old(self).state().operand_stack.last(),
    {
        proof {
            crate::stack::lemma_heights_pop(self.operand_stack@);
        }
        let ty = self.operand_stack.pop().unwrap();
        self.operand_stack_height.pop(ty);
        let n = self.operand_stack.len();
        // A value from below where the open basic block began: the backward pass has to give
        // its adjoint back.
        if n < self.operand_stack_height_min {
            self.bwd.deepen_stack(ty);
            self.operand_stack_height_min = n;
        }
        proof {
            let a = self.state();
            let b = old(self).state().pop_n(1);
            assert(old(self).operand_stack@.drop_last() =~= old(self).operand_stack@.take(n as int));
            assert(a.operand_stack =~= b.operand_stack);
            assert(a.bwd.stacks =~= b.bwd.stacks);
        }
        ty
    }

    fn pop_n(&mut self, n: usize)
        requires
            old(self).wf(),
            n <= old(self).state().operand_stack.len(),
        ensures
            final(self).wf(),
            final(self).env() == old(self).env(),
            final(self).state() == old(self).state().pop_n(n as nat),
    {
        let mut i: usize = 0;
        proof {
            old(self).state().lemma_pop_n_zero();
        }
        while i < n
            invariant
                i <= n <= old(self).state().operand_stack.len(),
                old(self).state().height_min <= old(self).state().operand_stack.len(),
                self.wf(),
                self.env() == old(self).env(),
                self.state() == old(self).state().pop_n(i as nat),
            decreases n - i,
        {
            proof {
                old(self).state().lemma_pop_n_step(i as nat);
            }
            self.pop();
            i += 1;
        }
    }

    /// Cut the operand stack down to `height` values; the next basic block begins there.
    fn reset_stack(&mut self, height: usize)
        requires
            old(self).wf(),
        ensures
            final(self).wf(),
            final(self).env() == old(self).env(),
            final(self).state() == (State {
                operand_stack: if old(self).state().operand_stack.len() > height {
                    old(self).state().operand_stack.take(height as int)
                } else {
                    old(self).state().operand_stack
                },
                height_min: if old(self).state().operand_stack.len() > height {
                    height as nat
                } else {
                    old(self).state().operand_stack.len()
                },
                ..old(self).state()
            }),
    {
        assert(self.operand_stack@.take(self.operand_stack@.len() as int) =~= self.operand_stack@);
        while self.operand_stack.len() > height
            invariant
                old(self).wf(),
                self.operand_stack@.len() <= old(self).operand_stack@.len(),
                self.operand_stack@ == old(self).operand_stack@.take(self.operand_stack@.len() as int),
                self.operand_stack_height == heights(self.operand_stack@),
                self.operand_stack@.len() >= height || self.operand_stack@.len() == old(
                    self,
                ).operand_stack@.len(),
                self.type_sigs == old(self).type_sigs,
                self.num_imports == old(self).num_imports,
                self.func_types == old(self).func_types,
                self.num_float_results == old(self).num_float_results,
                self.locals == old(self).locals,
                self.operand_stack_height_min == old(self).operand_stack_height_min,
                self.control_stack == old(self).control_stack,
                self.fwd == old(self).fwd,
                self.bwd == old(self).bwd,
                self.scratch == old(self).scratch,
            decreases self.operand_stack@.len(),
        {
            proof {
                crate::stack::lemma_heights_pop(self.operand_stack@);
            }
            let ghost before = self.operand_stack@;
            let ty = self.operand_stack.pop().unwrap();
            self.operand_stack_height.pop(ty);
            assert(self.operand_stack@ =~= old(self).operand_stack@.take(
                self.operand_stack@.len() as int,
            ));
            assert(self.operand_stack@ =~= before.drop_last());
        }
        self.operand_stack_height_min = self.operand_stack.len();
    }

    fn emit_fwd(&mut self, code: &[Instruction])
        requires
            old(self).wf(),
        ensures
            final(self).wf(),
            final(self).env() == old(self).env(),
            final(self).state() == old(self).state().forward(code@),
    {
        encode_all(code, &mut self.fwd);
    }

    fn emit_bwd(&mut self, code: &[Instruction])
        requires
            old(self).wf(),
        ensures
            final(self).wf(),
            final(self).env() == old(self).env(),
            final(self).state() == old(self).state().backward(code@),
    {
        self.bwd.instructions(code);
    }
}

impl<'a> Func<'a> {
    fn blockty_params(&self, block_type: BlockType) -> (r: Result<&'a [ValType], Error>)
        requires
            self.wf(),
        ensures
            match self.env().blockty_params(block_type) {
                Ok(params) => r is Ok && r->Ok_0@ == params && params.len() <= u32::MAX,
                Err(e) => r == Err::<&[ValType], Error>(e),
            },
    {
        match block_type {
            BlockType::Empty | BlockType::Result(_) => {
                let none: &'static [ValType] = &[];
                assert(none@ =~= Seq::<ValType>::empty());
                Ok(none)
            },
            BlockType::Func(typeidx) => {
                if typeidx >= self.type_sigs.len() {
                    return Err(Error::Malformed(Malformed::TypeIndex));
                }
                let params = self.type_sigs.params(typeidx);
                Ok(params)
            },
        }
    }

    fn blockty_results(&self, block_type: BlockType) -> (r: Result<&'a [ValType], Error>)
        requires
            self.wf(),
        ensures
            match self.env().blockty_results(block_type) {
                Ok(results) => r is Ok && r->Ok_0@ == results && results.len() <= u32::MAX,
                Err(e) => r == Err::<&[ValType], Error>(e),
            },
    {
        match block_type {
            BlockType::Empty => {
                let none: &'static [ValType] = &[];
                assert(none@ =~= Seq::<ValType>::empty());
                Ok(none)
            },
            BlockType::Result(val_type) => Ok(val_type.singleton()),
            BlockType::Func(typeidx) => {
                if typeidx >= self.type_sigs.len() {
                    return Err(Error::Malformed(Malformed::TypeIndex));
                }
                let results = self.type_sigs.results(typeidx);
                Ok(results)
            },
        }
    }

    fn blockty(&self, block_type: BlockType) -> (r: BlockType)
        requires
            self.wf(),
            self.env().blockty_params(block_type) is Ok,
        ensures
            r == self.env().blockty(block_type),
    {
        match block_type {
            BlockType::Func(typeidx) => BlockType::Func(2 * typeidx),
            _ => block_type,
        }
    }

    fn helpers(&self) -> (r: FuncOffsets)
        requires
            self.wf(),
        ensures
            r.num_imports() == self.env().num_imports,
    {
        FuncOffsets::new(self.num_imports)
    }

    /// The forward and the backward pass of a function of the source module.
    fn func(&self, funcidx: u32) -> (r: (u32, u32))
        requires
            self.wf(),
            funcidx < self.env().func_types.len(),
        ensures
            r.0 == self.env().forward_index(funcidx),
            r.1 == self.env().forward_index(funcidx) + 1,
    {
        let mut fwd = 2 * funcidx;
        if funcidx >= self.num_imports.func {
            fwd += OFFSET_FUNCTIONS;
        }
        let bwd = fwd + 1;
        (fwd, bwd)
    }

    fn local(&self, index: u32) -> (r: Result<(ValType, u32), Error>)
        requires
            self.wf(),
        ensures
            r == self.env().local(index),
    {
        if index >= self.locals.count_keys() - 3 {
            return Err(Error::Malformed(Malformed::LocalIndex));
        }
        let (ty, mapped) = self.locals.get(index);
        proof {
            let entries = self.locals.entries();
            let e = entry_of(entries, index as int);
            let n = spec_type_map().spec_get(ty);
            crate::util::lemma_vals_upto_monotone(entries, spec_type_map(), e + 1, entries.len() as int);
            assert(0 <= n * (index - keys_upto(entries, e)) <= n * entries[e].0)
                by (nonlinear_arith)
                requires
                    0 <= n,
                    0 <= index - keys_upto(entries, e) < entries[e].0,
            ;
            crate::util::lemma_vals_upto_monotone(entries, spec_type_map(), 0, e);
        }
        match mapped {
            Some(i) => Ok((ty, self.num_float_results + i)),
            None => Ok((ty, 0)),
        }
    }

    fn memarg(&self, memarg: MemArg) -> (r: Result<(MemArg, MemArg), Error>)
        ensures
            r == self.env().memarg(memarg),
    {
        if memarg.memory_index > (u32::MAX - OFFSET_MEMORIES - 1) / 2 {
            return Err(Error::Malformed(Malformed::TooLarge));
        }
        let primal = OFFSET_MEMORIES + 2 * memarg.memory_index;
        Ok(
            (
                MemArg { offset: memarg.offset, align: memarg.align, memory_index: primal },
                MemArg { offset: memarg.offset, align: memarg.align, memory_index: primal + 1 },
            ),
        )
    }

    fn branch_values(&self, relative_depth: u32) -> (r: Result<&'a [ValType], Error>)
        requires
            self.wf(),
            relative_depth < self.state().control_stack.len(),
        ensures
            match self.env().frame_values(
                self.state().control_stack[self.state().control_stack.len() - 1 - relative_depth],
            ) {
                Ok(values) => r is Ok && r->Ok_0@ == values && values.len() <= u32::MAX,
                Err(e) => r == Err::<&[ValType], Error>(e),
            },
    {
        match self.control_stack[self.control_stack.len() - 1 - relative_depth as usize] {
            Control::Block(block_type) => self.blockty_results(block_type),
            Control::Loop(block_type) => self.blockty_params(block_type),
            Control::If { block_type, stack_height: _ } => self.blockty_results(block_type),
        }
    }

    /// Close the open basic block and begin the next one.
    fn split_basic_block(
        &mut self,
        branch_values: &[ValType],
        stack_reset: usize,
        branch_values_next: &[ValType],
    ) -> (r: Result<(), Error>)
        requires
            old(self).wf(),
            branch_values_next@.len() <= u32::MAX,
        ensures
            match old(self).state().split(
                branch_values@,
                stack_reset as int,
                branch_values_next@,
            ) {
                Ok(state) => r is Ok && final(self).wf() && final(self).env() == old(self).env()
                    && final(self).state() == state,
                Err(e) => r == Err::<(), Error>(e),
            },
    {
        if self.operand_stack.len() < branch_values.len() {
            return Err(Error::Malformed(Malformed::OperandStack));
        }
        self.pop_n(branch_values.len());
        self.push_all(branch_values);
        let ghost taken = self.state();
        if !self.bwd.has_room(self.operand_stack.len() - self.operand_stack_height_min) {
            return Err(Error::Malformed(Malformed::TooLarge));
        }
        let stack_end = vstd::slice::slice_subrange(
            self.operand_stack.as_slice(),
            self.operand_stack_height_min,
            self.operand_stack.len(),
        );
        proof {
            let n = branch_values@.len();
            let below = self.operand_stack@.take(self.operand_stack@.len() - n);
            assert(self.operand_stack@ =~= below + branch_values@);
            crate::stack::lemma_heights_top(below, branch_values@);
            assert(ReverseFunctionView::branch_values(stack_end@, n as u32) =~= branch_values@);
            let kept = self.operand_stack@.take(self.operand_stack_height_min as int);
            assert(self.operand_stack@ =~= kept + stack_end@);
            crate::stack::lemma_heights_top(kept, stack_end@);
        }
        self.bwd.split_basic_block(
            stack_end,
            self.operand_stack_height,
            branch_values.len() as u32,
            branch_values_next.len() as u32,
        );
        self.reset_stack(stack_reset);
        if self.operand_stack.len() < branch_values_next.len() {
            return Err(Error::Malformed(Malformed::OperandStack));
        }
        self.pop_n(branch_values_next.len());
        self.push_all(branch_values_next);
        Ok(())
    }

    fn split_basic_block_fallthrough(&mut self, branch_values: &[ValType]) -> (r: Result<(), Error>)
        requires
            old(self).wf(),
            branch_values@.len() <= u32::MAX,
        ensures
            match old(self).state().split(
                branch_values@,
                old(self).state().operand_stack.len() as int,
                branch_values@,
            ) {
                Ok(state) => r is Ok && final(self).wf() && final(self).env() == old(self).env()
                    && final(self).state() == state,
                Err(e) => r == Err::<(), Error>(e),
            },
    {
        let current_stack_height = self.operand_stack.len();
        self.split_basic_block(branch_values, current_stack_height, branch_values)
    }
}

impl<'a> Func<'a> {
    /// What stands in the backward pass for an access to a floating-point local.
    fn local_bwd(op: Instruction, ty: ValType, j: u32) -> (r: Vec<Instruction>)
        ensures
            r@ == Env::local_bwd(op, ty, j),
    {
        let w = width_of(ty);
        if !ty.is_float() {
            return Vec::new();
        }
        match op {
            Instruction::LocalGet(_) => list3(
                Instruction::LocalGet(j),
                Instruction::FloatBinary(w, FloatBinOp::Add),
                Instruction::LocalSet(j)),
            Instruction::LocalSet(_) => list3(
                Instruction::LocalGet(j),
                float_zero(w),
                Instruction::LocalSet(j)),
            _ => list4(
                Instruction::LocalGet(j),
                Instruction::FloatBinary(w, FloatBinOp::Add),
                float_zero(w),
                Instruction::LocalSet(j)),
        }
    }

    /// The effect of a floating-point operation that a pair of helpers stands for.
    fn helped(&self, w: Width, op: FloatHelper, pops: usize) -> (r: ExecEffect)
        requires
            self.wf(),
        ensures
            r@ == self.env().helped(w, op, pops as nat),
    {
        let helper = self.helpers();
        ExecEffect {
            pops,
            pushes: list1(ValType::of_float(w)),
            fwd: list1(Instruction::Call(helper.float_helper(w, op, false))),
            bwd: list1(Instruction::Call(helper.float_helper(w, op, true))),
        }
    }

    /// The effect of a floating-point operation on two operands.
    fn float_binary(&self, w: Width, op: FloatBinOp) -> (r: ExecEffect)
        requires
            self.wf(),
        ensures
            r@ == self.env().float_binary(w, op),
    {
        let tmp = self.scratch.float_bwd(w);
        match op {
            FloatBinOp::Add => ExecEffect {
                pops: 2,
                pushes: list1(ValType::of_float(w)),
                fwd: list1(Instruction::FloatBinary(w, op)),
                bwd: list2(Instruction::LocalTee(tmp), Instruction::LocalGet(tmp)),
            },
            FloatBinOp::Sub => ExecEffect {
                pops: 2,
                pushes: list1(ValType::of_float(w)),
                fwd: list1(Instruction::FloatBinary(w, op)),
                bwd: list3(
                    Instruction::LocalTee(tmp),
                    Instruction::LocalGet(tmp),
                    Instruction::FloatUnary(w, FloatUnOp::Neg)),
            },
            FloatBinOp::Mul => self.helped(w, FloatHelper::Mul, 2),
            FloatBinOp::Div => self.helped(w, FloatHelper::Div, 2),
            FloatBinOp::Min => self.helped(w, FloatHelper::Min, 2),
            FloatBinOp::Max => self.helped(w, FloatHelper::Max, 2),
        }
    }

    /// The effect of an access to a memory.
    fn memory(&self, op: Instruction, w: Width, m: MemArg, store: bool) -> (r: Result<
        ExecEffect,
        Error,
    >)
        requires
            self.wf(),
            op == (if store {
                Instruction::FloatStore(w, m)
            } else {
                Instruction::FloatLoad(w, m)
            }),
        ensures
            match self.env().effect(op, self.state().operand_stack) {
                Ok(effect) => r is Ok && r->Ok_0@ == effect,
                Err(e) => r == Err::<ExecEffect, Error>(e),
            },
    {
        let helper = self.helpers();
        let (primal, adjoint) = match self.memarg(m) {
            Ok(pair) => pair,
            Err(e) => {
                return Err(e);
            },
        };
        let s = self.scratch;
        if store {
            Ok(
                ExecEffect {
                    pops: 2,
                    pushes: Vec::new(),
                    fwd: list6(
                        Instruction::LocalSet(s.float_fwd(w)),
                        Instruction::LocalTee(s.i32_fwd),
                        Instruction::Call(helper.tape_i32()),
                        Instruction::LocalGet(s.i32_fwd),
                        Instruction::LocalGet(s.float_fwd(w)),
                        Instruction::FloatStore(w, primal)),
                    bwd: list6(
                        Instruction::Call(helper.tape_i32_bwd()),
                        Instruction::LocalTee(s.i32_bwd),
                        Instruction::FloatLoad(w, adjoint),
                        Instruction::LocalGet(s.i32_bwd),
                        float_zero(w),
                        Instruction::FloatStore(w, adjoint)),
                },
            )
        } else {
            Ok(
                ExecEffect {
                    pops: 1,
                    pushes: list1(ValType::of_float(w)),
                    fwd: list4(
                        Instruction::LocalTee(s.i32_fwd),
                        Instruction::Call(helper.tape_i32()),
                        Instruction::LocalGet(s.i32_fwd),
                        Instruction::FloatLoad(w, primal)),
                    bwd: list8(
                        Instruction::LocalSet(s.float_bwd(w)),
                        Instruction::Call(helper.tape_i32_bwd()),
                        Instruction::LocalTee(s.i32_bwd),
                        Instruction::LocalGet(s.i32_bwd),
                        Instruction::FloatLoad(w, adjoint),
                        Instruction::LocalGet(s.float_bwd(w)),
                        Instruction::FloatBinary(w, FloatBinOp::Add),
                        Instruction::FloatStore(w, adjoint)),
                },
            )
        }
    }

    /// The effect of a call or of an access to a local.
    fn variable(&self, op: Instruction) -> (r: Result<ExecEffect, Error>)
        requires
            self.wf(),
            op is Call || op is LocalGet || op is LocalSet || op is LocalTee,
        ensures
            match self.env().effect(op, self.state().operand_stack) {
                Ok(effect) => r is Ok && r->Ok_0@ == effect,
                Err(e) => r == Err::<ExecEffect, Error>(e),
            },
    {
        match op {
            Instruction::Call(function_index) => {
                if function_index as usize >= self.func_types.len() {
                    return Err(Error::Malformed(Malformed::FunctionIndex));
                }
                let typeidx = self.func_types[function_index as usize];
                let (fwd, bwd) = self.func(function_index);
                let mut pushes = Vec::new();
                extend(&mut pushes, self.type_sigs.results(typeidx));
                assert(pushes@ =~= self.type_sigs@[typeidx as int].1);
                Ok(
                    ExecEffect {
                        pops: self.type_sigs.params(typeidx).len(),
                        pushes,
                        fwd: list1(Instruction::Call(fwd)),
                        bwd: list1(Instruction::Call(bwd)),
                    },
                )
            },
            _ => {
                let (index, pops, keeps): (u32, usize, bool) = match op {
                    Instruction::LocalGet(i) => (i, 0, true),
                    Instruction::LocalSet(i) => (i, 1, false),
                    Instruction::LocalTee(i) => (i, 1, true),
                    _ => (0, 0, false),
                };
                let (ty, j) = match self.local(index) {
                    Ok(found) => found,
                    Err(e) => {
                        return Err(e);
                    },
                };
                let pushes = if keeps {
                    list1(ty)
                } else {
                    Vec::new()
                };
                Ok(ExecEffect { pops, pushes, fwd: list1(op), bwd: Self::local_bwd(op, ty, j) })
            },
        }
    }

    /// The effect of an instruction that is no control instruction.
    fn effect(&self, op: Instruction) -> (r: Result<ExecEffect, Error>)
        requires
            self.wf(),
        ensures
            match self.env().effect(op, self.state().operand_stack) {
                Ok(effect) => r is Ok && r->Ok_0@ == effect,
                Err(e) => r == Err::<ExecEffect, Error>(e),
            },
    {
        match op {
            Instruction::Call(_)
            | Instruction::LocalGet(_)
            | Instruction::LocalSet(_)
            | Instruction::LocalTee(_) => self.variable(op),
            Instruction::Drop => {
                let n = self.operand_stack.len();
                if n == 0 {
                    return Err(Error::Malformed(Malformed::OperandStack));
                }
                let ty = self.operand_stack[n - 1];
                let bwd = if ty.is_float() {
                    list1(float_zero(width_of(ty)))
                } else {
                    Vec::new()
                };
                Ok(ExecEffect { pops: 1, pushes: Vec::new(), fwd: list1(op), bwd })
            },
            Instruction::FloatLoad(w, m) => self.memory(op, w, m, false),
            Instruction::FloatStore(w, m) => self.memory(op, w, m, true),
            Instruction::I32Const(_) => Ok(
                ExecEffect { pops: 0, pushes: list1(ValType::I32), fwd: list1(op), bwd: Vec::new() },
            ),
            Instruction::I64Const(_) => Ok(
                ExecEffect { pops: 0, pushes: list1(ValType::I64), fwd: list1(op), bwd: Vec::new() },
            ),
            Instruction::F32Const(_) => Ok(
                ExecEffect {
                    pops: 0,
                    pushes: list1(ValType::F32),
                    fwd: list1(op),
                    bwd: list1(Instruction::Drop),
                },
            ),
            Instruction::F64Const(_) => Ok(
                ExecEffect {
                    pops: 0,
                    pushes: list1(ValType::F64),
                    fwd: list1(op),
                    bwd: list1(Instruction::Drop),
                },
            ),
            Instruction::IntEqz(_) => Ok(
                ExecEffect { pops: 1, pushes: list1(ValType::I32), fwd: list1(op), bwd: Vec::new() },
            ),
            Instruction::IntCompare(_, _) => Ok(
                ExecEffect { pops: 2, pushes: list1(ValType::I32), fwd: list1(op), bwd: Vec::new() },
            ),
            Instruction::FloatCompare(w, _) => Ok(
                ExecEffect {
                    pops: 2,
                    pushes: list1(ValType::I32),
                    fwd: list1(op),
                    bwd: list2(float_zero(w), float_zero(w)),
                },
            ),
            Instruction::IntUnary(w, _) => Ok(
                ExecEffect {
                    pops: 1,
                    pushes: list1(ValType::of_int(w)),
                    fwd: list1(op),
                    bwd: Vec::new(),
                },
            ),
            Instruction::IntBinary(w, _) => Ok(
                ExecEffect {
                    pops: 2,
                    pushes: list1(ValType::of_int(w)),
                    fwd: list1(op),
                    bwd: Vec::new(),
                },
            ),
            Instruction::FloatUnary(w, FloatUnOp::Neg) => Ok(
                ExecEffect {
                    pops: 1,
                    pushes: list1(ValType::of_float(w)),
                    fwd: list1(op),
                    bwd: list1(op),
                },
            ),
            Instruction::FloatUnary(w, FloatUnOp::Sqrt) => Ok(self.helped(w, FloatHelper::Sqrt, 1)),
            Instruction::FloatBinary(w, binop) => Ok(self.float_binary(w, binop)),
            Instruction::Convert { to, from: _, signed: _ } => Ok(
                ExecEffect {
                    pops: 1,
                    pushes: list1(ValType::of_float(to)),
                    fwd: list1(op),
                    bwd: list1(Instruction::Drop),
                },
            ),
            _ => Err(Error::Unsupported(Feature::Instruction)),
        }
    }

    /// Process an instruction that is no control instruction.
    fn simple(&mut self, op: Instruction) -> (r: Result<(), Error>)
        requires
            old(self).wf(),
        ensures
            match old(self).env().effect(op, old(self).state().operand_stack) {
                Err(e) => r == Err::<(), Error>(e),
                Ok(effect) => match old(self).state().apply(effect) {
                    Ok(state) => r is Ok && final(self).wf() && final(self).env() == old(
                        self,
                    ).env() && final(self).state() == state,
                    Err(e) => r == Err::<(), Error>(e),
                },
            },
    {
        let effect = match self.effect(op) {
            Ok(effect) => effect,
            Err(e) => {
                return Err(e);
            },
        };
        let n = self.operand_stack.len();
        if n < effect.pops {
            return Err(Error::Malformed(Malformed::OperandStack));
        }
        if effect.pushes.len() > u32::MAX as usize - (n - effect.pops) {
            return Err(Error::Malformed(Malformed::TooLarge));
        }
        self.pop_n(effect.pops);
        self.push_all(effect.pushes.as_slice());
        self.emit_fwd(effect.fwd.as_slice());
        self.emit_bwd(effect.bwd.as_slice());
        Ok(())
    }
}

impl<'a> Func<'a> {
    /// Write a control instruction to the forward pass, behind the push of the basic block index.
    fn fwd_control(&mut self, op: Instruction)
        requires
            old(self).wf(),
        ensures
            final(self).wf(),
            final(self).env() == old(self).env(),
            final(self).state() == old(self).state().forward(
                old(self).state().control_store(old(self).env()) + seq![op],
            ),
    {
        let helper = self.helpers();
        let code = list3(
            Instruction::I32Const(self.bwd.basic_block_index()),
            Instruction::Call(helper.tape_i32()),
            op,
        );
        assert(code@ =~= self.state().control_store(self.env()) + seq![op]);
        self.emit_fwd(code.as_slice());
    }

    fn enter_loop(&mut self, block_type: BlockType) -> (r: Result<(), Error>)
        requires
            old(self).wf(),
        ensures
            match old(self).env().enter_loop(old(self).state(), block_type) {
                Ok(state) => r is Ok && final(self).wf() && final(self).env() == old(self).env()
                    && final(self).state() == state,
                Err(e) => r == Err::<(), Error>(e),
            },
    {
        let params = match self.blockty_params(block_type) {
            Ok(params) => params,
            Err(e) => {
                return Err(e);
            },
        };
        let reencoded = self.blockty(block_type);
        self.control_stack.push(Control::Loop(block_type));
        self.fwd_control(Instruction::Loop(reencoded));
        self.split_basic_block_fallthrough(params)
    }

    fn enter_if(&mut self, block_type: BlockType) -> (r: Result<(), Error>)
        requires
            old(self).wf(),
        ensures
            match old(self).env().enter_if(old(self).state(), block_type) {
                Ok(state) => r is Ok && final(self).wf() && final(self).env() == old(self).env()
                    && final(self).state() == state,
                Err(e) => r == Err::<(), Error>(e),
            },
    {
        if self.operand_stack.len() == 0 {
            return Err(Error::Malformed(Malformed::OperandStack));
        }
        let params = match self.blockty_params(block_type) {
            Ok(params) => params,
            Err(e) => {
                return Err(e);
            },
        };
        let reencoded = self.blockty(block_type);
        let helper = self.helpers();
        let store = list3(
            Instruction::I32Const(self.bwd.basic_block_index()),
            Instruction::Call(helper.tape_i32()),
            Instruction::If(reencoded),
        );
        assert(store@ =~= self.state().control_store(self.env()) + seq![
            Instruction::If(reencoded),
        ]);
        self.pop();
        let control = Control::If { block_type, stack_height: self.operand_stack.len() as u32 };
        self.control_stack.push(control);
        self.emit_fwd(store.as_slice());
        self.split_basic_block_fallthrough(params)
    }

    fn enter_else(&mut self) -> (r: Result<(), Error>)
        requires
            old(self).wf(),
            old(self).state().control_stack.len() > 0,
        ensures
            match old(self).env().enter_else(old(self).state()) {
                Ok(state) => r is Ok && final(self).wf() && final(self).env() == old(self).env()
                    && final(self).state() == state,
                Err(e) => r == Err::<(), Error>(e),
            },
    {
        match self.control_stack[self.control_stack.len() - 1] {
            Control::If { block_type, stack_height } => {
                let branch_values = match self.blockty_results(block_type) {
                    Ok(results) => results,
                    Err(e) => {
                        return Err(e);
                    },
                };
                let branch_values_next = match self.blockty_params(block_type) {
                    Ok(params) => params,
                    Err(e) => {
                        return Err(e);
                    },
                };
                self.fwd_control(Instruction::Else);
                self.split_basic_block(branch_values, stack_height as usize, branch_values_next)
            },
            _ => Err(Error::Malformed(Malformed::ControlStack)),
        }
    }

    fn leave(&mut self) -> (r: Result<(), Error>)
        requires
            old(self).wf(),
            old(self).state().control_stack.len() > 0,
        ensures
            match old(self).env().leave(old(self).state()) {
                Ok(state) => r is Ok && final(self).wf() && final(self).env() == old(self).env()
                    && final(self).state() == state,
                Err(e) => r == Err::<(), Error>(e),
            },
    {
        let control = self.control_stack[self.control_stack.len() - 1];
        let (block_type, body) = match control {
            Control::Loop(_) => {
                self.control_stack.pop();
                assert(self.control_stack@ =~= old(self).control_stack@.drop_last());
                let end = list1(Instruction::End);
                self.emit_fwd(end.as_slice());
                return Ok(());
            },
            Control::Block(block_type) => (block_type, self.control_stack.len() == 1),
            Control::If { block_type, stack_height: _ } => (block_type, false),
        };
        let branch_values = match self.blockty_results(block_type) {
            Ok(results) => results,
            Err(e) => {
                return Err(e);
            },
        };
        self.control_stack.pop();
        assert(self.control_stack@ =~= old(self).control_stack@.drop_last());
        self.fwd_control(Instruction::End);
        let current_stack_height = self.operand_stack.len();
        if body {
            // The function body ends here, and no basic block follows this one.
            let none: &'static [ValType] = &[];
            assert(none@ =~= Seq::<ValType>::empty());
            self.split_basic_block(branch_values, current_stack_height, none)
        } else {
            self.split_basic_block(branch_values, current_stack_height, branch_values)
        }
    }

    fn branch(&mut self, relative_depth: u32) -> (r: Result<(), Error>)
        requires
            old(self).wf(),
        ensures
            match old(self).env().branch(old(self).state(), relative_depth) {
                Ok(state) => r is Ok && final(self).wf() && final(self).env() == old(self).env()
                    && final(self).state() == state,
                Err(e) => r == Err::<(), Error>(e),
            },
    {
        if relative_depth as usize >= self.control_stack.len() {
            return Err(Error::Malformed(Malformed::ControlStack));
        }
        let branch_values = match self.branch_values(relative_depth) {
            Ok(values) => values,
            Err(e) => {
                return Err(e);
            },
        };
        let current_stack_height = self.operand_stack.len();
        if current_stack_height < branch_values.len() {
            return Err(Error::Malformed(Malformed::OperandStack));
        }
        let stack_reset = current_stack_height - branch_values.len();
        self.fwd_control(Instruction::Br(relative_depth));
        let none: &'static [ValType] = &[];
        assert(none@ =~= Seq::<ValType>::empty());
        self.split_basic_block(branch_values, stack_reset, none)
    }

    fn branch_if(&mut self, relative_depth: u32) -> (r: Result<(), Error>)
        requires
            old(self).wf(),
        ensures
            match old(self).env().branch_if(old(self).state(), relative_depth) {
                Ok(state) => r is Ok && final(self).wf() && final(self).env() == old(self).env()
                    && final(self).state() == state,
                Err(e) => r == Err::<(), Error>(e),
            },
    {
        if self.operand_stack.len() == 0 {
            return Err(Error::Malformed(Malformed::OperandStack));
        }
        if relative_depth as usize >= self.control_stack.len() {
            return Err(Error::Malformed(Malformed::ControlStack));
        }
        let branch_values = match self.branch_values(relative_depth) {
            Ok(values) => values,
            Err(e) => {
                return Err(e);
            },
        };
        let helper = self.helpers();
        let store = list3(
            Instruction::I32Const(self.bwd.basic_block_index()),
            Instruction::Call(helper.tape_i32()),
            Instruction::BrIf(relative_depth),
        );
        assert(store@ =~= self.state().control_store(self.env()) + seq![
            Instruction::BrIf(relative_depth),
        ]);
        self.pop();
        self.emit_fwd(store.as_slice());
        self.split_basic_block_fallthrough(branch_values)
    }

    /// Process an instruction.
    ///
    /// The instruction is written to the forward pass as it is or with what records its operands,
    /// and what computes its derivative is written to the backward pass. A control instruction
    /// ends a basic block.
    pub fn instruction(&mut self, op: Instruction) -> (r: Result<(), Error>)
        requires
            old(self).wf(),
        ensures
            match old(self).env().step(old(self).state(), op) {
                Ok(state) => r is Ok && final(self).wf() && final(self).env() == old(self).env()
                    && final(self).state() == state,
                Err(e) => r == Err::<(), Error>(e),
            },
    {
        reveal(Env::step);
        if self.control_stack.len() == 0 {
            return Err(Error::Malformed(Malformed::ControlStack));
        }
        match op {
            Instruction::Loop(block_type) => self.enter_loop(block_type),
            Instruction::If(block_type) => self.enter_if(block_type),
            Instruction::Else => self.enter_else(),
            Instruction::End => self.leave(),
            Instruction::Br(relative_depth) => self.branch(relative_depth),
            Instruction::BrIf(relative_depth) => self.branch_if(relative_depth),
            _ => self.simple(op),
        }
    }
}

/// How many of the types are floating-point types.
pub open spec fn float_count(types: Seq<ValType>) -> nat {
    count_of(types, ValType::F32) + count_of(types, ValType::F64)
}

/// Count the floating-point types among `types`.
pub fn num_floats(types: &[ValType]) -> (r: u32)
    requires
        types@.len() <= u32::MAX,
    ensures
        r == float_count(types@),
{
    let mut n: u32 = 0;
    let mut i: usize = 0;
    while i < types.len()
        invariant
            i <= types@.len() <= u32::MAX,
            n == float_count(types@.subrange(0, i as int)),
            n <= i,
        decreases types@.len() - i,
    {
        assert(types@.subrange(0, i + 1).drop_last() =~= types@.subrange(0, i as int));
        if types[i].is_float() {
            n += 1;
        }
        i += 1;
    }
    assert(types@.subrange(0, types@.len() as int) =~= types@);
    n
}

/// The locals of a function as the transformation counts them: one entry for each parameter,
/// the entries of the function's own locals, and the three scratch locals.
pub open spec fn function_locals(params: Seq<ValType>, locals: Seq<(u32, ValType)>) -> Seq<
    (u32, ValType),
> {
    Seq::new(params.len(), |i: int| (1u32, params[i])) + locals + seq![
        (1u32, ValType::F32),
        (1u32, ValType::F64),
        (1u32, ValType::I32),
    ]
}

/// The entries of the backward pass for the entries of the source function: an entry of
/// integers stays as an entry of no locals.
pub open spec fn mapped_entries(entries: Seq<(u32, ValType)>) -> Seq<(u32, ValType)> {
    Seq::new(
        entries.len(),
        |i: int| ((spec_type_map().spec_get(entries[i].1) * entries[i].0) as u32, entries[i].1),
    )
}

impl Env {
    /// What the backward pass begins with, written for the last `k` of `num_params` parameters,
    /// the last one first: since the function is turned around, these are its last instructions,
    /// which leave the adjoints of the parameters on the stack.
    pub open spec fn param_adjoints(self, num_params: nat, k: nat) -> Seq<u8>
        decreases k,
    {
        if k == 0 {
            Seq::empty()
        } else {
            self.param_adjoints(num_params, (k - 1) as nat) + match self.local(
                (num_params - k) as u32,
            ) {
                Ok((ty, j)) => if ty.spec_is_float() {
                    encoding_of(seq![Instruction::LocalGet(j)]).reverse()
                } else {
                    Seq::empty()
                },
                Err(_) => Seq::empty(),
            }
        }
    }

    /// The environment of the function `funcidx`, whose own locals are `locals`.
    pub open spec fn of_function(
        types: Seq<(Seq<ValType>, Seq<ValType>)>,
        num_imports: NumImports,
        func_types: Seq<u32>,
        funcidx: u32,
        locals: Seq<(u32, ValType)>,
    ) -> Env {
        let ty = types[func_types[funcidx as int] as int];
        let entries = function_locals(ty.0, locals);
        let own = (ty.0.len() + locals.len()) as int;
        let results = float_count(ty.1);
        Env {
            types,
            func_types,
            num_imports,
            num_float_results: results as u32,
            locals: entries,
            scratch: Scratch {
                f32_fwd: keys_upto(entries, own) as u32,
                f64_fwd: keys_upto(entries, own + 1) as u32,
                i32_fwd: keys_upto(entries, own + 2) as u32,
                f32_bwd: (results + vals_upto(entries, spec_type_map(), own)) as u32,
                f64_bwd: (results + vals_upto(entries, spec_type_map(), own + 1)) as u32,
                i32_bwd: (results + vals_upto(entries, spec_type_map(), own + 3)) as u32,
            },
        }
    }

    /// Whether the locals of the function can be counted with 32 bits in both passes.
    pub open spec fn locals_fit(self) -> bool {
        &&& self.num_float_results + keys_upto(self.locals, self.locals.len() as int) + 1
            <= u32::MAX
        &&& self.locals.len() + 1 <= u32::MAX
    }

    /// The state in which the transformation of the function begins: the stack is empty, the
    /// function body is the one open frame, and the backward pass has its locals and what it will
    /// end with.
    pub open spec fn start(self, typeidx: u32) -> State {
        let entries = mapped_entries(self.locals);
        State {
            operand_stack: Seq::empty(),
            height_min: 0,
            control_stack: seq![Control::Block(BlockType::Func(typeidx))],
            fwd: Seq::empty(),
            bwd: ReverseFunctionView {
                num_imports: self.num_imports,
                helper_types: crate::helper::spec_helper_types_at(self.types.len()),
                locals: crate::backward::LocalsView {
                    blocks: (self.locals.len() + 1) as u32,
                    count: (self.num_float_results + vals_upto(
                        self.locals,
                        spec_type_map(),
                        self.locals.len() as int,
                    ) + 1) as u32,
                    bytes: entries_encoding(entries, 0, entries.len() as int)
                        + crate::leb128::unsigned(1) + seq![ValType::I32.spec_code()],
                },
                body: self.param_adjoints(
                    self.types[typeidx as int].0.len(),
                    self.types[typeidx as int].0.len(),
                ),
                stacks: Seq::empty(),
                basic_blocks: Seq::empty(),
                block_start_offset: 0,
                block_stack_offset: 0,
                branch_start_count: 0,
                max_stack_values: StackHeight::zero(),
                max_branch_values: StackHeight::zero(),
            },
        }
    }
}

/// The two passes of a function.
pub struct Transformed {
    /// The body of the forward pass: the function's own locals and the scratch locals, and the
    /// instructions.
    pub fwd: Seq<u8>,
    /// The body of the backward pass.
    pub bwd: Seq<u8>,
    /// The most values of each type below the branch values at a block boundary.
    pub stack_locals: StackHeight,
    /// The most branch values of each type at a block boundary.
    pub branch_locals: StackHeight,
}

/// The two passes of the function `funcidx`, whose own locals are `locals` and whose
/// instructions are `ops`, or why the function cannot be transformed.
pub open spec fn spec_function(
    types: Seq<(Seq<ValType>, Seq<ValType>)>,
    num_imports: NumImports,
    func_types: Seq<u32>,
    funcidx: u32,
    locals: Seq<(u32, ValType)>,
    ops: Seq<Instruction>,
) -> Result<Transformed, Error> {
    let typeidx = func_types[funcidx as int];
    let env = Env::of_function(types, num_imports, func_types, funcidx, locals);
    let num_params = types[typeidx as int].0.len();
    if !env.locals_fit() {
        Err(Error::Malformed(Malformed::TooLarge))
    } else {
        match env.run(env.start(typeidx), ops, ops.len()) {
            Err(e) => Err(e),
            Ok(end) => match end.bwd.raw_body(end.operand_stack) {
                Err(e) => Err(e),
                Ok(bwd) => Ok(
                    Transformed {
                        fwd: crate::leb128::unsigned(locals.len() + 3) + entries_encoding(
                            env.locals,
                            num_params as int,
                            env.locals.len() as int,
                        ) + end.fwd,
                        bwd,
                        stack_locals: end.bwd.max_stack_values,
                        branch_locals: end.bwd.max_branch_values,
                    },
                ),
            },
        }
    }
}

/// In the backward pass no entry takes more locals than in the source function.
pub proof fn lemma_vals_le_keys(entries: Seq<(u32, ValType)>, n: int)
    requires
        0 <= n,
    ensures
        0 <= vals_upto(entries, spec_type_map(), n) <= keys_upto(entries, n),
    decreases n,
{
    if n > 0 {
        lemma_vals_le_keys(entries, n - 1);
        let ty = entries[n - 1].1;
        let count = entries[n - 1].0;
        assert(0 <= spec_type_map().spec_get(ty) * count <= count) by (nonlinear_arith)
            requires
                0 <= spec_type_map().spec_get(ty) <= 1,
                0 <= count,
        ;
    }
}

/// An entry of floating-point locals takes as many locals in the backward pass, and an entry of
/// integers takes none.
pub proof fn lemma_vals_upto_step(entries: Seq<(u32, ValType)>, n: int)
    requires
        0 < n,
    ensures
        vals_upto(entries, spec_type_map(), n) == vals_upto(entries, spec_type_map(), n - 1) + (
        if entries[n - 1].1.spec_is_float() {
            entries[n - 1].0 as int
        } else {
            0
        }),
{
    let m = spec_type_map().spec_get(entries[n - 1].1);
    let count = entries[n - 1].0;
    if entries[n - 1].1.spec_is_float() {
        assert(m * count == count) by (nonlinear_arith)
            requires
                m == 1,
        ;
    } else {
        assert(m * count == 0) by (nonlinear_arith)
            requires
                m == 0,
        ;
    }
}

/// What a transformation keeps of a function for the names of its locals.
pub struct FunctionInfo {
    pub typeidx: u32,
    pub locals: LocalMap,
    pub stack_locals: StackHeight,
    pub branch_locals: StackHeight,
}

/// Whether the tables of a module can be transformed with indices of 32 bits.
pub open spec fn tables_fit(
    types: Seq<(Seq<ValType>, Seq<ValType>)>,
    num_imports: NumImports,
    func_types: Seq<u32>,
) -> bool {
    &&& types.len() <= MAX_TYPES
    &&& func_types.len() <= MAX_FUNCTIONS
    &&& forall|f: int| 0 <= f < func_types.len() ==> (#[trigger] func_types[f]) < types.len()
    &&& num_imports.func <= MAX_IMPORTS
}

/// Count the locals of a function: its parameters, its own locals and the scratch locals.
fn count_locals(params: &[ValType], locals: &[(u32, ValType)], results: u32) -> (r: Result<
    LocalMap,
    Error,
>)
    requires
        params@.len() <= u32::MAX,
    ensures
        match r {
            Ok(map) => {
                &&& map.wf()
                &&& map.type_map() == spec_type_map()
                &&& map.entries() == function_locals(params@, locals@)
                &&& results + keys_upto(map.entries(), map.entries().len() as int) + 1 <= u32::MAX
                &&& map.entries().len() + 1 <= u32::MAX
            },
            Err(e) => {
                &&& e == Error::Malformed(Malformed::TooLarge)
                &&& {
                    let entries = function_locals(params@, locals@);
                    results + keys_upto(entries, entries.len() as int) + 1 > u32::MAX
                        || entries.len() + 1 > u32::MAX
                }
            },
        },
{
    let ghost all = function_locals(params@, locals@);
    if results == u32::MAX || locals.len() > u32::MAX as usize - 4 || params.len() > u32::MAX as usize
        - 4 - locals.len() {
        proof {
            lemma_keys_upto_nonneg(all, all.len() as int);
        }
        return Err(Error::Malformed(Malformed::TooLarge));
    }
    let limit = u32::MAX - results - 1;
    let mut map = LocalMap::new(type_map());
    let mut i: usize = 0;
    while i < params.len()
        invariant
            i <= params@.len(),
            all == function_locals(params@, locals@),
            limit == u32::MAX - results - 1,
            map.wf(),
            map.type_map() == spec_type_map(),
            map.entries() == all.subrange(0, i as int),
            map.spec_count_keys() <= limit,
        decreases params@.len() - i,
    {
        proof {
            lemma_vals_le_keys(map.entries(), map.entries().len() as int);
        }
        if map.count_keys() == limit {
            proof {
                lemma_too_many(all, map.entries(), i as int, limit as int);
            }
            return Err(Error::Malformed(Malformed::TooLarge));
        }
        map.push(1, params[i]);
        i += 1;
        assert(map.entries() =~= all.subrange(0, i as int));
    }
    let mut j: usize = 0;
    while j < locals.len()
        invariant
            i == params@.len(),
            j <= locals@.len(),
            all == function_locals(params@, locals@),
            limit == u32::MAX - results - 1,
            map.wf(),
            map.type_map() == spec_type_map(),
            map.entries() == all.subrange(0, i + j),
            map.spec_count_keys() <= limit,
        decreases locals@.len() - j,
    {
        proof {
            lemma_vals_le_keys(map.entries(), map.entries().len() as int);
        }
        let (count, ty) = locals[j];
        if count > limit - map.count_keys() {
            proof {
                lemma_too_many(all, map.entries(), i + j, limit as int);
            }
            return Err(Error::Malformed(Malformed::TooLarge));
        }
        proof {
            assert(0 <= spec_type_map().spec_get(ty) * count <= count) by (nonlinear_arith)
                requires
                    0 <= spec_type_map().spec_get(ty) <= 1,
                    0 <= count,
            ;
        }
        map.push(count, ty);
        j += 1;
        assert(map.entries() =~= all.subrange(0, i + j));
    }
    let scratch = [ValType::F32, ValType::F64, ValType::I32];
    let mut k: usize = 0;
    while k < 3
        invariant
            i == params@.len(),
            j == locals@.len(),
            k <= 3,
            scratch@ == seq![ValType::F32, ValType::F64, ValType::I32],
            all == function_locals(params@, locals@),
            limit == u32::MAX - results - 1,
            map.wf(),
            map.type_map() == spec_type_map(),
            map.entries() == all.subrange(0, i + j + k),
            map.spec_count_keys() <= limit,
        decreases 3 - k,
    {
        proof {
            lemma_vals_le_keys(map.entries(), map.entries().len() as int);
        }
        if map.count_keys() == limit {
            proof {
                lemma_too_many(all, map.entries(), i + j + k, limit as int);
            }
            return Err(Error::Malformed(Malformed::TooLarge));
        }
        map.push(1, scratch[k]);
        k += 1;
        assert(map.entries() =~= all.subrange(0, i + j + k));
    }
    assert(all.subrange(0, all.len() as int) =~= all);
    Ok(map)
}

proof fn lemma_keys_upto_nonneg(entries: Seq<(u32, ValType)>, n: int)
    ensures
        0 <= keys_upto(entries, n),
    decreases n,
{
    if n > 0 {
        lemma_keys_upto_nonneg(entries, n - 1);
    }
}

/// Where the entries before entry `k` and entry `k` hold more than `limit` locals, so do all
/// entries.
proof fn lemma_too_many(
    all: Seq<(u32, ValType)>,
    before: Seq<(u32, ValType)>,
    k: int,
    limit: int,
)
    requires
        0 <= k < all.len(),
        before == all.subrange(0, k),
        keys_upto(before, k) + all[k].0 > limit,
    ensures
        keys_upto(all, all.len() as int) > limit,
{
    LocalMap::lemma_upto_prefix(before, all, spec_type_map(), k);
    crate::util::lemma_keys_upto_monotone(all, k + 1, all.len() as int);
}

impl Env {
    /// A run that has met an error keeps it however far it goes on.
    pub proof fn lemma_run_err(self, state: State, ops: Seq<Instruction>, k: nat, n: nat)
        requires
            k <= n,
            self.run(state, ops, k) is Err,
        ensures
            self.run(state, ops, n) == self.run(state, ops, k),
        decreases n,
    {
        if k < n {
            self.lemma_run_err(state, ops, k, (n - 1) as nat);
        }
    }
}

/// Declare the locals of the backward pass: one entry for each entry of the source function,
/// and the scratch local for addresses.
fn declare_locals(bwd: &mut ReverseFunction, map: &LocalMap, results: u32) -> (r: u32)
    requires
        old(bwd)@.wf(),
        old(bwd)@.locals == (crate::backward::LocalsView {
            blocks: 0,
            count: results,
            bytes: Seq::empty(),
        }),
        map.wf(),
        map.type_map() == spec_type_map(),
        results + keys_upto(map.entries(), map.entries().len() as int) + 1 <= u32::MAX,
        map.entries().len() + 1 <= u32::MAX,
    ensures
        r == results + vals_upto(map.entries(), spec_type_map(), map.entries().len() as int),
        final(bwd)@ == (ReverseFunctionView {
            locals: crate::backward::LocalsView {
                blocks: (map.entries().len() + 1) as u32,
                count: (r + 1) as u32,
                bytes: entries_encoding(
                    mapped_entries(map.entries()),
                    0,
                    map.entries().len() as int,
                ) + crate::leb128::unsigned(1) + seq![ValType::I32.spec_code()],
            },
            ..old(bwd)@
        }),
{
    let vals = map.vals();
    let ghost entries = map.entries();
    let ghost mapped = mapped_entries(entries);
    assert(vals@ =~= mapped);
    let mut k: usize = 0;
    while k < vals.len()
        invariant
            k <= vals@.len(),
            vals@ == mapped,
            mapped == mapped_entries(entries),
            vals@.len() == entries.len(),
            entries.len() + 1 <= u32::MAX,
            results + keys_upto(entries, entries.len() as int) + 1 <= u32::MAX,
            bwd@ == (ReverseFunctionView {
                locals: crate::backward::LocalsView {
                    blocks: k as u32,
                    count: (results + vals_upto(entries, spec_type_map(), k as int)) as u32,
                    bytes: entries_encoding(mapped, 0, k as int),
                },
                ..old(bwd)@
            }),
        decreases vals@.len() - k,
    {
        proof {
            lemma_vals_le_keys(entries, k as int);
            lemma_vals_le_keys(entries, k + 1);
            crate::util::lemma_keys_upto_monotone(entries, k + 1, entries.len() as int);
        }
        let (count, ty) = vals[k];
        bwd.locals(count, ty);
        k += 1;
        assert(bwd@.locals.bytes =~= entries_encoding(mapped, 0, k as int));
    }
    proof {
        lemma_vals_le_keys(entries, entries.len() as int);
    }
    bwd.local(ValType::I32)
}

impl<'a> Func<'a> {
    /// Begin the transformation of the function `funcidx`, whose own locals are `locals`.
    /// With the transformation come the locals of the forward pass.
    pub fn new(
        type_sigs: &'a FuncTypes,
        num_imports: NumImports,
        func_types: &'a [u32],
        funcidx: u32,
        locals: &[(u32, ValType)],
    ) -> (r: Result<(Func<'a>, Vec<u8>), Error>)
        requires
            type_sigs.wf(),
            tables_fit(type_sigs@, num_imports, func_types@),
            funcidx < func_types@.len(),
        ensures
            ({
                let env = Env::of_function(type_sigs@, num_imports, func_types@, funcidx, locals@);
                let typeidx = func_types@[funcidx as int];
                match r {
                    Ok((func, header)) => {
                        &&& env.locals_fit()
                        &&& func.wf()
                        &&& func.env() == env
                        &&& func.state() == env.start(typeidx)
                        &&& header@ == crate::leb128::unsigned(locals@.len() + 3) + entries_encoding(
                            env.locals,
                            type_sigs@[typeidx as int].0.len() as int,
                            env.locals.len() as int,
                        )
                    },
                    Err(e) => !env.locals_fit() && e == Error::Malformed(Malformed::TooLarge),
                }
            }),
    {
        let typeidx = func_types[funcidx as usize];
        let params = type_sigs.params(typeidx);
        let num_params = params.len();
        let num_float_results = num_floats(type_sigs.results(typeidx));
        let ghost env = Env::of_function(type_sigs@, num_imports, func_types@, funcidx, locals@);
        let map = match count_locals(params, locals, num_float_results) {
            Ok(map) => map,
            Err(e) => {
                return Err(e);
            },
        };
        let ghost entries = map.entries();
        let own = num_params + locals.len();
        proof {
            lemma_vals_le_keys(entries, own as int);
            lemma_vals_le_keys(entries, own + 1);
            lemma_vals_le_keys(entries, own + 2);
            lemma_vals_le_keys(entries, own + 3);
            assert(entries[own as int] == (1u32, ValType::F32));
            assert(entries[own + 1] == (1u32, ValType::F64));
            assert(entries[own + 2] == (1u32, ValType::I32));
            lemma_vals_upto_step(entries, own + 1);
            lemma_vals_upto_step(entries, own + 2);
            lemma_vals_upto_step(entries, own + 3);
            assert(keys_upto(entries, own + 3) == keys_upto(entries, own as int) + 3);
            assert(vals_upto(entries, spec_type_map(), own + 1) == vals_upto(
                entries,
                spec_type_map(),
                own as int,
            ) + 1);
            assert(vals_upto(entries, spec_type_map(), own + 2) == vals_upto(
                entries,
                spec_type_map(),
                own as int,
            ) + 2);
            assert(vals_upto(entries, spec_type_map(), own + 3) == vals_upto(
                entries,
                spec_type_map(),
                own as int,
            ) + 2);
        }
        let keys = map.count_keys();
        let vals = map.count_vals();
        // There is one entry of one local for each parameter, and the locals of the forward
        // pass are those behind the parameters.
        let mut header = Vec::new();
        crate::sections::write_locals(&mut header, map.keys().as_slice(), num_params);
        assert(header@ =~= crate::sections::locals(entries, num_params as int));
        let mut bwd = ReverseFunction::new(
            num_imports,
            crate::helper::helper_types_at(u32_to_usize(type_sigs.len())),
            num_float_results,
        );
        let tmp_i32_bwd = declare_locals(&mut bwd, &map, num_float_results);
        let scratch = Scratch {
            f32_fwd: keys - 3,
            f64_fwd: keys - 2,
            i32_fwd: keys - 1,
            f32_bwd: num_float_results + vals - 2,
            f64_bwd: num_float_results + vals - 1,
            i32_bwd: tmp_i32_bwd,
        };
        let mut func = Func {
            type_sigs,
            num_imports,
            func_types,
            num_float_results,
            locals: map,
            operand_stack: Vec::new(),
            operand_stack_height: StackHeight::new(),
            operand_stack_height_min: 0,
            control_stack: list1(Control::Block(BlockType::Func(typeidx))),
            fwd: Vec::new(),
            bwd,
            scratch,
        };
        assert(func.env() == env);
        assert(env.param_adjoints(num_params as nat, 0) =~= Seq::<u8>::empty());
        func.param_adjoints(typeidx);
        Ok((func, header))
    }

    /// Write what the backward pass ends with.
    ///
    /// The first basic block of the source function is the last one of the backward pass, and
    /// since each basic block is turned around, what is written first becomes the end of the
    /// backward pass. The adjoints of the parameters are then in the locals that stand for the
    /// parameters, and the backward pass ends with pushing them in order: written here from the
    /// last parameter to the first.
    fn param_adjoints(&mut self, typeidx: u32)
        requires
            old(self).wf(),
            typeidx < old(self).env().types.len(),
            old(self).env().types[typeidx as int].0.len() <= old(self).env().locals.len(),
            forall|i: int|
                0 <= i < old(self).env().types[typeidx as int].0.len() ==> (
                #[trigger] old(self).env().locals[i]).0 == 1,
            old(self).state() == (State {
                bwd: ReverseFunctionView { body: Seq::empty(), ..old(self).state().bwd },
                ..old(self).state()
            }),
        ensures
            final(self).wf(),
            final(self).env() == old(self).env(),
            final(self).state() == (State {
                bwd: ReverseFunctionView {
                    body: old(self).env().param_adjoints(
                        old(self).env().types[typeidx as int].0.len(),
                        old(self).env().types[typeidx as int].0.len(),
                    ),
                    ..old(self).state().bwd
                },
                ..old(self).state()
            }),
    {
        let ghost env = self.env();
        let ghost entries = env.locals;
        let num_params = self.type_sigs.params(typeidx).len();
        assert(env.param_adjoints(num_params as nat, 0) =~= Seq::<u8>::empty());
        let mut k: usize = 0;
        while k < num_params
            invariant
                k <= num_params,
                num_params == env.types[typeidx as int].0.len(),
                num_params <= entries.len(),
                entries == env.locals,
                forall|i: int| 0 <= i < num_params ==> (#[trigger] entries[i]).0 == 1,
                self.wf(),
                self.env() == env,
                self.state() == (State {
                    bwd: ReverseFunctionView {
                        body: env.param_adjoints(num_params as nat, k as nat),
                        ..old(self).state().bwd
                    },
                    ..old(self).state()
                }),
            decreases num_params - k,
        {
            let i = num_params - 1 - k;
            proof {
                lemma_keys_upto_params(entries, num_params as int, i + 1);
                crate::util::lemma_keys_upto_monotone(
                    entries,
                    num_params as int,
                    entries.len() as int,
                );
                lemma_keys_upto_params(entries, num_params as int, num_params as int);
            }
            let found = self.local(i as u32);
            match found {
                Ok((ty, j)) => {
                    // Integer parameters disappear in the backward pass.
                    if ty.is_float() {
                        let get = list1(Instruction::LocalGet(j));
                        self.emit_bwd(get.as_slice());
                    } else {
                        assert(env.param_adjoints(num_params as nat, (k + 1) as nat)
                            =~= env.param_adjoints(num_params as nat, k as nat));
                    }
                },
                Err(_) => {
                    assert(env.param_adjoints(num_params as nat, (k + 1) as nat)
                        =~= env.param_adjoints(num_params as nat, k as nat));
                },
            }
            k += 1;
        }
    }

    /// Process the instructions of the function one after the other.
    pub fn run(&mut self, ops: &[Instruction]) -> (r: Result<(), Error>)
        requires
            old(self).wf(),
        ensures
            match old(self).env().run(old(self).state(), ops@, ops@.len()) {
                Ok(state) => r is Ok && final(self).wf() && final(self).env() == old(self).env()
                    && final(self).state() == state,
                Err(e) => r == Err::<(), Error>(e),
            },
    {
        let ghost env = self.env();
        let ghost start = self.state();
        let mut n: usize = 0;
        while n < ops.len()
            invariant
                n <= ops@.len(),
                env == old(self).env(),
                start == old(self).state(),
                self.wf(),
                self.env() == env,
                env.run(start, ops@, n as nat) == Ok::<State, Error>(self.state()),
            decreases ops@.len() - n,
        {
            match self.instruction(ops[n]) {
                Ok(()) => {},
                Err(e) => {
                    proof {
                        env.lemma_run_err(start, ops@, (n + 1) as nat, ops@.len());
                    }
                    return Err(e);
                },
            }
            n += 1;
        }
        Ok(())
    }

    /// End the transformation of a function of type `typeidx`: with what is kept of the function
    /// come the instructions of the forward pass and the body of the backward pass.
    ///
    /// Once a basic block is closed, this fails only where something is too large: the records
    /// of the basic blocks are never at odds with one another.
    pub fn finish(self, typeidx: u32) -> (r: Result<(FunctionInfo, Vec<u8>, Vec<u8>), Error>)
        requires
            self.wf(),
        ensures
            self.state().bwd.basic_blocks.len() > 0 ==> crate::backward::at_most_too_large(
                self.state().bwd.raw_body(self.state().operand_stack),
            ),
            match self.state().bwd.raw_body(self.state().operand_stack) {
                Ok(bwd) => {
                    &&& r is Ok
                    &&& r->Ok_0.0.typeidx == typeidx
                    &&& r->Ok_0.0.locals.wf()
                    &&& r->Ok_0.0.locals.type_map() == spec_type_map()
                    &&& r->Ok_0.0.locals.entries() == self.env().locals
                    &&& r->Ok_0.0.stack_locals == self.state().bwd.max_stack_values
                    &&& r->Ok_0.0.branch_locals == self.state().bwd.max_branch_values
                    &&& r->Ok_0.1@ == self.state().fwd
                    &&& r->Ok_0.2@ == bwd
                },
                Err(e) => r == Err::<(FunctionInfo, Vec<u8>, Vec<u8>), Error>(e),
            },
    {
        proof {
            if self.state().bwd.basic_blocks.len() > 0 {
                self.state().bwd.lemma_raw_body_errors(self.state().operand_stack);
            }
        }
        let Func { locals, operand_stack, fwd, bwd, .. } = self;
        let info = FunctionInfo {
            typeidx,
            locals,
            stack_locals: bwd.max_stack_values(),
            branch_locals: bwd.max_branch_values(),
        };
        let bwd_body = match bwd.into_raw_body(operand_stack.as_slice()) {
            Ok(body) => body,
            Err(e) => {
                return Err(e);
            },
        };
        Ok((info, fwd, bwd_body))
    }
}

/// Transform one function of a module into its forward pass and its backward pass.
///
/// The instructions are gone through once. Each writes to both passes; the backward pass is
/// put together from its basic blocks at the end.
pub fn function<'a>(
    type_sigs: &'a FuncTypes,
    num_imports: NumImports,
    func_types: &'a [u32],
    funcidx: u32,
    body: &crate::module::FunctionBody,
) -> (r: Result<(FunctionInfo, Vec<u8>, Vec<u8>), Error>)
    requires
        type_sigs.wf(),
        tables_fit(type_sigs@, num_imports, func_types@),
        funcidx < func_types@.len(),
    ensures
        match spec_function(
            type_sigs@,
            num_imports,
            func_types@,
            funcidx,
            body.locals@,
            body.operators@,
        ) {
            Ok(transformed) => {
                &&& r is Ok
                &&& r->Ok_0.0.typeidx == func_types@[funcidx as int]
                &&& r->Ok_0.0.locals.wf()
                &&& r->Ok_0.0.locals.type_map() == spec_type_map()
                &&& r->Ok_0.0.locals.entries() == function_locals(
                    type_sigs@[func_types@[funcidx as int] as int].0,
                    body.locals@,
                )
                &&& r->Ok_0.0.stack_locals == transformed.stack_locals
                &&& r->Ok_0.0.branch_locals == transformed.branch_locals
                &&& r->Ok_0.1@ == transformed.fwd
                &&& r->Ok_0.2@ == transformed.bwd
            },
            Err(e) => r == Err::<(FunctionInfo, Vec<u8>, Vec<u8>), Error>(e),
        },
{
    let (mut func, mut fwd_body) = match Func::new(
        type_sigs,
        num_imports,
        func_types,
        funcidx,
        body.locals.as_slice(),
    ) {
        Ok(begun) => begun,
        Err(e) => {
            return Err(e);
        },
    };
    match func.run(body.operators.as_slice()) {
        Ok(()) => {},
        Err(e) => {
            return Err(e);
        },
    }
    let (info, mut fwd, bwd) = match func.finish(func_types[funcidx as usize]) {
        Ok(done) => done,
        Err(e) => {
            return Err(e);
        },
    };
    fwd_body.append(&mut fwd);
    Ok((info, fwd_body, bwd))
}

/// The first entries, each of one local, hold as many locals as they are.
proof fn lemma_keys_upto_params(entries: Seq<(u32, ValType)>, num_params: int, n: int)
    requires
        0 <= n <= num_params <= entries.len(),
        forall|i: int| 0 <= i < num_params ==> (#[trigger] entries[i]).0 == 1,
    ensures
        keys_upto(entries, n) == n,
    decreases n,
{
    if n > 0 {
        lemma_keys_upto_params(entries, num_params, n - 1);
    }
}

} // verus!
