//! The backward pass of one function while it is built: its locals, its bytes, and the table of
//! basic blocks from which the dispatch loop is made at the end.

use vstd::prelude::*;

use crate::bytes::{extend, reverse_from};
use crate::error::{Error, Malformed};
use crate::helper::{FuncOffsets, NumImports, OFFSET_TYPES, TYPE_DISPATCH};
use crate::instruction::{encode_all, encoding_of, Instruction};
use crate::leb128;
use crate::stack::{count_of, heights, heights_of, StackHeight};
use crate::util::{BlockType, ValType};

verus! {

/// The most basic blocks that a function may have for every block index to be a 32-bit constant.
pub const MAX_BASIC_BLOCKS: usize = 0x7FFF_FFFF;

/// The locals of a function in their compact binary form, with their number.
pub struct Locals {
    blocks: u32,
    count: u32,
    bytes: Vec<u8>,
}

/// What a [`Locals`] holds.
pub struct LocalsView {
    /// The number of entries written.
    pub blocks: u32,
    /// The number of locals, parameters included.
    pub count: u32,
    /// The entries written, each a count and a type.
    pub bytes: Seq<u8>,
}

impl LocalsView {
    /// The state after an entry of `count` locals of type `ty` is written.
    pub open spec fn locals(self, count: u32, ty: ValType) -> LocalsView {
        LocalsView {
            blocks: (self.blocks + 1) as u32,
            count: (self.count + count) as u32,
            bytes: self.bytes + leb128::unsigned(count as nat) + seq![ty.spec_code()],
        }
    }

    /// Whether one more entry of `count` locals can be counted with 32 bits.
    pub open spec fn has_room(self, count: u32) -> bool {
        self.blocks < u32::MAX && self.count + count <= u32::MAX
    }
}

impl View for Locals {
    type V = LocalsView;

    closed spec fn view(&self) -> LocalsView {
        LocalsView { blocks: self.blocks, count: self.count, bytes: self.bytes@ }
    }
}

impl Locals {
    /// No locals yet, in a function of `params` parameters.
    pub fn new(params: u32) -> (r: Self)
        ensures
            r@ == (LocalsView { blocks: 0, count: params, bytes: Seq::empty() }),
    {
        Self { blocks: 0, count: params, bytes: Vec::new() }
    }

    pub fn blocks(&self) -> (r: u32)
        ensures
            r == self@.blocks,
    {
        self.blocks
    }

    pub fn count(&self) -> (r: u32)
        ensures
            r == self@.count,
    {
        self.count
    }

    /// Write an entry of `count` locals of type `ty`.
    pub fn locals(&mut self, count: u32, ty: ValType)
        requires
            old(self)@.has_room(count),
        ensures
            final(self)@ == old(self)@.locals(count, ty),
    {
        leb128::write_u32(&mut self.bytes, count);
        self.bytes.push(ty.code());
        self.blocks += 1;
        self.count += count;
        assert(self.bytes@ =~= old(self).bytes@ + leb128::unsigned(count as nat) + seq![
            ty.spec_code(),
        ]);
    }

    /// Write an entry of one local of type `ty` and return the local's index.
    pub fn local(&mut self, ty: ValType) -> (r: u32)
        requires
            old(self)@.has_room(1),
        ensures
            r == old(self)@.count,
            final(self)@ == old(self)@.locals(1, ty),
    {
        let i = self.count;
        self.locals(1, ty);
        i
    }

    pub fn bytes(&self) -> (r: &[u8])
        ensures
            r@ == self@.bytes,
    {
        self.bytes.as_slice()
    }
}

/// What the backward pass records of one basic block of the source function.
#[derive(Clone, Copy, Debug)]
pub struct BasicBlock {
    /// Offset of the first body instruction byte for this basic block.
    pub start_offset: u32,
    /// Start index of the list of the types of operands that were on the stack before this basic
    /// block but popped from the stack during this basic block.
    pub stack_start_offset: u32,
    /// Start index of the list of the types of operands on the stack after this basic block that
    /// were pushed to the stack during this basic block.
    pub stack_end_offset: u32,
    /// Stack heights at the end of this basic block.
    pub stack_height_end: StackHeight,
    /// Number of values on the top of the stack at the start of this basic block that could have
    /// come from a branch instruction.
    pub branch_start_count: u32,
    /// Number of values on the top of the stack at the end of this basic block that could have
    /// come from a branch instruction, from the perspective of the following block.
    pub branch_end_count: u32,
}

/// The backward pass under construction.
pub struct ReverseFunction {
    num_imports: NumImports,
    helper_types: u32,
    locals: Locals,
    body: Vec<u8>,
    stacks: Vec<ValType>,
    basic_blocks: Vec<BasicBlock>,
    block_start_offset: usize,
    block_stack_offset: usize,
    branch_start_count: u32,
    max_stack_values: StackHeight,
    max_branch_values: StackHeight,
}

/// What a [`ReverseFunction`] holds.
pub struct ReverseFunctionView {
    pub num_imports: NumImports,
    /// The index of the first helper type.
    pub helper_types: u32,
    pub locals: LocalsView,
    /// The bytes of the blocks that are closed, each with its instructions in the order in which
    /// they will run, and then those of the open block, each written backwards.
    pub body: Seq<u8>,
    /// For each closed block the types that it popped from below its entry stack, top first, and
    /// then the types that it left on the stack, bottom first; for the open block the types popped
    /// from below so far.
    pub stacks: Seq<ValType>,
    pub basic_blocks: Seq<BasicBlock>,
    /// Where the bytes of the open block start.
    pub block_start_offset: nat,
    /// Where the types of the open block start.
    pub block_stack_offset: nat,
    /// The branch values at the start of the open block.
    pub branch_start_count: u32,
    /// The most values of each type that stood below the branch values where a block closed.
    pub max_stack_values: StackHeight,
    /// The most branch values of each type where a block closed.
    pub max_branch_values: StackHeight,
}

impl ReverseFunctionView {
    /// Where the bytes of the closed block `i` end: where those of the next block start.
    pub open spec fn body_end(self, i: int) -> int {
        if i + 1 < self.basic_blocks.len() {
            self.basic_blocks[i + 1].start_offset as int
        } else {
            self.block_start_offset as int
        }
    }

    /// Where the types of the closed block `i` end: where those of the next block start.
    pub open spec fn stack_end(self, i: int) -> int {
        if i + 1 < self.basic_blocks.len() {
            self.basic_blocks[i + 1].stack_start_offset as int
        } else {
            self.block_stack_offset as int
        }
    }

    /// The types of the values that the closed block `i` left on the stack.
    pub open spec fn end_types(self, i: int) -> Seq<ValType> {
        self.stacks.subrange(self.basic_blocks[i].stack_end_offset as int, self.stack_end(i))
    }

    /// The offsets lie within the buffers and do not decrease from block to block, and the table
    /// can be indexed with 32 bits.
    pub open spec fn wf(self) -> bool {
        &&& self.block_start_offset <= self.body.len()
        &&& self.block_stack_offset <= self.stacks.len()
        &&& self.basic_blocks.len() <= MAX_BASIC_BLOCKS
        &&& self.num_imports.func <= crate::helper::MAX_IMPORTS
        &&& self.helper_types + OFFSET_TYPES <= u32::MAX
        &&& forall|i: int|
            0 <= i < self.basic_blocks.len() ==> {
                &&& (#[trigger] self.basic_blocks[i]).start_offset <= self.body_end(i)
                    <= self.block_start_offset
                &&& self.basic_blocks[i].stack_start_offset <= self.basic_blocks[i].stack_end_offset
                    <= self.stack_end(i) <= self.block_stack_offset
            }
    }

    /// The values that each closed block left on the stack are among those that its heights
    /// count.
    pub open spec fn counted(self) -> bool {
        &&& self.block_stack_offset <= u32::MAX
        &&& forall|i: int|
            0 <= i < self.basic_blocks.len() ==> heights(#[trigger] self.end_types(i)).le(
                self.basic_blocks[i].stack_height_end,
            )
    }

    /// The state after the instructions `code` are written: their bytes stand reversed at the
    /// end of the open block.
    pub open spec fn instructions(self, code: Seq<Instruction>) -> Self {
        ReverseFunctionView { body: self.body + encoding_of(code).reverse(), ..self }
    }

    /// The state after one more type is recorded as popped from below the open block.
    pub open spec fn deepen_stack(self, ty: ValType) -> Self {
        ReverseFunctionView { stacks: self.stacks.push(ty), ..self }
    }

    /// The branch values among `stack_end`: its top `branch_end_count` values.
    pub open spec fn branch_values(stack_end: Seq<ValType>, branch_end_count: u32) -> Seq<ValType> {
        stack_end.subrange(stack_end.len() - branch_end_count, stack_end.len() as int)
    }

    /// Whether the open block can be closed with these values.
    pub open spec fn can_split(
        self,
        stack_end: Seq<ValType>,
        stack_height_end: StackHeight,
        branch_end_count: u32,
    ) -> bool {
        &&& self.body.len() <= u32::MAX
        &&& self.stacks.len() + stack_end.len() <= u32::MAX
        &&& self.basic_blocks.len() < MAX_BASIC_BLOCKS
        &&& branch_end_count <= stack_end.len()
        &&& heights(Self::branch_values(stack_end, branch_end_count)).le(stack_height_end)
        &&& heights(stack_end).le(stack_height_end)
    }

    /// The state after the open block is closed and the next one opened.
    ///
    /// The bytes of the block are reversed as a whole, which sets each instruction right again
    /// and puts the instructions in the opposite order. The block is entered in the table with
    /// the types `stack_end` that it leaves on the stack, and the running maxima take in the
    /// heights at its end.
    pub open spec fn split_basic_block(
        self,
        stack_end: Seq<ValType>,
        stack_height_end: StackHeight,
        branch_end_count: u32,
        branch_start_count: u32,
    ) -> Self {
        let branch = heights(Self::branch_values(stack_end, branch_end_count));
        ReverseFunctionView {
            body: self.body.subrange(0, self.block_start_offset as int) + self.body.subrange(
                self.block_start_offset as int,
                self.body.len() as int,
            ).reverse(),
            stacks: self.stacks + stack_end,
            basic_blocks: self.basic_blocks.push(
                BasicBlock {
                    start_offset: self.block_start_offset as u32,
                    stack_start_offset: self.block_stack_offset as u32,
                    stack_end_offset: self.stacks.len() as u32,
                    stack_height_end,
                    branch_start_count: self.branch_start_count,
                    branch_end_count,
                },
            ),
            block_start_offset: self.body.len(),
            block_stack_offset: self.stacks.len() + stack_end.len(),
            branch_start_count,
            max_stack_values: self.max_stack_values.spec_max(stack_height_end.spec_sub(branch)),
            max_branch_values: self.max_branch_values.spec_max(branch),
            ..self
        }
    }
}

impl ReverseFunctionView {
    /// What is written to the open block leaves the values of the closed blocks counted.
    pub proof fn lemma_counted_prefix(self, after: ReverseFunctionView)
        requires
            self.wf(),
            self.counted(),
            after.basic_blocks == self.basic_blocks,
            after.block_stack_offset == self.block_stack_offset,
            self.stacks.len() <= after.stacks.len(),
            after.stacks.take(self.stacks.len() as int) == self.stacks,
        ensures
            after.counted(),
    {
        assert forall|i: int| 0 <= i < after.basic_blocks.len() implies heights(
            #[trigger] after.end_types(i),
        ).le(after.basic_blocks[i].stack_height_end) by {
            assert(self.basic_blocks[i].stack_end_offset <= self.stack_end(i) <= self.stacks.len());
            assert(after.stack_end(i) == self.stack_end(i));
            assert(after.end_types(i) =~= self.end_types(i)) by {
                assert forall|j: int| 0 <= j < self.stacks.len() implies after.stacks[j]
                    == self.stacks[j] by {
                    assert(after.stacks.take(self.stacks.len() as int)[j] == after.stacks[j]);
                }
            }
        }
    }

    /// Closing a block keeps the values of every closed block counted.
    pub proof fn lemma_split_counted(
        self,
        stack_end: Seq<ValType>,
        stack_height_end: StackHeight,
        branch_end_count: u32,
        branch_start_count: u32,
    )
        requires
            self.wf(),
            self.can_split(stack_end, stack_height_end, branch_end_count),
            self.counted(),
        ensures
            self.split_basic_block(
                stack_end,
                stack_height_end,
                branch_end_count,
                branch_start_count,
            ).counted(),
    {
        let after = self.split_basic_block(
            stack_end,
            stack_height_end,
            branch_end_count,
            branch_start_count,
        );
        let n = self.basic_blocks.len() as int;
        assert forall|i: int| 0 <= i < after.basic_blocks.len() implies heights(
            #[trigger] after.end_types(i),
        ).le(after.basic_blocks[i].stack_height_end) by {
            if i < n {
                assert(after.basic_blocks[i] == self.basic_blocks[i]);
                assert(after.stack_end(i) == self.stack_end(i));
                assert(after.end_types(i) =~= self.end_types(i));
            } else {
                assert(after.end_types(i) =~= stack_end);
            }
        }
    }
}

impl View for ReverseFunction {
    type V = ReverseFunctionView;

    closed spec fn view(&self) -> ReverseFunctionView {
        ReverseFunctionView {
            num_imports: self.num_imports,
            helper_types: self.helper_types,
            locals: self.locals@,
            body: self.body@,
            stacks: self.stacks@,
            basic_blocks: self.basic_blocks@,
            block_start_offset: self.block_start_offset as nat,
            block_stack_offset: self.block_stack_offset as nat,
            branch_start_count: self.branch_start_count,
            max_stack_values: self.max_stack_values,
            max_branch_values: self.max_branch_values,
        }
    }
}

impl ReverseFunction {
    /// An empty backward pass, for a function whose backward pass takes `params` parameters, in
    /// a module whose helper types begin at `helper_types`.
    pub fn new(num_imports: NumImports, helper_types: u32, params: u32) -> (r: Self)
        requires
            num_imports.func <= crate::helper::MAX_IMPORTS,
            helper_types + OFFSET_TYPES <= u32::MAX,
        ensures
            r@.wf(),
            r@ == (ReverseFunctionView {
                num_imports,
                helper_types,
                locals: LocalsView { blocks: 0, count: params, bytes: Seq::empty() },
                body: Seq::empty(),
                stacks: Seq::empty(),
                basic_blocks: Seq::empty(),
                block_start_offset: 0,
                block_stack_offset: 0,
                branch_start_count: 0,
                max_stack_values: StackHeight::zero(),
                max_branch_values: StackHeight::zero(),
            }),
    {
        Self {
            num_imports,
            helper_types,
            locals: Locals::new(params),
            body: Vec::new(),
            stacks: Vec::new(),
            basic_blocks: Vec::new(),
            block_start_offset: 0,
            block_stack_offset: 0,
            branch_start_count: 0,
            max_stack_values: StackHeight::new(),
            max_branch_values: StackHeight::new(),
        }
    }

    /// Declare `count` locals of type `ty`.
    pub fn locals(&mut self, count: u32, ty: ValType)
        requires
            old(self)@.locals.has_room(count),
        ensures
            final(self)@ == (ReverseFunctionView {
                locals: old(self)@.locals.locals(count, ty),
                ..old(self)@
            }),
    {
        self.locals.locals(count, ty);
    }

    /// Declare one local of type `ty` and return its index.
    pub fn local(&mut self, ty: ValType) -> (r: u32)
        requires
            old(self)@.locals.has_room(1),
        ensures
            r == old(self)@.locals.count,
            final(self)@ == (ReverseFunctionView {
                locals: old(self)@.locals.locals(1, ty),
                ..old(self)@
            }),
    {
        self.locals.local(ty)
    }

    /// Extend the portion of the stack used by the current basic block.
    pub fn deepen_stack(&mut self, ty: ValType)
        ensures
            final(self)@ == old(self)@.deepen_stack(ty),
            old(self)@.wf() && old(self)@.counted() ==> final(self)@.counted(),
    {
        self.stacks.push(ty);
        proof {
            if old(self)@.wf() && old(self)@.counted() {
                assert(self@.stacks.take(old(self)@.stacks.len() as int) =~= old(self)@.stacks);
                old(self)@.lemma_counted_prefix(self@);
            }
        }
    }

    /// Write instructions of the open block. Their bytes are appended and then reversed, so that
    /// the reversal of the whole block sets them right.
    pub fn instructions(&mut self, code: &[Instruction])
        ensures
            final(self)@ == old(self)@.instructions(code@),
            old(self)@.wf() && old(self)@.counted() ==> final(self)@.counted(),
    {
        let n = self.body.len();
        encode_all(code, &mut self.body);
        reverse_from(&mut self.body, n);
        assert(self.body@ =~= old(self).body@ + encoding_of(code@).reverse());
        proof {
            if old(self)@.wf() && old(self)@.counted() {
                assert(self@.stacks.take(old(self)@.stacks.len() as int) =~= old(self)@.stacks);
                old(self)@.lemma_counted_prefix(self@);
            }
        }
    }

    /// The index that the open block will have in the table.
    pub fn basic_block_index(&self) -> (r: i32)
        requires
            self@.wf(),
        ensures
            r == self@.basic_blocks.len(),
    {
        self.basic_blocks.len() as i32
    }

    /// The running maximum of the values below the branch values.
    pub fn max_stack_values(&self) -> (r: StackHeight)
        ensures
            r == self@.max_stack_values,
    {
        self.max_stack_values
    }

    /// The running maximum of the branch values.
    pub fn max_branch_values(&self) -> (r: StackHeight)
        ensures
            r == self@.max_branch_values,
    {
        self.max_branch_values
    }

    /// Whether the buffers and the table leave room to close the open block with `extra` more
    /// types.
    pub fn has_room(&self, extra: usize) -> (r: bool)
        ensures
            r == (self@.body.len() <= u32::MAX && self@.stacks.len() + extra <= u32::MAX
                && self@.basic_blocks.len() < MAX_BASIC_BLOCKS),
    {
        self.body.len() <= u32::MAX as usize && self.stacks.len() <= u32::MAX as usize && extra
            <= u32::MAX as usize - self.stacks.len() && self.basic_blocks.len()
            < MAX_BASIC_BLOCKS
    }

    /// Close the open basic block and open the next one.
    pub fn split_basic_block(
        &mut self,
        stack_end: &[ValType],
        stack_height_end: StackHeight,
        branch_end_count: u32,
        branch_start_count: u32,
    )
        requires
            old(self)@.wf(),
            old(self)@.can_split(stack_end@, stack_height_end, branch_end_count),
        ensures
            final(self)@.wf(),
            final(self)@ == old(self)@.split_basic_block(
                stack_end@,
                stack_height_end,
                branch_end_count,
                branch_start_count,
            ),
            old(self)@.counted() ==> final(self)@.counted(),
    {
        proof {
            if old(self)@.counted() {
                old(self)@.lemma_split_counted(
                    stack_end@,
                    stack_height_end,
                    branch_end_count,
                    branch_start_count,
                );
            }
        }
        reverse_from(&mut self.body, self.block_start_offset);
        let stack_end_offset = self.stacks.len() as u32;
        extend(&mut self.stacks, stack_end);
        self.basic_blocks.push(
            BasicBlock {
                start_offset: self.block_start_offset as u32,
                stack_start_offset: self.block_stack_offset as u32,
                stack_end_offset,
                stack_height_end,
                branch_start_count: self.branch_start_count,
                branch_end_count,
            },
        );
        self.block_start_offset = self.body.len();
        self.block_stack_offset = self.stacks.len();
        self.branch_start_count = branch_start_count;
        let top = vstd::slice::slice_subrange(
            stack_end,
            stack_end.len() - branch_end_count as usize,
            stack_end.len(),
        );
        let branch_values = heights_of(top);
        // The running maximum of the stack values leaves out the branch values at the top of the
        // stack, which have locals of their own.
        self.max_stack_values.take_max(stack_height_end.sub(branch_values));
        self.max_branch_values.take_max(branch_values);
    }
}

/// Where the backward pass keeps the values that cross a block boundary: the locals for the
/// values below the branch values, and behind them the locals for the branch values. In each of
/// the two regions the 32-bit floats come first.
#[derive(Clone, Copy, Debug)]
pub struct Layout {
    pub stack_local_offset: u32,
    pub branch_local_offset: u32,
    pub max_stack_values: StackHeight,
    pub max_branch_values: StackHeight,
}

/// The constant zero of a floating-point type.
pub open spec fn spec_zero_of(ty: ValType) -> Instruction {
    if ty == ValType::F32 {
        Instruction::F32Const(0)
    } else {
        Instruction::F64Const(0)
    }
}

/// The constant zero of a floating-point type.
#[verifier::when_used_as_spec(spec_zero_of)]
pub fn zero_of(ty: ValType) -> (r: Instruction)
    ensures
        r == spec_zero_of(ty),
{
    match ty {
        ValType::F32 => Instruction::F32Const(0),
        _ => Instruction::F64Const(0),
    }
}

impl Layout {
    /// The local `height` places into a region at `offset` whose 32-bit floats number `narrow`;
    /// integers have no local.
    pub open spec fn spec_local_index(offset: u32, narrow: u32, height: StackHeight, ty: ValType)
        -> Result<Option<u32>, Error> {
        if !ty.spec_is_float() {
            Ok(None)
        } else {
            let i = if ty == ValType::F32 {
                height.float32 as int
            } else {
                height.float64 + narrow
            };
            if offset + i <= u32::MAX {
                Ok(Some((offset + i) as u32))
            } else {
                Err(Error::Malformed(Malformed::TooLarge))
            }
        }
    }

    fn local_index(offset: u32, narrow: u32, height: StackHeight, ty: ValType) -> (r: Result<
        Option<u32>,
        Error,
    >)
        ensures
            r == Self::spec_local_index(offset, narrow, height, ty),
    {
        let i = match ty {
            ValType::I32 | ValType::I64 => {
                return Ok(None);
            },
            ValType::F32 => height.float32,
            ValType::F64 => {
                if height.float64 > u32::MAX - narrow {
                    return Err(Error::Malformed(Malformed::TooLarge));
                }
                height.float64 + narrow
            },
        };
        if i > u32::MAX - offset {
            return Err(Error::Malformed(Malformed::TooLarge));
        }
        Ok(Some(offset + i))
    }

    /// The local for a value of type `ty` that has `stack_values` below it.
    pub open spec fn spec_stack_local_index(self, stack_values: StackHeight, ty: ValType)
        -> Result<Option<u32>, Error> {
        Self::spec_local_index(
            self.stack_local_offset,
            self.max_stack_values.float32,
            stack_values,
            ty,
        )
    }

    pub fn stack_local_index(&self, stack_values: StackHeight, ty: ValType) -> (r: Result<
        Option<u32>,
        Error,
    >)
        ensures
            r == self.spec_stack_local_index(stack_values, ty),
    {
        Self::local_index(self.stack_local_offset, self.max_stack_values.float32, stack_values, ty)
    }

    /// The local for a branch value of type `ty` that comes after `branch_values`.
    pub open spec fn spec_branch_local_index(self, branch_values: StackHeight, ty: ValType)
        -> Result<Option<u32>, Error> {
        Self::spec_local_index(
            self.branch_local_offset,
            self.max_branch_values.float32,
            branch_values,
            ty,
        )
    }

    pub fn branch_local_index(&self, branch_values: StackHeight, ty: ValType) -> (r: Result<
        Option<u32>,
        Error,
    >)
        ensures
            r == self.spec_branch_local_index(branch_values, ty),
    {
        Self::local_index(
            self.branch_local_offset,
            self.max_branch_values.float32,
            branch_values,
            ty,
        )
    }
}

/// Which side of a basic block the values are moved at.
#[derive(Clone, Copy, Debug, PartialEq, Eq, Structural)]
pub enum Side {
    /// Before the block runs backwards: the adjoints of what the block left on the stack come
    /// out of their locals, which are set to zero.
    Load,
    /// After the block has run backwards: the adjoints of what the block took from the stack go
    /// into their locals.
    Store,
}

/// How far a walk over the types of one side of a block has come.
pub struct Walk {
    /// The heights of the values that have no local yet.
    pub stack_values: StackHeight,
    /// The heights of the branch values met.
    pub branch_values: StackHeight,
    /// For each type met, its local.
    pub slots: Seq<Option<u32>>,
}

impl Layout {
    /// One step of a walk: the local for a value of type `ty`. The first `branch_count` values
    /// met are branch values. When loading, the value is first taken from the heights; when
    /// storing, it is added to them afterwards.
    pub open spec fn step(self, side: Side, branch_count: u32, walk: Walk, ty: ValType) -> Result<
        Walk,
        Error,
    > {
        if side == Side::Load && walk.stack_values.spec_get(ty) == 0 {
            Err(Error::Malformed(Malformed::OperandStack))
        } else if side == Side::Store && walk.stack_values.spec_get(ty) == u32::MAX {
            Err(Error::Malformed(Malformed::TooLarge))
        } else {
            let below = if side == Side::Load {
                walk.stack_values.spec_pop(ty)
            } else {
                walk.stack_values
            };
            let after = if side == Side::Load {
                below
            } else {
                below.spec_push(ty)
            };
            if walk.branch_values.spec_sum() < branch_count {
                match self.spec_branch_local_index(walk.branch_values, ty) {
                    Ok(slot) => Ok(
                        Walk {
                            stack_values: after,
                            branch_values: walk.branch_values.spec_push(ty),
                            slots: walk.slots.push(slot),
                        },
                    ),
                    Err(e) => Err(e),
                }
            } else {
                match self.spec_stack_local_index(below, ty) {
                    Ok(slot) => Ok(
                        Walk {
                            stack_values: after,
                            branch_values: walk.branch_values,
                            slots: walk.slots.push(slot),
                        },
                    ),
                    Err(e) => Err(e),
                }
            }
        }
    }

    /// The walk over the last `k` of `types`, from the last one backwards, or the first error on
    /// the way.
    pub open spec fn walk(
        self,
        side: Side,
        branch_count: u32,
        stack_values: StackHeight,
        types: Seq<ValType>,
        k: nat,
    ) -> Result<Walk, Error>
        decreases k,
    {
        if k == 0 {
            Ok(Walk { stack_values, branch_values: StackHeight::zero(), slots: Seq::empty() })
        } else {
            match self.walk(side, branch_count, stack_values, types, (k - 1) as nat) {
                Ok(walk) => self.step(side, branch_count, walk, types[types.len() - k]),
                Err(e) => Err(e),
            }
        }
    }
}

/// The instructions that move one value between the stack and its local.
pub open spec fn slot_code(side: Side, ty: ValType, slot: Option<u32>) -> Seq<Instruction> {
    match slot {
        None => Seq::empty(),
        Some(i) => if side == Side::Load {
            seq![Instruction::LocalGet(i), spec_zero_of(ty), Instruction::LocalSet(i)]
        } else {
            seq![Instruction::LocalSet(i)]
        },
    }
}

/// The instructions for the last `k` of `types`, in the order of `types`, where `slots` holds
/// the locals in the order of the walk.
pub open spec fn slots_code(side: Side, types: Seq<ValType>, slots: Seq<Option<u32>>, k: nat)
    -> Seq<Instruction>
    decreases k,
{
    if k == 0 {
        Seq::empty()
    } else {
        slot_code(side, types[types.len() - k], slots[k - 1]) + slots_code(
            side,
            types,
            slots,
            (k - 1) as nat,
        )
    }
}

impl Layout {
    /// A walk that has met an error keeps it however far it goes on.
    pub proof fn lemma_walk_err(
        self,
        side: Side,
        branch_count: u32,
        stack_values: StackHeight,
        types: Seq<ValType>,
        k: nat,
        n: nat,
    )
        requires
            k <= n,
            self.walk(side, branch_count, stack_values, types, k) is Err,
        ensures
            self.walk(side, branch_count, stack_values, types, n) == self.walk(
                side,
                branch_count,
                stack_values,
                types,
                k,
            ),
        decreases n,
    {
        if k < n {
            self.lemma_walk_err(side, branch_count, stack_values, types, k, (n - 1) as nat);
        }
    }

    /// Append to `sink` the instructions that move the values of `types` between the stack and
    /// their locals, and return the heights left at the end of the walk.
    pub fn transfer(
        &self,
        side: Side,
        branch_count: u32,
        stack_values: StackHeight,
        types: &[ValType],
        sink: &mut Vec<u8>,
    ) -> (r: Result<StackHeight, Error>)
        ensures
            match self.walk(side, branch_count, stack_values, types@, types@.len()) {
                Ok(walk) => r == Ok::<StackHeight, Error>(walk.stack_values) && final(sink)@ == old(
                    sink,
                )@ + encoding_of(slots_code(side, types@, walk.slots, types@.len())),
                Err(e) => r == Err::<StackHeight, Error>(e),
            },
    {
        let n = types.len();
        let mut remaining = stack_values;
        let mut branch_values = StackHeight::new();
        let mut slots: Vec<Option<u32>> = Vec::new();
        let mut k: usize = 0;
        while k < n
            invariant
                n == types@.len(),
                k <= n,
                branch_values.spec_sum() <= branch_count,
                slots@.len() == k,
                self.walk(side, branch_count, stack_values, types@, k as nat) == Ok::<
                    Walk,
                    Error,
                >(Walk { stack_values: remaining, branch_values, slots: slots@ }),
            decreases n - k,
        {
            let ty = types[n - 1 - k];
            let ghost before = Walk { stack_values: remaining, branch_values, slots: slots@ };
            assert(self.walk(side, branch_count, stack_values, types@, (k + 1) as nat)
                == self.step(side, branch_count, before, ty));
            let below = match side {
                Side::Load => {
                    if *remaining.get(ty) == 0 {
                        proof {
                            self.lemma_walk_err(
                                side,
                                branch_count,
                                stack_values,
                                types@,
                                (k + 1) as nat,
                                n as nat,
                            );
                        }
                        return Err(Error::Malformed(Malformed::OperandStack));
                    }
                    remaining.pop(ty);
                    remaining
                },
                Side::Store => {
                    if *remaining.get(ty) == u32::MAX {
                        proof {
                            self.lemma_walk_err(
                                side,
                                branch_count,
                                stack_values,
                                types@,
                                (k + 1) as nat,
                                n as nat,
                            );
                        }
                        return Err(Error::Malformed(Malformed::TooLarge));
                    }
                    let below = remaining;
                    remaining.push(ty);
                    below
                },
            };
            let found = if branch_values.sum() < branch_count {
                let found = self.branch_local_index(branch_values, ty);
                if found.is_ok() {
                    branch_values.push(ty);
                }
                found
            } else {
                self.stack_local_index(below, ty)
            };
            match found {
                Ok(slot) => {
                    slots.push(slot);
                },
                Err(e) => {
                    proof {
                        self.lemma_walk_err(
                            side,
                            branch_count,
                            stack_values,
                            types@,
                            (k + 1) as nat,
                            n as nat,
                        );
                    }
                    return Err(e);
                },
            }
            k += 1;
        }
        let ghost walk = Walk { stack_values: remaining, branch_values, slots: slots@ };
        let mut k: usize = n;
        while k > 0
            invariant
                n == types@.len(),
                slots@.len() == n,
                k <= n,
                old(sink)@ + encoding_of(slots_code(side, types@, slots@, n as nat)) == sink@
                    + encoding_of(slots_code(side, types@, slots@, k as nat)),
            decreases k,
        {
            let ty = types[n - k];
            let ghost rest = slots_code(side, types@, slots@, (k - 1) as nat);
            let ghost sink_before = sink@;
            match slots[k - 1] {
                None => {
                    assert(slot_code(side, ty, None) + rest =~= rest);
                },
                Some(i) => {
                    match side {
                        Side::Load => {
                            let code = [Instruction::LocalGet(i), zero_of(ty), Instruction::LocalSet(i)];
                            assert(code@ =~= slot_code(side, ty, Some(i)));
                            encode_all(&code, sink);
                        },
                        Side::Store => {
                            let code = [Instruction::LocalSet(i)];
                            assert(code@ =~= slot_code(side, ty, Some(i)));
                            encode_all(&code, sink);
                        },
                    }
                    proof {
                        crate::instruction::lemma_encoding_of_concat(
                            slot_code(side, ty, Some(i)),
                            rest,
                        );
                        assert(sink@ + encoding_of(rest) =~= sink_before + (encoding_of(
                            slot_code(side, ty, Some(i)),
                        ) + encoding_of(rest)));
                    }
                },
            }
            k -= 1;
        }
        assert(sink@ + encoding_of(slots_code(side, types@, slots@, 0)) =~= sink@);
        Ok(remaining)
    }
}

/// The type of the dispatch loop and of the blocks in it, where the helper types begin at
/// `base`.
pub open spec fn spec_dispatch_type(base: u32) -> BlockType {
    BlockType::Func((base + TYPE_DISPATCH) as u32)
}

/// `k` openings of a block of the dispatch type.
pub open spec fn dispatch_blocks(base: u32, k: nat) -> Seq<u8>
    decreases k,
{
    if k == 0 {
        Seq::empty()
    } else {
        dispatch_blocks(base, (k - 1) as nat) + Instruction::Block(
            spec_dispatch_type(base),
        ).encoding()
    }
}

/// The labels `n`, `n - 1`, down to 1, each as an unsigned number.
pub open spec fn labels_down_from(n: nat) -> Seq<u8>
    decreases n,
{
    if n == 0 {
        Seq::empty()
    } else {
        leb128::unsigned(n) + labels_down_from((n - 1) as nat)
    }
}

/// The branch table that sends the block index `i`, from 0 to `n - 1`, to the label `n - i`, and
/// every other index to the label 0.
pub open spec fn dispatch_table(n: nat) -> Seq<u8> {
    seq![0x0Eu8] + leb128::unsigned(n) + labels_down_from(n) + leb128::unsigned(0)
}

impl ReverseFunctionView {
    /// The function index of the helper that pops a block index from the tape.
    pub open spec fn tape_i32_bwd(self) -> u32 {
        (2 * self.num_imports.func + 1) as u32
    }

    /// The bytes of the closed block `i` in the finished function: its values come out of their
    /// locals, its own bytes follow, and the values that it took go into their locals.
    pub open spec fn basic_block(self, layout: Layout, i: int) -> Result<Seq<u8>, Error> {
        let bb = self.basic_blocks[i];
        let end_types = self.end_types(i);
        let start_types = self.stacks.subrange(
            bb.stack_start_offset as int,
            bb.stack_end_offset as int,
        );
        match layout.walk(
            Side::Load,
            bb.branch_end_count,
            bb.stack_height_end,
            end_types,
            end_types.len(),
        ) {
            Err(e) => Err(e),
            Ok(load) => match layout.walk(
                Side::Store,
                bb.branch_start_count,
                load.stack_values,
                start_types,
                start_types.len(),
            ) {
                Err(e) => Err(e),
                Ok(store) => Ok(
                    encoding_of(slots_code(Side::Load, end_types, load.slots, end_types.len()))
                        + self.body.subrange(bb.start_offset as int, self.body_end(i))
                        + encoding_of(
                        slots_code(Side::Store, start_types, store.slots, start_types.len()),
                    ),
                ),
            },
        }
    }

    /// The start of the finished function for the first `k` values that the source function
    /// leaves on the stack: the adjoint of each floating-point result, which arrives as a
    /// parameter, goes into the local of a branch value. With the instructions come the heights
    /// of the results met.
    pub open spec fn prologue(layout: Layout, operand_stack: Seq<ValType>, k: nat) -> Result<
        (Seq<Instruction>, StackHeight),
        Error,
    >
        decreases k,
    {
        if k == 0 {
            Ok((Seq::empty(), StackHeight::zero()))
        } else {
            match Self::prologue(layout, operand_stack, (k - 1) as nat) {
                Err(e) => Err(e),
                Ok((code, values)) => {
                    let ty = operand_stack[k - 1];
                    match layout.spec_branch_local_index(values, ty) {
                        Err(e) => Err(e),
                        Ok(None) => Ok((code, values)),
                        Ok(Some(j)) => Ok(
                            (
                                code + seq![
                                    Instruction::LocalGet(values.spec_sum() as u32),
                                    Instruction::LocalSet(j),
                                ],
                                values.spec_push(ty),
                            ),
                        ),
                    }
                },
            }
        }
    }

    /// The head of the dispatch loop: the index of the block to start with comes off the tape,
    /// and inside the loop one block opens for each basic block and one more for an index that
    /// is none, around the branch table.
    pub open spec fn dispatch_head(self) -> Seq<u8> {
        encoding_of(
            seq![
                Instruction::Call(self.tape_i32_bwd()),
                Instruction::Loop(spec_dispatch_type(self.helper_types)),
            ],
        ) + dispatch_blocks(self.helper_types, self.basic_blocks.len() + 1) + dispatch_table(
            self.basic_blocks.len(),
        )
            + encoding_of(seq![Instruction::End, Instruction::Unreachable])
    }

    /// The basic blocks from the last one down to block `i` as they stand in the dispatch loop:
    /// each closes a block, runs, takes the next index off the tape and branches to the loop.
    pub open spec fn dispatch_tail(self, layout: Layout, i: int) -> Result<Seq<u8>, Error>
        decreases self.basic_blocks.len() - i,
    {
        if i >= self.basic_blocks.len() {
            Ok(Seq::empty())
        } else {
            match self.dispatch_tail(layout, i + 1) {
                Err(e) => Err(e),
                Ok(tail) => match self.basic_block(layout, i) {
                    Err(e) => Err(e),
                    Ok(block) => Ok(
                        tail + encoding_of(seq![Instruction::End]) + block + encoding_of(
                            seq![
                                Instruction::Call(self.tape_i32_bwd()),
                                Instruction::Br(i as u32),
                            ],
                        ),
                    ),
                },
            }
        }
    }

    /// The locals for the values that cross block boundaries, declared after the locals so far.
    pub open spec fn layout(self) -> Layout {
        Layout {
            stack_local_offset: self.locals.count,
            branch_local_offset: (self.locals.count + self.max_stack_values.float32
                + self.max_stack_values.float64) as u32,
            max_stack_values: self.max_stack_values,
            max_branch_values: self.max_branch_values,
        }
    }

    /// The declarations of all locals of the finished function.
    pub open spec fn all_locals(self) -> LocalsView {
        self.locals.locals(self.max_stack_values.float32, ValType::F32).locals(
            self.max_stack_values.float64,
            ValType::F64,
        ).locals(self.max_branch_values.float32, ValType::F32).locals(
            self.max_branch_values.float64,
            ValType::F64,
        )
    }

    /// The backward pass with all locals of the finished function declared.
    pub open spec fn with_all_locals(self) -> Self {
        ReverseFunctionView { locals: self.all_locals(), ..self }
    }

    /// Whether the locals of the finished function can be counted with 32 bits.
    pub open spec fn locals_fit(self) -> bool {
        &&& self.locals.blocks + 4 <= u32::MAX
        &&& self.locals.count + self.max_stack_values.float32 + self.max_stack_values.float64
            + self.max_branch_values.float32 + self.max_branch_values.float64 <= u32::MAX
    }

    /// The body of the finished backward pass, where the source function leaves
    /// `operand_stack` at its end.
    ///
    /// After the locals and the prologue comes the dispatch loop with every basic block but the
    /// first, the last block foremost. The first block, with which the backward pass ends,
    /// stands behind the loop.
    pub open spec fn raw_body(self, operand_stack: Seq<ValType>) -> Result<Seq<u8>, Error> {
        if self.basic_blocks.len() == 0 {
            Err(Error::Malformed(Malformed::ControlStack))
        } else if !self.locals_fit() {
            Err(Error::Malformed(Malformed::TooLarge))
        } else {
            let layout = self.layout();
            let done = self.with_all_locals();
            match Self::prologue(layout, operand_stack, operand_stack.len()) {
                Err(e) => Err(e),
                Ok((prologue, _)) => match done.dispatch_tail(layout, 1) {
                    Err(e) => Err(e),
                    Ok(tail) => match done.basic_block(layout, 0) {
                        Err(e) => Err(e),
                        Ok(first) => Ok(
                            leb128::unsigned(done.locals.blocks as nat) + done.locals.bytes
                                + encoding_of(prologue) + done.dispatch_head() + tail
                                + encoding_of(seq![Instruction::End, Instruction::End]) + first
                                + encoding_of(seq![Instruction::End]),
                        ),
                    },
                },
            }
        }
    }
}

/// The finished backward pass under construction, from a backward pass whose basic blocks are
/// all closed.
pub struct ReverseReverseFunction {
    func: ReverseFunction,
    layout: Layout,
    body: Vec<u8>,
}

/// What a [`ReverseReverseFunction`] holds.
pub struct ReverseReverseFunctionView {
    pub func: ReverseFunctionView,
    pub layout: Layout,
    pub body: Seq<u8>,
}

impl View for ReverseReverseFunction {
    type V = ReverseReverseFunctionView;

    closed spec fn view(&self) -> ReverseReverseFunctionView {
        ReverseReverseFunctionView { func: self.func@, layout: self.layout, body: self.body@ }
    }
}

impl ReverseFunctionView {
    /// An error among the blocks behind block `i` is the error of the whole tail.
    pub proof fn lemma_dispatch_tail_err(self, layout: Layout, j: int, i: int)
        requires
            j <= i,
            self.dispatch_tail(layout, i) is Err,
        ensures
            self.dispatch_tail(layout, j) == self.dispatch_tail(layout, i),
        decreases i - j,
    {
        if j < i {
            self.lemma_dispatch_tail_err(layout, j + 1, i);
            assert(i <= self.basic_blocks.len());
        }
    }

    /// The tail from block `i` on, from the tail behind it and the bytes of block `i`.
    pub proof fn lemma_dispatch_tail_step(self, layout: Layout, i: int)
        requires
            0 <= i < self.basic_blocks.len(),
        ensures
            self.dispatch_tail(layout, i) == match self.dispatch_tail(layout, i + 1) {
                Err(e) => Err::<Seq<u8>, Error>(e),
                Ok(tail) => match self.basic_block(layout, i) {
                    Err(e) => Err::<Seq<u8>, Error>(e),
                    Ok(block) => Ok::<Seq<u8>, Error>(
                        tail + encoding_of(seq![Instruction::End]) + block + encoding_of(
                            seq![
                                Instruction::Call(self.tape_i32_bwd()),
                                Instruction::Br(i as u32),
                            ],
                        ),
                    ),
                },
            },
    {
    }

    /// An error among the first values is the error of the whole prologue.
    pub proof fn lemma_prologue_err(layout: Layout, operand_stack: Seq<ValType>, k: nat, n: nat)
        requires
            k <= n,
            Self::prologue(layout, operand_stack, k) is Err,
        ensures
            Self::prologue(layout, operand_stack, n) == Self::prologue(layout, operand_stack, k),
        decreases n,
    {
        if k < n {
            Self::lemma_prologue_err(layout, operand_stack, k, (n - 1) as nat);
        }
    }
}

impl ReverseReverseFunction {
    /// Append the closed block `index` as it stands in the finished function.
    pub fn basic_block(&mut self, index: usize) -> (r: Result<(), Error>)
        requires
            old(self)@.func.wf(),
            index < old(self)@.func.basic_blocks.len(),
        ensures
            final(self)@.func == old(self)@.func,
            final(self)@.layout == old(self)@.layout,
            match old(self)@.func.basic_block(old(self)@.layout, index as int) {
                Ok(block) => r is Ok && final(self)@.body == old(self)@.body + block,
                Err(e) => r == Err::<(), Error>(e),
            },
    {
        let bb = self.func.basic_blocks[index];
        let body_start = bb.start_offset as usize;
        let stack_start = bb.stack_start_offset as usize;
        let stack_mid = bb.stack_end_offset as usize;
        let (body_end, stack_end) = if index + 1 < self.func.basic_blocks.len() {
            let next = self.func.basic_blocks[index + 1];
            (next.start_offset as usize, next.stack_start_offset as usize)
        } else {
            (self.func.block_start_offset, self.func.block_stack_offset)
        };
        assert(body_end == self.func@.body_end(index as int));
        assert(stack_end == self.func@.stack_end(index as int));
        assert(self.func@.basic_blocks[index as int] == bb);
        // Backwards the block starts where it ended forwards: the adjoints of the values that it
        // left on the stack go there again, bottom first.
        let end_types = vstd::slice::slice_subrange(self.func.stacks.as_slice(), stack_mid, stack_end);
        let stack_values = match self.layout.transfer(
            Side::Load,
            bb.branch_end_count,
            bb.stack_height_end,
            end_types,
            &mut self.body,
        ) {
            Ok(stack_values) => stack_values,
            Err(e) => {
                return Err(e);
            },
        };
        extend(
            &mut self.body,
            vstd::slice::slice_subrange(self.func.body.as_slice(), body_start, body_end),
        );
        // It ends where it started forwards: the adjoints of the values that it took from the
        // stack leave the stack, top first.
        let start_types = vstd::slice::slice_subrange(
            self.func.stacks.as_slice(),
            stack_start,
            stack_mid,
        );
        match self.layout.transfer(
            Side::Store,
            bb.branch_start_count,
            stack_values,
            start_types,
            &mut self.body,
        ) {
            Ok(_) => {},
            Err(e) => {
                return Err(e);
            },
        }
        Ok(())
    }

    /// Append instructions in the order given.
    pub fn instructions(&mut self, code: &[Instruction])
        ensures
            final(self)@ == (ReverseReverseFunctionView {
                body: old(self)@.body + encoding_of(code@),
                ..old(self)@
            }),
    {
        encode_all(code, &mut self.body);
    }

    /// Move the adjoints of the results, which arrive as parameters, into the locals of branch
    /// values.
    pub fn prologue(&mut self, operand_stack: &[ValType]) -> (r: Result<(), Error>)
        requires
            operand_stack@.len() <= u32::MAX,
        ensures
            final(self)@.func == old(self)@.func,
            final(self)@.layout == old(self)@.layout,
            match ReverseFunctionView::prologue(
                old(self)@.layout,
                operand_stack@,
                operand_stack@.len(),
            ) {
                Ok((code, _)) => r is Ok && final(self)@.body == old(self)@.body + encoding_of(code),
                Err(e) => r == Err::<(), Error>(e),
            },
    {
        let ghost start = self@;
        let mut return_values = StackHeight::new();
        let ghost mut prologue: Seq<Instruction> = Seq::empty();
        let mut k: usize = 0;
        assert(self.body@ =~= start.body + encoding_of(prologue));
        while k < operand_stack.len()
            invariant
                k <= operand_stack@.len() <= u32::MAX,
                start == old(self)@,
                self@.func == start.func,
                self@.layout == start.layout,
                return_values.spec_sum() <= k,
                ReverseFunctionView::prologue(start.layout, operand_stack@, k as nat) == Ok::<
                    (Seq<Instruction>, StackHeight),
                    Error,
                >((prologue, return_values)),
                self@.body == start.body + encoding_of(prologue),
            decreases operand_stack@.len() - k,
        {
            let ty = operand_stack[k];
            let ghost next = ReverseFunctionView::prologue(
                start.layout,
                operand_stack@,
                (k + 1) as nat,
            );
            match self.layout.branch_local_index(return_values, ty) {
                Err(e) => {
                    proof {
                        assert(next == Err::<(Seq<Instruction>, StackHeight), Error>(e));
                        ReverseFunctionView::lemma_prologue_err(
                            start.layout,
                            operand_stack@,
                            (k + 1) as nat,
                            operand_stack@.len(),
                        );
                    }
                    return Err(e);
                },
                // Integers disappear in the backward pass.
                Ok(None) => {
                    assert(next == Ok::<(Seq<Instruction>, StackHeight), Error>(
                        (prologue, return_values),
                    ));
                },
                Ok(Some(j)) => {
                    let code = [Instruction::LocalGet(return_values.sum()), Instruction::LocalSet(j)];
                    self.instructions(&code);
                    proof {
                        crate::instruction::lemma_encoding_of_concat(prologue, code@);
                        assert(code@ =~= seq![
                            Instruction::LocalGet(return_values.spec_sum() as u32),
                            Instruction::LocalSet(j),
                        ]);
                        assert(next == Ok::<(Seq<Instruction>, StackHeight), Error>(
                            (prologue + code@, return_values.spec_push(ty)),
                        ));
                        prologue = prologue + code@;
                    }
                    return_values.push(ty);
                    assert(self.body@ =~= start.body + encoding_of(prologue));
                },
            }
            k += 1;
        }
        Ok(())
    }

    /// Open the dispatch loop and write its branch table.
    pub fn dispatch_head(&mut self)
        requires
            old(self)@.func.wf(),
        ensures
            final(self)@ == (ReverseReverseFunctionView {
                body: old(self)@.body + old(self)@.func.dispatch_head(),
                ..old(self)@
            }),
    {
        let ghost start = self@;
        let helper = FuncOffsets::new(self.func.num_imports);
        let n = self.func.basic_blocks.len();
        let dispatch = BlockType::Func(self.func.helper_types + TYPE_DISPATCH);
        // The forward pass stores the basic block index before any implicit or explicit return, so
        // it is loaded here to determine which basic block the backward pass starts with.
        let open = [Instruction::Call(helper.tape_i32_bwd()), Instruction::Loop(dispatch)];
        self.instructions(&open);
        assert(open@ =~= seq![
            Instruction::Call(start.func.tape_i32_bwd()),
            Instruction::Loop(spec_dispatch_type(start.func.helper_types)),
        ]);
        let ghost opened = self.body@;
        // One block for each basic block, and one last block as a branch target for an index
        // that is none.
        let mut b: usize = 0;
        while b < n + 1
            invariant
                b <= n + 1,
                n <= MAX_BASIC_BLOCKS,
                self@.func == start.func,
                self@.layout == start.layout,
                dispatch == spec_dispatch_type(start.func.helper_types),
                self@.body == opened + dispatch_blocks(start.func.helper_types, b as nat),
            decreases n + 1 - b,
        {
            Instruction::Block(dispatch).encode(&mut self.body);
            b += 1;
            assert(self.body@ =~= opened + dispatch_blocks(start.func.helper_types, b as nat));
        }
        // The basic blocks stand in the reverse of their order in the source function, because
        // the first basic block, the entry of the source function, is where the backward pass
        // ends; at the very end it can end by falling through.
        self.body.push(0x0E);
        leb128::write_u32(&mut self.body, n as u32);
        let ghost table = self.body@;
        let mut label: usize = n;
        while label > 0
            invariant
                label <= n <= MAX_BASIC_BLOCKS,
                self@.func == start.func,
                self@.layout == start.layout,
                self@.body + labels_down_from(label as nat) == table + labels_down_from(n as nat),
            decreases label,
        {
            let ghost before = self.body@;
            leb128::write_u32(&mut self.body, label as u32);
            assert(self.body@ + labels_down_from((label - 1) as nat) =~= before
                + labels_down_from(label as nat));
            label -= 1;
        }
        leb128::write_u32(&mut self.body, 0);
        // An index that is none traps at once.
        let close = [Instruction::End, Instruction::Unreachable];
        self.instructions(&close);
        assert(close@ =~= seq![Instruction::End, Instruction::Unreachable]);
        assert(self.body@ =~= start.body + start.func.dispatch_head()) by {
            assert(self.body@ =~= table + labels_down_from(n as nat) + leb128::unsigned(0)
                + encoding_of(close@));
            assert(table =~= opened + dispatch_blocks(start.func.helper_types, (n + 1) as nat)
                + seq![0x0Eu8] + leb128::unsigned(n as nat));
            assert(opened =~= start.body + encoding_of(open@));
        }
    }

    /// Write every basic block but the first, the last one foremost.
    pub fn dispatch_tail(&mut self) -> (r: Result<(), Error>)
        requires
            old(self)@.func.wf(),
            old(self)@.func.basic_blocks.len() > 0,
        ensures
            final(self)@.func == old(self)@.func,
            final(self)@.layout == old(self)@.layout,
            match old(self)@.func.dispatch_tail(old(self)@.layout, 1) {
                Ok(tail) => r is Ok && final(self)@.body == old(self)@.body + tail,
                Err(e) => r == Err::<(), Error>(e),
            },
    {
        let ghost start = self@;
        let helper = FuncOffsets::new(self.func.num_imports);
        let tape_i32_bwd = helper.tape_i32_bwd();
        let n = self.func.basic_blocks.len();
        let ghost mut tail: Seq<u8> = Seq::empty();
        let mut i: usize = n;
        assert(self.body@ =~= start.body + tail);
        while i > 1
            invariant
                1 <= i <= n,
                start == old(self)@,
                n == start.func.basic_blocks.len(),
                n <= MAX_BASIC_BLOCKS,
                start.func.wf(),
                self@.func == start.func,
                self@.layout == start.layout,
                tape_i32_bwd == start.func.tape_i32_bwd(),
                start.func.dispatch_tail(start.layout, i as int) == Ok::<Seq<u8>, Error>(tail),
                self@.body == start.body + tail,
            decreases i,
        {
            i -= 1;
            let end = [Instruction::End];
            self.instructions(&end);
            let ghost block = start.func.basic_block(start.layout, i as int);
            match self.basic_block(i) {
                Ok(()) => {},
                Err(e) => {
                    proof {
                        start.func.lemma_dispatch_tail_step(start.layout, i as int);
                        start.func.lemma_dispatch_tail_err(start.layout, 1, i as int);
                    }
                    return Err(e);
                },
            }
            // Load the next basic block index and branch to the loop.
            let next = [Instruction::Call(tape_i32_bwd), Instruction::Br(i as u32)];
            let ghost before_next = self.body@;
            self.instructions(&next);
            assert(self.body@ == before_next + encoding_of(next@));
            proof {
                assert(end@ =~= seq![Instruction::End]);
                assert(next@ =~= seq![
                    Instruction::Call(start.func.tape_i32_bwd()),
                    Instruction::Br(i as u32),
                ]);
                start.func.lemma_dispatch_tail_step(start.layout, i as int);
                let longer = tail + encoding_of(end@) + block->Ok_0 + encoding_of(next@);
                assert(self.body@ =~= start.body + longer);
                tail = longer;
            }
        }
        Ok(())
    }

    /// Write the prologue, the dispatch loop and the basic blocks, and return the whole body.
    pub fn consume(self, operand_stack: &[ValType]) -> (r: Result<Vec<u8>, Error>)
        requires
            self@.func.wf(),
            self@.func.basic_blocks.len() > 0,
            operand_stack@.len() <= u32::MAX,
        ensures
            match ReverseFunctionView::prologue(self@.layout, operand_stack@, operand_stack@.len()) {
                Err(e) => r == Err::<Vec<u8>, Error>(e),
                Ok((prologue, _)) => match self@.func.dispatch_tail(self@.layout, 1) {
                    Err(e) => r == Err::<Vec<u8>, Error>(e),
                    Ok(tail) => match self@.func.basic_block(self@.layout, 0) {
                        Err(e) => r == Err::<Vec<u8>, Error>(e),
                        Ok(first) => r is Ok && r->Ok_0@ == self@.body + encoding_of(prologue)
                            + self@.func.dispatch_head() + tail + encoding_of(
                            seq![Instruction::End, Instruction::End],
                        ) + first + encoding_of(seq![Instruction::End]),
                    },
                },
            },
    {
        let mut this = self;
        match this.prologue(operand_stack) {
            Ok(()) => {},
            Err(e) => {
                return Err(e);
            },
        }
        this.dispatch_head();
        match this.dispatch_tail() {
            Ok(()) => {},
            Err(e) => {
                return Err(e);
            },
        }
        let ends = [Instruction::End, Instruction::End];
        this.instructions(&ends);
        assert(ends@ =~= seq![Instruction::End, Instruction::End]);
        // The first basic block stands outside the loop, so that the function returns by falling
        // through.
        match this.basic_block(0) {
            Ok(()) => {},
            Err(e) => {
                return Err(e);
            },
        }
        let end = [Instruction::End];
        this.instructions(&end);
        assert(end@ =~= seq![Instruction::End]);
        Ok(this.body)
    }
}

impl ReverseFunction {
    /// Finish the backward pass, where the source function leaves `operand_stack` at its end.
    pub fn into_raw_body(self, operand_stack: &[ValType]) -> (r: Result<Vec<u8>, Error>)
        requires
            self@.wf(),
            operand_stack@.len() <= u32::MAX,
        ensures
            match self@.raw_body(operand_stack@) {
                Ok(body) => r is Ok && r->Ok_0@ == body,
                Err(e) => r == Err::<Vec<u8>, Error>(e),
            },
    {
        let mut this = self;
        if this.basic_blocks.len() == 0 {
            return Err(Error::Malformed(Malformed::ControlStack));
        }
        let stack_local_offset = this.locals.count();
        let max_stack_values = this.max_stack_values;
        let max_branch_values = this.max_branch_values;
        let room = u32::MAX - stack_local_offset;
        if this.locals.blocks() > u32::MAX - 4 || max_stack_values.float32 > room
            || max_stack_values.float64 > room - max_stack_values.float32
            || max_branch_values.float32 > room - max_stack_values.float32
            - max_stack_values.float64 || max_branch_values.float64 > room
            - max_stack_values.float32 - max_stack_values.float64 - max_branch_values.float32 {
            return Err(Error::Malformed(Malformed::TooLarge));
        }
        // When the backward pass crosses a basic block boundary, all floating-point values on the
        // stack go into locals, from which they are taken again after the loop has dispatched to
        // the next basic block. The running maximum says how many locals of each type that takes.
        this.locals.locals(max_stack_values.float32, ValType::F32);
        this.locals.locals(max_stack_values.float64, ValType::F64);
        let branch_local_offset = this.locals.count();
        // The values that branch instructions pass around have locals of their own: the stack
        // locals are the bottom of the stack, which stays in place, and the branch locals are its
        // top, whose place in the stack depends on control flow.
        this.locals.locals(max_branch_values.float32, ValType::F32);
        this.locals.locals(max_branch_values.float64, ValType::F64);
        let mut body = Vec::new();
        leb128::write_u32(&mut body, this.locals.blocks());
        extend(&mut body, this.locals.bytes());
        let layout = Layout {
            stack_local_offset,
            branch_local_offset,
            max_stack_values,
            max_branch_values,
        };
        assert(this@ == self@.with_all_locals());
        assert(body@ =~= leb128::unsigned(this@.locals.blocks as nat) + this@.locals.bytes);
        let finished = ReverseReverseFunction { func: this, layout, body };
        finished.consume(operand_stack)
    }
}

/// The bytes of an open block into which the first `k` of the groups of instructions `groups`
/// were written, each reversed as it was written.
pub open spec fn written(groups: Seq<Seq<Instruction>>, k: nat) -> Seq<u8>
    decreases k,
{
    if k == 0 {
        Seq::empty()
    } else {
        written(groups, (k - 1) as nat) + encoding_of(groups[k - 1]).reverse()
    }
}

/// The first `k` groups turned around: the last group first, each with its instructions in the
/// order in which they were written.
pub open spec fn turned(groups: Seq<Seq<Instruction>>, k: nat) -> Seq<u8>
    decreases k,
{
    if k == 0 {
        Seq::empty()
    } else {
        encoding_of(groups[k - 1]) + turned(groups, (k - 1) as nat)
    }
}

/// Reversing a block as a whole, after each group of instructions was reversed as it was
/// written, sets every instruction right again and turns the order of the groups around.
pub proof fn lemma_written_turns(groups: Seq<Seq<Instruction>>, k: nat)
    requires
        k <= groups.len(),
    ensures
        written(groups, k).reverse() == turned(groups, k),
    decreases k,
{
    if k == 0 {
        assert(written(groups, 0).reverse() =~= Seq::<u8>::empty());
    } else {
        lemma_written_turns(groups, (k - 1) as nat);
        let before = written(groups, (k - 1) as nat);
        let group = encoding_of(groups[k - 1]);
        crate::bytes::lemma_reverse_concat(before, group.reverse());
        crate::bytes::lemma_reverse_twice(group);
    }
}

/// The backward pass after the first `k` of the groups of instructions `groups` are written.
pub open spec fn after_groups(
    start: ReverseFunctionView,
    groups: Seq<Seq<Instruction>>,
    k: nat,
) -> ReverseFunctionView
    decreases k,
{
    if k == 0 {
        start
    } else {
        after_groups(start, groups, (k - 1) as nat).instructions(groups[k - 1])
    }
}

/// Writing groups of instructions to a backward pass leaves them in the open block, each
/// reversed as it was written.
pub proof fn lemma_instructions_written(
    start: ReverseFunctionView,
    groups: Seq<Seq<Instruction>>,
    k: nat,
)
    requires
        k <= groups.len(),
    ensures
        after_groups(start, groups, k) == (ReverseFunctionView {
            body: start.body + written(groups, k),
            ..start
        }),
    decreases k,
{
    if k == 0 {
        assert(start.body + written(groups, 0) =~= start.body);
    } else {
        lemma_instructions_written(start, groups, (k - 1) as nat);
        assert(after_groups(start, groups, k).body =~= start.body + written(groups, k));
    }
}

/// A basic block that is closed holds its groups of instructions in the reverse of the order
/// in which they were written, and each group as it was written.
pub proof fn lemma_split_turns(
    start: ReverseFunctionView,
    groups: Seq<Seq<Instruction>>,
    stack_end: Seq<ValType>,
    stack_height_end: StackHeight,
    branch_end_count: u32,
    branch_start_count: u32,
)
    requires
        start.block_start_offset == start.body.len(),
    ensures
        after_groups(start, groups, groups.len()).split_basic_block(
            stack_end,
            stack_height_end,
            branch_end_count,
            branch_start_count,
        ).body == start.body + turned(groups, groups.len()),
{
    let block = written(groups, groups.len());
    let open = ReverseFunctionView { body: start.body + block, ..start };
    lemma_instructions_written(start, groups, groups.len());
    lemma_written_turns(groups, groups.len());
    assert(open.body.subrange(0, open.block_start_offset as int) =~= start.body);
    assert(open.body.subrange(open.block_start_offset as int, open.body.len() as int) =~= block);
}

/// Whether an error, if there is one, says that something is too large.
pub open spec fn at_most_too_large<T>(result: Result<T, Error>) -> bool {
    result is Err ==> result->Err_0 == Error::Malformed(Malformed::TooLarge)
}

impl Layout {
    /// Where the values that a block left on the stack are among those that its heights count,
    /// the walk that loads them finds every one of them counted: it fails only where a local
    /// cannot be indexed with 32 bits.
    pub proof fn lemma_load_counts(
        self,
        branch_count: u32,
        stack_values: StackHeight,
        types: Seq<ValType>,
        k: nat,
    )
        requires
            k <= types.len() <= u32::MAX,
            heights(types).le(stack_values),
        ensures
            match self.walk(Side::Load, branch_count, stack_values, types, k) {
                Ok(walk) => forall|ty: ValType|
                    #![trigger walk.stack_values.spec_get(ty)]
                    walk.stack_values.spec_get(ty) == stack_values.spec_get(ty) - count_of(
                        types.subrange(types.len() - k, types.len() as int),
                        ty,
                    ),
                Err(e) => e == Error::Malformed(Malformed::TooLarge),
            },
        decreases k,
    {
        let n = types.len() as int;
        if k == 0 {
            assert(types.subrange(n, n) =~= Seq::<ValType>::empty());
        } else {
            self.lemma_load_counts(branch_count, stack_values, types, (k - 1) as nat);
            let before = self.walk(Side::Load, branch_count, stack_values, types, (k - 1) as nat);
            if before is Ok {
                let walk = before->Ok_0;
                let ty = types[n - k];
                let head = types.take(n - k);
                let tail = types.subrange(n - k + 1, n);
                let longer = types.subrange(n - k, n);
                assert(longer =~= seq![ty] + tail);
                assert(types =~= head + longer);
                crate::stack::lemma_heights_sum(types);
                assert forall|other: ValType| true implies count_of(longer, other) == count_of(
                    tail,
                    other,
                ) + if ty == other {
                    1nat
                } else {
                    0nat
                } && count_of(types, other) == count_of(head, other) + count_of(longer, other) by {
                    crate::stack::lemma_count_of_below(ty, tail, other);
                    crate::stack::lemma_count_of_concat(head, longer, other);
                }
                assert(walk.stack_values.spec_get(ty) > 0) by {
                    assert(heights(types).spec_get(ty) == count_of(types, ty));
                    assert(heights(types).spec_get(ty) <= stack_values.spec_get(ty)) by {
                        match ty {
                            ValType::I32 => {},
                            ValType::I64 => {},
                            ValType::F32 => {},
                            ValType::F64 => {},
                        }
                    }
                }
                let after = self.step(Side::Load, branch_count, walk, ty);
                if after is Ok {
                    assert forall|other: ValType|
                        #![trigger after->Ok_0.stack_values.spec_get(other)]
                        after->Ok_0.stack_values.spec_get(other) == stack_values.spec_get(other)
                            - count_of(longer, other) by {
                        assert(walk.stack_values.spec_get(other) == stack_values.spec_get(other)
                            - count_of(tail, other));
                        match other {
                            ValType::I32 => {},
                            ValType::I64 => {},
                            ValType::F32 => {},
                            ValType::F64 => {},
                        }
                    }
                }
            }
        }
    }

    /// The walk that stores values fails only where something is too large.
    pub proof fn lemma_store_errors(
        self,
        branch_count: u32,
        stack_values: StackHeight,
        types: Seq<ValType>,
        k: nat,
    )
        ensures
            at_most_too_large(self.walk(Side::Store, branch_count, stack_values, types, k)),
        decreases k,
    {
        if k > 0 {
            self.lemma_store_errors(branch_count, stack_values, types, (k - 1) as nat);
        }
    }
}

impl ReverseFunctionView {
    /// A closed block that stands in a backward pass whose blocks are counted can be written
    /// unless something is too large: the heights that the block recorded cover the values that
    /// it left on the stack.
    pub proof fn lemma_basic_block_errors(self, layout: Layout, i: int)
        requires
            self.wf(),
            self.counted(),
            0 <= i < self.basic_blocks.len(),
        ensures
            at_most_too_large(self.basic_block(layout, i)),
    {
        let bb = self.basic_blocks[i];
        let end_types = self.end_types(i);
        let start_types = self.stacks.subrange(
            bb.stack_start_offset as int,
            bb.stack_end_offset as int,
        );
        layout.lemma_load_counts(bb.branch_end_count, bb.stack_height_end, end_types, end_types.len());
        let load = layout.walk(
            Side::Load,
            bb.branch_end_count,
            bb.stack_height_end,
            end_types,
            end_types.len(),
        );
        if load is Ok {
            layout.lemma_store_errors(
                bb.branch_start_count,
                load->Ok_0.stack_values,
                start_types,
                start_types.len(),
            );
        }
    }

    /// The blocks of the dispatch loop can be written unless something is too large.
    pub proof fn lemma_dispatch_tail_errors(self, layout: Layout, i: int)
        requires
            self.wf(),
            self.counted(),
            0 <= i,
        ensures
            at_most_too_large(self.dispatch_tail(layout, i)),
        decreases self.basic_blocks.len() - i,
    {
        if i < self.basic_blocks.len() {
            self.lemma_dispatch_tail_errors(layout, i + 1);
            self.lemma_basic_block_errors(layout, i);
        }
    }

    /// The prologue can be written unless something is too large.
    pub proof fn lemma_prologue_errors(layout: Layout, operand_stack: Seq<ValType>, k: nat)
        ensures
            at_most_too_large(Self::prologue(layout, operand_stack, k)),
        decreases k,
    {
        if k > 0 {
            Self::lemma_prologue_errors(layout, operand_stack, (k - 1) as nat);
        }
    }

    /// A backward pass whose blocks are counted and of which one block at least is closed can
    /// be finished unless something is too large: finishing it never finds the records of the
    /// blocks at odds with one another.
    pub proof fn lemma_raw_body_errors(self, operand_stack: Seq<ValType>)
        requires
            self.wf(),
            self.counted(),
            self.basic_blocks.len() > 0,
        ensures
            at_most_too_large(self.raw_body(operand_stack)),
    {
        let done = self.with_all_locals();
        assert(done.counted()) by {
            assert forall|i: int| 0 <= i < done.basic_blocks.len() implies heights(
                #[trigger] done.end_types(i),
            ).le(done.basic_blocks[i].stack_height_end) by {
                assert(done.end_types(i) == self.end_types(i));
            }
        }
        Self::lemma_prologue_errors(self.layout(), operand_stack, operand_stack.len());
        done.lemma_dispatch_tail_errors(self.layout(), 1);
        done.lemma_basic_block_errors(self.layout(), 0);
    }
}

} // verus!
