//! What holds of the transformations as a whole: the tapes are read as they were written,
//! values and adjoints are kept apart, and the backward pass of an accepted function can be put
//! together.

use vstd::prelude::*;

use crate::helper::{
    spec_float_helper_body, spec_tape_i32, spec_tape_i32_bwd, FloatHelper, NumImports, Tape,
    OFFSET_FUNCTIONS, OFFSET_MEMORIES,
};
use crate::instruction::{Instruction, Width};
use crate::name::{after, given, in_use, lemma_given_is_new, names_wf, numbers_of, spec_decompose, Used};
use crate::names::{
    backward_locals, backward_wishes, doubled, kept_locals, local_wishes, forward_names, gen_state, granted, helper_function_names,
    helper_type_names, lemma_gen_state, listed_wishes, mirrored, mirrored_used, never_fails,
    or_empty, pick, read, set_after, shifted, spec_name_section, spec_names, tape_names,
    FuncFacts,
};
use crate::module::Name;
use crate::reverse::{Env, State};
use crate::reverse::spec_type_map;
use crate::stack::StackHeight;
use crate::util::{keys_upto, vals_upto, ValType};

verus! {

/// The helper that an instruction calls, counted from the first helper, if it calls one.
pub open spec fn helper_of(env: Env, insn: Instruction) -> Option<int> {
    match insn {
        Instruction::Call(f) => if env.helper_offset() <= f < env.helper_offset()
            + OFFSET_FUNCTIONS {
            Some(f - env.helper_offset())
        } else {
            None
        },
        _ => None,
    }
}

/// The helpers that the first `k` instructions call, in their order.
pub open spec fn helper_calls(env: Env, code: Seq<Instruction>, k: nat) -> Seq<int>
    decreases k,
{
    if k == 0 {
        Seq::empty()
    } else {
        match helper_of(env, code[k - 1]) {
            Some(helper) => helper_calls(env, code, (k - 1) as nat).push(helper),
            None => helper_calls(env, code, (k - 1) as nat),
        }
    }
}

/// The helpers that read back what the given helpers recorded, the last record first: every
/// helper that records stands right in front of the helper that reads its record.
pub open spec fn readers(recorders: Seq<int>) -> Seq<int> {
    Seq::new(recorders.len(), |i: int| recorders[recorders.len() - 1 - i] + 1)
}

/// Whether a helper, counted from the first helper, is one that records on a tape.
pub open spec fn records(helper: int) -> bool {
    0 <= helper < OFFSET_FUNCTIONS && helper % 2 == 0
}

/// Instructions that call no helper.
pub proof fn lemma_no_helper_calls(env: Env, code: Seq<Instruction>, k: nat)
    requires
        k <= code.len(),
        forall|i: int| 0 <= i < k ==> helper_of(env, #[trigger] code[i]) is None,
    ensures
        helper_calls(env, code, k) == Seq::<int>::empty(),
    decreases k,
{
    if k > 0 {
        lemma_no_helper_calls(env, code, (k - 1) as nat);
    }
}

/// Instructions of which one calls a helper.
pub proof fn lemma_one_helper_call(env: Env, code: Seq<Instruction>, at: int, k: nat)
    requires
        0 <= at < k <= code.len(),
        helper_of(env, code[at]) is Some,
        forall|i: int| 0 <= i < k && i != at ==> helper_of(env, #[trigger] code[i]) is None,
    ensures
        helper_calls(env, code, k) == seq![helper_of(env, code[at])->Some_0],
    decreases k,
{
    if k - 1 == at {
        lemma_no_helper_calls(env, code, (k - 1) as nat);
    } else {
        lemma_one_helper_call(env, code, at, (k - 1) as nat);
    }
}

/// Whether the first of two runs of instructions records on the tapes with one helper and the
/// second reads the record back, or neither calls a helper.
pub open spec fn balanced(env: Env, fwd: Seq<Instruction>, bwd: Seq<Instruction>) -> bool {
    let recorded = helper_calls(env, fwd, fwd.len());
    &&& helper_calls(env, bwd, bwd.len()) == readers(recorded)
    &&& forall|i: int| 0 <= i < recorded.len() ==> records(#[trigger] recorded[i])
}

/// Two runs of which neither calls a helper are balanced.
proof fn lemma_balanced_none(env: Env, fwd: Seq<Instruction>, bwd: Seq<Instruction>)
    requires
        forall|i: int| 0 <= i < fwd.len() ==> helper_of(env, #[trigger] fwd[i]) is None,
        forall|i: int| 0 <= i < bwd.len() ==> helper_of(env, #[trigger] bwd[i]) is None,
    ensures
        balanced(env, fwd, bwd),
{
    lemma_no_helper_calls(env, fwd, fwd.len());
    lemma_no_helper_calls(env, bwd, bwd.len());
    assert(readers(Seq::<int>::empty()) =~= Seq::<int>::empty());
}

/// Two runs of which the first calls a helper that records and the second the helper behind
/// it are balanced.
proof fn lemma_balanced_one(
    env: Env,
    fwd: Seq<Instruction>,
    i: int,
    bwd: Seq<Instruction>,
    j: int,
)
    requires
        0 <= i < fwd.len(),
        0 <= j < bwd.len(),
        helper_of(env, fwd[i]) is Some,
        records(helper_of(env, fwd[i])->Some_0),
        helper_of(env, bwd[j]) == Some(helper_of(env, fwd[i])->Some_0 + 1),
        forall|k: int| 0 <= k < fwd.len() && k != i ==> helper_of(env, #[trigger] fwd[k]) is None,
        forall|k: int| 0 <= k < bwd.len() && k != j ==> helper_of(env, #[trigger] bwd[k]) is None,
    ensures
        balanced(env, fwd, bwd),
{
    lemma_one_helper_call(env, fwd, i, fwd.len());
    lemma_one_helper_call(env, bwd, j, bwd.len());
    let recorded = helper_calls(env, fwd, fwd.len());
    assert(readers(recorded) =~= seq![recorded[0] + 1]);
}

/// What stands for an instruction in the backward pass reads back from the tapes exactly what
/// stands for it in the forward pass recorded there, the last record first. So after both have
/// run, the tapes are as they were before.
pub proof fn lemma_effect_tape(env: Env, op: Instruction, stack: Seq<ValType>)
    requires
        env.wf(),
        env.effect(op, stack) is Ok,
    ensures
        balanced(env, env.effect(op, stack)->Ok_0.fwd, env.effect(op, stack)->Ok_0.bwd),
{
    let effect = env.effect(op, stack)->Ok_0;
    match op {
        Instruction::FloatLoad(_, _) => {
            lemma_balanced_one(env, effect.fwd, 1, effect.bwd, 1);
        },
        Instruction::FloatStore(_, _) => {
            lemma_balanced_one(env, effect.fwd, 2, effect.bwd, 0);
        },
        Instruction::FloatUnary(_, crate::instruction::FloatUnOp::Sqrt) => {
            lemma_balanced_one(env, effect.fwd, 0, effect.bwd, 0);
        },
        Instruction::FloatBinary(_, crate::instruction::FloatBinOp::Mul)
        | Instruction::FloatBinary(_, crate::instruction::FloatBinOp::Div)
        | Instruction::FloatBinary(_, crate::instruction::FloatBinOp::Min)
        | Instruction::FloatBinary(_, crate::instruction::FloatBinOp::Max) => {
            lemma_balanced_one(env, effect.fwd, 0, effect.bwd, 0);
        },
        _ => {
            lemma_balanced_none(env, effect.fwd, effect.bwd);
        },
    }
}

/// Before the forward pass leaves a basic block it records the index of the block, once.
pub proof fn lemma_control_store_tape(env: Env, state: State)
    requires
        env.wf(),
    ensures
        helper_calls(env, state.control_store(env), state.control_store(env).len()) == seq![0int],
{
    reveal_with_fuel(helper_calls, 4);
    assert(helper_calls(env, state.control_store(env), state.control_store(env).len())
        =~= seq![0int]);
}

/// The tape on which the helpers for an operation record, and the bytes that they record.
pub open spec fn recorded_on(width: Width, op: FloatHelper) -> (Tape, int) {
    match op {
        FloatHelper::Sqrt => (Tape::spec_of(width), Tape::spec_of(width).bytes as int),
        FloatHelper::Mul | FloatHelper::Div => (
            Tape::spec_of(width),
            2 * Tape::spec_of(width).bytes,
        ),
        FloatHelper::Min | FloatHelper::Max => (Tape::spec_bytes(), 1),
    }
}

/// The locals in which the helpers for an operation keep the pointer of the tape: that of the
/// forward pass, with the local for the pages by which the memory grows, and that of the
/// backward pass.
pub open spec fn pointer_locals(op: FloatHelper) -> (u32, u32, u32) {
    match op {
        FloatHelper::Sqrt => (2, 3, 2),
        FloatHelper::Mul => (2, 3, 1),
        FloatHelper::Div => (3, 4, 2),
        FloatHelper::Min | FloatHelper::Max => (2, 3, 1),
    }
}

/// Wherever the helper types begin, the helper of the backward pass takes from the tape what
/// the helper of the forward pass put there: both begin with moving the pointer of the same
/// tape by the same number of bytes, the one forth and the other back.
pub proof fn lemma_helpers_balance(base: u32, width: Width, op: FloatHelper)
    ensures
        spec_float_helper_body(base, width, op, false).1.take(18) == recorded_on(width, op).0.grow(
            pointer_locals(op).0,
            pointer_locals(op).1,
            recorded_on(width, op).1 as i32,
        ),
        spec_float_helper_body(base, width, op, true).1.take(5) == recorded_on(width, op).0.shrink(
            pointer_locals(op).2,
            recorded_on(width, op).1 as i32,
        ),
{
    let (tape, bytes) = recorded_on(width, op);
    let fwd = spec_float_helper_body(base, width, op, false).1;
    let bwd = spec_float_helper_body(base, width, op, true).1;
    assert(fwd.take(18) =~= tape.grow(pointer_locals(op).0, pointer_locals(op).1, bytes as i32));
    assert(bwd.take(5) =~= tape.shrink(pointer_locals(op).2, bytes as i32));
}

/// The helpers for block indices balance as well: four bytes on the tape of alignment 4.
pub proof fn lemma_index_helpers_balance()
    ensures
        spec_tape_i32().1.take(18) == Tape::spec_of(Width::W32).grow(1, 2, 4),
        spec_tape_i32_bwd().1.take(5) == Tape::spec_of(Width::W32).shrink(0, 4),
{
    assert(spec_tape_i32().1.take(18) =~= Tape::spec_of(Width::W32).grow(1, 2, 4));
    assert(spec_tape_i32_bwd().1.take(5) =~= Tape::spec_of(Width::W32).shrink(0, 4));
}

/// The memory that an instruction reads or writes, if it does.
pub open spec fn memory_of(insn: Instruction) -> Option<u32> {
    match insn {
        Instruction::I32Load(m)
        | Instruction::I32Load8U(m)
        | Instruction::I32Store(m)
        | Instruction::I32Store8(m)
        | Instruction::FloatLoad(_, m)
        | Instruction::FloatStore(_, m) => Some(m.memory_index),
        Instruction::MemorySize(m) | Instruction::MemoryGrow(m) => Some(m),
        _ => None,
    }
}

/// The memory of the transformed module that holds the values of the memory `memory` of the
/// source module.
pub open spec fn primal_memory(memory: u32) -> int {
    OFFSET_MEMORIES + 2 * memory
}

/// The memory of the transformed module that holds the adjoints of the values of the memory
/// `memory` of the source module.
pub open spec fn adjoint_memory(memory: u32) -> int {
    OFFSET_MEMORIES + 2 * memory + 1
}

/// No memory of values is a memory of adjoints or a tape, no memory of adjoints is a tape, and
/// different memories of the source module have different memories for their values and for
/// their adjoints.
pub proof fn lemma_memories_apart(a: u32, b: u32)
    ensures
        primal_memory(a) != adjoint_memory(b),
        primal_memory(a) >= OFFSET_MEMORIES,
        adjoint_memory(a) >= OFFSET_MEMORIES,
        a != b ==> primal_memory(a) != primal_memory(b) && adjoint_memory(a) != adjoint_memory(b),
{
}

/// An access to a memory of the source module becomes an access to the memory of its values in
/// the forward pass and to the memory of their adjoints in the backward pass, at the same
/// offset and with the same alignment.
pub proof fn lemma_memarg(env: Env, memarg: crate::instruction::MemArg)
    requires
        env.memarg(memarg) is Ok,
    ensures
        env.memarg(memarg)->Ok_0.0.memory_index == primal_memory(memarg.memory_index),
        env.memarg(memarg)->Ok_0.1.memory_index == adjoint_memory(memarg.memory_index),
        env.memarg(memarg)->Ok_0.0.offset == memarg.offset,
        env.memarg(memarg)->Ok_0.1.offset == memarg.offset,
        env.memarg(memarg)->Ok_0.0.align == memarg.align,
        env.memarg(memarg)->Ok_0.1.align == memarg.align,
{
}

/// What stands for an instruction in the forward pass reads and writes no memory but that of
/// the values of the memory that the instruction reads or writes, and what stands for it in the
/// backward pass no memory but that of their adjoints.
pub proof fn lemma_effect_memories(env: Env, op: Instruction, stack: Seq<ValType>)
    requires
        env.effect(op, stack) is Ok,
    ensures
        ({
            let effect = env.effect(op, stack)->Ok_0;
            &&& forall|i: int|
                0 <= i < effect.fwd.len() && memory_of(#[trigger] effect.fwd[i]) is Some
                    ==> memory_of(op) is Some && memory_of(effect.fwd[i])->Some_0
                    == primal_memory(memory_of(op)->Some_0)
            &&& forall|i: int|
                0 <= i < effect.bwd.len() && memory_of(#[trigger] effect.bwd[i]) is Some
                    ==> memory_of(op) is Some && memory_of(effect.bwd[i])->Some_0
                    == adjoint_memory(memory_of(op)->Some_0)
        }),
{
}

/// The two passes of different functions of the source module are different functions of the
/// transformed module, the backward pass of a function stands right behind its forward pass,
/// and no pass is a helper: the helpers stand between the passes of the imported functions and
/// those of the functions that the module defines.
pub proof fn lemma_functions_apart(env: Env, f: u32, g: u32)
    requires
        env.wf(),
        f < env.func_types.len(),
        g < env.func_types.len(),
    ensures
        env.forward_index(f) + 1 <= u32::MAX,
        helper_of(env, Instruction::Call(env.forward_index(f) as u32)) is None,
        helper_of(env, Instruction::Call((env.forward_index(f) + 1) as u32)) is None,
        env.forward_index(f) != env.forward_index(g) + 1,
        f != g ==> env.forward_index(f) != env.forward_index(g),
        f < g ==> env.forward_index(f) + 1 < env.forward_index(g),
{
}

/// Popping values leaves a state well formed.
pub proof fn lemma_pop_n_wf(state: State, n: nat)
    requires
        state.wf(),
        n <= state.operand_stack.len(),
    ensures
        state.pop_n(n).wf(),
        state.pop_n(n).operand_stack.len() == state.operand_stack.len() - n,
        state.pop_n(n).control_stack == state.control_stack,
        state.pop_n(n).bwd.basic_blocks == state.bwd.basic_blocks,
{
    let after = state.pop_n(n);
    assert(after.bwd.stacks.take(state.bwd.stacks.len() as int) =~= state.bwd.stacks);
    state.bwd.lemma_counted_prefix(after.bwd);
}

/// Writing instructions to both passes leaves a state well formed.
pub proof fn lemma_emit_wf(state: State, fwd: Seq<Instruction>, bwd: Seq<Instruction>)
    requires
        state.wf(),
    ensures
        state.forward(fwd).backward(bwd).wf(),
        state.forward(fwd).wf(),
{
    let after = state.forward(fwd).backward(bwd);
    assert(after.bwd.stacks.take(state.bwd.stacks.len() as int) =~= state.bwd.stacks);
    state.bwd.lemma_counted_prefix(after.bwd);
}

/// Closing a basic block leaves a state well formed, and one more block is closed.
pub proof fn lemma_split_wf(
    state: State,
    branch_values: Seq<ValType>,
    stack_reset: int,
    branch_values_next: Seq<ValType>,
)
    requires
        state.wf(),
        0 <= stack_reset,
        branch_values_next.len() <= u32::MAX,
        state.split(branch_values, stack_reset, branch_values_next) is Ok,
    ensures
        state.split(branch_values, stack_reset, branch_values_next)->Ok_0.wf(),
        state.split(branch_values, stack_reset, branch_values_next)->Ok_0.bwd.basic_blocks.len()
            == state.bwd.basic_blocks.len() + 1,
        state.split(branch_values, stack_reset, branch_values_next)->Ok_0.control_stack
            == state.control_stack,
{
    let n = branch_values.len();
    lemma_pop_n_wf(state, n);
    let taken = state.pop_n(n).push_all(branch_values);
    assert(taken.wf());
    let stack_end = taken.operand_stack.subrange(
        taken.height_min as int,
        taken.operand_stack.len() as int,
    );
    let below = taken.operand_stack.take(taken.operand_stack.len() - n);
    assert(taken.operand_stack =~= below + branch_values);
    crate::stack::lemma_heights_top(below, branch_values);
    let kept = taken.operand_stack.take(taken.height_min as int);
    assert(taken.operand_stack =~= kept + stack_end);
    crate::stack::lemma_heights_top(kept, stack_end);
    assert(crate::backward::ReverseFunctionView::branch_values(stack_end, n as u32)
        =~= branch_values);
    taken.bwd.lemma_split_counted(
        stack_end,
        crate::stack::heights(taken.operand_stack),
        n as u32,
        branch_values_next.len() as u32,
    );
    let bwd = taken.bwd.split_basic_block(
        stack_end,
        crate::stack::heights(taken.operand_stack),
        n as u32,
        branch_values_next.len() as u32,
    );
    assert(bwd.wf());
    let stack = if taken.operand_stack.len() > stack_reset {
        taken.operand_stack.take(stack_reset)
    } else {
        taken.operand_stack
    };
    let next = State { operand_stack: stack, height_min: stack.len(), bwd, ..taken };
    assert(next.wf());
    lemma_pop_n_wf(next, branch_values_next.len());
}

/// The values of a block type are no more than can be counted with 32 bits.
pub open spec fn types_bounded(env: Env) -> bool {
    forall|t: int|
        0 <= t < env.types.len() ==> (#[trigger] env.types[t]).0.len() <= u32::MAX
            && env.types[t].1.len() <= u32::MAX
}

/// Whether the frame of the function body is the outermost one, and a basic block is closed
/// once that frame is.
pub open spec fn body_frame(state: State) -> bool {
    if state.control_stack.len() == 0 {
        state.bwd.basic_blocks.len() > 0
    } else {
        state.control_stack[0] is Block
    }
}

/// An instruction leaves a state well formed. No instruction takes a closed basic block away,
/// and the end of the function body closes one.
pub proof fn lemma_step_wf(env: Env, state: State, op: Instruction)
    requires
        env.wf(),
        types_bounded(env),
        state.wf(),
        env.step(state, op) is Ok,
    ensures
        env.step(state, op)->Ok_0.wf(),
        env.step(state, op)->Ok_0.bwd.basic_blocks.len() >= state.bwd.basic_blocks.len(),
        body_frame(state) ==> body_frame(env.step(state, op)->Ok_0),
{
    reveal(Env::step);
    let height = state.operand_stack.len() as int;
    match op {
        Instruction::Loop(block_type) => {
            let params = env.blockty_params(block_type)->Ok_0;
            let opened = State {
                control_stack: state.control_stack.push(crate::reverse::Control::Loop(block_type)),
                ..state
            }.forward(
                state.control_store(env) + seq![Instruction::Loop(env.blockty(block_type))],
            );
            lemma_emit_wf(
                State {
                    control_stack: state.control_stack.push(
                        crate::reverse::Control::Loop(block_type),
                    ),
                    ..state
                },
                state.control_store(env) + seq![Instruction::Loop(env.blockty(block_type))],
                Seq::empty(),
            );
            lemma_split_wf(opened, params, height, params);
        },
        Instruction::If(block_type) => {
            let params = env.blockty_params(block_type)->Ok_0;
            lemma_pop_n_wf(state, 1);
            let popped = state.pop_n(1);
            let framed = State {
                control_stack: state.control_stack.push(
                    crate::reverse::Control::If {
                        block_type,
                        stack_height: popped.operand_stack.len() as u32,
                    },
                ),
                ..popped
            };
            let code = state.control_store(env) + seq![Instruction::If(env.blockty(block_type))];
            lemma_emit_wf(framed, code, Seq::empty());
            lemma_split_wf(framed.forward(code), params, popped.operand_stack.len() as int, params);
        },
        Instruction::Else => {
            match state.control_stack.last() {
                crate::reverse::Control::If { block_type, stack_height } => {
                    let results = env.blockty_results(block_type)->Ok_0;
                    let params = env.blockty_params(block_type)->Ok_0;
                    let code = state.control_store(env) + seq![Instruction::Else];
                    lemma_emit_wf(state, code, Seq::empty());
                    lemma_split_wf(state.forward(code), results, stack_height as int, params);
                },
                _ => {},
            }
        },
        Instruction::End => {
            let rest = State { control_stack: state.control_stack.drop_last(), ..state };
            match state.control_stack.last() {
                crate::reverse::Control::Loop(_) => {
                    lemma_emit_wf(rest, seq![Instruction::End], Seq::empty());
                },
                crate::reverse::Control::Block(block_type) => {
                    let results = env.blockty_results(block_type)->Ok_0;
                    let code = state.control_store(env) + seq![Instruction::End];
                    lemma_emit_wf(rest, code, Seq::empty());
                    lemma_split_wf(
                        rest.forward(code),
                        results,
                        height,
                        if rest.control_stack.len() == 0 {
                            Seq::empty()
                        } else {
                            results
                        },
                    );
                },
                crate::reverse::Control::If { block_type, stack_height: _ } => {
                    let results = env.blockty_results(block_type)->Ok_0;
                    let code = state.control_store(env) + seq![Instruction::End];
                    lemma_emit_wf(rest, code, Seq::empty());
                    lemma_split_wf(rest.forward(code), results, height, results);
                },
            }
        },
        Instruction::Br(relative_depth) => {
            let values = env.frame_values(
                state.control_stack[state.control_stack.len() - 1 - relative_depth],
            )->Ok_0;
            let code = state.control_store(env) + seq![Instruction::Br(relative_depth)];
            lemma_emit_wf(state, code, Seq::empty());
            lemma_split_wf(state.forward(code), values, height - values.len(), Seq::empty());
        },
        Instruction::BrIf(relative_depth) => {
            let values = env.frame_values(
                state.control_stack[state.control_stack.len() - 1 - relative_depth],
            )->Ok_0;
            lemma_pop_n_wf(state, 1);
            let popped = state.pop_n(1);
            let code = state.control_store(env) + seq![Instruction::BrIf(relative_depth)];
            lemma_emit_wf(popped, code, Seq::empty());
            lemma_split_wf(popped.forward(code), values, popped.operand_stack.len() as int, values);
        },
        _ => {
            let effect = env.effect(op, state.operand_stack)->Ok_0;
            lemma_pop_n_wf(state, effect.pops);
            let moved = state.pop_n(effect.pops).push_all(effect.pushes);
            lemma_emit_wf(moved, effect.fwd, effect.bwd);
        },
    }
}

/// The instructions of a function leave a state well formed.
pub proof fn lemma_run_wf(env: Env, state: State, ops: Seq<Instruction>, k: nat)
    requires
        env.wf(),
        types_bounded(env),
        state.wf(),
        k <= ops.len(),
        env.run(state, ops, k) is Ok,
    ensures
        env.run(state, ops, k)->Ok_0.wf(),
        body_frame(state) ==> body_frame(env.run(state, ops, k)->Ok_0),
    decreases k,
{
    if k > 0 {
        lemma_run_wf(env, state, ops, (k - 1) as nat);
        lemma_step_wf(env, env.run(state, ops, (k - 1) as nat)->Ok_0, ops[k - 1]);
    }
}

/// Where the locals of a function can be counted, the transformation begins in a well-formed
/// state, with the frame of the function body open.
pub proof fn lemma_start_wf(
    types: Seq<(Seq<ValType>, Seq<ValType>)>,
    num_imports: NumImports,
    func_types: Seq<u32>,
    funcidx: u32,
    locals: Seq<(u32, ValType)>,
)
    requires
        crate::reverse::tables_fit(types, num_imports, func_types),
        funcidx < func_types.len(),
        Env::of_function(types, num_imports, func_types, funcidx, locals).locals_fit(),
    ensures
        Env::of_function(types, num_imports, func_types, funcidx, locals).wf(),
        Env::of_function(types, num_imports, func_types, funcidx, locals).start(
            func_types[funcidx as int],
        ).wf(),
        body_frame(
            Env::of_function(types, num_imports, func_types, funcidx, locals).start(
                func_types[funcidx as int],
            ),
        ),
{
    let env = Env::of_function(types, num_imports, func_types, funcidx, locals);
    let entries = env.locals;
    let own = (types[func_types[funcidx as int] as int].0.len() + locals.len()) as int;
    assert(entries.len() == own + 3);
    assert(entries[own] == (1u32, ValType::F32));
    assert(entries[own + 1] == (1u32, ValType::F64));
    assert(entries[own + 2] == (1u32, ValType::I32));
    reveal_with_fuel(keys_upto, 4);
    crate::reverse::lemma_vals_le_keys(entries, entries.len() as int);
    crate::reverse::lemma_vals_le_keys(entries, own);
    assert(keys_upto(entries, own + 3) == keys_upto(entries, own) + 3);
}

/// The backward pass of a function whose instructions are accepted, and whose body they close,
/// can be put together unless it is too large: what the transformation records of the basic
/// blocks is never at odds with itself.
pub proof fn lemma_function_errors(
    types: Seq<(Seq<ValType>, Seq<ValType>)>,
    num_imports: NumImports,
    func_types: Seq<u32>,
    funcidx: u32,
    locals: Seq<(u32, ValType)>,
    ops: Seq<Instruction>,
)
    requires
        crate::reverse::tables_fit(types, num_imports, func_types),
        funcidx < func_types.len(),
        forall|t: int|
            0 <= t < types.len() ==> (#[trigger] types[t]).0.len() <= u32::MAX && types[t].1.len()
                <= u32::MAX,
    ensures
        ({
            let env = Env::of_function(types, num_imports, func_types, funcidx, locals);
            let end = env.run(env.start(func_types[funcidx as int]), ops, ops.len());
            end is Ok && end->Ok_0.control_stack.len() == 0 ==> crate::backward::at_most_too_large(
                crate::reverse::spec_function(
                    types,
                    num_imports,
                    func_types,
                    funcidx,
                    locals,
                    ops,
                ),
            )
        }),
{
    let env = Env::of_function(types, num_imports, func_types, funcidx, locals);
    let start = env.start(func_types[funcidx as int]);
    if env.locals_fit() && env.run(start, ops, ops.len()) is Ok {
        lemma_start_wf(types, num_imports, func_types, funcidx, locals);
        lemma_run_wf(env, start, ops, ops.len());
        let end = env.run(start, ops, ops.len())->Ok_0;
        if end.control_stack.len() == 0 {
            end.bwd.lemma_raw_body_errors(end.operand_stack);
        }
    }
}

/// A name that is wished for is in use once the wish is met, whatever was given for it.
pub proof fn lemma_wish_in_use(names: Used, name: Seq<char>)
    requires
        names_wf(names),
    ensures
        in_use(after(names, name), name),
{
    lemma_given_is_new(names, name);
    let (base, number) = spec_decompose(name);
    if given(names, name) != name {
        assert(numbers_of(names, base).holds(number));
        assert(in_use(names, name));
    }
}

/// Once a list of names is read, each of its names is in use.
pub proof fn lemma_read_in_use(start: Used, list: Seq<(u32, Seq<char>)>, k: nat)
    requires
        names_wf(start),
        k <= list.len(),
    ensures
        names_wf(set_after(start, list, k)),
        forall|i: int| 0 <= i < k ==> in_use(set_after(start, list, k), (#[trigger] list[i]).1),
    decreases k,
{
    if k > 0 {
        lemma_read_in_use(start, list, (k - 1) as nat);
        let before = set_after(start, list, (k - 1) as nat);
        lemma_given_is_new(before, list[k - 1].1);
        lemma_wish_in_use(before, list[k - 1].1);
    }
}

/// The name given for a wish was not in use before the first wish was made.
pub proof fn lemma_granted_free(start: Used, wishes: Seq<(u32, Seq<char>)>, j: int)
    requires
        names_wf(start),
        never_fails(start, wishes),
        0 <= j < wishes.len(),
    ensures
        !in_use(start, granted(start, wishes)[j].1),
{
    lemma_gen_state(start, wishes, 0, j as nat);
    lemma_given_is_new(gen_state(start, wishes, j as nat), wishes[j].1);
}

proof fn lemma_gen_state_prefix(
    start: Used,
    first: Seq<(u32, Seq<char>)>,
    second: Seq<(u32, Seq<char>)>,
    k: nat,
)
    requires
        k <= first.len(),
    ensures
        gen_state(start, first + second, k) == gen_state(start, first, k),
    decreases k,
{
    if k > 0 {
        lemma_gen_state_prefix(start, first, second, (k - 1) as nat);
        assert((first + second)[k - 1] == first[k - 1]);
    }
}

/// Wishes made one list after the other are met as the wishes of the two lists put together.
pub proof fn lemma_gen_state_concat(
    start: Used,
    first: Seq<(u32, Seq<char>)>,
    second: Seq<(u32, Seq<char>)>,
    k: nat,
)
    requires
        k <= second.len(),
    ensures
        gen_state(start, first + second, first.len() + k) == gen_state(
            gen_state(start, first, first.len()),
            second,
            k,
        ),
    decreases k,
{
    if k == 0 {
        lemma_gen_state_prefix(start, first, second, first.len());
    } else {
        lemma_gen_state_concat(start, first, second, (k - 1) as nat);
        assert((first + second)[first.len() + k - 1] == second[k - 1]);
    }
}

/// What is given for two lists of wishes, one after the other, is what is given for the two
/// lists put together.
pub proof fn lemma_granted_concat(
    start: Used,
    first: Seq<(u32, Seq<char>)>,
    second: Seq<(u32, Seq<char>)>,
)
    ensures
        granted(start, first + second) == granted(start, first) + granted(
            gen_state(start, first, first.len()),
            second,
        ),
{
    let whole = granted(start, first + second);
    let parts = granted(start, first) + granted(gen_state(start, first, first.len()), second);
    assert(whole.len() == parts.len());
    assert forall|i: int| 0 <= i < whole.len() implies whole[i] == parts[i] by {
        if i < first.len() {
            lemma_gen_state_prefix(start, first, second, i as nat);
            assert((first + second)[i] == first[i]);
        } else {
            lemma_gen_state_concat(start, first, second, (i - first.len()) as nat);
            assert((first + second)[i] == second[i - first.len()]);
        }
    }
    assert(whole =~= parts);
}

/// Whether each entry of a name map from the place `from` on has a name that no other entry
/// of the map has.
pub open spec fn new_from(names: Seq<(u32, Seq<char>)>, from: int) -> bool {
    forall|i: int, j: int|
        0 <= i < names.len() && from <= j < names.len() && i != j ==> (#[trigger] names[i]).1 != (
        #[trigger] names[j]).1
}

/// Names given for a list of wishes differ from the names that were in use before and from
/// one another, as long as the numbers behind no base run out.
pub proof fn lemma_given_names_new(
    start: Used,
    kept: Seq<(u32, Seq<char>)>,
    wishes: Seq<(u32, Seq<char>)>,
)
    requires
        names_wf(start),
        forall|i: int| 0 <= i < kept.len() ==> in_use(start, (#[trigger] kept[i]).1),
        never_fails(start, wishes),
    ensures
        new_from(kept + granted(start, wishes), kept.len() as int),
{
    let all = kept + granted(start, wishes);
    assert forall|i: int, j: int|
        0 <= i < all.len() && kept.len() <= j < all.len() && i != j implies (#[trigger] all[i]).1
        != (#[trigger] all[j]).1 by {
        let g = j - kept.len();
        lemma_granted_free(start, wishes, g);
        if i < kept.len() {
            assert(in_use(start, kept[i].1));
        } else {
            let h = i - kept.len();
            if h < g {
                crate::names::lemma_granted_new(start, wishes, h, g);
            } else {
                crate::names::lemma_granted_new(start, wishes, g, h);
            }
        }
    }
}

/// Every name that is generated in a namespace is the name of nothing else in it: where the
/// names of the source module are kept, under whatever indices, and names are then given for
/// two lists of wishes, each given name differs from the names of the source module and from
/// every other given name. The numbers behind a base must not have run out.
pub proof fn lemma_generated_names_new(
    list: Seq<(u32, Seq<char>)>,
    kept: Seq<(u32, Seq<char>)>,
    first: Seq<(u32, Seq<char>)>,
    second: Seq<(u32, Seq<char>)>,
)
    requires
        kept.len() == list.len(),
        forall|i: int| 0 <= i < list.len() ==> (#[trigger] kept[i]).1 == list[i].1,
        never_fails(read(list), first + second),
    ensures
        new_from(
            kept + granted(read(list), first) + granted(
                gen_state(read(list), first, first.len()),
                second,
            ),
            list.len() as int,
        ),
{
    let start = read(list);
    let all = kept + granted(start, first) + granted(gen_state(start, first, first.len()), second);
    lemma_read_in_use(Map::empty(), list, list.len());
    lemma_granted_concat(start, first, second);
    assert(all =~= kept + granted(start, first + second));
    assert forall|i: int| 0 <= i < kept.len() implies in_use(start, (#[trigger] kept[i]).1) by {
        assert(in_use(start, list[i].1));
    }
    lemma_given_names_new(start, kept, first + second);
}

/// The names that a backward pass keeps are names of the source function.
proof fn lemma_kept_in_use(
    entries: Seq<(u32, ValType)>,
    results: u32,
    names: Seq<(u32, Seq<char>)>,
    k: nat,
    used: Used,
)
    requires
        k <= names.len(),
        forall|i: int| 0 <= i < names.len() ==> in_use(used, (#[trigger] names[i]).1),
    ensures
        forall|e: int|
            0 <= e < kept_locals(entries, results, names, k).len() ==> in_use(
                used,
                (#[trigger] kept_locals(entries, results, names, k)[e]).1,
            ),
    decreases k,
{
    if k > 0 {
        lemma_kept_in_use(entries, results, names, (k - 1) as nat, used);
        assert(in_use(used, names[k - 1].1));
        let rest = kept_locals(entries, results, names, (k - 1) as nat);
        let kept = kept_locals(entries, results, names, k);
        assert forall|e: int| 0 <= e < kept.len() implies in_use(used, (#[trigger] kept[e]).1) by {
            if e < rest.len() {
                assert(kept[e] == rest[e]);
            }
        }
    }
}

/// The locals of a backward pass have no generated name twice, and no generated name that the
/// source function gave to one of its locals, as long as the numbers behind no base run out.
pub proof fn lemma_backward_locals_new(
    entries: Seq<(u32, ValType)>,
    results: u32,
    stack: StackHeight,
    branch: StackHeight,
    source: Seq<(u32, Seq<char>)>,
)
    requires
        backward_locals(entries, results, stack, branch, source) is Ok,
        never_fails(
            read(source),
            local_wishes(
                results,
                vals_upto(entries, spec_type_map(), entries.len() as int) as u32,
                stack,
                branch,
            ),
        ),
    ensures
        new_from(
            backward_locals(entries, results, stack, branch, source)->Ok_0,
            kept_locals(entries, results, source, source.len()).len() as int,
        ),
{
    lemma_read_in_use(Map::empty(), source, source.len());
    lemma_kept_in_use(entries, results, source, source.len(), read(source));
    lemma_given_names_new(
        read(source),
        kept_locals(entries, results, source, source.len()),
        local_wishes(
            results,
            vals_upto(entries, spec_type_map(), entries.len() as int) as u32,
            stack,
            branch,
        ),
    );
}

/// The wishes behind the names of the functions, types or memories of a source module: a name
/// for the counterpart of each named item, and then the names of what the transformation adds.
pub open spec fn namespace_wishes(
    list: Seq<(u32, Seq<char>)>,
    offset: u32,
    threshold: u32,
    added: Seq<Seq<char>>,
    first: int,
) -> Seq<(u32, Seq<char>)> {
    backward_wishes(list, offset, threshold) + listed_wishes(added, first)
}

/// The functions, the types, the memories and the globals of a name section each have no
/// generated name twice, and no generated name that the source module gave to an item of that
/// kind, as long as the numbers behind no base run out.
pub proof fn lemma_name_section_names_new(
    functions: Seq<FuncFacts>,
    num_imports: u32,
    num_types: u32,
    source: Seq<Name>,
)
    requires
        spec_names(num_imports, source) is Ok,
        spec_name_section(
            functions,
            num_imports,
            num_types,
            spec_names(num_imports, source)->Ok_0,
        ) is Ok,
        ({
            let picked = pick(source, source.len())->Ok_0;
            &&& never_fails(
                read(or_empty(picked.functions)),
                namespace_wishes(
                    or_empty(picked.functions),
                    OFFSET_FUNCTIONS,
                    num_imports,
                    helper_function_names(),
                    2 * num_imports,
                ),
            )
            &&& never_fails(
                read(or_empty(picked.types)),
                namespace_wishes(or_empty(picked.types), 0, 0, helper_type_names(), 2 * num_types),
            )
            &&& never_fails(
                read(or_empty(picked.memories)),
                namespace_wishes(or_empty(picked.memories), OFFSET_MEMORIES, 0, tape_names(), 0),
            )
            &&& never_fails(
                read(or_empty(picked.globals)),
                Seq::<(u32, Seq<char>)>::empty() + listed_wishes(tape_names(), 0),
            )
        }),
    ensures
        ({
            let picked = pick(source, source.len())->Ok_0;
            let section = spec_name_section(
                functions,
                num_imports,
                num_types,
                spec_names(num_imports, source)->Ok_0,
            )->Ok_0;
            &&& new_from(section.functions, or_empty(picked.functions).len() as int)
            &&& new_from(section.types, or_empty(picked.types).len() as int)
            &&& new_from(section.memories, or_empty(picked.memories).len() as int)
            &&& new_from(section.globals, or_empty(picked.globals).len() as int)
        }),
{
    let picked = pick(source, source.len())->Ok_0;
    let fs = or_empty(picked.functions);
    let ts = or_empty(picked.types);
    let ms = or_empty(picked.memories);
    let gs = or_empty(picked.globals);
    lemma_generated_names_new(
        fs,
        forward_names(fs, OFFSET_FUNCTIONS, num_imports),
        backward_wishes(fs, OFFSET_FUNCTIONS, num_imports),
        listed_wishes(helper_function_names(), 2 * num_imports),
    );
    lemma_generated_names_new(
        ts,
        forward_names(ts, 0, 0),
        backward_wishes(ts, 0, 0),
        listed_wishes(helper_type_names(), 2 * num_types),
    );
    lemma_generated_names_new(
        ms,
        forward_names(ms, OFFSET_MEMORIES, 0),
        backward_wishes(ms, OFFSET_MEMORIES, 0),
        listed_wishes(tape_names(), 0),
    );
    lemma_generated_names_new(
        gs,
        shifted(gs, crate::helper::OFFSET_GLOBALS),
        Seq::empty(),
        listed_wishes(tape_names(), 0),
    );
    assert(granted(read(gs), Seq::<(u32, Seq<char>)>::empty()) =~= Seq::empty());
    let names = spec_names(num_imports, source)->Ok_0;
    let section = spec_name_section(functions, num_imports, num_types, names)->Ok_0;
    assert(section.globals =~= shifted(gs, crate::helper::OFFSET_GLOBALS) + granted(
        read(gs),
        Seq::empty(),
    ) + granted(gen_state(read(gs), Seq::empty(), 0), listed_wishes(tape_names(), 0)));
}

/// A named item of a source module keeps its name for the first of the two items that stand
/// for it, and the second has that name with `_bwd` behind it where that name is still free
/// when its turn comes.
pub proof fn lemma_mirrored_names(
    list: Seq<(u32, Seq<char>)>,
    offset: u32,
    threshold: u32,
    i: int,
)
    requires
        0 <= i < list.len(),
        !in_use(
            gen_state(read(list), backward_wishes(list, offset, threshold), i as nat),
            list[i].1 + "_bwd"@,
        ),
    ensures
        mirrored(list, offset, threshold)[i] == (
            doubled(list[i].0, offset, threshold) as u32,
            list[i].1,
        ),
        mirrored(list, offset, threshold)[list.len() + i] == (
            (doubled(list[i].0, offset, threshold) + 1) as u32,
            list[i].1 + "_bwd"@,
        ),
{
    let wishes = backward_wishes(list, offset, threshold);
    let state = gen_state(read(list), wishes, i as nat);
    let name = list[i].1 + "_bwd"@;
    assert(wishes[i].1 == name);
    assert(given(state, name) == name);
}

} // verus!
