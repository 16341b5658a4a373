use vstd::prelude::*;
use crate::bytecode::opcode::OpCode;
use crate::bytecode::value::{Value, ValueView};
use crate::vm::context::lemma_innermost_in_range;
use crate::vm::ops::{
    first_match, map_keys_case, map_set_case, map_values_case, no_match, RuntimeResult,
};
use crate::vm::runtime::Effect;
use crate::vm::ops::RuntimeError;
use crate::vm::semantics::{
    branch_case, build_case, call_case, closure_case, continues, cut, instruction_case,
    is_binary, is_unary, operand, operand16, output_case, past, pooled, return_case,
    special_case, step_case, throw_case, underflows, variable_case, MachineView,
};

verus! {

// ---------------------------------------------------------------------------
// What holds of every step of the machine, and of its maps.
// ---------------------------------------------------------------------------

/// The number of operands that an instruction takes from the stack, or
/// looks at; `m` is the machine with the instruction pointer behind the
/// instruction's byte.
pub open spec fn operands_taken(op: OpCode, m: MachineView, chunk_index: usize) -> nat {
    if is_binary(op) || op == OpCode::Swap || op == OpCode::ArrayPush || op == OpCode::MatchArm {
        2
    } else if op == OpCode::Rot || op == OpCode::ArraySet || op == OpCode::MapSet {
        3
    } else if is_unary(op) || op == OpCode::Pop || op == OpCode::MatchEnd || op == OpCode::Dup
        || op == OpCode::DeclareVar || op == OpCode::StoreVar || op == OpCode::StoreGlobal || op
        == OpCode::MatchBind || op == OpCode::JumpIfFalse || op == OpCode::JumpIfTrue || op
        == OpCode::StoreCapture || op == OpCode::Throw || op == OpCode::Print || op
        == OpCode::Debug || op == OpCode::StoreAcc || op == OpCode::Return {
        1
    } else if op == OpCode::Call {
        operand(m, chunk_index, 2) as nat
    } else if op == OpCode::CallClosure {
        (operand(m, chunk_index, 0) + 1) as nat
    } else if op == OpCode::MakeArray {
        operand16(m, chunk_index, 0) as nat
    } else if op == OpCode::MakeMap {
        (2 * operand16(m, chunk_index, 0)) as nat
    } else if op == OpCode::MakeClosure || op == OpCode::Interpolate {
        operand(m, chunk_index, 2) as nat
    } else {
        0
    }
}

/// Stack discipline: an instruction that did not fail found its operands
/// on the stack.
pub proof fn lemma_operands_were_there(
    op: OpCode,
    pre: MachineView,
    post: MachineView,
    r: RuntimeResult<Effect>,
    chunk_index: usize,
    base_ip: usize,
)
    requires
        instruction_case(op, pre, post, r, chunk_index, base_ip),
        r is Ok,
    ensures
        pre.stack.len() >= operands_taken(op, pre, chunk_index),
{
    if op == OpCode::Call || op == OpCode::CallClosure {
        assert(call_case(op, pre, post, r, chunk_index, base_ip));
    } else if op == OpCode::MakeArray || op == OpCode::MakeMap || op == OpCode::ArraySet || op
        == OpCode::ArrayPush || op == OpCode::MapSet {
        assert(build_case(op, pre, post, r, chunk_index));
    } else if op == OpCode::MakeClosure || op == OpCode::StoreCapture {
        assert(closure_case(op, pre, post, r, chunk_index, base_ip));
    } else if op == OpCode::Interpolate || op == OpCode::StoreAcc {
        assert(special_case(op, pre, post, r, chunk_index, base_ip));
    } else if op == OpCode::Print || op == OpCode::Debug {
        assert(output_case(op, pre, post, r, chunk_index, base_ip));
    } else if op == OpCode::JumpIfFalse || op == OpCode::JumpIfTrue || op == OpCode::MatchArm {
        assert(branch_case(op, pre, post, r, chunk_index, base_ip));
    } else if op == OpCode::DeclareVar || op == OpCode::StoreVar || op == OpCode::StoreGlobal
        || op == OpCode::MatchBind {
        assert(variable_case(op, pre, post, r, chunk_index, base_ip));
    }
}

/// Capture snapshot, from outside: an assignment to a variable changes no
/// value on the stack, so no closure there, and no closure that a frame
/// applies.
pub proof fn lemma_assignment_keeps_captures(
    op: OpCode,
    pre: MachineView,
    post: MachineView,
    r: RuntimeResult<Effect>,
    chunk_index: usize,
    base_ip: usize,
)
    requires
        op == OpCode::StoreVar || op == OpCode::StoreGlobal,
        variable_case(op, pre, post, r, chunk_index, base_ip),
        r is Ok,
    ensures
        post.stack == pre.stack.drop_last(),
        post.context.frames.len() == pre.context.frames.len(),
        forall|i: int|
            0 <= i < pre.context.frames.len() ==> (#[trigger] post.context.frames[i]).closure
                == pre.context.frames[i].closure,
{
    let at = past(pre, 2);
    if op == OpCode::StoreVar {
        let index = operand16(pre, chunk_index, 0);
        let name = pooled(pre, chunk_index, index)->0;
        lemma_innermost_in_range(at.context.frames, name);
    }
}

/// Capture snapshot, from inside: a store to a captured value changes the
/// closure that the current frame applies and nothing else: no variable of
/// any scope, no other frame, and no value that stays on the stack.
pub proof fn lemma_capture_store_is_local(
    pre: MachineView,
    post: MachineView,
    r: RuntimeResult<Effect>,
    chunk_index: usize,
    base_ip: usize,
)
    requires
        closure_case(OpCode::StoreCapture, pre, post, r, chunk_index, base_ip),
        r is Ok,
    ensures
        post.stack == pre.stack.drop_last(),
        post.context.globals == pre.context.globals,
        post.context.frames.len() == pre.context.frames.len(),
        forall|i: int|
            0 <= i < pre.context.frames.len() ==> (#[trigger] post.context.frames[i]).scope
                == pre.context.frames[i].scope,
        forall|i: int|
            0 <= i < pre.context.frames.len() - 1 ==> #[trigger] post.context.frames[i]
                == pre.context.frames[i],
{
}

/// Map order preservation: to set a key that a map holds replaces the
/// first entry under that key where it stands and keeps every other entry
/// in its place; to set a new key adds an entry at the end.
pub proof fn lemma_map_set_keeps_order(
    entries: Seq<(ValueView, ValueView)>,
    key: ValueView,
    value: ValueView,
    r: RuntimeResult<Value>,
)
    requires
        map_set_case(ValueView::Mapping(entries), key, value, r),
    ensures
        r matches Ok(v) && (v@ matches ValueView::Mapping(after) && (if no_match(entries, key) {
            after == entries.push((key, value))
        } else {
            &&& after.len() == entries.len()
            &&& forall|j: int|
                0 <= j < entries.len() ==> #[trigger] after[j] == (if first_match(entries, key, j) {
                    (key, value)
                } else {
                    entries[j]
                })
        })),
{
    if !no_match(entries, key) {
        let v = r->Ok_0;
        let at = choose|at: int| #[trigger]
            first_match(entries, key, at) && v@ == ValueView::Mapping(
                entries.update(at, (key, value)),
            );
        assert forall|j: int| first_match(entries, key, j) implies j == at by {
            if j < at {
                assert(!entries[j].0.same(key));
            } else if at < j {
                assert(!entries[at].0.same(key));
            }
        }
    }
}

/// Map order preservation: the keys of a map come out in the order of its
/// entries.
pub proof fn lemma_map_keys_in_order(entries: Seq<(ValueView, ValueView)>, r: RuntimeResult<Value>)
    requires
        map_keys_case(ValueView::Mapping(entries), r),
    ensures
        r matches Ok(v) && (v@ matches ValueView::Array(keys) && keys.len() == entries.len()
            && forall|j: int| 0 <= j < entries.len() ==> #[trigger] keys[j] == entries[j].0),
{
}

/// Map order preservation: the values of a map come out in the order of
/// its entries.
pub proof fn lemma_map_values_in_order(
    entries: Seq<(ValueView, ValueView)>,
    r: RuntimeResult<Value>,
)
    requires
        map_values_case(ValueView::Mapping(entries), r),
    ensures
        r matches Ok(v) && (v@ matches ValueView::Array(values) && values.len() == entries.len()
            && forall|j: int| 0 <= j < entries.len() ==> #[trigger] values[j] == entries[j].1),
{
}

/// A step that fails leaves the machine as it was.
pub proof fn lemma_failure_changes_nothing(
    pre: MachineView,
    post: MachineView,
    r: RuntimeResult<Effect>,
)
    requires
        step_case(pre, post, r),
        r is Err,
    ensures
        post == pre,
{
}

/// A machine that reports that it has halted has halted, and its stack is
/// empty or holds one value.
pub proof fn lemma_halted_run_is_settled(
    pre: MachineView,
    post: MachineView,
    r: RuntimeResult<Effect>,
)
    requires
        step_case(pre, post, r),
        pre.pending is Nothing,
        pre.context.halted,
        r is Ok,
    ensures
        r matches Ok(Effect::Halted),
        post == pre,
        post.stack.len() <= 1,
{
}

/// Stack discipline, the other way round: an instruction that finds fewer
/// values on the stack than it takes underflows. This is said of the
/// instructions whose number of operands is fixed; a return is one of them
/// where a frame is there to return from.
pub proof fn lemma_too_few_operands_underflow(
    op: OpCode,
    pre: MachineView,
    post: MachineView,
    r: RuntimeResult<Effect>,
    chunk_index: usize,
    base_ip: usize,
)
    requires
        instruction_case(op, pre, post, r, chunk_index, base_ip),
        is_binary(op) || (is_unary(op) && op != OpCode::Convert) || op == OpCode::Pop || op
            == OpCode::Dup || op == OpCode::Swap || op == OpCode::Rot || op == OpCode::Print
            || op == OpCode::Debug || op == OpCode::Throw || op == OpCode::StoreAcc || op
            == OpCode::ArraySet || op == OpCode::ArrayPush || op == OpCode::MapSet || (op
            == OpCode::Return && pre.context.frames.len() > 0),
        pre.stack.len() < operands_taken(op, pre, chunk_index),
    ensures
        underflows(r),
{
    if op == OpCode::ArraySet || op == OpCode::ArrayPush || op == OpCode::MapSet {
        assert(build_case(op, pre, post, r, chunk_index));
    } else if op == OpCode::StoreAcc {
        assert(special_case(op, pre, post, r, chunk_index, base_ip));
    } else if op == OpCode::Print || op == OpCode::Debug {
        assert(output_case(op, pre, post, r, chunk_index, base_ip));
    } else if op == OpCode::Return {
        assert(return_case(pre, post, r));
    } else if op == OpCode::Throw {
        assert(throw_case(pre, post, r, base_ip));
    }
}

/// Break/continue scoping at run time: outside of a loop the two
/// instructions fail, each with its error; a flag is raised only inside of
/// one.
pub proof fn lemma_flags_need_a_loop(
    op: OpCode,
    pre: MachineView,
    post: MachineView,
    r: RuntimeResult<Effect>,
    chunk_index: usize,
    base_ip: usize,
)
    requires
        op == OpCode::Break || op == OpCode::Continue,
        instruction_case(op, pre, post, r, chunk_index, base_ip),
    ensures
        pre.context.loop_depth == 0 ==> (if op == OpCode::Break {
            r matches Err(RuntimeError::BreakOutsideLoop)
        } else {
            r matches Err(RuntimeError::ContinueOutsideLoop)
        }),
        r is Ok ==> pre.context.loop_depth > 0 && post.stack == pre.stack && (if op
            == OpCode::Break {
            post.context.break_flag && post.context.continue_flag == pre.context.continue_flag
        } else {
            post.context.continue_flag && post.context.break_flag == pre.context.break_flag
        }),
{
    assert(special_case(op, pre, post, r, chunk_index, base_ip));
}

/// Exception unwinding, in full: a throw that a handler waits for succeeds.
/// Where the stack and the call stack are as deep as the handler recorded,
/// or deeper, the stack is afterwards the values that lay on it when the
/// handler was installed, the call stack has the recorded depth, the frame
/// on top stands at the handler, the thrown value is the exception in
/// flight, and the handler is gone.
pub proof fn lemma_throw_lands(
    pre: MachineView,
    post: MachineView,
    r: RuntimeResult<Effect>,
    base_ip: usize,
)
    requires
        throw_case(pre, post, r, base_ip),
        pre.stack.len() > 0,
        pre.context.handlers.len() > 0,
        pre.stack.len() - 1 >= pre.context.handlers.last().stack_depth,
        pre.context.frames.len() >= pre.context.handlers.last().frame_depth >= 1,
    ensures
        continues(r),
        post.stack == pre.stack.take(pre.context.handlers.last().stack_depth as int),
        post.context.frames.len() == pre.context.handlers.last().frame_depth,
        post.context.frames.last().ip == pre.context.handlers.last().handler_ip,
        forall|i: int|
            0 <= i < post.context.frames.len() - 1 ==> #[trigger] post.context.frames[i]
                == pre.context.frames[i],
        post.context.current_exception == Some(pre.stack.last()),
        post.context.handlers == pre.context.handlers.drop_last(),
        post.context.globals == pre.context.globals,
{
    let handler = pre.context.handlers.last();
    assert(cut(pre.stack.drop_last(), handler.stack_depth) =~= pre.stack.take(
        handler.stack_depth as int,
    ));
}

} // verus!
