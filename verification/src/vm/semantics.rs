use vstd::prelude::*;
use crate::bytecode::opcode::{u16_of, Chunk, OpCode, ValueType};
use crate::bytecode::value::{Value, ValueView};
use crate::bytecode::opcode::Answer;
use crate::number::{RealReply, RealRequest};
use crate::text::{parsed_integer, text_lt};
use crate::vm::context::{
    assign_global, assign_in, declare_in, duplicate, refusal, resolve, undeclared, Assignment,
    ContextError, ContextView, ExceptionHandler, FrameView, VariableView, MAX_CALL_DEPTH,
};
use crate::vm::ops::{
    arithmetic_case, array_get_case, array_len_case, array_push_case, array_set_case,
    concat_case, conversion_case, input_case, interpolation_case, is_mismatch, is_mismatch_of,
    map_set_case, paired,
    map_get_case, map_has_case, map_keys_case, map_remove_case, map_values_case, negation_case,
    increment_case, Arith, Computed, Pending, RuntimeError, RuntimeResult,
};
use crate::vm::runtime::Effect;
use crate::vm::stack::{StackError, MAX_STACK_DEPTH};

verus! {

// ---------------------------------------------------------------------------
// What each instruction does to the machine.
//
// A step that fails is fatal to the program. For a failure the predicates
// of the instructions say which error is drawn; that the machine is then as
// it was is said once, of the step.
// ---------------------------------------------------------------------------

/// The mathematical content of the machine.
pub struct MachineView {
    pub stack: Seq<ValueView>,
    pub context: ContextView,
    pub pending: Pending,
}

/// The context with the instruction pointer of its current frame moved.
pub open spec fn at_ip(context: ContextView, ip: usize) -> ContextView {
    ContextView {
        frames: context.frames.update(
            context.frames.len() - 1,
            FrameView { ip, ..context.frames.last() },
        ),
        ..context
    }
}

pub open spec fn stack_failure(e: RuntimeError, cause: StackError) -> bool {
    e matches RuntimeError::StackError(c) && c == cause
}

pub open spec fn underflows(r: RuntimeResult<Effect>) -> bool {
    r matches Err(e) && stack_failure(e, StackError::Underflow)
}

pub open spec fn overflows(r: RuntimeResult<Effect>) -> bool {
    r matches Err(e) && stack_failure(e, StackError::Overflow)
}

pub open spec fn continues(r: RuntimeResult<Effect>) -> bool {
    r matches Ok(Effect::Continue)
}

/// The machine is as it was, but for where the instruction pointer of the
/// current frame stands.
pub open spec fn stays(pre: MachineView, post: MachineView) -> bool {
    post.stack == pre.stack && post.pending == pre.pending && (post.context == pre.context || (
    pre.context.frames.len() > 0 && post.context == at_ip(
        pre.context,
        post.context.frames.last().ip,
    )))
}

/// A machine that stays as it was while the instruction pointer moves, and
/// then again, has stayed as it was.
pub proof fn lemma_stays(a: MachineView, b: MachineView, c: MachineView)
    requires
        stays(a, b),
        stays(b, c),
    ensures
        stays(a, c),
{
    if b.context != a.context && c.context != b.context {
        assert(c.context.frames =~= at_ip(a.context, c.context.frames.last().ip).frames);
    }
}

/// A machine whose instruction pointer moved past operands has stayed as
/// it was.
pub broadcast proof fn lemma_stays_past(m: MachineView, n: nat)
    requires
        m.context.frames.len() > 0,
    ensures
        stays(m, #[trigger] past(m, n)),
{
    assert(past(m, n).context.frames.last().ip == (ip_of(m) + n) as usize);
}

/// What stays as a machine was behind its operands stays as the machine
/// was.
pub broadcast proof fn lemma_stays_behind(m: MachineView, n: nat, x: MachineView)
    requires
        m.context.frames.len() > 0,
        #[trigger] stays(past(m, n), x),
    ensures
        stays(m, x),
{
    lemma_stays_past(m, n);
    lemma_stays(m, past(m, n), x);
}

pub broadcast group group_stays {
    lemma_stays_past,
    lemma_stays_behind,
}

/// A machine whose instruction pointer is put back is as it was.
pub proof fn lemma_put_back(pre: MachineView, post: MachineView)
    requires
        stays(pre, post),
        pre.context.frames.len() > 0,
    ensures
        at_ip(post.context, pre.context.frames.last().ip) == pre.context,
{
    assert(at_ip(post.context, pre.context.frames.last().ip).frames =~= pre.context.frames);
}

/// The instruction at `offset` is malformed.
pub open spec fn malformed_at(r: RuntimeResult<Effect>, offset: usize) -> bool {
    r matches Err(RuntimeError::InvalidBytecode { offset: at }) && at == offset
}

/// The machine with another stack.
pub open spec fn with_stack(m: MachineView, stack: Seq<ValueView>) -> MachineView {
    MachineView { stack, ..m }
}

/// A value is pushed.
pub open spec fn pushes(
    pre: MachineView,
    post: MachineView,
    r: RuntimeResult<Effect>,
    v: ValueView,
) -> bool {
    if pre.stack.len() < MAX_STACK_DEPTH {
        continues(r) && post == with_stack(pre, pre.stack.push(v))
    } else {
        overflows(r)
    }
}

/// The result of an instruction takes the place of its `pops` operands, or
/// the host is asked and the machine waits: for an operand, with the
/// instruction pointer back at the instruction; for the result, with the
/// instruction pointer behind it.
pub open spec fn completes(
    pre: MachineView,
    post: MachineView,
    r: RuntimeResult<Effect>,
    computed: Computed,
    pops: nat,
) -> bool {
    match computed {
        Computed::Done(value) => if pops > pre.stack.len() {
            underflows(r)
        } else if pre.stack.len() - pops >= MAX_STACK_DEPTH {
            overflows(r)
        } else {
            continues(r) && post == with_stack(
                pre,
                pre.stack.take(pre.stack.len() - pops).push(value@),
            )
        },
        Computed::Host(request, pending) => r == Ok::<Effect, RuntimeError>(Effect::Real(request))
            && post == (MachineView {
            stack: pre.stack,
            pending,
            context: match pending {
                Pending::Operand { depth, resume } => if pre.context.frames.len() > 0 {
                    at_ip(pre.context, resume)
                } else {
                    pre.context
                },
                _ => pre.context,
            },
        }),
    }
}

/// An instruction ends as its value-level operation does.
pub open spec fn finishes(
    pre: MachineView,
    post: MachineView,
    r: RuntimeResult<Effect>,
    outcome: RuntimeResult<Computed>,
    pops: nat,
    base_ip: usize,
) -> bool {
    match outcome {
        Err(e) => r matches Err(x) && x == e,
        Ok(computed) => completes(pre, post, r, computed, pops) && (computed matches Computed::Host(
            _,
            Pending::Operand { depth: _, resume },
        ) ==> resume == base_ip),
    }
}

/// A value-level operation that gives a boolean.
pub open spec fn gives_boolean(c: RuntimeResult<Computed>, t: bool) -> bool {
    c matches Ok(Computed::Done(Value::Boolean(b))) && b == t
}

/// A value-level operation that gives what another gives as a plain value.
pub open spec fn gives(c: RuntimeResult<Computed>, v: RuntimeResult<Value>) -> bool {
    match v {
        Ok(value) => c matches Ok(Computed::Done(x)) && x == value,
        Err(e) => c matches Err(x) && x == e,
    }
}

/// What a comparison by order makes of the answer to `a < b` and to
/// `b < a`.
pub open spec fn ordering_of(op: OpCode, less: bool, greater: bool) -> bool {
    match op {
        OpCode::Lt => less,
        OpCode::Gt => greater,
        OpCode::Le => !greater,
        _ => !less,
    }
}

/// What a comparison by order makes of two values: numbers compare by their
/// order, strings by code point; an integer met with a real is first made a
/// real by the host; values of other types draw a type mismatch, which
/// names the operands in the order in which the comparison takes them.
pub open spec fn comparison_case(
    op: OpCode,
    a: ValueView,
    b: ValueView,
    c: RuntimeResult<Computed>,
) -> bool {
    match (a, b) {
        (ValueView::Integer(x), ValueView::Integer(y)) => gives_boolean(
            c,
            ordering_of(op, x < y, y < x),
        ),
        (ValueView::Real(x), ValueView::Real(y)) => gives_boolean(
            c,
            ordering_of(op, x.ieee_lt(y), y.ieee_lt(x)),
        ),
        (ValueView::String(x), ValueView::String(y)) => gives_boolean(
            c,
            ordering_of(op, text_lt(x, y), text_lt(y, x)),
        ),
        (ValueView::Integer(x), ValueView::Real(_)) => c matches Ok(
            Computed::Host(RealRequest::FromInteger(i), Pending::Operand { depth: 1, resume: _ }),
        ) && i == x,
        (ValueView::Real(_), ValueView::Integer(y)) => c matches Ok(
            Computed::Host(RealRequest::FromInteger(i), Pending::Operand { depth: 0, resume: _ }),
        ) && i == y,
        _ => c matches Err(e) && (if op == OpCode::Lt || op == OpCode::Ge {
            is_mismatch(e, "comparable types"@, a, b)
        } else {
            is_mismatch(e, "comparable types"@, b, a)
        }),
    }
}

/// What an instruction with two operands makes of them: `a` was pushed
/// first, `b` lies on top.
pub open spec fn binary_value_case(
    op: OpCode,
    a: ValueView,
    b: ValueView,
    c: RuntimeResult<Computed>,
) -> bool {
    match op {
        OpCode::Add => arithmetic_case(Arith::Add, a, b, c),
        OpCode::Sub => arithmetic_case(Arith::Sub, a, b, c),
        OpCode::Mul => arithmetic_case(Arith::Mul, a, b, c),
        OpCode::Div => arithmetic_case(Arith::Div, a, b, c),
        OpCode::Mod => arithmetic_case(Arith::Mod, a, b, c),
        OpCode::Pow => arithmetic_case(Arith::Pow, a, b, c),
        OpCode::Eq => gives_boolean(c, a.same(b)),
        OpCode::Ne => gives_boolean(c, !a.same(b)),
        OpCode::Lt | OpCode::Gt | OpCode::Le | OpCode::Ge => comparison_case(op, a, b, c),
        OpCode::And => gives_boolean(c, a.truthy() && b.truthy()),
        OpCode::Or => gives_boolean(c, a.truthy() || b.truthy()),
        OpCode::Xor => gives_boolean(c, a.truthy() != b.truthy()),
        OpCode::ArrayGet => exists|v: RuntimeResult<Value>| #[trigger]
            array_get_case(a, b, v) && gives(c, v),
        OpCode::MapGet => exists|v: RuntimeResult<Value>| #[trigger]
            map_get_case(a, b, v) && gives(c, v),
        OpCode::MapHas => exists|v: RuntimeResult<Value>| #[trigger]
            map_has_case(a, b, v) && gives(c, v),
        OpCode::MapRemove => exists|v: RuntimeResult<Value>| #[trigger]
            map_remove_case(a, b, v) && gives(c, v),
        _ => c matches Ok(computed) && concat_case(a, b, computed),
    }
}

/// The instructions that make one value of the two topmost.
pub open spec fn is_binary(op: OpCode) -> bool {
    op == OpCode::Add || op == OpCode::Sub || op == OpCode::Mul || op == OpCode::Div || op
        == OpCode::Mod || op == OpCode::Pow || op == OpCode::Eq || op == OpCode::Ne || op
        == OpCode::Lt || op == OpCode::Gt || op == OpCode::Le || op == OpCode::Ge || op
        == OpCode::And || op == OpCode::Or || op == OpCode::Xor || op == OpCode::ArrayGet || op
        == OpCode::MapGet || op == OpCode::MapHas || op == OpCode::MapRemove || op
        == OpCode::Concat
}

/// What an instruction with two operands does to the machine.
pub open spec fn binary_case(
    op: OpCode,
    pre: MachineView,
    post: MachineView,
    r: RuntimeResult<Effect>,
    base_ip: usize,
) -> bool {
    if pre.stack.len() < 2 {
        underflows(r)
    } else {
        exists|c: RuntimeResult<Computed>| #[trigger]
            binary_value_case(op, pre.stack[pre.stack.len() - 2], pre.stack.last(), c)
                && finishes(pre, post, r, c, 2, base_ip)
    }
}

/// The instructions that make one value of the topmost.
pub open spec fn is_unary(op: OpCode) -> bool {
    op == OpCode::Neg || op == OpCode::Inc || op == OpCode::Dec || op == OpCode::Not || op
        == OpCode::ArrayLen || op == OpCode::MapKeys || op == OpCode::MapValues || op
        == OpCode::Convert
}

/// What an instruction with one operand makes of it; `target` is the type
/// that a conversion converts to.
pub open spec fn unary_value_case(
    op: OpCode,
    target: ValueType,
    a: ValueView,
    c: RuntimeResult<Computed>,
) -> bool {
    match op {
        OpCode::Neg => exists|v: RuntimeResult<Value>| #[trigger]
            negation_case(a, v) && gives(c, v),
        OpCode::Inc => increment_case(a, 1, c),
        OpCode::Dec => increment_case(a, -1, c),
        OpCode::Not => gives_boolean(c, !a.truthy()),
        OpCode::ArrayLen => exists|v: RuntimeResult<Value>| #[trigger]
            array_len_case(a, v) && gives(c, v),
        OpCode::MapKeys => exists|v: RuntimeResult<Value>| #[trigger]
            map_keys_case(a, v) && gives(c, v),
        OpCode::MapValues => exists|v: RuntimeResult<Value>| #[trigger]
            map_values_case(a, v) && gives(c, v),
        _ => conversion_case(a, target, c),
    }
}

/// What an instruction with one operand does to the machine.
pub open spec fn unary_case(
    op: OpCode,
    target: ValueType,
    pre: MachineView,
    post: MachineView,
    r: RuntimeResult<Effect>,
    base_ip: usize,
) -> bool {
    if pre.stack.len() < 1 {
        underflows(r)
    } else {
        exists|c: RuntimeResult<Computed>| #[trigger]
            unary_value_case(op, target, pre.stack.last(), c) && finishes(
                pre,
                post,
                r,
                c,
                1,
                base_ip,
            )
    }
}

// ---------------------------------------------------------------------------
// Operands in the code
// ---------------------------------------------------------------------------

/// The instruction pointer of the current frame.
pub open spec fn ip_of(m: MachineView) -> usize {
    m.context.frames.last().ip
}

/// The chunk that an instruction runs in.
pub open spec fn chunk_of(m: MachineView, chunk_index: usize) -> Chunk {
    m.context.chunks[chunk_index as int]
}

/// Whether `n` operand bytes lie at the instruction pointer.
pub open spec fn has_operands(m: MachineView, chunk_index: usize, n: nat) -> bool {
    m.context.frames.len() > 0 && chunk_index < m.context.chunks.len() && ip_of(m) + n <= chunk_of(
        m,
        chunk_index,
    ).code@.len() && ip_of(m) + n <= usize::MAX
}

/// The operand byte at `k` bytes behind the instruction pointer.
pub open spec fn operand(m: MachineView, chunk_index: usize, k: int) -> u8 {
    chunk_of(m, chunk_index).code@[ip_of(m) + k]
}

/// The 16-bit operand at `k` bytes behind the instruction pointer.
pub open spec fn operand16(m: MachineView, chunk_index: usize, k: int) -> u16 {
    u16_of(operand(m, chunk_index, k), operand(m, chunk_index, k + 1))
}

/// The machine with the instruction pointer moved past `n` operand bytes.
pub open spec fn past(m: MachineView, n: nat) -> MachineView {
    MachineView { context: at_ip(m.context, (ip_of(m) + n) as usize), ..m }
}

/// The instruction has a malformed operand, or too few.
pub open spec fn malformed(r: RuntimeResult<Effect>) -> bool {
    r matches Err(RuntimeError::InvalidBytecode { .. })
}

/// The pooled string of an index, if the pool has it.
pub open spec fn pooled(m: MachineView, chunk_index: usize, index: u16) -> Option<Seq<char>> {
    if index < chunk_of(m, chunk_index).strings@.len() {
        Some(chunk_of(m, chunk_index).strings@[index as int]@)
    } else {
        None
    }
}

/// The machine with another context.
pub open spec fn with_context(m: MachineView, context: ContextView) -> MachineView {
    MachineView { context, ..m }
}

// ---------------------------------------------------------------------------
// Literals and the stack
// ---------------------------------------------------------------------------

/// `Const`: the constant of the operand's index is pushed.
pub open spec fn constant_case(
    pre: MachineView,
    post: MachineView,
    r: RuntimeResult<Effect>,
    chunk_index: usize,
    base_ip: usize,
) -> bool {
    if !has_operands(pre, chunk_index, 2) {
        malformed(r)
    } else {
        let index = operand16(pre, chunk_index, 0);
        if index >= chunk_of(pre, chunk_index).constants@.len() {
            malformed_at(r, base_ip)
        } else {
            pushes(past(pre, 2), post, r, chunk_of(pre, chunk_index).constants@[index as int]@)
        }
    }
}

/// `Pop`, and `MatchEnd`: the topmost value is dropped.
pub open spec fn pop_case(pre: MachineView, post: MachineView, r: RuntimeResult<Effect>) -> bool {
    if pre.stack.len() == 0 {
        underflows(r)
    } else {
        continues(r) && post == with_stack(pre, pre.stack.drop_last())
    }
}

/// `Dup`: the topmost value is pushed once more.
pub open spec fn dup_case(pre: MachineView, post: MachineView, r: RuntimeResult<Effect>) -> bool {
    if pre.stack.len() == 0 {
        underflows(r)
    } else {
        pushes(pre, post, r, pre.stack.last())
    }
}

/// `Swap`: the two topmost values change places.
pub open spec fn swap_case(pre: MachineView, post: MachineView, r: RuntimeResult<Effect>) -> bool {
    let s = pre.stack;
    if s.len() < 2 {
        underflows(r)
    } else {
        continues(r) && post == with_stack(
            pre,
            s.take(s.len() - 2).push(s.last()).push(s[s.len() - 2]),
        )
    }
}

/// `Rot`: of the three topmost values a, b, c, with c on top, c goes below
/// a and b.
pub open spec fn rot_case(pre: MachineView, post: MachineView, r: RuntimeResult<Effect>) -> bool {
    let s = pre.stack;
    if s.len() < 3 {
        underflows(r)
    } else {
        continues(r) && post == with_stack(
            pre,
            s.take(s.len() - 3).push(s.last()).push(s[s.len() - 3]).push(s[s.len() - 2]),
        )
    }
}

// ---------------------------------------------------------------------------
// Jumps
// ---------------------------------------------------------------------------

/// The instruction pointer moves by `offset` from where it stands, forward
/// or backward; a target outside of the machine's words is malformed.
pub open spec fn jumps(
    pre: MachineView,
    post: MachineView,
    r: RuntimeResult<Effect>,
    offset: u16,
    backward: bool,
    base_ip: usize,
) -> bool {
    let target = if backward {
        ip_of(pre) - offset
    } else {
        ip_of(pre) + offset
    };
    if 0 <= target <= usize::MAX {
        continues(r) && post == with_context(pre, at_ip(pre.context, target as usize))
    } else {
        malformed_at(r, base_ip)
    }
}

pub open spec fn is_branch(op: OpCode) -> bool {
    op == OpCode::Jump || op == OpCode::Loop || op == OpCode::JumpIfFalse || op
        == OpCode::JumpIfTrue || op == OpCode::MatchArm
}

/// `Jump` and `Loop` move the instruction pointer by their operand, forward
/// and backward. `JumpIfFalse` and `JumpIfTrue` take the condition off the
/// stack and jump forward where it is falsy, or truthy. `MatchArm` takes
/// the pattern off the stack and jumps forward where it is not the same as
/// the value below it, which stays.
pub open spec fn branch_case(
    op: OpCode,
    pre: MachineView,
    post: MachineView,
    r: RuntimeResult<Effect>,
    chunk_index: usize,
    base_ip: usize,
) -> bool {
    if !has_operands(pre, chunk_index, 2) {
        malformed(r)
    } else {
        let offset = operand16(pre, chunk_index, 0);
        let at = past(pre, 2);
        match op {
            OpCode::Jump => jumps(at, post, r, offset, false, base_ip),
            OpCode::Loop => jumps(at, post, r, offset, true, base_ip),
            OpCode::JumpIfFalse | OpCode::JumpIfTrue => if at.stack.len() == 0 {
                underflows(r)
            } else {
                let popped = with_stack(at, at.stack.drop_last());
                if at.stack.last().truthy() == (op == OpCode::JumpIfTrue) {
                    jumps(popped, post, r, offset, false, base_ip)
                } else {
                    continues(r) && post == popped
                }
            },
            _ => if at.stack.len() < 2 {
                underflows(r)
            } else {
                let popped = with_stack(at, at.stack.drop_last());
                if at.stack[at.stack.len() - 2].same(at.stack.last()) {
                    continues(r) && post == popped
                } else {
                    jumps(popped, post, r, offset, false, base_ip)
                }
            },
        }
    }
}

// ---------------------------------------------------------------------------
// Variables
// ---------------------------------------------------------------------------

/// A variable is declared in the current scope.
pub open spec fn declares(
    pre: MachineView,
    post: MachineView,
    r: RuntimeResult<Effect>,
    name: Seq<char>,
    variable: VariableView,
) -> bool {
    match declare_in(pre.context, name, variable) {
        Some(context) => continues(r) && post == with_context(pre, context),
        None => r matches Err(RuntimeError::ContextError(e)) && duplicate(name, e),
    }
}

/// A value is assigned to a variable.
pub open spec fn assigns(
    pre: MachineView,
    post: MachineView,
    r: RuntimeResult<Effect>,
    outcome: Assignment,
    name: Seq<char>,
    value: ValueView,
) -> bool {
    match outcome {
        Assignment::Assigned(context) => continues(r) && post == with_context(pre, context),
        Assignment::Undeclared => r matches Err(RuntimeError::ContextError(e)) && undeclared(
            name,
            e,
        ),
        Assignment::Refused(variable) => r matches Err(RuntimeError::ContextError(e)) && refusal(
            variable,
            value,
            name,
            e,
        ),
    }
}

pub open spec fn is_variable(op: OpCode) -> bool {
    op == OpCode::DeclareVar || op == OpCode::LoadVar || op == OpCode::StoreVar || op
        == OpCode::LoadGlobal || op == OpCode::StoreGlobal || op == OpCode::MatchBind || op
        == OpCode::Catch
}

/// The instructions that name a variable by the pool index of its name.
///
/// `DeclareVar` declares the name with the value on top of the stack and
/// the type of its second operand; a null value makes the variable
/// optional. `LoadVar` pushes the value that the name resolves to, and
/// `StoreVar` assigns the value on top of the stack. `LoadGlobal` and
/// `StoreGlobal` do the same with the globals. `MatchBind` declares the
/// name with the value on top of the stack, which stays. `Catch` declares
/// the name with the exception in flight, if there is one, and none is in
/// flight afterwards.
pub open spec fn variable_case(
    op: OpCode,
    pre: MachineView,
    post: MachineView,
    r: RuntimeResult<Effect>,
    chunk_index: usize,
    base_ip: usize,
) -> bool {
    if !has_operands(pre, chunk_index, 2) {
        malformed(r)
    } else {
        let index = operand16(pre, chunk_index, 0);
        let at = past(pre, 2);
        let named = pooled(pre, chunk_index, index);
        match op {
            OpCode::DeclareVar => if !has_operands(at, chunk_index, 1) || ValueType::of_tag(
                operand(at, chunk_index, 0),
            ) is None {
                malformed(r)
            } else if named is None {
                malformed_at(r, base_ip)
            } else if at.stack.len() == 0 {
                underflows(r)
            } else {
                let value = at.stack.last();
                declares(
                    with_stack(past(at, 1), at.stack.drop_last()),
                    post,
                    r,
                    named->0,
                    VariableView {
                        value,
                        var_type: ValueType::of_tag(operand(at, chunk_index, 0))->0,
                        optional: value is Null,
                        mutable: true,
                    },
                )
            },
            OpCode::LoadVar => if named is None {
                malformed_at(r, base_ip)
            } else {
                match resolve(at.context, named->0) {
                    Some(variable) => pushes(at, post, r, variable.value),
                    None => r matches Err(RuntimeError::ContextError(e)) && undeclared(
                        named->0,
                        e,
                    ),
                }
            },
            OpCode::StoreVar => if named is None {
                malformed_at(r, base_ip)
            } else if at.stack.len() == 0 {
                underflows(r)
            } else {
                assigns(
                    with_stack(at, at.stack.drop_last()),
                    post,
                    r,
                    assign_in(at.context, named->0, at.stack.last()),
                    named->0,
                    at.stack.last(),
                )
            },
            OpCode::LoadGlobal => if named is None {
                malformed_at(r, base_ip)
            } else if at.context.globals.contains_key(named->0) {
                pushes(at, post, r, at.context.globals[named->0].value)
            } else {
                r matches Err(RuntimeError::ContextError(e)) && undeclared(named->0, e)
            },
            OpCode::StoreGlobal => if named is None {
                malformed_at(r, base_ip)
            } else if at.stack.len() == 0 {
                underflows(r)
            } else {
                assigns(
                    with_stack(at, at.stack.drop_last()),
                    post,
                    r,
                    assign_global(at.context, named->0, at.stack.last()),
                    named->0,
                    at.stack.last(),
                )
            },
            OpCode::MatchBind => if named is None {
                malformed_at(r, base_ip)
            } else if at.stack.len() == 0 {
                underflows(r)
            } else {
                declares(
                    at,
                    post,
                    r,
                    named->0,
                    VariableView {
                        value: at.stack.last(),
                        var_type: ValueType::Null,
                        optional: true,
                        mutable: true,
                    },
                )
            },
            _ => if named is None {
                malformed_at(r, base_ip)
            } else {
                let cleared = with_context(
                    at,
                    ContextView { current_exception: None, ..at.context },
                );
                match at.context.current_exception {
                    Some(exception) => declares(
                        cleared,
                        post,
                        r,
                        named->0,
                        VariableView {
                            value: exception,
                            var_type: ValueType::Null,
                            optional: true,
                            mutable: true,
                        },
                    ),
                    None => continues(r) && post == cleared,
                }
            },
        }
    }
}

// ---------------------------------------------------------------------------
// Containers
// ---------------------------------------------------------------------------

pub open spec fn is_build(op: OpCode) -> bool {
    op == OpCode::ArraySet || op == OpCode::ArrayPush || op == OpCode::MapSet || op
        == OpCode::MakeArray || op == OpCode::MakeMap
}

/// The result of a value-level operation takes the place of the `pops`
/// topmost values.
pub open spec fn replaces(
    pre: MachineView,
    post: MachineView,
    r: RuntimeResult<Effect>,
    made: RuntimeResult<Value>,
    pops: nat,
) -> bool {
    match made {
        Err(e) => r matches Err(x) && x == e,
        Ok(value) => completes(pre, post, r, Computed::Done(value), pops),
    }
}

/// `ArraySet`, `ArrayPush` and `MapSet` take the container and what goes
/// into it off the stack and push the new container. `MakeArray` makes an
/// array of the topmost values, as many as its operand says, in the order
/// in which they were pushed; `MakeMap` makes a map of twice as many, which
/// are keys and values in turn.
pub open spec fn build_case(
    op: OpCode,
    pre: MachineView,
    post: MachineView,
    r: RuntimeResult<Effect>,
    chunk_index: usize,
) -> bool {
    let s = pre.stack;
    match op {
        OpCode::ArraySet => if s.len() < 3 {
            underflows(r)
        } else {
            exists|made: RuntimeResult<Value>| #[trigger]
                array_set_case(s[s.len() - 3], s[s.len() - 2], s.last(), made) && replaces(
                    pre,
                    post,
                    r,
                    made,
                    3,
                )
        },
        OpCode::ArrayPush => if s.len() < 2 {
            underflows(r)
        } else {
            exists|made: RuntimeResult<Value>| #[trigger]
                array_push_case(s[s.len() - 2], s.last(), made) && replaces(pre, post, r, made, 2)
        },
        OpCode::MapSet => if s.len() < 3 {
            underflows(r)
        } else {
            exists|made: RuntimeResult<Value>| #[trigger]
                map_set_case(s[s.len() - 3], s[s.len() - 2], s.last(), made) && replaces(
                    pre,
                    post,
                    r,
                    made,
                    3,
                )
        },
        _ => if !has_operands(pre, chunk_index, 2) {
            malformed(r)
        } else {
            let count = operand16(pre, chunk_index, 0);
            let at = past(pre, 2);
            let taken: nat = if op == OpCode::MakeArray {
                count as nat
            } else {
                (2 * count) as nat
            };
            if s.len() < taken {
                underflows(r)
            } else {
                let items = s.skip(s.len() - taken);
                pushes(
                    with_stack(at, s.take(s.len() - taken)),
                    post,
                    r,
                    if op == OpCode::MakeArray {
                        ValueView::Array(items)
                    } else {
                        ValueView::Mapping(paired(items))
                    },
                )
            }
        },
    }
}

// ---------------------------------------------------------------------------
// Functions and closures
// ---------------------------------------------------------------------------

/// The scope of a call after the first `k` parameters were declared with
/// their arguments; a parameter without an argument is null. Two
/// parameters of one name cannot be declared.
pub open spec fn bound(
    params: Seq<(Seq<char>, ValueType)>,
    args: Seq<ValueView>,
    k: nat,
) -> Option<Map<Seq<char>, VariableView>>
    decreases k,
{
    if k == 0 {
        Some(Map::empty())
    } else {
        match bound(params, args, (k - 1) as nat) {
            None => None,
            Some(scope) => if scope.contains_key(params[k - 1].0) {
                None
            } else {
                Some(
                    scope.insert(
                        params[k - 1].0,
                        VariableView {
                            value: if k - 1 < args.len() {
                                args[k - 1]
                            } else {
                                ValueView::Null
                            },
                            var_type: params[k - 1].1,
                            optional: false,
                            mutable: true,
                        },
                    ),
                )
            },
        }
    }
}

/// A function of the chunk is entered: its `arity` arguments leave the
/// stack, a frame is pushed that starts at the function's start with the
/// parameters declared, and the closure, if one is applied, is kept in the
/// frame.
pub open spec fn enters(
    pre: MachineView,
    post: MachineView,
    r: RuntimeResult<Effect>,
    chunk_index: usize,
    index: usize,
    arity: u8,
    closure: Option<(usize, Seq<ValueView>)>,
    base_ip: usize,
) -> bool {
    let functions = chunk_of(pre, chunk_index).functions@;
    let s = pre.stack;
    if index >= functions.len() {
        malformed_at(r, base_ip)
    } else if s.len() < arity {
        underflows(r)
    } else if pre.context.frames.len() >= MAX_CALL_DEPTH {
        r matches Err(RuntimeError::ContextError(ContextError::CallStackOverflow))
    } else {
        let f = functions[index as int]@;
        match bound(f.params, s.skip(s.len() - arity), f.params.len()) {
            None => r matches Err(RuntimeError::ContextError(ContextError::DuplicateVariable { .. })),
            Some(scope) => continues(r) && post == (MachineView {
                stack: s.take(s.len() - arity),
                context: ContextView {
                    frames: pre.context.frames.push(
                        FrameView {
                            chunk_index,
                            ip: f.start,
                            base_pointer: (s.len() - arity) as usize,
                            scope,
                            name: f.name,
                            closure,
                        },
                    ),
                    ..pre.context
                },
                pending: pre.pending,
            }),
        }
    }
}

/// `Return`: the value on top of the stack is the result; the current
/// frame is left with all that it declared; the result is on top of the
/// stack for the caller. Without a value to return the stack underflows.
pub open spec fn return_case(pre: MachineView, post: MachineView, r: RuntimeResult<Effect>) -> bool {
    if pre.context.frames.len() == 0 {
        r matches Err(RuntimeError::ContextError(ContextError::CallStackUnderflow))
    } else if pre.stack.len() == 0 {
        underflows(r)
    } else {
        continues(r) && post == with_context(
            pre,
            ContextView { frames: pre.context.frames.drop_last(), ..pre.context },
        )
    }
}

pub open spec fn is_call(op: OpCode) -> bool {
    op == OpCode::Call || op == OpCode::CallClosure || op == OpCode::LoadFunc || op
        == OpCode::DefineFunc
}

/// `Call` enters the function of its first operand with as many arguments
/// as its second says. `CallClosure` takes the callee off the stack, which
/// lies above the arguments, and enters it: a closure with its captures, a
/// function without. `LoadFunc` pushes a function value. `DefineFunc` is a
/// marker of five operand bytes.
pub open spec fn call_case(
    op: OpCode,
    pre: MachineView,
    post: MachineView,
    r: RuntimeResult<Effect>,
    chunk_index: usize,
    base_ip: usize,
) -> bool {
    match op {
        OpCode::Call => if !has_operands(pre, chunk_index, 3) {
            malformed(r)
        } else {
            enters(
                past(pre, 3),
                post,
                r,
                chunk_index,
                operand16(pre, chunk_index, 0) as usize,
                operand(pre, chunk_index, 2),
                None,
                base_ip,
            )
        },
        OpCode::CallClosure => if !has_operands(pre, chunk_index, 1) {
            malformed(r)
        } else if pre.stack.len() == 0 {
            underflows(r)
        } else {
            let at = with_stack(past(pre, 1), pre.stack.drop_last());
            let arity = operand(pre, chunk_index, 0);
            match pre.stack.last() {
                ValueView::Closure(index, captures) => enters(
                    at,
                    post,
                    r,
                    chunk_index,
                    index,
                    arity,
                    Some((index, captures)),
                    base_ip,
                ),
                ValueView::Function(index) => enters(
                    at,
                    post,
                    r,
                    chunk_index,
                    index,
                    arity,
                    None,
                    base_ip,
                ),
                other => r matches Err(e) && is_mismatch_of(e, "closure or function"@, other),
            }
        },
        OpCode::LoadFunc => if !has_operands(pre, chunk_index, 2) {
            malformed(r)
        } else {
            pushes(
                past(pre, 2),
                post,
                r,
                ValueView::Function(operand16(pre, chunk_index, 0) as usize),
            )
        },
        _ => if !has_operands(pre, chunk_index, 5) {
            malformed(r)
        } else {
            continues(r) && post == past(pre, 5)
        },
    }
}

/// The values that the closure of a frame captured; none where the frame
/// applies no closure.
pub open spec fn captures_of(frame: FrameView) -> Seq<ValueView> {
    match frame.closure {
        Some(closure) => closure.1,
        None => Seq::empty(),
    }
}

/// The function of the closure that a frame applies.
pub open spec fn function_of(frame: FrameView) -> usize {
    match frame.closure {
        Some(closure) => closure.0,
        None => 0,
    }
}

/// The error of a capture instruction in a frame that applies no closure.
pub open spec fn no_closure(r: RuntimeResult<Effect>) -> bool {
    r matches Err(RuntimeError::TypeMismatch { expected, actual }) && expected@
        == "closure context"@ && actual@ == "no closure in frame"@
}

pub open spec fn is_closure_op(op: OpCode) -> bool {
    op == OpCode::MakeClosure || op == OpCode::LoadCapture || op == OpCode::StoreCapture
}

/// `MakeClosure` takes the captured values off the stack, as many as its
/// second operand says, and pushes a closure that holds them in the order
/// in which they were pushed. `LoadCapture` pushes a captured value of the
/// closure that the current frame applies. `StoreCapture` replaces one by
/// the value on top of the stack: in the frame's closure, and nowhere else.
pub open spec fn closure_case(
    op: OpCode,
    pre: MachineView,
    post: MachineView,
    r: RuntimeResult<Effect>,
    chunk_index: usize,
    base_ip: usize,
) -> bool {
    let s = pre.stack;
    match op {
        OpCode::MakeClosure => if !has_operands(pre, chunk_index, 3) {
            malformed(r)
        } else {
            let count = operand(pre, chunk_index, 2);
            if s.len() < count {
                underflows(r)
            } else {
                pushes(
                    with_stack(past(pre, 3), s.take(s.len() - count)),
                    post,
                    r,
                    ValueView::Closure(
                        operand16(pre, chunk_index, 0) as usize,
                        s.skip(s.len() - count),
                    ),
                )
            }
        },
        OpCode::LoadCapture => if !has_operands(pre, chunk_index, 2) {
            malformed(r)
        } else {
            let index = operand16(pre, chunk_index, 0);
            let at = past(pre, 2);
            let frame = at.context.frames.last();
            if frame.closure is None {
                no_closure(r)
            } else if index >= captures_of(frame).len() {
                malformed_at(r, base_ip)
            } else {
                pushes(at, post, r, captures_of(frame)[index as int])
            }
        },
        _ => if !has_operands(pre, chunk_index, 2) {
            malformed(r)
        } else if s.len() == 0 {
            underflows(r)
        } else {
            let index = operand16(pre, chunk_index, 0);
            let at = past(pre, 2);
            let frame = at.context.frames.last();
            if frame.closure is None {
                no_closure(r)
            } else if index >= captures_of(frame).len() {
                malformed_at(r, base_ip)
            } else {
                continues(r) && post == (MachineView {
                    stack: s.drop_last(),
                    context: ContextView {
                        frames: at.context.frames.update(
                            at.context.frames.len() - 1,
                            FrameView {
                                closure: Some(
                                    (
                                        function_of(frame),
                                        captures_of(frame).update(index as int, s.last()),
                                    ),
                                ),
                                ..frame
                            },
                        ),
                        ..at.context
                    },
                    pending: pre.pending,
                })
            }
        },
    }
}

// ---------------------------------------------------------------------------
// Exceptions
// ---------------------------------------------------------------------------

/// `TryBegin`: a handler is installed that records where a throw shall
/// continue, which is the operand's distance behind the instruction, and
/// the depths of the operand stack and of the call stack.
pub open spec fn try_begin_case(
    pre: MachineView,
    post: MachineView,
    r: RuntimeResult<Effect>,
    chunk_index: usize,
    base_ip: usize,
) -> bool {
    if !has_operands(pre, chunk_index, 2) {
        malformed(r)
    } else {
        let at = past(pre, 2);
        let target = ip_of(at) + operand16(pre, chunk_index, 0);
        if target > usize::MAX {
            malformed_at(r, base_ip)
        } else {
            continues(r) && post == with_context(
                at,
                ContextView {
                    handlers: at.context.handlers.push(
                        ExceptionHandler {
                            handler_ip: target as usize,
                            finally_ip: None,
                            stack_depth: at.stack.len() as usize,
                            frame_depth: at.context.frames.len() as usize,
                            chunk_index,
                        },
                    ),
                    ..at.context
                },
            )
        }
    }
}

/// `TryEnd`: the innermost handler, if there is one, is removed.
pub open spec fn try_end_case(pre: MachineView, post: MachineView, r: RuntimeResult<Effect>) -> bool {
    continues(r) && post == with_context(
        pre,
        ContextView {
            handlers: if pre.context.handlers.len() > 0 {
                pre.context.handlers.drop_last()
            } else {
                pre.context.handlers
            },
            ..pre.context
        },
    )
}

/// A sequence cut to at most `n` items.
pub open spec fn cut<T>(s: Seq<T>, n: usize) -> Seq<T> {
    if n < s.len() {
        s.take(n as int)
    } else {
        s
    }
}

/// The error of a throw that no handler waits for: it carries the value
/// that was thrown.
pub open spec fn unhandled(r: RuntimeResult<Effect>, thrown: ValueView) -> bool {
    r matches Err(RuntimeError::UnhandledException(value)) && value@ == thrown
}

/// `Throw`: with a handler installed, the thrown value leaves the stack,
/// the operand stack and the call stack are cut to the depths that the
/// innermost handler recorded, the handler is removed, the value becomes
/// the exception in flight, and execution continues at the handler.
/// Without a handler the throw is fatal, and the error carries the value.
pub open spec fn throw_case(
    pre: MachineView,
    post: MachineView,
    r: RuntimeResult<Effect>,
    base_ip: usize,
) -> bool {
    if pre.stack.len() == 0 {
        underflows(r)
    } else if pre.context.handlers.len() == 0 {
        unhandled(r, pre.stack.last())
    } else {
        let handler = pre.context.handlers.last();
        let frames = cut(pre.context.frames, handler.frame_depth);
        let unwound = ContextView {
            frames,
            handlers: pre.context.handlers.drop_last(),
            current_exception: Some(pre.stack.last()),
            ..pre.context
        };
        continues(r) && post == (MachineView {
            stack: cut(pre.stack.drop_last(), handler.stack_depth),
            context: if frames.len() > 0 {
                at_ip(unwound, handler.handler_ip)
            } else {
                unwound
            },
            pending: pre.pending,
        })
    }
}

/// Exception unwinding: after a throw that a handler catches, the operand
/// stack is no deeper than the handler recorded, and it is exactly as deep
/// where it was at least as deep when the value was thrown; so with the
/// call stack.
pub proof fn lemma_throw_unwinds(
    pre: MachineView,
    post: MachineView,
    r: RuntimeResult<Effect>,
    base_ip: usize,
)
    requires
        throw_case(pre, post, r, base_ip),
        pre.stack.len() > 0,
        pre.context.handlers.len() > 0,
    ensures
        post.stack.len() <= pre.context.handlers.last().stack_depth,
        pre.stack.len() - 1 >= pre.context.handlers.last().stack_depth ==> post.stack.len()
            == pre.context.handlers.last().stack_depth,
        post.context.frames.len() <= pre.context.handlers.last().frame_depth,
        pre.context.frames.len() >= pre.context.handlers.last().frame_depth
            ==> post.context.frames.len() == pre.context.handlers.last().frame_depth,
{
}

// ---------------------------------------------------------------------------
// Input and output
// ---------------------------------------------------------------------------

pub open spec fn is_output(op: OpCode) -> bool {
    op == OpCode::Print || op == OpCode::PrintLit || op == OpCode::Input || op == OpCode::Debug
}

/// `Print` takes the value off the stack and hands its display form to the
/// host; that of a real is first asked of the host. `PrintLit` hands over a
/// pooled string; an index beyond the pool prints nothing. `Input` asks the
/// host for a line for a variable, and the machine waits. `Debug` hands the
/// host the value on top of the stack, which stays.
pub open spec fn output_case(
    op: OpCode,
    pre: MachineView,
    post: MachineView,
    r: RuntimeResult<Effect>,
    chunk_index: usize,
    base_ip: usize,
) -> bool {
    match op {
        OpCode::Print => if pre.stack.len() == 0 {
            underflows(r)
        } else {
            match pre.stack.last() {
                ValueView::Real(x) => completes(
                    pre,
                    post,
                    r,
                    Computed::Host(
                        RealRequest::ToText(x),
                        Pending::Operand { depth: 0, resume: base_ip },
                    ),
                    1,
                ),
                shown => (r matches Ok(Effect::Print(text)) && text@ == shown.display()) && post
                    == with_stack(pre, pre.stack.drop_last()),
            }
        },
        OpCode::PrintLit => if !has_operands(pre, chunk_index, 2) {
            malformed(r)
        } else {
            post == past(pre, 2) && match pooled(pre, chunk_index, operand16(pre, chunk_index, 0)) {
                Some(literal) => r matches Ok(Effect::Print(text)) && text@ == literal,
                None => continues(r),
            }
        },
        OpCode::Input => if !has_operands(pre, chunk_index, 3) || ValueType::of_tag(
            operand(pre, chunk_index, 2),
        ) is None {
            malformed(r)
        } else {
            match pooled(pre, chunk_index, operand16(pre, chunk_index, 0)) {
                None => malformed_at(r, base_ip),
                Some(variable) => {
                    let wanted = ValueType::of_tag(operand(pre, chunk_index, 2))->0;
                    &&& r matches Ok(Effect::Input { name, var_type }) && name@ == variable
                        && var_type == wanted
                    &&& post.pending matches Pending::Input { name, var_type } && name@
                        == variable && var_type == wanted
                    &&& post.stack == pre.stack
                    &&& post.context == past(pre, 3).context
                },
            }
        },
        _ => if pre.stack.len() == 0 {
            underflows(r)
        } else {
            (r matches Ok(Effect::Debug(value)) && value@ == pre.stack.last()) && post == pre
        },
    }
}

// ---------------------------------------------------------------------------
// The accumulator and the rest
// ---------------------------------------------------------------------------

/// `StoreAcc`: the value on top of the stack, made an integer, becomes the
/// accumulator: an integer as it is, a boolean as 0 or 1, a string as the
/// integer it reads as, a real as the host truncates it.
pub open spec fn store_acc_case(
    pre: MachineView,
    post: MachineView,
    r: RuntimeResult<Effect>,
    base_ip: usize,
) -> bool {
    if pre.stack.len() == 0 {
        underflows(r)
    } else {
        let stored = |i: i64|
            continues(r) && post == (MachineView {
                stack: pre.stack.drop_last(),
                context: ContextView { accumulator: i, ..pre.context },
                pending: pre.pending,
            });
        match pre.stack.last() {
            ValueView::Integer(i) => stored(i),
            ValueView::Boolean(b) => stored(
                if b {
                    1
                } else {
                    0
                },
            ),
            ValueView::String(s) => match parsed_integer(s) {
                Some(i) => stored(i),
                None => r matches Err(e) && is_mismatch_of(e, "integer"@, pre.stack.last()),
            },
            ValueView::Real(x) => completes(
                pre,
                post,
                r,
                Computed::Host(
                    RealRequest::ToInteger(x),
                    Pending::Operand { depth: 0, resume: base_ip },
                ),
                1,
            ),
            other => r matches Err(e) && is_mismatch_of(e, "integer"@, other),
        }
    }
}

/// `Interpolate`: the topmost values, as many as the second operand says,
/// fill the placeholders of the pooled template, and the text takes their
/// place; the display form of each real among them is first asked of the
/// host.
pub open spec fn interpolate_case(
    pre: MachineView,
    post: MachineView,
    r: RuntimeResult<Effect>,
    chunk_index: usize,
    base_ip: usize,
) -> bool {
    if !has_operands(pre, chunk_index, 3) {
        malformed(r)
    } else {
        let count = operand(pre, chunk_index, 2);
        let at = past(pre, 3);
        match pooled(pre, chunk_index, operand16(pre, chunk_index, 0)) {
            None => malformed_at(r, base_ip),
            Some(template) => if at.stack.len() < count {
                underflows(r)
            } else {
                exists|c: Computed| #[trigger]
                    interpolation_case(template, at.stack.skip(at.stack.len() - count), c)
                        && finishes(at, post, r, Ok(c), count as nat, base_ip)
            },
        }
    }
}

/// The instructions of the accumulator, of loops, of modules, and the
/// markers.
///
/// `LoadAcc` pushes the accumulator; `IncAcc` and `DecAcc` move it by one
/// where the result fits. `Break` and `Continue` raise their flags inside a
/// loop and are errors outside of one. `MatchBegin`, `Import` and `Export`
/// are markers with operands; `LoadModule` skips its operands and pushes
/// null. `Halt` stops the machine. `Nop`, `Finally` and `MatchWildcard` do
/// nothing.
pub open spec fn special_case(
    op: OpCode,
    pre: MachineView,
    post: MachineView,
    r: RuntimeResult<Effect>,
    chunk_index: usize,
    base_ip: usize,
) -> bool {
    let context = pre.context;
    match op {
        OpCode::LoadAcc => pushes(pre, post, r, ValueView::Integer(context.accumulator)),
        OpCode::StoreAcc => store_acc_case(pre, post, r, base_ip),
        OpCode::IncAcc => if context.accumulator == i64::MAX {
            r matches Err(RuntimeError::ArithmeticOverflow)
        } else {
            continues(r) && post == with_context(
                pre,
                ContextView { accumulator: (context.accumulator + 1) as i64, ..context },
            )
        },
        OpCode::DecAcc => if context.accumulator == i64::MIN {
            r matches Err(RuntimeError::ArithmeticOverflow)
        } else {
            continues(r) && post == with_context(
                pre,
                ContextView { accumulator: (context.accumulator - 1) as i64, ..context },
            )
        },
        OpCode::Break => if context.loop_depth == 0 {
            r matches Err(RuntimeError::BreakOutsideLoop)
        } else {
            continues(r) && post == with_context(pre, ContextView { break_flag: true, ..context })
        },
        OpCode::Continue => if context.loop_depth == 0 {
            r matches Err(RuntimeError::ContinueOutsideLoop)
        } else {
            continues(r) && post == with_context(
                pre,
                ContextView { continue_flag: true, ..context },
            )
        },
        OpCode::Interpolate => interpolate_case(pre, post, r, chunk_index, base_ip),
        OpCode::MatchBegin => if !has_operands(pre, chunk_index, 1) {
            malformed(r)
        } else {
            continues(r) && post == past(pre, 1)
        },
        OpCode::Import | OpCode::Export => if !has_operands(pre, chunk_index, 2) {
            malformed(r)
        } else {
            continues(r) && post == past(pre, 2)
        },
        OpCode::LoadModule => if !has_operands(pre, chunk_index, 4) {
            malformed(r)
        } else {
            pushes(past(pre, 4), post, r, ValueView::Null)
        },
        OpCode::TryEnd => try_end_case(pre, post, r),
        OpCode::Halt => continues(r) && post == with_context(
            pre,
            ContextView { halted: true, ..context },
        ),
        _ => continues(r) && post == pre,
    }
}

// ---------------------------------------------------------------------------
// The step
// ---------------------------------------------------------------------------

/// What an instruction does to the machine; `pre` is the machine with the
/// instruction pointer behind the instruction's byte, which was fetched at
/// `base_ip`.
pub open spec fn instruction_case(
    op: OpCode,
    pre: MachineView,
    post: MachineView,
    r: RuntimeResult<Effect>,
    chunk_index: usize,
    base_ip: usize,
) -> bool {
    if op == OpCode::Const {
        constant_case(pre, post, r, chunk_index, base_ip)
    } else if op == OpCode::Null {
        pushes(pre, post, r, ValueView::Null)
    } else if op == OpCode::True {
        pushes(pre, post, r, ValueView::Boolean(true))
    } else if op == OpCode::False {
        pushes(pre, post, r, ValueView::Boolean(false))
    } else if op == OpCode::Pop || op == OpCode::MatchEnd {
        pop_case(pre, post, r)
    } else if op == OpCode::Dup {
        dup_case(pre, post, r)
    } else if op == OpCode::Swap {
        swap_case(pre, post, r)
    } else if op == OpCode::Rot {
        rot_case(pre, post, r)
    } else if is_variable(op) {
        variable_case(op, pre, post, r, chunk_index, base_ip)
    } else if is_binary(op) {
        binary_case(op, pre, post, r, base_ip)
    } else if op == OpCode::Convert {
        if !has_operands(pre, chunk_index, 1) || ValueType::of_tag(operand(pre, chunk_index, 0))
            is None {
            malformed(r)
        } else {
            unary_case(
                op,
                ValueType::of_tag(operand(pre, chunk_index, 0))->0,
                past(pre, 1),
                post,
                r,
                base_ip,
            )
        }
    } else if is_unary(op) {
        unary_case(op, ValueType::Null, pre, post, r, base_ip)
    } else if is_branch(op) {
        branch_case(op, pre, post, r, chunk_index, base_ip)
    } else if is_call(op) {
        call_case(op, pre, post, r, chunk_index, base_ip)
    } else if op == OpCode::Return {
        return_case(pre, post, r)
    } else if is_build(op) {
        build_case(op, pre, post, r, chunk_index)
    } else if is_closure_op(op) {
        closure_case(op, pre, post, r, chunk_index, base_ip)
    } else if op == OpCode::TryBegin {
        try_begin_case(pre, post, r, chunk_index, base_ip)
    } else if op == OpCode::Throw {
        throw_case(pre, post, r, base_ip)
    } else if is_output(op) {
        output_case(op, pre, post, r, chunk_index, base_ip)
    } else {
        special_case(op, pre, post, r, chunk_index, base_ip)
    }
}

/// The machine before anything was loaded: nothing on the stack, no frame,
/// no chunk, no variable, the accumulator at zero.
pub open spec fn initial() -> MachineView {
    MachineView {
        stack: Seq::empty(),
        context: ContextView {
            frames: Seq::empty(),
            globals: Map::empty(),
            chunks: Seq::empty(),
            functions: Map::empty(),
            accumulator: 0,
            saved_accumulators: Seq::empty(),
            halted: false,
            break_flag: false,
            continue_flag: false,
            loop_depth: 0,
            handlers: Seq::empty(),
            current_exception: None,
        },
        pending: Pending::Nothing,
    }
}

/// The machine after a chunk was loaded: the chunk is the last of the
/// loaded chunks, and a frame named `main` stands at its first byte. A
/// machine whose call stack is full loads nothing.
pub open spec fn loaded(pre: MachineView, chunk: Chunk) -> MachineView {
    let chunks = pre.context.chunks.push(chunk);
    if pre.context.frames.len() >= MAX_CALL_DEPTH {
        pre
    } else {
        with_context(
            pre,
            ContextView {
                chunks,
                frames: pre.context.frames.push(
                    FrameView {
                        chunk_index: pre.context.chunks.len() as usize,
                        ip: 0,
                        base_pointer: pre.stack.len() as usize,
                        scope: Map::empty(),
                        name: "main"@,
                        closure: None,
                    },
                ),
                ..pre.context
            },
        )
    }
}

/// The code that the current frame of a context runs, if the context has a
/// frame and the frame's chunk is loaded.
pub open spec fn current_code(context: ContextView) -> Option<Seq<u8>> {
    if context.frames.len() > 0 && context.frames.last().chunk_index < context.chunks.len() {
        Some(context.chunks[context.frames.last().chunk_index as int].code@)
    } else {
        None
    }
}

/// The error of a step that was taken while the machine waits for its host.
pub open spec fn is_waiting(e: RuntimeError) -> bool {
    e matches RuntimeError::InvalidInput(m) && m@ == "the machine waits for its host"@
}

/// What a step does to the machine.
///
/// A machine that waits for its host does not step. A machine that has
/// halted stays as it is: the run has ended, and it has ended well where
/// the stack is empty or holds one value, which no statement took. Else the
/// instruction at the current frame's instruction pointer is fetched and
/// executed; a byte that is no instruction is refused. A frame whose code
/// has run out is left, and to leave the last frame so is an error: the
/// program did not halt. A step that fails leaves the machine as it was.
pub open spec fn step_case(pre: MachineView, post: MachineView, r: RuntimeResult<Effect>) -> bool {
    if !(pre.pending is Nothing) {
        (r matches Err(e) && is_waiting(e)) && post == pre
    } else if pre.context.halted {
        (if pre.stack.len() <= 1 {
            r matches Ok(Effect::Halted)
        } else {
            r matches Err(RuntimeError::UnbalancedStack { depth }) && depth == pre.stack.len()
        }) && post == pre
    } else {
        match current_code(pre.context) {
            None => (if pre.context.frames.len() == 0 {
                r matches Err(RuntimeError::UniverseCorruption)
            } else {
                malformed_at(r, ip_of(pre))
            }) && post == pre,
            Some(code) => {
                let ip = ip_of(pre);
                if ip >= code.len() {
                    if pre.context.frames.len() == 1 {
                        (r matches Err(RuntimeError::UniverseCorruption)) && post == pre
                    } else {
                        continues(r) && post == with_context(
                            pre,
                            ContextView {
                                frames: pre.context.frames.drop_last(),
                                ..pre.context
                            },
                        )
                    }
                } else {
                    match OpCode::decode(code[ip as int]) {
                        None => (r matches Err(RuntimeError::UnknownOpcode(b)) && b
                            == code[ip as int]) && post == pre,
                        Some(op) => instruction_case(
                            op,
                            past(pre, 1),
                            post,
                            r,
                            pre.context.frames.last().chunk_index,
                            ip,
                        ) && (r is Err ==> post == pre),
                    }
                }
            },
        }
    }
}

// ---------------------------------------------------------------------------
// The answers of the host
// ---------------------------------------------------------------------------

/// The error of an answer that the machine did not ask for.
pub open spec fn is_unasked(e: RuntimeError) -> bool {
    e matches RuntimeError::InvalidInput(m) && m@ == "the machine did not ask for this"@
}

/// The value that an answer of the host stands for, where it stands for one.
pub open spec fn reply_value(reply: RealReply) -> Option<ValueView> {
    match reply {
        RealReply::Number(x) => Some(ValueView::Real(x)),
        RealReply::Integer(i) => Some(ValueView::Integer(i)),
        RealReply::Text(s) => Some(ValueView::String(s@)),
        RealReply::Invalid => None,
    }
}

/// The machine that waits for nothing.
pub open spec fn resumed(m: MachineView) -> MachineView {
    MachineView { pending: Pending::Nothing, ..m }
}

/// A value that the host supplied is assigned to a variable, and the
/// machine waits no more.
pub open spec fn supplies<T>(
    pre: MachineView,
    post: MachineView,
    r: RuntimeResult<T>,
    name: Seq<char>,
    value: ValueView,
) -> bool {
    match assign_in(pre.context, name, value) {
        Assignment::Assigned(context) => r is Ok && post == with_context(resumed(pre), context),
        Assignment::Undeclared => (r matches Err(RuntimeError::ContextError(e)) && undeclared(
            name,
            e,
        )) && post == resumed(pre),
        Assignment::Refused(variable) => (r matches Err(RuntimeError::ContextError(e))
            && refusal(variable, value, name, e)) && post == resumed(pre),
    }
}

/// What a line of input does to the machine.
///
/// A machine that waits for input reads the line as a value of the
/// variable's type and assigns it to the variable, and execution continues;
/// a line that cannot be read so is an error. A line for a real variable
/// goes to the host, and the machine waits for the real that it denotes. A
/// machine that does not wait for input refuses the line.
pub open spec fn input_given(
    pre: MachineView,
    post: MachineView,
    r: RuntimeResult<Effect>,
    line: Seq<char>,
) -> bool {
    match pre.pending {
        Pending::Input { name, var_type } => exists|read: RuntimeResult<Answer<Value>>| #[trigger]
            input_case(line, var_type, read) && match read {
                Ok(Answer::Ready(value)) => supplies(pre, post, r, name@, value@) && (r is Ok
                    ==> continues(r)),
                Ok(Answer::Ask(request)) => {
                    &&& r == Ok::<Effect, RuntimeError>(Effect::Real(request))
                    &&& post.stack == pre.stack
                    &&& post.context == pre.context
                    &&& post.pending matches Pending::InputReal { name: n, input } && n@ == name@
                        && input@ == line
                },
                Err(e) => (r matches Err(x) && x == e) && post == resumed(pre),
            },
        _ => (r matches Err(e) && is_unasked(e)) && post == pre,
    }
}

/// What an answer of the host does to the machine.
///
/// Where the machine asked for an operand, the answer takes the operand's
/// place on the stack, and the instruction runs again at the next step.
/// Where it asked for an instruction's result, the real replaces the
/// instruction's operands. Where it asked for the real that a line of
/// input denotes, the real is assigned to the variable. In each case the
/// machine waits no more. An answer that was not asked for is refused.
pub open spec fn reply_given(
    pre: MachineView,
    post: MachineView,
    r: RuntimeResult<()>,
    reply: RealReply,
) -> bool {
    match pre.pending {
        Pending::Operand { depth, resume } => match reply_value(reply) {
            Some(value) => if depth < pre.stack.len() {
                r is Ok && post == with_stack(
                    resumed(pre),
                    pre.stack.update(pre.stack.len() - 1 - depth, value),
                )
            } else {
                (r matches Err(RuntimeError::StackError(StackError::InvalidAccess { index }))
                    && index == depth) && post == resumed(pre)
            },
            None => (r matches Err(RuntimeError::TypeMismatch { expected, actual }) && expected@
                == "real"@ && actual@ == ValueType::String.glyph_text()) && post == resumed(pre),
        },
        Pending::Outcome { pops } => match reply {
            RealReply::Number(x) => if pops > pre.stack.len() {
                (r matches Err(e) && stack_failure(e, StackError::Underflow)) && post == resumed(
                    pre,
                )
            } else if pre.stack.len() - pops >= MAX_STACK_DEPTH {
                (r matches Err(e) && stack_failure(e, StackError::Overflow)) && post == resumed(
                    pre,
                )
            } else {
                r is Ok && post == with_stack(
                    resumed(pre),
                    pre.stack.take(pre.stack.len() - pops).push(ValueView::Real(x)),
                )
            },
            _ => (r matches Err(e) && is_unasked(e)) && post == resumed(pre),
        },
        Pending::InputReal { name, input } => match reply {
            RealReply::Number(x) => supplies(pre, post, r, name@, ValueView::Real(x)),
            RealReply::Invalid => (r matches Err(RuntimeError::InvalidInput(m)) && m@
                == "Expected real number, got '"@ + input@ + "'"@) && post == resumed(pre),
            _ => (r matches Err(e) && is_unasked(e)) && post == resumed(pre),
        },
        _ => (r matches Err(e) && is_unasked(e)) && post == pre,
    }
}

} // verus!
