use vstd::prelude::*;
use vstd::string::StringExecFns;
use crate::bytecode::opcode::{clone_params, Answer, Chunk, OpCode, ValueType};
use crate::bytecode::value::{group_value_views, views_of, Closure, Value, ValueView};
use crate::number::{RealReply, RealRequest};
use crate::text::concat;
use crate::vm::context::{
    CallFrame, Context, ContextError, ExceptionHandler, FrameView, Scope, Variable,
    MAX_CALL_DEPTH,
};
use crate::vm::ops::{
    arithmetic, array_get, array_len, array_push, array_set, compare_less, concat_values,
    convert_value, interpolate, make_map, map_get, map_has, map_keys, map_remove, map_set,
    arithmetic_case, array_push_case, array_set_case, map_set_case, map_values, mismatch_of, negate, parse_input, step_by_one, Arith, Computed,
    Pending,
    RuntimeError, RuntimeResult,
};
use crate::vm::semantics::{
    group_stays, lemma_put_back, lemma_stays, stays, with_stack,
    binary_case, binary_value_case, bound, branch_case, build_case, call_case, captures_of,
    closure_case, completes, constant_case, dup_case, enters, function_of, gives, has_operands,
    initial, input_given, instruction_case, interpolate_case, ip_of, is_binary, reply_given,
    is_branch, is_build, is_call, is_closure_op, is_output, is_unary, is_variable, jumps, loaded,
    operand, operand16, output_case, past, pooled, pop_case, pushes, return_case, rot_case,
    special_case, stack_failure, step_case, store_acc_case, swap_case, throw_case,
    try_begin_case, unary_case, unary_value_case, variable_case, MachineView,
};
use crate::vm::stack::{Stack, StackError, MAX_STACK_DEPTH};

verus! {

broadcast use {vstd::std_specs::vec::group_vec_axioms, group_value_views, group_stays};

/// What the machine asks of its host after a step.
#[derive(Debug)]
pub enum Effect {
    /// Nothing: the machine can take its next step.
    Continue,
    /// The program has halted, with at most one value left on the stack.
    Halted,
    /// Write this line to standard output.
    Print(String),
    /// Show this value on the diagnostic output.
    Debug(Value),
    /// Read a line for the variable `name`, and hand it to `provide_input`.
    Input { name: String, var_type: ValueType },
    /// Compute this, and hand the answer to `provide_real`.
    Real(RealRequest),
}

/// The virtual machine: a context, an operand stack, and what it waits for
/// from its host.
///
/// The machine does no input or output and no arithmetic on reals. A step
/// that needs either returns an [`Effect`] that says what; the host performs
/// it and, where an answer is due, hands it back before the next step.
#[derive(Debug)]
pub struct Runtime {
    context: Context,
    stack: Stack,
    debug_mode: bool,
    pending: Pending,
}

impl View for Runtime {
    type V = MachineView;

    closed spec fn view(&self) -> MachineView {
        MachineView { stack: self.stack@, context: self.context@, pending: self.pending }
    }
}

impl Runtime {
    /// The scopes of the context are well formed, and the stack has its
    /// standard limit and keeps to it.
    pub closed spec fn well_formed(&self) -> bool {
        self.context.well_formed() && self.stack.limit() == MAX_STACK_DEPTH && self.stack@.len()
            <= MAX_STACK_DEPTH
    }

    /// Create a new runtime instance.
    pub fn new() -> (r: Self)
        ensures
            r.well_formed(),
            r@ == initial(),
    {
        let r = Self {
            context: Context::new(),
            stack: Stack::new(),
            debug_mode: false,
            pending: Pending::Nothing,
        };
        proof {
            assert(r@.stack =~= Seq::empty());
        }
        r
    }

    /// Enable or disable debug mode.
    pub fn set_debug(&mut self, debug: bool)
        ensures
            final(self)@ == old(self)@,
            final(self).well_formed() == old(self).well_formed(),
            final(self).debug() == debug,
    {
        self.debug_mode = debug;
    }

    pub closed spec fn debug(&self) -> bool {
        self.debug_mode
    }

    /// Whether debug mode is on.
    pub fn is_debug(&self) -> (b: bool)
        ensures
            b == self.debug(),
    {
        self.debug_mode
    }

    /// The execution context.
    pub fn context(&self) -> (c: &Context)
        ensures
            c@ == self@.context,
            self.well_formed() ==> c.well_formed(),
    {
        &self.context
    }

    /// The operand stack.
    pub fn stack(&self) -> (s: &Stack)
        ensures
            s@ == self@.stack,
    {
        &self.stack
    }

    /// Loads a chunk and enters its top-level frame, named `main`, at the
    /// chunk's first byte. The program then runs by [`Runtime::step`].
    pub fn execute(&mut self, chunk: Chunk) -> (r: RuntimeResult<()>)
        requires
            old(self).well_formed(),
        ensures
            final(self).well_formed(),
            final(self)@ == loaded(old(self)@, chunk),
            old(self)@.context.frames.len() < MAX_CALL_DEPTH ==> r is Ok,
            old(self)@.context.frames.len() >= MAX_CALL_DEPTH ==> (r matches Err(
                RuntimeError::ContextError(ContextError::CallStackOverflow),
            )),
    {
        if self.context.call_depth() >= MAX_CALL_DEPTH {
            return Err(RuntimeError::ContextError(ContextError::CallStackOverflow));
        }
        let chunk_index = self.context.add_chunk(chunk);
        let frame = CallFrame::new(chunk_index, self.stack.len(), String::from_str("main"));
        match self.context.push_frame(frame) {
            Ok(()) => Ok(()),
            Err(e) => Err(RuntimeError::ContextError(e)),
        }
    }

    // -----------------------------------------------------------------------
    // The operand stack, with its errors as runtime errors
    // -----------------------------------------------------------------------
    fn push(&mut self, value: Value) -> (r: RuntimeResult<()>)
        requires
            old(self).well_formed(),
        ensures
            final(self).well_formed(),
            final(self)@.context == old(self)@.context,
            final(self)@.pending == old(self)@.pending,
            old(self)@.stack.len() < MAX_STACK_DEPTH ==> r is Ok && final(self)@.stack == old(self)@.stack.push(value@),
            old(self)@.stack.len() >= MAX_STACK_DEPTH ==> (r matches Err(e) && stack_failure(
                e,
                StackError::Overflow,
            )) && final(self)@.stack == old(self)@.stack,
    {
        match self.stack.push(value) {
            Ok(()) => Ok(()),
            Err(e) => Err(RuntimeError::StackError(e)),
        }
    }

    fn pop(&mut self) -> (r: RuntimeResult<Value>)
        requires
            old(self).well_formed(),
        ensures
            final(self).well_formed(),
            final(self)@.context == old(self)@.context,
            final(self)@.pending == old(self)@.pending,
            old(self)@.stack.len() > 0 ==> (r matches Ok(v) && v@ == old(self)@.stack.last())
                && final(self)@.stack == old(self)@.stack.drop_last(),
            old(self)@.stack.len() == 0 ==> (r matches Err(e) && stack_failure(
                e,
                StackError::Underflow,
            )) && final(self)@.stack == old(self)@.stack,
    {
        match self.stack.pop() {
            Ok(v) => Ok(v),
            Err(e) => Err(RuntimeError::StackError(e)),
        }
    }

    /// Fails with an underflow unless the stack holds `n` values.
    fn need(&self, n: usize) -> (r: RuntimeResult<()>)
        ensures
            self@.stack.len() >= n ==> r is Ok,
            self@.stack.len() < n ==> (r matches Err(e) && stack_failure(
                e,
                StackError::Underflow,
            )),
    {
        if self.stack.len() < n {
            Err(RuntimeError::StackError(StackError::Underflow))
        } else {
            Ok(())
        }
    }

    /// Replaces the `pops` topmost values by `value`.
    fn replace_top(&mut self, pops: usize, value: Value) -> (r: RuntimeResult<()>)
        requires
            old(self).well_formed(),
        ensures
            final(self).well_formed(),
            final(self)@.context == old(self)@.context,
            final(self)@.pending == old(self)@.pending,
            pops > old(self)@.stack.len() ==> (r matches Err(e) && stack_failure(
                e,
                StackError::Underflow,
            )) && final(self)@.stack == old(self)@.stack,
            pops <= old(self)@.stack.len() && old(self)@.stack.len() - pops < MAX_STACK_DEPTH
                ==> r is Ok && final(self)@.stack == old(self)@.stack.take(
                old(self)@.stack.len() - pops,
            ).push(value@),
            pops <= old(self)@.stack.len() && old(self)@.stack.len() - pops >= MAX_STACK_DEPTH
                ==> (r matches Err(e) && stack_failure(e, StackError::Overflow)) && final(self)@.stack
                == old(self)@.stack,
    {
        let len = self.stack.len();
        if pops > len {
            return Err(RuntimeError::StackError(StackError::Underflow));
        }
        if len - pops >= MAX_STACK_DEPTH {
            return Err(RuntimeError::StackError(StackError::Overflow));
        }
        self.stack.truncate(len - pops);
        proof {
            assert(old(self)@.stack.take(len as int) =~= old(self)@.stack);
        }
        self.push(value)
    }

    /// Ends an instruction whose `pops` operands lie on the stack: its result
    /// replaces them, or the host is asked and the machine waits.
    fn complete(&mut self, computed: Computed, pops: usize) -> (r: RuntimeResult<Effect>)
        requires
            old(self).well_formed(),
        ensures
            final(self).well_formed(),
            r is Err ==> final(self)@ == old(self)@,
            completes(old(self)@, final(self)@, r, computed, pops as nat),
    {
        match computed {
            Computed::Done(value) => {
                self.replace_top(pops, value)?;
                Ok(Effect::Continue)
            },
            Computed::Host(request, pending) => {
                match &pending {
                    Pending::Operand { depth: _, resume } => {
                        self.context.set_ip(*resume);
                    },
                    _ => {},
                }
                self.pending = pending;
                Ok(Effect::Real(request))
            },
        }
    }

    // -----------------------------------------------------------------------
    // Fetching
    // -----------------------------------------------------------------------
    /// Read the next byte of the current frame's code, and move past it.
    fn read_byte(&mut self, chunk_index: usize) -> (r: RuntimeResult<u8>)
        requires
            old(self).well_formed(),
        ensures
            final(self).well_formed(),
            match r {
                Ok(byte) => has_operands(old(self)@, chunk_index, 1) && byte == operand(
                    old(self)@,
                    chunk_index,
                    0,
                ) && final(self)@ == past(old(self)@, 1),
                Err(e) => final(self)@ == old(self)@ && !has_operands(old(self)@, chunk_index, 1)
                    && (if old(self)@.context.frames.len() == 0 {
                    e matches RuntimeError::UniverseCorruption
                } else {
                    e matches RuntimeError::InvalidBytecode { .. }
                }),
            },
    {
        let ip = match self.context.current_ip() {
            Some(ip) => ip,
            None => {
                return Err(RuntimeError::UniverseCorruption);
            },
        };
        let byte = match self.context.get_chunk(chunk_index) {
            Some(chunk) => {
                if ip < chunk.code.len() {
                    chunk.code[ip]
                } else {
                    return Err(RuntimeError::InvalidBytecode { offset: ip });
                }
            },
            None => {
                return Err(RuntimeError::InvalidBytecode { offset: ip });
            },
        };
        self.context.set_ip(ip + 1);
        Ok(byte)
    }

    /// Read a 16-bit operand, low byte first.
    fn read_u16(&mut self, chunk_index: usize) -> (r: RuntimeResult<u16>)
        requires
            old(self).well_formed(),
        ensures
            final(self).well_formed(),
            r is Err ==> stays(old(self)@, final(self)@),
            match r {
                Ok(value) => has_operands(old(self)@, chunk_index, 2) && value == operand16(
                    old(self)@,
                    chunk_index,
                    0,
                ) && final(self)@ == past(old(self)@, 2),
                Err(e) => !has_operands(old(self)@, chunk_index, 2) && (if old(self)@.context.frames.len() == 0 {
                    e matches RuntimeError::UniverseCorruption
                } else {
                    e matches RuntimeError::InvalidBytecode { .. }
                }),
            },
    {
        let low = self.read_byte(chunk_index)?;
        let ghost mid = self@;
        proof {
            assert(mid.context.frames.len() == old(self)@.context.frames.len());
            assert(ip_of(mid) == ip_of(old(self)@) + 1);
        }
        let high = self.read_byte(chunk_index)?;
        proof {
            assert(self@.context.frames =~= past(old(self)@, 2).context.frames);
        }
        Ok((high as u16) * 256 + (low as u16))
    }

    /// Read a type byte; a byte that is no type tag makes the instruction
    /// malformed.
    fn read_type(&mut self, chunk_index: usize, base_ip: usize) -> (r: RuntimeResult<ValueType>)
        requires
            old(self).well_formed(),
            old(self)@.context.frames.len() > 0,
        ensures
            final(self).well_formed(),
            r is Err ==> stays(old(self)@, final(self)@),
            match r {
                Ok(t) => has_operands(old(self)@, chunk_index, 1) && ValueType::of_tag(
                    operand(old(self)@, chunk_index, 0),
                ) == Some(t) && final(self)@ == past(old(self)@, 1),
                Err(e) => (e matches RuntimeError::InvalidBytecode { .. }) && !(has_operands(
                    old(self)@,
                    chunk_index,
                    1,
                ) && ValueType::of_tag(operand(old(self)@, chunk_index, 0)) is Some),
            },
    {
        let byte = self.read_byte(chunk_index)?;
        match ValueType::from_byte(byte) {
            Some(t) => Ok(t),
            None => Err(RuntimeError::InvalidBytecode { offset: base_ip }),
        }
    }

    /// The pooled string of an index; an index beyond the pool makes the
    /// instruction at `base_ip` malformed.
    fn string_at(&self, chunk_index: usize, index: u16, base_ip: usize) -> (r: RuntimeResult<
        String,
    >)
        requires
            chunk_index < self@.context.chunks.len(),
        ensures
            match pooled(self@, chunk_index, index) {
                Some(text) => r matches Ok(s) && s@ == text,
                None => r matches Err(RuntimeError::InvalidBytecode { offset }) && offset
                    == base_ip,
            },
    {
        match self.context.get_chunk(chunk_index) {
            Some(chunk) => {
                if (index as usize) < chunk.strings.len() {
                    Ok(chunk.strings[index as usize].clone())
                } else {
                    Err(RuntimeError::InvalidBytecode { offset: base_ip })
                }
            },
            None => Err(RuntimeError::InvalidBytecode { offset: base_ip }),
        }
    }

    /// Moves the instruction pointer of the current frame forward by
    /// `offset`, or backward where `backward` is set. A target that no
    /// machine word holds makes the instruction malformed.
    fn jump(&mut self, offset: u16, backward: bool, base_ip: usize) -> (r: RuntimeResult<Effect>)
        requires
            old(self).well_formed(),
            old(self)@.context.frames.len() > 0,
        ensures
            final(self).well_formed(),
            r is Err ==> stays(old(self)@, final(self)@),
            jumps(old(self)@, final(self)@, r, offset, backward, base_ip),
    {
        match self.context.current_ip() {
            None => Ok(Effect::Continue),
            Some(ip) => {
                let target = if backward {
                    if (offset as usize) > ip {
                        return Err(RuntimeError::InvalidBytecode { offset: base_ip });
                    }
                    ip - offset as usize
                } else {
                    if (offset as usize) > usize::MAX - ip {
                        return Err(RuntimeError::InvalidBytecode { offset: base_ip });
                    }
                    ip + offset as usize
                };
                self.context.set_ip(target);
                Ok(Effect::Continue)
            },
        }
    }
}

/// The request of a comparison whose operands were handed over in reverse:
/// the operand to convert lies at the other depth.
fn mirrored(computed: Computed) -> (r: Computed)
    ensures
        match computed {
            Computed::Host(request, Pending::Operand { depth, resume }) => r == Computed::Host(
                request,
                Pending::Operand {
                    depth: if depth == 0 {
                        1usize
                    } else {
                        0usize
                    },
                    resume,
                },
            ),
            _ => r == computed,
        },
{
    match computed {
        Computed::Host(request, Pending::Operand { depth, resume }) => Computed::Host(
            request,
            Pending::Operand {
                depth: if depth == 0 {
                    1
                } else {
                    0
                },
                resume,
            },
        ),
        other => other,
    }
}

/// A plain value as the result of a value-level operation.
fn as_computed(v: RuntimeResult<Value>) -> (c: RuntimeResult<Computed>)
    ensures
        gives(c, v),
{
    match v {
        Ok(value) => Ok(Computed::Done(value)),
        Err(e) => Err(e),
    }
}

/// The opposite of a comparison's answer; a request is left as it is.
fn inverted(computed: Computed) -> (r: Computed)
    ensures
        match computed {
            Computed::Done(Value::Boolean(b)) => r == Computed::Done(Value::Boolean(!b)),
            _ => r == computed,
        },
{
    match computed {
        Computed::Done(Value::Boolean(b)) => Computed::Done(Value::Boolean(!b)),
        other => other,
    }
}

impl Runtime {
    // -----------------------------------------------------------------------
    // Instructions on operands
    // -----------------------------------------------------------------------
    /// An instruction that makes one value of the two topmost: `a`, pushed
    /// first, and `b`.
    fn binary(&mut self, op: OpCode, base_ip: usize) -> (r: RuntimeResult<Effect>)
        requires
            old(self).well_formed(),
            is_binary(op),
        ensures
            final(self).well_formed(),
            r is Err ==> stays(old(self)@, final(self)@),
            binary_case(op, old(self)@, final(self)@, r, base_ip),
    {
        self.need(2)?;
        let outcome: RuntimeResult<Computed> = {
            let b = match self.stack.peek_at(0) {
                Ok(v) => v,
                Err(e) => {
                    return Err(RuntimeError::StackError(e));
                },
            };
            let a = match self.stack.peek_at(1) {
                Ok(v) => v,
                Err(e) => {
                    return Err(RuntimeError::StackError(e));
                },
            };
            match op {
                OpCode::Add => arithmetic(Arith::Add, a, b, base_ip),
                OpCode::Sub => arithmetic(Arith::Sub, a, b, base_ip),
                OpCode::Mul => arithmetic(Arith::Mul, a, b, base_ip),
                OpCode::Div => arithmetic(Arith::Div, a, b, base_ip),
                OpCode::Mod => arithmetic(Arith::Mod, a, b, base_ip),
                OpCode::Pow => arithmetic(Arith::Pow, a, b, base_ip),
                OpCode::Eq => Ok(Computed::Done(Value::Boolean(a.equals(b)))),
                OpCode::Ne => Ok(Computed::Done(Value::Boolean(!a.equals(b)))),
                OpCode::Lt => compare_less(a, b, base_ip),
                OpCode::Gt => match compare_less(b, a, base_ip) {
                    Ok(c) => Ok(mirrored(c)),
                    Err(e) => Err(e),
                },
                OpCode::Le => match compare_less(b, a, base_ip) {
                    Ok(c) => Ok(inverted(mirrored(c))),
                    Err(e) => Err(e),
                },
                OpCode::Ge => match compare_less(a, b, base_ip) {
                    Ok(c) => Ok(inverted(c)),
                    Err(e) => Err(e),
                },
                OpCode::And => Ok(Computed::Done(Value::Boolean(a.is_truthy() && b.is_truthy()))),
                OpCode::Or => Ok(Computed::Done(Value::Boolean(a.is_truthy() || b.is_truthy()))),
                OpCode::Xor => Ok(Computed::Done(Value::Boolean(a.is_truthy() != b.is_truthy()))),
                OpCode::ArrayGet => {
                    let v = array_get(a, b);
                    as_computed(v)
                },
                OpCode::MapGet => {
                    let v = map_get(a, b);
                    as_computed(v)
                },
                OpCode::MapHas => {
                    let v = map_has(a, b);
                    as_computed(v)
                },
                OpCode::MapRemove => {
                    let v = map_remove(a, b);
                    as_computed(v)
                },
                _ => Ok(concat_values(a, b, base_ip)),
            }
        };
        proof {
            let s = old(self)@.stack;
            assert(binary_value_case(op, s[s.len() - 2], s.last(), outcome));
        }
        match outcome {
            Ok(computed) => self.complete(computed, 2),
            Err(e) => Err(e),
        }
    }

    /// An instruction that makes one value of the topmost.
    fn unary(&mut self, op: OpCode, target: ValueType, base_ip: usize) -> (r: RuntimeResult<
        Effect,
    >)
        requires
            old(self).well_formed(),
            is_unary(op),
        ensures
            final(self).well_formed(),
            r is Err ==> stays(old(self)@, final(self)@),
            unary_case(op, target, old(self)@, final(self)@, r, base_ip),
    {
        self.need(1)?;
        let outcome: RuntimeResult<Computed> = {
            let a = match self.stack.peek_at(0) {
                Ok(v) => v,
                Err(e) => {
                    return Err(RuntimeError::StackError(e));
                },
            };
            match op {
                OpCode::Neg => {
                    let v = negate(a);
                    as_computed(v)
                },
                OpCode::Inc => step_by_one(a, true),
                OpCode::Dec => step_by_one(a, false),
                OpCode::Not => Ok(Computed::Done(Value::Boolean(!a.is_truthy()))),
                OpCode::ArrayLen => {
                    let v = array_len(a);
                    as_computed(v)
                },
                OpCode::MapKeys => {
                    let v = map_keys(a);
                    as_computed(v)
                },
                OpCode::MapValues => {
                    let v = map_values(a);
                    as_computed(v)
                },
                _ => convert_value(a, target, base_ip),
            }
        };
        proof {
            assert(unary_value_case(op, target, old(self)@.stack.last(), outcome));
        }
        match outcome {
            Ok(computed) => self.complete(computed, 1),
            Err(e) => Err(e),
        }
    }

    /// The instructions that take their operands off the stack before they
    /// build a container.
    fn build(&mut self, op: OpCode, chunk_index: usize) -> (r: RuntimeResult<Effect>)
        requires
            old(self).well_formed(),
            old(self)@.context.frames.len() > 0,
            is_build(op),
        ensures
            final(self).well_formed(),
            r is Err ==> stays(old(self)@, final(self)@),
            build_case(op, old(self)@, final(self)@, r, chunk_index),
    {
        let ghost s = old(self)@.stack;
        match op {
            OpCode::ArraySet | OpCode::MapSet => {
                self.need(3)?;
                let made = {
                    let values = self.stack.values();
                    let n = values.len();
                    let container = values[n - 3].clone();
                    let key = values[n - 2].clone();
                    let value = values[n - 1].clone();
                    match op {
                        OpCode::ArraySet => array_set(container, &key, value),
                        _ => map_set(container, key, value),
                    }
                };
                proof {
                    if op == OpCode::ArraySet {
                        assert(array_set_case(s[s.len() - 3], s[s.len() - 2], s.last(), made));
                    } else {
                        assert(map_set_case(s[s.len() - 3], s[s.len() - 2], s.last(), made));
                    }
                }
                match made {
                    Ok(v) => self.complete(Computed::Done(v), 3),
                    Err(e) => Err(e),
                }
            },
            OpCode::ArrayPush => {
                self.need(2)?;
                let made = {
                    let values = self.stack.values();
                    let n = values.len();
                    array_push(values[n - 2].clone(), values[n - 1].clone())
                };
                proof {
                    assert(array_push_case(s[s.len() - 2], s.last(), made));
                }
                match made {
                    Ok(v) => self.complete(Computed::Done(v), 2),
                    Err(e) => Err(e),
                }
            },
            _ => {
                let count = match self.read_u16(chunk_index) {
                    Ok(count) => count,
                    Err(e) => {
                        return Err(e);
                    },
                };
                let taken: usize = match op {
                    OpCode::MakeArray => count as usize,
                    _ => 2 * (count as usize),
                };
                let len = self.stack.len();
                if len < taken {
                    return Err(RuntimeError::StackError(StackError::Underflow));
                }
                if taken == 0 && len >= MAX_STACK_DEPTH {
                    return Err(RuntimeError::StackError(StackError::Overflow));
                }
                let items = match self.stack.pop_n(taken) {
                    Ok(items) => items,
                    Err(e) => {
                        return Err(RuntimeError::StackError(e));
                    },
                };
                let made = match op {
                    OpCode::MakeArray => Value::Array(items),
                    _ => make_map(&items),
                };
                self.literal(made)
            },
        }
    }

    // -----------------------------------------------------------------------
    // Constants and variables
    // -----------------------------------------------------------------------
    fn load_constant(&mut self, chunk_index: usize, base_ip: usize) -> (r: RuntimeResult<Effect>)
        requires
            old(self).well_formed(),
            old(self)@.context.frames.len() > 0,
        ensures
            final(self).well_formed(),
            r is Err ==> stays(old(self)@, final(self)@),
            constant_case(old(self)@, final(self)@, r, chunk_index, base_ip),
    {
        let index = match self.read_u16(chunk_index) {
            Ok(index) => index,
            Err(e) => {
                return Err(e);
            },
        };
        let value = match self.context.get_chunk(chunk_index) {
            Some(chunk) => {
                if (index as usize) < chunk.constants.len() {
                    chunk.constants[index as usize].clone()
                } else {
                    return Err(RuntimeError::InvalidBytecode { offset: base_ip });
                }
            },
            None => {
                return Err(RuntimeError::InvalidBytecode { offset: base_ip });
            },
        };
        self.literal(value)
    }

    /// Pushes a value.
    fn literal(&mut self, value: Value) -> (r: RuntimeResult<Effect>)
        requires
            old(self).well_formed(),
        ensures
            final(self).well_formed(),
            r is Err ==> stays(old(self)@, final(self)@),
            pushes(old(self)@, final(self)@, r, value@),
    {
        match self.push(value) {
            Ok(()) => Ok(Effect::Continue),
            Err(e) => Err(e),
        }
    }

    /// `Pop`, `Dup`, `Swap` and `Rot`.
    fn shuffle(&mut self, op: OpCode) -> (r: RuntimeResult<Effect>)
        requires
            old(self).well_formed(),
        ensures
            final(self).well_formed(),
            r is Err ==> stays(old(self)@, final(self)@),
            match op {
                OpCode::Dup => dup_case(old(self)@, final(self)@, r),
                OpCode::Swap => swap_case(old(self)@, final(self)@, r),
                OpCode::Rot => rot_case(old(self)@, final(self)@, r),
                _ => pop_case(old(self)@, final(self)@, r),
            },
    {
        let outcome = match op {
            OpCode::Dup => self.stack.dup(),
            OpCode::Swap => self.stack.swap(),
            OpCode::Rot => self.stack.rotate(),
            _ => match self.stack.pop() {
                Ok(_) => Ok(()),
                Err(e) => Err(e),
            },
        };
        match outcome {
            Ok(()) => Ok(Effect::Continue),
            Err(e) => Err(RuntimeError::StackError(e)),
        }
    }

    fn variable(&mut self, op: OpCode, chunk_index: usize, base_ip: usize) -> (r: RuntimeResult<
        Effect,
    >)
        requires
            old(self).well_formed(),
            old(self)@.context.frames.len() > 0,
            is_variable(op),
        ensures
            final(self).well_formed(),
            r is Err ==> stays(old(self)@, final(self)@),
            variable_case(op, old(self)@, final(self)@, r, chunk_index, base_ip),
    {
        let index = match self.read_u16(chunk_index) {
            Ok(index) => index,
            Err(e) => {
                return Err(e);
            },
        };
        match op {
            OpCode::DeclareVar => {
                let var_type = match self.read_type(chunk_index, base_ip) {
                    Ok(t) => t,
                    Err(e) => {
                        return Err(e);
                    },
                };
                let name = self.string_at(chunk_index, index, base_ip)?;
                let value = match self.stack.peek() {
                    Ok(v) => v.clone(),
                    Err(e) => {
                        return Err(RuntimeError::StackError(e));
                    },
                };
                let optional = match value {
                    Value::Null => true,
                    _ => false,
                };
                match self.context.declare_variable(name, value, var_type, optional) {
                    Ok(()) => {
                        let _ = self.stack.pop();
                        Ok(Effect::Continue)
                    },
                    Err(e) => Err(RuntimeError::ContextError(e)),
                }
            },
            OpCode::LoadVar => {
                let name = self.string_at(chunk_index, index, base_ip)?;
                let value = match self.context.get_variable(name.as_str()) {
                    Ok(v) => v.clone(),
                    Err(e) => {
                        return Err(RuntimeError::ContextError(e));
                    },
                };
                self.literal(value)
            },
            OpCode::StoreVar => {
                let name = self.string_at(chunk_index, index, base_ip)?;
                let value = match self.stack.peek() {
                    Ok(v) => v.clone(),
                    Err(e) => {
                        return Err(RuntimeError::StackError(e));
                    },
                };
                match self.context.set_variable(name.as_str(), value) {
                    Ok(()) => {
                        let _ = self.stack.pop();
                        Ok(Effect::Continue)
                    },
                    Err(e) => Err(RuntimeError::ContextError(e)),
                }
            },
            OpCode::LoadGlobal => {
                let name = self.string_at(chunk_index, index, base_ip)?;
                let value = match self.context.get_global(name.as_str()) {
                    Ok(v) => v.clone(),
                    Err(e) => {
                        return Err(RuntimeError::ContextError(e));
                    },
                };
                self.literal(value)
            },
            OpCode::StoreGlobal => {
                let name = self.string_at(chunk_index, index, base_ip)?;
                let value = match self.stack.peek() {
                    Ok(v) => v.clone(),
                    Err(e) => {
                        return Err(RuntimeError::StackError(e));
                    },
                };
                match self.context.set_global(name.as_str(), value) {
                    Ok(()) => {
                        let _ = self.stack.pop();
                        Ok(Effect::Continue)
                    },
                    Err(e) => Err(RuntimeError::ContextError(e)),
                }
            },
            OpCode::MatchBind => {
                let name = self.string_at(chunk_index, index, base_ip)?;
                let value = match self.stack.peek() {
                    Ok(v) => v.clone(),
                    Err(e) => {
                        return Err(RuntimeError::StackError(e));
                    },
                };
                match self.context.declare_variable(name, value, ValueType::Null, true) {
                    Ok(()) => Ok(Effect::Continue),
                    Err(e) => Err(RuntimeError::ContextError(e)),
                }
            },
            _ => {
                // Catch: bind the exception in flight, if there is one.
                let name = self.string_at(chunk_index, index, base_ip)?;
                let exception = match self.context.exception_in_flight() {
                    Some(exception) => Some(exception.clone()),
                    None => None,
                };
                match exception {
                    Some(exception) => {
                        match self.context.declare_variable(name, exception, ValueType::Null, true) {
                            Ok(()) => {
                                let _ = self.context.take_current_exception();
                                Ok(Effect::Continue)
                            },
                            Err(e) => Err(RuntimeError::ContextError(e)),
                        }
                    },
                    None => Ok(Effect::Continue),
                }
            },
        }
    }

    // -----------------------------------------------------------------------
    // Control flow
    // -----------------------------------------------------------------------
    fn branch(&mut self, op: OpCode, chunk_index: usize, base_ip: usize) -> (r: RuntimeResult<
        Effect,
    >)
        requires
            old(self).well_formed(),
            old(self)@.context.frames.len() > 0,
            is_branch(op),
        ensures
            final(self).well_formed(),
            r is Err ==> stays(old(self)@, final(self)@),
            branch_case(op, old(self)@, final(self)@, r, chunk_index, base_ip),
    {
        let offset = match self.read_u16(chunk_index) {
            Ok(offset) => offset,
            Err(e) => {
                return Err(e);
            },
        };
        match op {
            OpCode::Jump => self.jump(offset, false, base_ip),
            OpCode::Loop => self.jump(offset, true, base_ip),
            OpCode::JumpIfFalse | OpCode::JumpIfTrue => {
                let truthy = match self.stack.peek() {
                    Ok(condition) => condition.is_truthy(),
                    Err(e) => {
                        return Err(RuntimeError::StackError(e));
                    },
                };
                let wanted = match op {
                    OpCode::JumpIfTrue => true,
                    _ => false,
                };
                if truthy == wanted {
                    self.jump(offset, false, base_ip)?;
                }
                let _ = self.stack.pop();
                Ok(Effect::Continue)
            },
            _ => {
                // MatchArm: compare the pattern with the value below it.
                self.need(2)?;
                let matched = {
                    let values = self.stack.values();
                    let n = values.len();
                    values[n - 2].equals(&values[n - 1])
                };
                if !matched {
                    self.jump(offset, false, base_ip)?;
                }
                let _ = self.stack.pop();
                Ok(Effect::Continue)
            },
        }
    }

    // -----------------------------------------------------------------------
    // Functions and closures
    // -----------------------------------------------------------------------
    /// Enters the function `index` of the chunk: its arguments leave the
    /// stack, with the `above` values that lie on them; a frame is pushed
    /// that declares the parameters; and execution continues at the
    /// function's start. Nothing is changed where the function cannot be
    /// entered.
    fn enter_function(
        &mut self,
        chunk_index: usize,
        index: usize,
        arity: u8,
        closure: Option<Closure>,
        above: usize,
        base_ip: usize,
    ) -> (r: RuntimeResult<Effect>)
        requires
            old(self).well_formed(),
            chunk_index < old(self)@.context.chunks.len(),
            above <= old(self)@.stack.len(),
        ensures
            final(self).well_formed(),
            r is Err ==> final(self)@ == old(self)@,
            enters(
                with_stack(old(self)@, old(self)@.stack.take(old(self)@.stack.len() - above)),
                final(self)@,
                r,
                chunk_index,
                index,
                arity,
                match closure {
                    Some(c) => Some((c.function_index, views_of(c.captures@))),
                    None => None,
                },
                base_ip,
            ),
    {
        let (name, params, start) = match self.context.get_chunk(chunk_index) {
            Some(chunk) => {
                match chunk.get_function(index) {
                    Some(info) => (info.name.clone(), clone_params(&info.params), info.start),
                    None => {
                        return Err(RuntimeError::InvalidBytecode { offset: base_ip });
                    },
                }
            },
            None => {
                return Err(RuntimeError::InvalidBytecode { offset: base_ip });
            },
        };
        let len = self.stack.len() - above;
        if len < arity as usize {
            return Err(RuntimeError::StackError(StackError::Underflow));
        }
        if self.context.call_depth() >= MAX_CALL_DEPTH {
            return Err(RuntimeError::ContextError(ContextError::CallStackOverflow));
        }
        let base = len - arity as usize;
        let ghost pre = old(self)@;
        let ghost s = pre.stack.take(pre.stack.len() - above);
        let ghost f = pre.context.chunks[chunk_index as int].functions@[index as int]@;
        let ghost given = s.skip(s.len() - arity);
        proof {
            assert(f.params.len() == params@.len());
            assert forall|k: int| 0 <= k < params@.len() implies f.params[k] == (
                #[trigger] params@[k].0@,
                params@[k].1,
            ) by {}
        }
        let mut scope = Scope::new();
        let mut i: usize = 0;
        while i < params.len()
            invariant
                i <= params.len(),
                *self == *old(self),
                self.well_formed(),
                scope.well_formed(),
                pre == old(self)@,
                above <= pre.stack.len(),
                len == pre.stack.len() - above,
                s == pre.stack.take(pre.stack.len() - above),
                base == len - arity,
                chunk_index < pre.context.chunks.len(),
                index < pre.context.chunks[chunk_index as int].functions@.len(),
                f == pre.context.chunks[chunk_index as int].functions@[index as int]@,
                given == s.skip(s.len() - arity),
                pre.context.frames.len() < MAX_CALL_DEPTH,
                f.params.len() == params@.len(),
                forall|k: int|
                    0 <= k < params@.len() ==> f.params[k] == (#[trigger] params@[k].0@, params@[k].1),
                bound(f.params, given, i as nat) == Some(scope@),
            decreases params.len() - i,
        {
            let value = if i < arity as usize {
                self.stack.values()[base + i].clone()
            } else {
                Value::Null
            };
            proof {
                assert(value@ == (if i < given.len() {
                    given[i as int]
                } else {
                    ValueView::Null
                }));
            }
            let variable = Variable::new(value, params[i].1, false);
            match scope.declare(params[i].0.clone(), variable) {
                Ok(()) => {},
                Err(e) => {
                    proof {
                        assert(bound(f.params, given, (i + 1) as nat) is None);
                        lemma_bound_stays_none(f.params, given, (i + 1) as nat, f.params.len());
                    }
                    return Err(RuntimeError::ContextError(e));
                },
            }
            i += 1;
        }
        self.stack.truncate(base);
        proof {
            assert(self@.stack =~= s.take(s.len() - arity));
        }
        let mut frame = match closure {
            Some(c) => CallFrame::with_closure(chunk_index, base, name, c),
            None => CallFrame::new(chunk_index, base, name),
        };
        frame.scope = scope;
        frame.ip = start;
        match self.context.push_frame(frame) {
            Ok(()) => Ok(Effect::Continue),
            Err(e) => Err(RuntimeError::ContextError(e)),
        }
    }

    fn call(&mut self, op: OpCode, chunk_index: usize, base_ip: usize) -> (r: RuntimeResult<Effect>)
        requires
            old(self).well_formed(),
            old(self)@.context.frames.len() > 0,
            is_call(op),
        ensures
            final(self).well_formed(),
            r is Err ==> stays(old(self)@, final(self)@),
            call_case(op, old(self)@, final(self)@, r, chunk_index, base_ip),
    {
        match op {
            OpCode::Call => {
                let index = match self.read_u16(chunk_index) {
                    Ok(index) => index,
                    Err(e) => {
                        return Err(e);
                    },
                };
                let arity = match self.read_byte(chunk_index) {
                    Ok(arity) => arity,
                    Err(e) => {
                        return Err(e);
                    },
                };
                proof {
                    assert(self@ == past(old(self)@, 3)) by {
                        assert(self@.context.frames =~= past(old(self)@, 3).context.frames);
                    }
                }
                proof {
                    assert(self@.stack.take(self@.stack.len() as int) =~= self@.stack);
                }
                self.enter_function(chunk_index, index as usize, arity, None, 0, base_ip)
            },
            OpCode::CallClosure => {
                let arity = match self.read_byte(chunk_index) {
                    Ok(arity) => arity,
                    Err(e) => {
                        return Err(e);
                    },
                };
                let callee = match self.stack.peek() {
                    Ok(callee) => callee.clone(),
                    Err(e) => {
                        return Err(RuntimeError::StackError(e));
                    },
                };
                proof {
                    assert(self@.stack.take(self@.stack.len() - 1) =~= self@.stack.drop_last());
                }
                match callee {
                    Value::ClosureVal(closure) => {
                        let closure: Closure = *closure;
                        let index = closure.function_index;
                        self.enter_function(chunk_index, index, arity, Some(closure), 1, base_ip)
                    },
                    Value::Function(index) => self.enter_function(
                        chunk_index,
                        index,
                        arity,
                        None,
                        1,
                        base_ip,
                    ),
                    other => Err(mismatch_of("closure or function", &other)),
                }
            },
            OpCode::LoadFunc => {
                let index = match self.read_u16(chunk_index) {
                    Ok(index) => index,
                    Err(e) => {
                        return Err(e);
                    },
                };
                self.literal(Value::Function(index as usize))
            },
            _ => {
                // DefineFunc: a marker with five operand bytes.
                match self.skip_operands(chunk_index, 5) {
                    Ok(()) => Ok(Effect::Continue),
                    Err(e) => Err(e),
                }
            },
        }
    }

    /// Moves past `n` operand bytes that the machine does not look at.
    fn skip_operands(&mut self, chunk_index: usize, n: usize) -> (r: RuntimeResult<()>)
        requires
            old(self).well_formed(),
            old(self)@.context.frames.len() > 0,
            n <= 5,
        ensures
            final(self).well_formed(),
            r is Err ==> stays(old(self)@, final(self)@),
            has_operands(old(self)@, chunk_index, n as nat) ==> r is Ok && final(self)@ == past(
                old(self)@,
                n as nat,
            ),
            !has_operands(old(self)@, chunk_index, n as nat) ==> (r matches Err(
                RuntimeError::InvalidBytecode { .. },
            )),
    {
        let ip = match self.context.current_ip() {
            Some(ip) => ip,
            None => {
                return Err(RuntimeError::UniverseCorruption);
            },
        };
        let enough = match self.context.get_chunk(chunk_index) {
            Some(chunk) => ip <= chunk.code.len() && chunk.code.len() - ip >= n,
            None => false,
        };
        if !enough {
            return Err(RuntimeError::InvalidBytecode { offset: ip });
        }
        self.context.set_ip(ip + n);
        Ok(())
    }

    /// Returns from the current function: the value on top of the stack is
    /// the result, and stays there for the caller; the frame is left with
    /// all that it declared.
    fn leave_function(&mut self) -> (r: RuntimeResult<Effect>)
        requires
            old(self).well_formed(),
        ensures
            final(self).well_formed(),
            r is Err ==> stays(old(self)@, final(self)@),
            return_case(old(self)@, final(self)@, r),
    {
        if self.context.call_depth() == 0 {
            return Err(RuntimeError::ContextError(ContextError::CallStackUnderflow));
        }
        self.need(1)?;
        match self.context.pop_frame() {
            Ok(_) => Ok(Effect::Continue),
            Err(e) => Err(RuntimeError::ContextError(e)),
        }
    }

    /// The instructions that make and use closures.
    fn closure(&mut self, op: OpCode, chunk_index: usize, base_ip: usize) -> (r: RuntimeResult<
        Effect,
    >)
        requires
            old(self).well_formed(),
            old(self)@.context.frames.len() > 0,
            is_closure_op(op),
        ensures
            final(self).well_formed(),
            r is Err ==> stays(old(self)@, final(self)@),
            closure_case(op, old(self)@, final(self)@, r, chunk_index, base_ip),
    {
        let index = match self.read_u16(chunk_index) {
            Ok(index) => index,
            Err(e) => {
                proof {
                    assert(!has_operands(old(self)@, chunk_index, 3));
                }
                return Err(e);
            },
        };
        match op {
            OpCode::MakeClosure => {
                let count = match self.read_byte(chunk_index) {
                    Ok(count) => count,
                    Err(e) => {
                        return Err(e);
                    },
                };
                proof {
                    assert(self@ == past(old(self)@, 3)) by {
                        assert(self@.context.frames =~= past(old(self)@, 3).context.frames);
                    }
                }
                if count == 0 && self.stack.len() >= MAX_STACK_DEPTH {
                    return Err(RuntimeError::StackError(StackError::Overflow));
                }
                let captures = match self.stack.pop_n(count as usize) {
                    Ok(captures) => captures,
                    Err(e) => {
                        return Err(RuntimeError::StackError(e));
                    },
                };
                let made = Value::ClosureVal(Box::new(Closure::new(index as usize, captures)));
                self.literal(made)
            },
            OpCode::LoadCapture => {
                let value = match self.context.current_frame() {
                    Some(frame) => match &frame.closure {
                        Some(closure) => {
                            if (index as usize) < closure.captures.len() {
                                closure.captures[index as usize].clone()
                            } else {
                                return Err(RuntimeError::InvalidBytecode { offset: base_ip });
                            }
                        },
                        None => {
                            return Err(
                                RuntimeError::TypeMismatch {
                                    expected: String::from_str("closure context"),
                                    actual: String::from_str("no closure in frame"),
                                },
                            );
                        },
                    },
                    None => {
                        return Err(RuntimeError::UniverseCorruption);
                    },
                };
                self.literal(value)
            },
            _ => {
                self.need(1)?;
                let ghost at = self@;
                let ghost stored = self@.stack.last();
                let held = match self.context.current_frame() {
                    Some(frame) => match &frame.closure {
                        Some(closure) => Some(closure.captures.len()),
                        None => None,
                    },
                    None => {
                        return Err(RuntimeError::UniverseCorruption);
                    },
                };
                match held {
                    Some(n) => {
                        if (index as usize) >= n {
                            return Err(RuntimeError::InvalidBytecode { offset: base_ip });
                        }
                    },
                    None => {
                        return Err(
                            RuntimeError::TypeMismatch {
                                expected: String::from_str("closure context"),
                                actual: String::from_str("no closure in frame"),
                            },
                        );
                    },
                }
                let value = self.pop()?;
                match self.context.current_frame_mut() {
                    Some(frame) => {
                        frame.set_capture(index as usize, value);
                    },
                    None => {},
                }
                proof {
                    let frame = at.context.frames.last();
                    assert(self@.context.frames =~= at.context.frames.update(
                        at.context.frames.len() - 1,
                        FrameView {
                            closure: Some(
                                (
                                    function_of(frame),
                                    captures_of(frame).update(index as int, stored),
                                ),
                            ),
                            ..frame
                        },
                    ));
                }
                Ok(Effect::Continue)
            },
        }
    }

    // -----------------------------------------------------------------------
    // Exceptions
    // -----------------------------------------------------------------------
    /// `TryBegin`: records where a throw shall continue, and the depths of
    /// the operand stack and of the call stack to return to.
    fn try_begin(&mut self, chunk_index: usize, base_ip: usize) -> (r: RuntimeResult<Effect>)
        requires
            old(self).well_formed(),
            old(self)@.context.frames.len() > 0,
        ensures
            final(self).well_formed(),
            r is Err ==> stays(old(self)@, final(self)@),
            try_begin_case(old(self)@, final(self)@, r, chunk_index, base_ip),
    {
        let offset = match self.read_u16(chunk_index) {
            Ok(offset) => offset,
            Err(e) => {
                return Err(e);
            },
        };
        let ip = match self.context.current_ip() {
            Some(ip) => ip,
            None => {
                return Err(RuntimeError::UniverseCorruption);
            },
        };
        if (offset as usize) > usize::MAX - ip {
            return Err(RuntimeError::InvalidBytecode { offset: base_ip });
        }
        let handler = ExceptionHandler::new(
            ip + offset as usize,
            self.stack.len(),
            self.context.call_depth(),
            chunk_index,
        );
        self.context.push_exception_handler(handler);
        Ok(Effect::Continue)
    }

    /// `Throw`: with a handler installed, the thrown value leaves the stack,
    /// the operand stack and the call stack shrink to the depths that the
    /// innermost handler recorded, the value becomes the exception in
    /// flight, and execution continues at the handler. Without a handler the
    /// throw is a fatal error that carries the value.
    fn throw(&mut self, base_ip: usize) -> (r: RuntimeResult<Effect>)
        requires
            old(self).well_formed(),
        ensures
            final(self).well_formed(),
            r is Err ==> stays(old(self)@, final(self)@),
            throw_case(old(self)@, final(self)@, r, base_ip),
    {
        self.need(1)?;
        if !self.context.has_exception_handler() {
            return match self.stack.peek() {
                Ok(thrown) => Err(RuntimeError::UnhandledException(thrown.clone())),
                Err(e) => Err(RuntimeError::StackError(e)),
            };
        }
        let exception = self.pop()?;
        let handler = match self.context.pop_exception_handler() {
            Some(handler) => handler,
            None => {
                return Err(RuntimeError::UniverseCorruption);
            },
        };
        self.stack.truncate(handler.stack_depth);
        self.context.unwind_frames(handler.frame_depth);
        self.context.set_current_exception(Some(exception));
        self.context.set_ip(handler.handler_ip);
        Ok(Effect::Continue)
    }

    // -----------------------------------------------------------------------
    // Input and output
    // -----------------------------------------------------------------------
    fn output(&mut self, op: OpCode, chunk_index: usize, base_ip: usize) -> (r: RuntimeResult<
        Effect,
    >)
        requires
            old(self).well_formed(),
            old(self)@.context.frames.len() > 0,
            is_output(op),
        ensures
            final(self).well_formed(),
            r is Err ==> stays(old(self)@, final(self)@),
            output_case(op, old(self)@, final(self)@, r, chunk_index, base_ip),
    {
        match op {
            OpCode::Print => {
                self.need(1)?;
                let shown = match self.stack.peek() {
                    Ok(v) => v.to_string_value(),
                    Err(e) => {
                        return Err(RuntimeError::StackError(e));
                    },
                };
                match shown {
                    Answer::Ask(request) => self.complete(
                        Computed::Host(request, Pending::Operand { depth: 0, resume: base_ip }),
                        1,
                    ),
                    Answer::Ready(text) => {
                        let _ = self.pop()?;
                        Ok(Effect::Print(text))
                    },
                }
            },
            OpCode::PrintLit => {
                let index = match self.read_u16(chunk_index) {
                    Ok(index) => index,
                    Err(e) => {
                        return Err(e);
                    },
                };
                match self.string_at(chunk_index, index, base_ip) {
                    Ok(text) => Ok(Effect::Print(text)),
                    Err(_) => Ok(Effect::Continue),
                }
            },
            OpCode::Input => {
                let index = match self.read_u16(chunk_index) {
                    Ok(index) => index,
                    Err(e) => {
                        return Err(e);
                    },
                };
                let var_type = match self.read_type(chunk_index, base_ip) {
                    Ok(t) => t,
                    Err(e) => {
                        return Err(e);
                    },
                };
                proof {
                    assert(self@.context.frames =~= past(old(self)@, 3).context.frames);
                }
                let name = self.string_at(chunk_index, index, base_ip)?;
                self.pending = Pending::Input { name: name.clone(), var_type };
                Ok(Effect::Input { name, var_type })
            },
            _ => {
                let value = match self.stack.peek() {
                    Ok(v) => v.clone(),
                    Err(e) => {
                        return Err(RuntimeError::StackError(e));
                    },
                };
                Ok(Effect::Debug(value))
            },
        }
    }

    // -----------------------------------------------------------------------
    // The accumulator and the rest
    // -----------------------------------------------------------------------
    fn store_accumulator(&mut self, base_ip: usize) -> (r: RuntimeResult<Effect>)
        requires
            old(self).well_formed(),
        ensures
            final(self).well_formed(),
            r is Err ==> stays(old(self)@, final(self)@),
            store_acc_case(old(self)@, final(self)@, r, base_ip),
    {
        self.need(1)?;
        let converted = match self.stack.peek() {
            Ok(v) => v.to_integer(),
            Err(e) => {
                return Err(RuntimeError::StackError(e));
            },
        };
        match converted {
            Answer::Ready(Some(i)) => {
                let _ = self.pop()?;
                self.context.set_accumulator(i);
                Ok(Effect::Continue)
            },
            Answer::Ready(None) => {
                let e = match self.stack.peek() {
                    Ok(v) => mismatch_of("integer", v),
                    Err(e) => RuntimeError::StackError(e),
                };
                Err(e)
            },
            Answer::Ask(request) => self.complete(
                Computed::Host(request, Pending::Operand { depth: 0, resume: base_ip }),
                1,
            ),
        }
    }

    fn interpolation(&mut self, chunk_index: usize, base_ip: usize) -> (r: RuntimeResult<Effect>)
        requires
            old(self).well_formed(),
            old(self)@.context.frames.len() > 0,
        ensures
            final(self).well_formed(),
            r is Err ==> stays(old(self)@, final(self)@),
            interpolate_case(old(self)@, final(self)@, r, chunk_index, base_ip),
    {
        let index = match self.read_u16(chunk_index) {
            Ok(index) => index,
            Err(e) => {
                return Err(e);
            },
        };
        let count = match self.read_byte(chunk_index) {
            Ok(count) => count,
            Err(e) => {
                return Err(e);
            },
        };
        proof {
            assert(self@ == past(old(self)@, 3)) by {
                assert(self@.context.frames =~= past(old(self)@, 3).context.frames);
            }
        }
        let template = self.string_at(chunk_index, index, base_ip)?;
        self.need(count as usize)?;
        let from = self.stack.len() - count as usize;
        let computed = interpolate(template.as_str(), self.stack.values(), from, base_ip);
        self.complete(computed, count as usize)
    }

    fn special(&mut self, op: OpCode, chunk_index: usize, base_ip: usize) -> (r: RuntimeResult<
        Effect,
    >)
        requires
            old(self).well_formed(),
            old(self)@.context.frames.len() > 0,
        ensures
            final(self).well_formed(),
            r is Err ==> stays(old(self)@, final(self)@),
            special_case(op, old(self)@, final(self)@, r, chunk_index, base_ip),
    {
        match op {
            OpCode::LoadAcc => {
                let value = self.context.accumulator();
                self.literal(Value::Integer(value))
            },
            OpCode::StoreAcc => self.store_accumulator(base_ip),
            OpCode::IncAcc => {
                if self.context.accumulator() == i64::MAX {
                    return Err(RuntimeError::ArithmeticOverflow);
                }
                self.context.increment_accumulator();
                Ok(Effect::Continue)
            },
            OpCode::DecAcc => {
                if self.context.accumulator() == i64::MIN {
                    return Err(RuntimeError::ArithmeticOverflow);
                }
                self.context.decrement_accumulator();
                Ok(Effect::Continue)
            },
            OpCode::Break => {
                if !self.context.in_loop() {
                    return Err(RuntimeError::BreakOutsideLoop);
                }
                self.context.request_break();
                Ok(Effect::Continue)
            },
            OpCode::Continue => {
                if !self.context.in_loop() {
                    return Err(RuntimeError::ContinueOutsideLoop);
                }
                self.context.request_continue();
                Ok(Effect::Continue)
            },
            OpCode::Interpolate => self.interpolation(chunk_index, base_ip),
            OpCode::MatchBegin => match self.skip_operands(chunk_index, 1) {
                Ok(()) => Ok(Effect::Continue),
                Err(e) => Err(e),
            },
            OpCode::Import | OpCode::Export => match self.skip_operands(chunk_index, 2) {
                Ok(()) => Ok(Effect::Continue),
                Err(e) => Err(e),
            },
            OpCode::LoadModule => match self.skip_operands(chunk_index, 4) {
                Ok(()) => self.literal(Value::Null),
                Err(e) => Err(e),
            },
            OpCode::TryEnd => {
                let _ = self.context.pop_exception_handler();
                Ok(Effect::Continue)
            },
            OpCode::Halt => {
                self.context.halt();
                Ok(Effect::Continue)
            },
            _ => Ok(Effect::Continue),
        }
    }
}

/// Once two parameters of one name are met, the parameters cannot be
/// declared.
pub proof fn lemma_bound_stays_none(
    params: Seq<(Seq<char>, ValueType)>,
    args: Seq<ValueView>,
    k: nat,
    n: nat,
)
    requires
        k <= n,
        bound(params, args, k) is None,
    ensures
        bound(params, args, n) is None,
    decreases n - k,
{
    if k < n {
        lemma_bound_stays_none(params, args, k, (n - 1) as nat);
    }
}

impl Runtime {
    /// Execute a single instruction, whose byte was fetched at `base_ip`.
    fn execute_instruction(&mut self, opcode: u8, chunk_index: usize, base_ip: usize) -> (r:
        RuntimeResult<Effect>)
        requires
            old(self).well_formed(),
            old(self)@.context.frames.len() > 0,
            chunk_index < old(self)@.context.chunks.len(),
        ensures
            final(self).well_formed(),
            r is Err ==> stays(old(self)@, final(self)@),
            match OpCode::decode(opcode) {
                None => r matches Err(RuntimeError::UnknownOpcode(b)) && b == opcode,
                Some(op) => instruction_case(op, old(self)@, final(self)@, r, chunk_index, base_ip),
            },
    {
        let op = match OpCode::from_byte(opcode) {
            Some(op) => op,
            None => {
                return Err(RuntimeError::UnknownOpcode(opcode));
            },
        };
        match op {
            OpCode::Const => self.load_constant(chunk_index, base_ip),
            OpCode::Null => self.literal(Value::Null),
            OpCode::True => self.literal(Value::Boolean(true)),
            OpCode::False => self.literal(Value::Boolean(false)),
            OpCode::Pop | OpCode::MatchEnd | OpCode::Dup | OpCode::Swap | OpCode::Rot => self.shuffle(
                op,
            ),
            OpCode::DeclareVar
            | OpCode::LoadVar
            | OpCode::StoreVar
            | OpCode::LoadGlobal
            | OpCode::StoreGlobal
            | OpCode::MatchBind
            | OpCode::Catch => self.variable(op, chunk_index, base_ip),
            OpCode::Add
            | OpCode::Sub
            | OpCode::Mul
            | OpCode::Div
            | OpCode::Mod
            | OpCode::Pow
            | OpCode::Eq
            | OpCode::Ne
            | OpCode::Lt
            | OpCode::Gt
            | OpCode::Le
            | OpCode::Ge
            | OpCode::And
            | OpCode::Or
            | OpCode::Xor
            | OpCode::ArrayGet
            | OpCode::MapGet
            | OpCode::MapHas
            | OpCode::MapRemove
            | OpCode::Concat => self.binary(op, base_ip),
            OpCode::Neg
            | OpCode::Inc
            | OpCode::Dec
            | OpCode::Not
            | OpCode::ArrayLen
            | OpCode::MapKeys
            | OpCode::MapValues => self.unary(op, ValueType::Null, base_ip),
            OpCode::Convert => {
                let target = match self.read_type(chunk_index, base_ip) {
                    Ok(t) => t,
                    Err(e) => {
                        return Err(e);
                    },
                };
                self.unary(op, target, base_ip)
            },
            OpCode::Jump
            | OpCode::JumpIfFalse
            | OpCode::JumpIfTrue
            | OpCode::Loop
            | OpCode::MatchArm => self.branch(op, chunk_index, base_ip),
            OpCode::Call | OpCode::DefineFunc | OpCode::LoadFunc | OpCode::CallClosure => self.call(
                op,
                chunk_index,
                base_ip,
            ),
            OpCode::Return => self.leave_function(),
            OpCode::MakeArray
            | OpCode::ArraySet
            | OpCode::ArrayPush
            | OpCode::MakeMap
            | OpCode::MapSet => self.build(op, chunk_index),
            OpCode::MakeClosure | OpCode::LoadCapture | OpCode::StoreCapture => self.closure(
                op,
                chunk_index,
                base_ip,
            ),
            OpCode::TryBegin => self.try_begin(chunk_index, base_ip),
            OpCode::Throw => self.throw(base_ip),
            OpCode::Print | OpCode::PrintLit | OpCode::Input | OpCode::Debug => self.output(
                op,
                chunk_index,
                base_ip,
            ),
            _ => self.special(op, chunk_index, base_ip),
        }
    }

    /// Takes one step: fetches the instruction at the current frame's
    /// instruction pointer, moves past its byte and executes it. A frame
    /// whose code has run out is left instead. A machine that has halted
    /// reports so where its stack is empty or holds one value, and an error
    /// where it holds more. A step that fails leaves the machine as it was.
    pub fn step(&mut self) -> (r: RuntimeResult<Effect>)
        requires
            old(self).well_formed(),
        ensures
            final(self).well_formed(),
            step_case(old(self)@, final(self)@, r),
    {
        match &self.pending {
            Pending::Nothing => {},
            _ => {
                return Err(
                    RuntimeError::InvalidInput(String::from_str("the machine waits for its host")),
                );
            },
        }
        if self.context.is_halted() {
            let depth = self.stack.len();
            return if depth <= 1 {
                Ok(Effect::Halted)
            } else {
                Err(RuntimeError::UnbalancedStack { depth })
            };
        }
        let (chunk_index, ip) = match self.context.current_frame() {
            Some(frame) => (frame.chunk_index, frame.ip),
            None => {
                return Err(RuntimeError::UniverseCorruption);
            },
        };
        let fetched = match self.context.get_chunk(chunk_index) {
            Some(chunk) => {
                if ip >= chunk.code.len() {
                    None
                } else {
                    Some(chunk.code[ip])
                }
            },
            None => {
                return Err(RuntimeError::InvalidBytecode { offset: ip });
            },
        };
        match fetched {
            None => {
                if self.context.call_depth() <= 1 {
                    return Err(RuntimeError::UniverseCorruption);
                }
                match self.context.pop_frame() {
                    Ok(_) => Ok(Effect::Continue),
                    Err(e) => Err(RuntimeError::ContextError(e)),
                }
            },
            Some(opcode) => {
                self.context.set_ip(ip + 1);
                let ghost fetched_at = self@;
                let r = self.execute_instruction(opcode, chunk_index, ip);
                match &r {
                    Err(_) => {
                        proof {
                            lemma_stays(old(self)@, fetched_at, self@);
                            lemma_put_back(old(self)@, self@);
                        }
                        self.context.set_ip(ip);
                    },
                    Ok(_) => {},
                }
                r
            },
        }
    }

    /// Hands the machine the line that it asked for with [`Effect::Input`].
    /// The line is read as a value of the variable's declared type and
    /// assigned to the variable. A line for a real variable is passed on to
    /// the host's floating-point unit.
    pub fn provide_input(&mut self, line: &str) -> (r: RuntimeResult<Effect>)
        requires
            old(self).well_formed(),
        ensures
            final(self).well_formed(),
            input_given(old(self)@, final(self)@, r, line@),
    {
        let (name, var_type) = match &self.pending {
            Pending::Input { name, var_type } => (name.clone(), *var_type),
            _ => {
                return Err(
                    RuntimeError::InvalidInput(
                        String::from_str("the machine did not ask for this"),
                    ),
                );
            },
        };
        match parse_input(line, var_type) {
            Ok(Answer::Ready(value)) => {
                self.pending = Pending::Nothing;
                match self.context.set_variable(name.as_str(), value) {
                    Ok(()) => Ok(Effect::Continue),
                    Err(e) => Err(RuntimeError::ContextError(e)),
                }
            },
            Ok(Answer::Ask(request)) => {
                self.pending = Pending::InputReal { name, input: String::from_str(line) };
                Ok(Effect::Real(request))
            },
            Err(e) => {
                self.pending = Pending::Nothing;
                Err(e)
            },
        }
    }

    /// Hands the machine the answer to what it asked with [`Effect::Real`].
    ///
    /// Where the answer was asked for an operand, it takes the operand's
    /// place on the stack and the instruction runs again at the next step.
    /// Where it is an instruction's result, it replaces the instruction's
    /// operands. Where it is the real that a line of input denotes, it is
    /// assigned to the variable.
    pub fn provide_real(&mut self, reply: RealReply) -> (r: RuntimeResult<()>)
        requires
            old(self).well_formed(),
        ensures
            final(self).well_formed(),
            reply_given(old(self)@, final(self)@, r, reply),
    {
        let unasked = RuntimeError::InvalidInput(
            String::from_str("the machine did not ask for this"),
        );
        let mut pending = Pending::Nothing;
        std::mem::swap(&mut self.pending, &mut pending);
        match pending {
            Pending::Operand { depth, resume: _ } => {
                let value = match reply {
                    RealReply::Number(x) => Value::Real(x),
                    RealReply::Integer(i) => Value::Integer(i),
                    RealReply::Text(s) => Value::String(s),
                    RealReply::Invalid => {
                        return Err(
                            RuntimeError::TypeMismatch {
                                expected: String::from_str("real"),
                                actual: ValueType::String.glyph(),
                            },
                        );
                    },
                };
                match self.stack.set_at(depth, value) {
                    Ok(()) => Ok(()),
                    Err(e) => Err(RuntimeError::StackError(e)),
                }
            },
            Pending::Outcome { pops } => match reply {
                RealReply::Number(x) => self.replace_top(pops, Value::Real(x)),
                _ => Err(unasked),
            },
            Pending::InputReal { name, input } => match reply {
                RealReply::Number(x) => match self.context.set_variable(
                    name.as_str(),
                    Value::Real(x),
                ) {
                    Ok(()) => Ok(()),
                    Err(e) => Err(RuntimeError::ContextError(e)),
                },
                RealReply::Invalid => Err(
                    RuntimeError::InvalidInput(
                        concat(concat("Expected real number, got '", input.as_str()).as_str(), "'"),
                    ),
                ),
                _ => Err(unasked),
            },
            other => {
                self.pending = other;
                Err(unasked)
            },
        }
    }
}


impl Runtime {
    /// Add two values.
    pub fn add(&self, a: Value, b: Value) -> (r: RuntimeResult<Computed>)
        ensures
            arithmetic_case(Arith::Add, a@, b@, r),
    {
        arithmetic(Arith::Add, &a, &b, 0)
    }

    /// Subtract two values.
    pub fn subtract(&self, a: Value, b: Value) -> (r: RuntimeResult<Computed>)
        ensures
            arithmetic_case(Arith::Sub, a@, b@, r),
    {
        arithmetic(Arith::Sub, &a, &b, 0)
    }

    /// Multiply two values.
    pub fn multiply(&self, a: Value, b: Value) -> (r: RuntimeResult<Computed>)
        ensures
            arithmetic_case(Arith::Mul, a@, b@, r),
    {
        arithmetic(Arith::Mul, &a, &b, 0)
    }

    /// Divide two values.
    pub fn divide(&self, a: Value, b: Value) -> (r: RuntimeResult<Computed>)
        ensures
            arithmetic_case(Arith::Div, a@, b@, r),
    {
        arithmetic(Arith::Div, &a, &b, 0)
    }

    /// Modulo operation.
    pub fn modulo(&self, a: Value, b: Value) -> (r: RuntimeResult<Computed>)
        ensures
            arithmetic_case(Arith::Mod, a@, b@, r),
    {
        arithmetic(Arith::Mod, &a, &b, 0)
    }

    /// Power operation.
    pub fn power(&self, a: Value, b: Value) -> (r: RuntimeResult<Computed>)
        ensures
            arithmetic_case(Arith::Pow, a@, b@, r),
    {
        arithmetic(Arith::Pow, &a, &b, 0)
    }
}

impl Default for Runtime {
    fn default() -> (r: Self)
        ensures
            r.well_formed(),
            r@ == initial(),
    {
        Self::new()
    }
}

} // verus!
