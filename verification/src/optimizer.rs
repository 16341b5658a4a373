use vstd::prelude::*;
use crate::bytecode::opcode::{u16_of, Chunk, OpCode};
use crate::bytecode::value::{group_value_views, views_of, lemma_views_of_push, Value, ValueView};
use crate::number::{Real, RealOp, RealRequest};
use crate::text::concat;
use crate::vm::ops::truncated_quotient;

verus! {

broadcast use {vstd::std_specs::vec::group_vec_axioms, group_value_views};

/// Constant folding: an operation on two constants is computed when the
/// chunk is optimized, not when it runs.
pub struct ConstantFolding;

/// What folding makes of an instruction byte and two constants: the sum,
/// difference, product or quotient of two integers where it fits in 64
/// bits, and the concatenation of two strings. Nothing else is folded;
/// reals are left to the machine, which asks the host.
pub open spec fn folded(op: u8, a: ValueView, b: ValueView) -> Option<ValueView> {
    match (a, b) {
        (ValueView::Integer(x), ValueView::Integer(y)) => {
            let result: int = if op == OpCode::Add.byte() {
                x + y
            } else if op == OpCode::Sub.byte() {
                x - y
            } else if op == OpCode::Mul.byte() {
                x * y
            } else {
                truncated_quotient(x as int, y as int)
            };
            if (op == OpCode::Add.byte() || op == OpCode::Sub.byte() || op == OpCode::Mul.byte()
                || (op == OpCode::Div.byte() && y != 0)) && i64::MIN <= result <= i64::MAX {
                Some(ValueView::Integer(result as i64))
            } else {
                None
            }
        },
        (ValueView::String(x), ValueView::String(y)) => if op == OpCode::Add.byte() {
            Some(ValueView::String(x + y))
        } else {
            None
        },
        _ => None,
    }
}

/// Whether the bytes at `i` are two loads of constants and an instruction
/// byte behind them.
pub open spec fn pattern_at(code: Seq<u8>, i: int) -> bool {
    0 <= i && i + 6 < code.len() && code[i] == OpCode::Const.byte() && code[i + 3]
        == OpCode::Const.byte()
}

/// The value that the bytes at `i` fold to, if they fold: both loads name
/// constants of the pool, the pool has room, and the instruction byte folds
/// the two constants.
pub open spec fn fold_at(code: Seq<u8>, constants: Seq<ValueView>, i: int) -> Option<ValueView> {
    if pattern_at(code, i) {
        let first = u16_of(code[i + 1], code[i + 2]);
        let second = u16_of(code[i + 4], code[i + 5]);
        if first < constants.len() && second < constants.len() && constants.len() < 65536 {
            folded(code[i + 6], constants[first as int], constants[second as int])
        } else {
            None
        }
    } else {
        None
    }
}

/// The code with the seven bytes at `i` made a load of the constant `index`
/// and four no-operations.
pub open spec fn rewritten(code: Seq<u8>, i: int, index: int) -> Seq<u8> {
    code.update(i, OpCode::Const.byte()).update(i + 1, (index % 256) as u8).update(
        i + 2,
        (index / 256) as u8,
    ).update(i + 3, OpCode::Nop.byte()).update(i + 4, OpCode::Nop.byte()).update(
        i + 5,
        OpCode::Nop.byte(),
    ).update(i + 6, OpCode::Nop.byte())
}

/// The operation of the host that an instruction byte folds two reals with:
/// sums, differences and products are folded.
pub open spec fn real_fold(op: u8) -> Option<RealOp> {
    if op == OpCode::Add.byte() {
        Some(RealOp::Add)
    } else if op == OpCode::Sub.byte() {
        Some(RealOp::Sub)
    } else if op == OpCode::Mul.byte() {
        Some(RealOp::Mul)
    } else {
        None
    }
}

/// What the host is asked to compute where the bytes at `i` fold two reals:
/// both loads name reals of the pool, the pool has room, and the
/// instruction byte folds reals.
pub open spec fn real_fold_at(code: Seq<u8>, constants: Seq<ValueView>, i: int) -> Option<
    (RealOp, Real, Real),
> {
    if pattern_at(code, i) {
        let first = u16_of(code[i + 1], code[i + 2]);
        let second = u16_of(code[i + 4], code[i + 5]);
        if first < constants.len() && second < constants.len() && constants.len() < 65536 {
            match (constants[first as int], constants[second as int], real_fold(code[i + 6])) {
                (ValueView::Real(x), ValueView::Real(y), Some(op)) => Some((op, x, y)),
                _ => None,
            }
        } else {
            None
        }
    } else {
        None
    }
}

/// The code and the constant pool after the scan from byte `i` on.
pub open spec fn fold_from(code: Seq<u8>, constants: Seq<ValueView>, i: int) -> (
    Seq<u8>,
    Seq<ValueView>,
)
    decreases code.len() - i,
{
    if i < 0 || i + 6 >= code.len() {
        (code, constants)
    } else {
        match fold_at(code, constants, i) {
            Some(v) => fold_from(
                rewritten(code, i, constants.len() as int),
                constants.push(v),
                i + 1,
            ),
            None => fold_from(code, constants, i + 1),
        }
    }
}

impl ConstantFolding {
    pub fn name(&self) -> (s: &'static str)
        ensures
            s@ == "Constant Folding"@,
    {
        "Constant Folding"
    }

    /// The computation that folds the two reals at byte `i`, if the bytes
    /// there fold two reals: the host computes it, and hands the result to
    /// [`ConstantFolding::fold_to`].
    pub fn real_operands(chunk: &Chunk, i: usize) -> (r: Option<RealRequest>)
        ensures
            match real_fold_at(chunk.code@, views_of(chunk.constants@), i as int) {
                Some((op, x, y)) => r == Some(RealRequest::Arithmetic(op, x, y)),
                None => r is None,
            },
    {
        if i >= chunk.code.len() || chunk.code.len() - i <= 6 {
            return None;
        }
        if chunk.code[i] != OpCode::Const.to_byte() || chunk.code[i + 3]
            != OpCode::Const.to_byte() {
            return None;
        }
        let first = chunk.read_u16(i + 1) as usize;
        let second = chunk.read_u16(i + 4) as usize;
        let op = chunk.code[i + 6];
        if first >= chunk.constants.len() || second >= chunk.constants.len()
            || chunk.constants.len() >= 65536 {
            return None;
        }
        let real_op = if op == OpCode::Add.to_byte() {
            RealOp::Add
        } else if op == OpCode::Sub.to_byte() {
            RealOp::Sub
        } else if op == OpCode::Mul.to_byte() {
            RealOp::Mul
        } else {
            return None;
        };
        match (&chunk.constants[first], &chunk.constants[second]) {
            (Value::Real(x), Value::Real(y)) => Some(RealRequest::Arithmetic(real_op, *x, *y)),
            _ => None,
        }
    }

    /// Makes the seven bytes at `i` a load of `result`, which goes to the
    /// end of the constant pool, and four no-operations; where the bytes
    /// there are no two loads of constants and an instruction byte, or the
    /// pool is full, nothing is changed.
    pub fn fold_to(chunk: &mut Chunk, i: usize, result: Value) -> (done: bool)
        ensures
            done == (pattern_at(old(chunk).code@, i as int) && old(chunk).constants@.len()
                < 65536),
            done ==> final(chunk).code@ == rewritten(
                old(chunk).code@,
                i as int,
                old(chunk).constants@.len() as int,
            ) && views_of(final(chunk).constants@) == views_of(old(chunk).constants@).push(
                result@,
            ),
            !done ==> final(chunk).code == old(chunk).code && final(chunk).constants == old(
                chunk,
            ).constants,
            final(chunk).lines == old(chunk).lines,
            final(chunk).strings == old(chunk).strings,
            final(chunk).functions == old(chunk).functions,
            final(chunk).name == old(chunk).name,
    {
        if i >= chunk.code.len() || chunk.code.len() - i <= 6 {
            return false;
        }
        if chunk.code[i] != OpCode::Const.to_byte() || chunk.code[i + 3]
            != OpCode::Const.to_byte() || chunk.constants.len() >= 65536 {
            return false;
        }
        let ghost code = chunk.code@;
        proof {
            lemma_views_of_push(chunk.constants@, result);
        }
        let index = chunk.add_constant(result);
        chunk.code[i] = OpCode::Const.to_byte();
        chunk.code[i + 1] = (index % 256) as u8;
        chunk.code[i + 2] = (index / 256) as u8;
        chunk.code[i + 3] = OpCode::Nop.to_byte();
        chunk.code[i + 4] = OpCode::Nop.to_byte();
        chunk.code[i + 5] = OpCode::Nop.to_byte();
        chunk.code[i + 6] = OpCode::Nop.to_byte();
        proof {
            assert(chunk.code@ =~= rewritten(code, i as int, old(chunk).constants@.len() as int));
        }
        true
    }

    /// Folds the bytes at `i`, where they fold, as the scan of
    /// [`ConstantFolding::optimize`] does at each byte.
    pub fn fold_here(chunk: &mut Chunk, i: usize) -> (done: bool)
        ensures
            match fold_at(old(chunk).code@, views_of(old(chunk).constants@), i as int) {
                Some(v) => done && final(chunk).code@ == rewritten(
                    old(chunk).code@,
                    i as int,
                    old(chunk).constants@.len() as int,
                ) && views_of(final(chunk).constants@) == views_of(old(chunk).constants@).push(
                    v,
                ),
                None => !done && final(chunk).code == old(chunk).code && final(chunk).constants
                    == old(chunk).constants,
            },
            final(chunk).lines == old(chunk).lines,
            final(chunk).strings == old(chunk).strings,
            final(chunk).functions == old(chunk).functions,
            final(chunk).name == old(chunk).name,
    {
        if i >= chunk.code.len() || chunk.code.len() - i <= 6 {
            return false;
        }
        if chunk.code[i] != OpCode::Const.to_byte() || chunk.code[i + 3]
            != OpCode::Const.to_byte() {
            return false;
        }
        let first = chunk.read_u16(i + 1) as usize;
        let second = chunk.read_u16(i + 4) as usize;
        let op = chunk.code[i + 6];
        if first >= chunk.constants.len() || second >= chunk.constants.len()
            || chunk.constants.len() >= 65536 {
            return false;
        }
        match Self::fold_binary(op, &chunk.constants[first], &chunk.constants[second]) {
            Some(result) => Self::fold_to(chunk, i, result),
            None => false,
        }
    }

    /// Folds an operation on two constants, where it can be folded.
    pub fn fold_binary(op: u8, a: &Value, b: &Value) -> (r: Option<Value>)
        ensures
            match folded(op, a@, b@) {
                Some(v) => r matches Some(value) && value@ == v,
                None => r is None,
            },
    {
        match (a, b) {
            (Value::Integer(x), Value::Integer(y)) => {
                let result = if op == OpCode::Add.to_byte() {
                    x.checked_add(*y)
                } else if op == OpCode::Sub.to_byte() {
                    x.checked_sub(*y)
                } else if op == OpCode::Mul.to_byte() {
                    x.checked_mul(*y)
                } else if op == OpCode::Div.to_byte() && *y != 0 {
                    x.checked_div(*y)
                } else {
                    None
                };
                match result {
                    Some(i) => Some(Value::Integer(i)),
                    None => None,
                }
            },
            (Value::String(x), Value::String(y)) => {
                if op == OpCode::Add.to_byte() {
                    Some(Value::String(concat(x.as_str(), y.as_str())))
                } else {
                    None
                }
            },
            _ => None,
        }
    }

    /// Scans the code byte by byte. Where two loads of constants stand
    /// before an instruction byte that folds them, the result joins the
    /// constant pool, the first load is made a load of the result, and the
    /// four bytes behind it are made no-operations. Returns the number of
    /// folds.
    pub fn optimize(&self, chunk: &mut Chunk) -> (count: usize)
        ensures
            (final(chunk).code@, views_of(final(chunk).constants@)) == fold_from(
                old(chunk).code@,
                views_of(old(chunk).constants@),
                0,
            ),
            count == final(chunk).constants@.len() - old(chunk).constants@.len(),
            final(chunk).code@.len() == old(chunk).code@.len(),
            final(chunk).lines == old(chunk).lines,
            final(chunk).strings == old(chunk).strings,
            final(chunk).functions == old(chunk).functions,
            final(chunk).name == old(chunk).name,
    {
        let mut optimizations: usize = 0;
        let mut i: usize = 0;
        while i < chunk.code.len() && chunk.code.len() - i > 6
            invariant
                chunk.code@.len() == old(chunk).code@.len(),
                chunk.lines == old(chunk).lines,
                chunk.strings == old(chunk).strings,
                chunk.functions == old(chunk).functions,
                chunk.name == old(chunk).name,
                optimizations <= i,
                chunk.constants@.len() == old(chunk).constants@.len() + optimizations,
                fold_from(old(chunk).code@, views_of(old(chunk).constants@), 0) == fold_from(
                    chunk.code@,
                    views_of(chunk.constants@),
                    i as int,
                ),
            decreases chunk.code.len() - i,
        {
            if Self::fold_here(chunk, i) {
                optimizations = optimizations + 1;
            }
            i += 1;
        }
        optimizations
    }
}

/// No-operation removal.
pub struct NopRemoval;

/// The bytes of the code that are not the no-operation byte, in their
/// order.
pub open spec fn without_nops(code: Seq<u8>) -> Seq<u8>
    decreases code.len(),
{
    if code.len() == 0 {
        code
    } else if code.last() == OpCode::Nop.byte() {
        without_nops(code.drop_last())
    } else {
        without_nops(code.drop_last()).push(code.last())
    }
}

/// The lines of the bytes of the code that are not the no-operation byte.
pub open spec fn lines_without_nops(code: Seq<u8>, lines: Seq<usize>) -> Seq<usize>
    decreases code.len(),
{
    if code.len() == 0 || lines.len() != code.len() {
        Seq::empty()
    } else if code.last() == OpCode::Nop.byte() {
        lines_without_nops(code.drop_last(), lines.drop_last())
    } else {
        lines_without_nops(code.drop_last(), lines.drop_last()).push(lines.last())
    }
}

impl NopRemoval {
    pub fn name(&self) -> (s: &'static str)
        ensures
            s@ == "Nop Removal"@,
    {
        "Nop Removal"
    }

    /// Removes every byte of the code that is the no-operation byte,
    /// together with its line. The pass looks at bytes, not at
    /// instructions: operands that happen to be that byte go too, and jumps
    /// are not adjusted. Returns the number of bytes removed.
    pub fn optimize(&self, chunk: &mut Chunk) -> (count: usize)
        requires
            old(chunk).well_formed(),
        ensures
            final(chunk).well_formed(),
            final(chunk).code@ == without_nops(old(chunk).code@),
            final(chunk).lines@ == lines_without_nops(old(chunk).code@, old(chunk).lines@),
            count == old(chunk).code@.len() - final(chunk).code@.len(),
            final(chunk).constants == old(chunk).constants,
            final(chunk).strings == old(chunk).strings,
            final(chunk).functions == old(chunk).functions,
            final(chunk).name == old(chunk).name,
    {
        let mut code: Vec<u8> = Vec::new();
        let mut lines: Vec<usize> = Vec::new();
        let mut i: usize = 0;
        while i < chunk.code.len()
            invariant
                i <= chunk.code.len(),
                *chunk == *old(chunk),
                chunk.code@.len() == chunk.lines@.len(),
                code@.len() == lines@.len(),
                code@.len() <= i,
                code@ == without_nops(chunk.code@.take(i as int)),
                lines@ == lines_without_nops(chunk.code@.take(i as int), chunk.lines@.take(i as int)),
            decreases chunk.code.len() - i,
        {
            proof {
                assert(chunk.code@.take(i + 1).drop_last() =~= chunk.code@.take(i as int));
                assert(chunk.lines@.take(i + 1).drop_last() =~= chunk.lines@.take(i as int));
            }
            if chunk.code[i] != OpCode::Nop.to_byte() {
                code.push(chunk.code[i]);
                lines.push(chunk.lines[i]);
            }
            i += 1;
        }
        proof {
            assert(chunk.code@.take(i as int) =~= chunk.code@);
            assert(chunk.lines@.take(i as int) =~= chunk.lines@);
        }
        let removed = chunk.code.len() - code.len();
        chunk.code = code;
        chunk.lines = lines;
        removed
    }
}

} // verus!
