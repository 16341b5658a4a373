use vstd::prelude::*;
use vstd::arithmetic::power::pow;
use vstd::string::StringExecFns;
use crate::bytecode::opcode::ValueType;
use crate::bytecode::value::{
    entry_views_of, group_value_views, lemma_entry_views_of_push, lemma_views_of_push, views_of,
    Value, ValueView,
};
use crate::number::{Real, RealOp, RealRequest};
use crate::bytecode::opcode::Answer;
use crate::text::{
    chars_of, concat, decimal_of, lowercase_of, parse_integer, parsed_integer, replace_all,
    replaced, str_eq, str_lt, text_lt, to_lowercase, unsigned_to_string,
};
use crate::vm::context::ContextError;
use crate::vm::stack::StackError;

verus! {

broadcast use {vstd::std_specs::vec::group_vec_axioms, group_value_views};

/// Runtime errors. All of them are fatal to the program that runs.
#[derive(Debug)]
pub enum RuntimeError {
    /// The operand stack overflowed or underflowed.
    StackError(StackError),
    /// A variable or call-frame operation failed.
    ContextError(ContextError),
    /// An operation met operands of types it does not take; both are
    /// described in words or by glyphs.
    TypeMismatch { expected: String, actual: String },
    /// Division or remainder by zero.
    DivisionByZero,
    /// An integer result does not fit in 64 bits.
    ArithmeticOverflow,
    /// The byte is no instruction.
    UnknownOpcode(u8),
    /// The instruction at `offset` has a malformed operand or refers to
    /// something that does not exist.
    InvalidBytecode { offset: usize },
    BreakOutsideLoop,
    ContinueOutsideLoop,
    /// The code ran out, or no frame was left, before the program halted.
    UniverseCorruption,
    IoError(String),
    /// A line of input does not read as a value of the declared type, or the
    /// host answered something that was not asked.
    InvalidInput(String),
    FunctionNotFound { name: String },
    /// An array index beyond the array; `index` is given after negative
    /// indices were counted from the end.
    IndexOutOfBounds { index: i64, length: usize },
    /// A value was thrown that no handler waits for.
    UnhandledException(Value),
    /// The program halted with more on the stack than one value.
    UnbalancedStack { depth: usize },
}

/// Result type for runtime operations.
pub type RuntimeResult<T> = Result<T, RuntimeError>;

/// What becomes of the host's answer to a request.
#[derive(Debug)]
pub enum Pending {
    /// Nothing is asked.
    Nothing,
    /// A line of input is asked for the variable `name`.
    Input { name: String, var_type: ValueType },
    /// The answer is the real that the line `input` denotes, for the variable
    /// `name`.
    InputReal { name: String, input: String },
    /// The answer replaces the operand at `depth` below the top of the stack,
    /// and the instruction at `resume` runs again.
    Operand { depth: usize, resume: usize },
    /// The answer replaces the `pops` topmost operands: it is the
    /// instruction's result.
    Outcome { pops: usize },
}

/// What a value-level operation yields: its result, or the request that the
/// host must answer first, with what becomes of the answer.
#[derive(Debug)]
pub enum Computed {
    Done(Value),
    Host(RealRequest, Pending),
}

/// The arithmetic instructions with two operands.
#[derive(Clone, Copy, Debug, PartialEq, Eq, Structural)]
pub enum Arith {
    Add,
    Sub,
    Mul,
    Div,
    Mod,
    Pow,
}

/// The error that two operands of unfitting types draw: `expected` is the
/// given description and `actual` names both types by their glyphs.
pub open spec fn is_mismatch(
    e: RuntimeError,
    expected: Seq<char>,
    a: ValueView,
    b: ValueView,
) -> bool {
    e matches RuntimeError::TypeMismatch { expected: x, actual: y } && x@ == expected && y@
        == a.value_type().glyph_text() + " and "@ + b.value_type().glyph_text()
}

/// The error that one operand of an unfitting type draws.
pub open spec fn is_mismatch_of(e: RuntimeError, expected: Seq<char>, a: ValueView) -> bool {
    e matches RuntimeError::TypeMismatch { expected: x, actual: y } && x@ == expected && y@
        == a.value_type().glyph_text()
}

pub fn mismatch(expected: &str, a: &Value, b: &Value) -> (e: RuntimeError)
    ensures
        is_mismatch(e, expected@, a@, b@),
{
    let left = a.value_type().glyph();
    let right = b.value_type().glyph();
    let actual = concat(concat(left.as_str(), " and ").as_str(), right.as_str());
    RuntimeError::TypeMismatch { expected: String::from_str(expected), actual }
}

pub fn mismatch_of(expected: &str, a: &Value) -> (e: RuntimeError)
    ensures
        is_mismatch_of(e, expected@, a@),
{
    RuntimeError::TypeMismatch {
        expected: String::from_str(expected),
        actual: a.value_type().glyph(),
    }
}

/// Integer division that rounds toward zero.
pub open spec fn truncated_quotient(x: int, y: int) -> int {
    if x == 0 {
        0
    } else if x > 0 && y > 0 {
        x / y
    } else if x < 0 && y < 0 {
        ((x * -1) / (y * -1))
    } else if x < 0 {
        ((x * -1) / y) * -1
    } else {
        (x / (y * -1)) * -1
    }
}

/// The remainder of the division that rounds toward zero: its sign is that
/// of the dividend.
pub open spec fn truncated_remainder(x: int, y: int) -> int {
    if x == 0 {
        0
    } else if x > 0 && y > 0 {
        x % y
    } else if x < 0 && y < 0 {
        ((x * -1) % (y * -1)) * -1
    } else if x < 0 {
        ((x * -1) % y) * -1
    } else {
        x % (y * -1)
    }
}

/// The exponent of a power with a real base, where it is one that the
/// host's integer power takes: a signed 32-bit number.
pub open spec fn small_exponent(y: i64) -> bool {
    i32::MIN <= y <= i32::MAX
}

/// What an arithmetic instruction makes of two integers, where it makes an
/// integer of them.
pub open spec fn integer_result(op: Arith, x: i64, y: i64) -> int {
    match op {
        Arith::Add => x + y,
        Arith::Sub => x - y,
        Arith::Mul => x * y,
        Arith::Div => truncated_quotient(x as int, y as int),
        Arith::Mod => truncated_remainder(x as int, y as int),
        Arith::Pow => pow(x as int, y as nat),
    }
}

pub open spec fn real_op_of(op: Arith) -> RealOp {
    match op {
        Arith::Add => RealOp::Add,
        Arith::Sub => RealOp::Sub,
        Arith::Mul => RealOp::Mul,
        Arith::Div => RealOp::Div,
        Arith::Mod => RealOp::Rem,
        Arith::Pow => RealOp::Power,
    }
}

pub open spec fn mismatch_text(op: Arith) -> Seq<char> {
    match op {
        Arith::Add => "compatible types"@,
        _ => "numeric types"@,
    }
}

/// `i64::checked_pow`: the power where it fits in 64 bits, and nothing where
/// it does not.
#[verifier::external_body]
fn checked_pow(x: i64, exponent: u32) -> (r: Option<i64>)
    ensures
        r == (if i64::MIN <= pow(x as int, exponent as nat) <= i64::MAX {
            Some(pow(x as int, exponent as nat) as i64)
        } else {
            None
        }),
{
    x.checked_pow(exponent)
}

/// The result of an arithmetic instruction on two integers.
pub open spec fn integer_case(op: Arith, x: i64, y: i64, r: RuntimeResult<Computed>) -> bool {
    if (op == Arith::Div || op == Arith::Mod) && y == 0 {
        r matches Err(RuntimeError::DivisionByZero)
    } else if op == Arith::Pow && y < 0 {
        r matches Ok(
            Computed::Host(RealRequest::FromInteger(i), Pending::Operand { depth: 1, resume: _ }),
        ) && i == x
    } else if i64::MIN <= integer_result(op, x, y) <= i64::MAX {
        r matches Ok(Computed::Done(Value::Integer(i))) && i == integer_result(op, x, y)
    } else {
        r matches Err(RuntimeError::ArithmeticOverflow)
    }
}

/// The result of an arithmetic instruction on two reals: the host computes
/// it, unless it is a division by zero.
pub open spec fn real_case(op: Arith, x: Real, y: Real, r: RuntimeResult<Computed>) -> bool {
    if (op == Arith::Div || op == Arith::Mod) && y.is_zero() {
        r matches Err(RuntimeError::DivisionByZero)
    } else {
        r matches Ok(
            Computed::Host(RealRequest::Arithmetic(o, a, b), Pending::Outcome { pops: 2 }),
        ) && o == real_op_of(op) && a == x && b == y
    }
}

/// The result of an arithmetic instruction on an integer and a real, in
/// either order: the integer operand is first made a real, and the
/// instruction then meets two reals. A real is raised to a small integer
/// power by the host's integer power.
pub open spec fn mixed_case(
    op: Arith,
    a: ValueView,
    b: ValueView,
    r: RuntimeResult<Computed>,
) -> bool {
    match (a, b) {
        (ValueView::Integer(x), ValueView::Real(y)) => if (op == Arith::Div || op == Arith::Mod)
            && y.is_zero() {
            r matches Err(RuntimeError::DivisionByZero)
        } else {
            r matches Ok(
                Computed::Host(
                    RealRequest::FromInteger(i),
                    Pending::Operand { depth: 1, resume: _ },
                ),
            ) && i == x
        },
        (ValueView::Real(x), ValueView::Integer(y)) => if (op == Arith::Div || op == Arith::Mod)
            && y == 0 {
            r matches Err(RuntimeError::DivisionByZero)
        } else if op == Arith::Pow && small_exponent(y) {
            r matches Ok(
                Computed::Host(RealRequest::PowerInteger(base, n), Pending::Outcome { pops: 2 }),
            ) && base == x && n == y
        } else {
            r matches Ok(
                Computed::Host(
                    RealRequest::FromInteger(i),
                    Pending::Operand { depth: 0, resume: _ },
                ),
            ) && i == y
        },
        _ => false,
    }
}

/// What an arithmetic instruction makes of its two operands.
pub open spec fn arithmetic_case(
    op: Arith,
    a: ValueView,
    b: ValueView,
    r: RuntimeResult<Computed>,
) -> bool {
    match (a, b) {
        (ValueView::Integer(x), ValueView::Integer(y)) => integer_case(op, x, y, r),
        (ValueView::Real(x), ValueView::Real(y)) => real_case(op, x, y, r),
        (ValueView::Integer(_), ValueView::Real(_)) => mixed_case(op, a, b, r),
        (ValueView::Real(_), ValueView::Integer(_)) => mixed_case(op, a, b, r),
        (ValueView::String(x), ValueView::String(y)) => if op == Arith::Add {
            r matches Ok(Computed::Done(Value::String(s))) && s@ == x + y
        } else {
            r matches Err(e) && is_mismatch(e, mismatch_text(op), a, b)
        },
        _ => r matches Err(e) && is_mismatch(e, mismatch_text(op), a, b),
    }
}

/// The powers of 0, of 1 and of -1.
pub proof fn lemma_power_of_unit(x: int, n: nat)
    ensures
        x == 0 && n > 0 ==> pow(x, n) == 0,
        x == 1 ==> pow(x, n) == 1,
        x == -1 ==> pow(x, n) == (if n % 2 == 0 {
            1int
        } else {
            -1int
        }),
    decreases n,
{
    reveal(pow);
    if n > 0 {
        lemma_power_of_unit(x, (n - 1) as nat);
    }
}

/// A power is as large as that of 2, unless its base is 0, 1 or -1.
pub proof fn lemma_power_magnitude(x: int, n: nat)
    requires
        x >= 2 || x <= -2,
    ensures
        pow(x, n) >= pow(2, n) || pow(x, n) <= -pow(2, n),
        pow(2, n) > 0,
    decreases n,
{
    reveal(pow);
    if n > 0 {
        lemma_power_magnitude(x, (n - 1) as nat);
        let p = pow(x, (n - 1) as nat);
        let q = pow(2, (n - 1) as nat);
        assert(x * p >= 2 * q || x * p <= -(2 * q)) by (nonlinear_arith)
            requires
                x >= 2 || x <= -2,
                p >= q || p <= -q,
                q > 0,
        ;
    }
}

/// A power with an exponent of 64 or more does not fit in 64 bits, unless
/// its base is 0, 1 or -1.
pub proof fn lemma_power_is_large(x: int, n: nat)
    requires
        n >= 64,
    ensures
        x >= 2 || x <= -2 ==> pow(x, n) > i64::MAX || pow(x, n) < i64::MIN,
{
    if x >= 2 || x <= -2 {
        lemma_power_magnitude(x, n);
        vstd::arithmetic::power::lemma_pow_increases(2, 64, n);
        vstd::arithmetic::power2::lemma_pow2(64);
        vstd::arithmetic::power2::lemma2_to64();
    }
}

fn integer_arithmetic(op: Arith, x: i64, y: i64, resume: usize) -> (r: RuntimeResult<Computed>)
    ensures
        integer_case(op, x, y, r),
        r matches Ok(Computed::Host(_, Pending::Operand { depth: _, resume: at })) ==> at
            == resume,
{
    let outcome = match op {
        Arith::Add => x.checked_add(y),
        Arith::Sub => x.checked_sub(y),
        Arith::Mul => x.checked_mul(y),
        Arith::Div => {
            if y == 0 {
                return Err(RuntimeError::DivisionByZero);
            }
            x.checked_div(y)
        },
        Arith::Mod => {
            if y == 0 {
                return Err(RuntimeError::DivisionByZero);
            }
            proof {
                if x == i64::MIN && y == -1 {
                    assert(truncated_remainder(x as int, y as int) == 0) by (nonlinear_arith)
                        requires
                            x == i64::MIN,
                            y == -1,
                    ;
                }
            }
            if x == i64::MIN && y == -1 {
                Some(0)
            } else {
                x.checked_rem(y)
            }
        },
        Arith::Pow => {
            if y < 0 {
                return Ok(
                    Computed::Host(
                        RealRequest::FromInteger(x),
                        Pending::Operand { depth: 1, resume },
                    ),
                );
            }
            if y > 0xFFFF_FFFF {
                proof {
                    lemma_power_of_unit(x as int, y as nat);
                    lemma_power_is_large(x as int, y as nat);
                }
                if x == 0 || x == 1 {
                    Some(x)
                } else if x == -1 {
                    if y % 2 == 0 {
                        Some(1)
                    } else {
                        Some(-1)
                    }
                } else {
                    None
                }
            } else {
                checked_pow(x, y as u32)
            }
        },
    };
    match outcome {
        Some(i) => Ok(Computed::Done(Value::Integer(i))),
        None => Err(RuntimeError::ArithmeticOverflow),
    }
}

/// Applies an arithmetic instruction to two operands. `resume` is where the
/// instruction starts, for the case that an operand must first be converted.
pub fn arithmetic(op: Arith, a: &Value, b: &Value, resume: usize) -> (r: RuntimeResult<Computed>)
    ensures
        arithmetic_case(op, a@, b@, r),
        r matches Ok(Computed::Host(_, Pending::Operand { depth: _, resume: at })) ==> at
            == resume,
{
    let text = match op {
        Arith::Add => "compatible types",
        _ => "numeric types",
    };
    let divides = match op {
        Arith::Div | Arith::Mod => true,
        _ => false,
    };
    match (a, b) {
        (Value::Integer(x), Value::Integer(y)) => integer_arithmetic(op, *x, *y, resume),
        (Value::Real(x), Value::Real(y)) => {
            if divides && y.zero() {
                return Err(RuntimeError::DivisionByZero);
            }
            let real_op = match op {
                Arith::Add => RealOp::Add,
                Arith::Sub => RealOp::Sub,
                Arith::Mul => RealOp::Mul,
                Arith::Div => RealOp::Div,
                Arith::Mod => RealOp::Rem,
                Arith::Pow => RealOp::Power,
            };
            Ok(
                Computed::Host(
                    RealRequest::Arithmetic(real_op, *x, *y),
                    Pending::Outcome { pops: 2 },
                ),
            )
        },
        (Value::Integer(x), Value::Real(y)) => {
            if divides && y.zero() {
                return Err(RuntimeError::DivisionByZero);
            }
            Ok(Computed::Host(RealRequest::FromInteger(*x), Pending::Operand { depth: 1, resume }))
        },
        (Value::Real(x), Value::Integer(y)) => {
            if divides && *y == 0 {
                return Err(RuntimeError::DivisionByZero);
            }
            match op {
                Arith::Pow => {
                    if -0x8000_0000 <= *y && *y <= 0x7FFF_FFFF {
                        return Ok(
                            Computed::Host(
                                RealRequest::PowerInteger(*x, *y as i32),
                                Pending::Outcome { pops: 2 },
                            ),
                        );
                    }
                },
                _ => {},
            }
            Ok(Computed::Host(RealRequest::FromInteger(*y), Pending::Operand { depth: 0, resume }))
        },
        (Value::String(x), Value::String(y)) => {
            match op {
                Arith::Add => Ok(Computed::Done(Value::String(concat(x.as_str(), y.as_str())))),
                _ => Err(mismatch(text, a, b)),
            }
        },
        _ => Err(mismatch(text, a, b)),
    }
}

/// What negation makes of a value: an integer is negated where the result
/// fits, a real has its sign flipped, and nothing else can be negated.
pub open spec fn negation_case(a: ValueView, r: RuntimeResult<Value>) -> bool {
    match a {
        ValueView::Integer(x) => if x == i64::MIN {
            r matches Err(RuntimeError::ArithmeticOverflow)
        } else {
            r matches Ok(Value::Integer(i)) && i == -x
        },
        ValueView::Real(x) => r matches Ok(Value::Real(y)) && y.magnitude() == x.magnitude()
            && y.is_negative() == !x.is_negative(),
        _ => r matches Err(e) && is_mismatch_of(e, "numeric"@, a),
    }
}

/// Negate a value.
pub fn negate(a: &Value) -> (r: RuntimeResult<Value>)
    ensures
        negation_case(a@, r),
{
    match a {
        Value::Integer(x) => {
            if *x == i64::MIN {
                Err(RuntimeError::ArithmeticOverflow)
            } else {
                Ok(Value::Integer(-*x))
            }
        },
        Value::Real(x) => Ok(Value::Real(x.negated())),
        _ => Err(mismatch_of("numeric", a)),
    }
}

/// What `Inc` (with `delta` 1) and `Dec` (with `delta` -1) make of a value:
/// an integer moves by one where the result fits, and for a real the host
/// adds or subtracts 1.0.
pub open spec fn increment_case(a: ValueView, delta: int, r: RuntimeResult<Computed>) -> bool {
    match a {
        ValueView::Integer(x) => if i64::MIN <= x + delta <= i64::MAX {
            r matches Ok(Computed::Done(Value::Integer(i))) && i == x + delta
        } else {
            r matches Err(RuntimeError::ArithmeticOverflow)
        },
        ValueView::Real(x) => r matches Ok(
            Computed::Host(RealRequest::Arithmetic(op, y, one), Pending::Outcome { pops: 1 }),
        ) && y == x && one.bits == crate::number::ONE_BITS && op == (if delta > 0 {
            RealOp::Add
        } else {
            RealOp::Sub
        }),
        _ => r matches Err(e) && is_mismatch_of(e, "numeric"@, a),
    }
}

/// Moves a number up by one, or down by one.
pub fn step_by_one(a: &Value, up: bool) -> (r: RuntimeResult<Computed>)
    ensures
        increment_case(
            a@,
            if up {
                1
            } else {
                -1
            },
            r,
        ),
{
    match a {
        Value::Integer(x) => {
            let moved = if up {
                x.checked_add(1)
            } else {
                x.checked_sub(1)
            };
            match moved {
                Some(i) => Ok(Computed::Done(Value::Integer(i))),
                None => Err(RuntimeError::ArithmeticOverflow),
            }
        },
        Value::Real(x) => {
            let op = if up {
                RealOp::Add
            } else {
                RealOp::Sub
            };
            Ok(
                Computed::Host(
                    RealRequest::Arithmetic(op, *x, Real { bits: crate::number::ONE_BITS }),
                    Pending::Outcome { pops: 1 },
                ),
            )
        },
        _ => Err(mismatch_of("numeric", a)),
    }
}

/// Comparison of two values by `less than`: numbers by their order, strings
/// lexicographically by code point. An integer met with a real is first made
/// a real. Values of other types, or of different types, do not compare.
pub open spec fn less_case(a: ValueView, b: ValueView, r: RuntimeResult<Computed>) -> bool {
    match (a, b) {
        (ValueView::Integer(x), ValueView::Integer(y)) => r matches Ok(
            Computed::Done(Value::Boolean(t)),
        ) && t == (x < y),
        (ValueView::Real(x), ValueView::Real(y)) => r matches Ok(
            Computed::Done(Value::Boolean(t)),
        ) && t == x.ieee_lt(y),
        (ValueView::Integer(x), ValueView::Real(_)) => r matches Ok(
            Computed::Host(RealRequest::FromInteger(i), Pending::Operand { depth: 1, resume: _ }),
        ) && i == x,
        (ValueView::Real(_), ValueView::Integer(y)) => r matches Ok(
            Computed::Host(RealRequest::FromInteger(i), Pending::Operand { depth: 0, resume: _ }),
        ) && i == y,
        (ValueView::String(x), ValueView::String(y)) => r matches Ok(
            Computed::Done(Value::Boolean(t)),
        ) && t == text_lt(x, y),
        _ => r matches Err(e) && is_mismatch(e, "comparable types"@, a, b),
    }
}

/// Compare two values (less than). `resume` is where the instruction starts.
pub fn compare_less(a: &Value, b: &Value, resume: usize) -> (r: RuntimeResult<Computed>)
    ensures
        less_case(a@, b@, r),
        r matches Ok(Computed::Host(_, Pending::Operand { depth: _, resume: at })) ==> at
            == resume,
{
    match (a, b) {
        (Value::Integer(x), Value::Integer(y)) => Ok(Computed::Done(Value::Boolean(*x < *y))),
        (Value::Real(x), Value::Real(y)) => Ok(Computed::Done(Value::Boolean(x.less_than(y)))),
        (Value::Integer(x), Value::Real(_)) => Ok(
            Computed::Host(RealRequest::FromInteger(*x), Pending::Operand { depth: 1, resume }),
        ),
        (Value::Real(_), Value::Integer(y)) => Ok(
            Computed::Host(RealRequest::FromInteger(*y), Pending::Operand { depth: 0, resume }),
        ),
        (Value::String(x), Value::String(y)) => Ok(
            Computed::Done(Value::Boolean(str_lt(x.as_str(), y.as_str()))),
        ),
        _ => Err(mismatch("comparable types", a, b)),
    }
}


// ---------------------------------------------------------------------------
// Arrays
// ---------------------------------------------------------------------------

/// The position that an index denotes in an array of `len` items: a negative
/// index counts from the end.
pub open spec fn wrapped_index(index: i64, len: nat) -> int {
    if index < 0 {
        len + index
    } else {
        index as int
    }
}

/// `e` reports the position `at` as lying outside an array of `len` items.
pub open spec fn is_out_of_bounds(e: RuntimeError, at: int, len: nat) -> bool {
    e matches RuntimeError::IndexOutOfBounds { index, length } && index == at && length == len
}

/// The position that an index denotes in an array of `len` items, or the
/// error that reports it as out of bounds.
pub fn locate(index: i64, len: usize) -> (r: Result<usize, RuntimeError>)
    ensures
        match r {
            Ok(at) => at == wrapped_index(index, len as nat) && at < len,
            Err(e) => is_out_of_bounds(e, wrapped_index(index, len as nat), len as nat) && !(0
                <= wrapped_index(index, len as nat) < len),
        },
{
    if index < 0 {
        let back: u64 = if index == i64::MIN {
            0x8000_0000_0000_0000
        } else {
            (-index) as u64
        };
        if back > len as u64 {
            let short: u64 = back - len as u64;
            let at: i64 = if short == 0x8000_0000_0000_0000 {
                i64::MIN
            } else {
                -(short as i64)
            };
            Err(RuntimeError::IndexOutOfBounds { index: at, length: len })
        } else {
            let at: usize = len - back as usize;
            if at >= len {
                Err(RuntimeError::IndexOutOfBounds { index: at as i64, length: len })
            } else {
                Ok(at)
            }
        }
    } else {
        if index as u64 >= len as u64 {
            Err(RuntimeError::IndexOutOfBounds { index, length: len })
        } else {
            Ok(index as usize)
        }
    }
}

/// A count as an integer value; counts beyond the integer range, which no
/// machine can hold, are given as the largest integer.
pub open spec fn count_of(n: nat) -> i64 {
    if n > i64::MAX {
        i64::MAX
    } else {
        n as i64
    }
}

pub fn count(n: usize) -> (r: i64)
    ensures
        r == count_of(n as nat),
{
    if n as u64 > 0x7fff_ffff_ffff_ffff {
        i64::MAX
    } else {
        n as i64
    }
}

pub open spec fn array_get_case(a: ValueView, i: ValueView, r: RuntimeResult<Value>) -> bool {
    match (a, i) {
        (ValueView::Array(items), ValueView::Integer(index)) => {
            let at = wrapped_index(index, items.len());
            if 0 <= at < items.len() {
                r matches Ok(v) && v@ == items[at]
            } else {
                r matches Err(e) && is_out_of_bounds(e, at, items.len())
            }
        },
        _ => r matches Err(e) && is_mismatch(e, "array and integer index"@, a, i),
    }
}

/// The item of an array at an index.
pub fn array_get(array: &Value, index: &Value) -> (r: RuntimeResult<Value>)
    ensures
        array_get_case(array@, index@, r),
{
    match (array, index) {
        (Value::Array(items), Value::Integer(i)) => {
            match locate(*i, items.len()) {
                Ok(at) => Ok(items[at].clone()),
                Err(e) => Err(e),
            }
        },
        _ => Err(mismatch("array and integer index", array, index)),
    }
}

pub open spec fn array_set_case(
    a: ValueView,
    i: ValueView,
    value: ValueView,
    r: RuntimeResult<Value>,
) -> bool {
    match (a, i) {
        (ValueView::Array(items), ValueView::Integer(index)) => {
            let at = wrapped_index(index, items.len());
            if 0 <= at < items.len() {
                r matches Ok(v) && v@ == ValueView::Array(items.update(at, value))
            } else {
                r matches Err(e) && is_out_of_bounds(e, at, items.len())
            }
        },
        _ => r matches Err(e) && is_mismatch(e, "array and integer index"@, a, i),
    }
}

/// The array with the item at an index replaced.
pub fn array_set(array: Value, index: &Value, value: Value) -> (r: RuntimeResult<Value>)
    ensures
        array_set_case(array@, index@, value@, r),
{
    match (array, index) {
        (Value::Array(items), Value::Integer(i)) => {
            let mut items = items;
            let ghost before = views_of(items@);
            match locate(*i, items.len()) {
                Ok(at) => {
                    items[at] = value;
                    proof {
                        assert(views_of(items@) =~= before.update(at as int, value@));
                    }
                    Ok(Value::Array(items))
                },
                Err(e) => Err(e),
            }
        },
        (array, _) => Err(mismatch("array and integer index", &array, index)),
    }
}

pub open spec fn array_len_case(a: ValueView, r: RuntimeResult<Value>) -> bool {
    match a {
        ValueView::Array(items) => r matches Ok(Value::Integer(n)) && n == count_of(items.len()),
        ValueView::String(s) => r matches Ok(Value::Integer(n)) && n == count_of(s.len()),
        _ => r matches Err(e) && is_mismatch_of(e, "array or string"@, a),
    }
}

/// The number of items of an array, or of characters of a string.
pub fn array_len(array: &Value) -> (r: RuntimeResult<Value>)
    ensures
        array_len_case(array@, r),
{
    match array {
        Value::Array(items) => Ok(Value::Integer(count(items.len()))),
        Value::String(s) => {
            let n = chars_of(s.as_str()).len();
            Ok(Value::Integer(count(n)))
        },
        _ => Err(mismatch_of("array or string", array)),
    }
}

pub open spec fn array_push_case(a: ValueView, value: ValueView, r: RuntimeResult<Value>) -> bool {
    match a {
        ValueView::Array(items) => r matches Ok(v) && v@ == ValueView::Array(items.push(value)),
        _ => r matches Err(e) && is_mismatch_of(e, "array"@, a),
    }
}

/// The array with one more item at its end.
pub fn array_push(array: Value, value: Value) -> (r: RuntimeResult<Value>)
    ensures
        array_push_case(array@, value@, r),
{
    match array {
        Value::Array(items) => {
            let mut items = items;
            proof {
                lemma_views_of_push(items@, value);
            }
            items.push(value);
            Ok(Value::Array(items))
        },
        other => Err(mismatch_of("array", &other)),
    }
}

// ---------------------------------------------------------------------------
// Maps
// ---------------------------------------------------------------------------

/// `at` is the first entry of `entries` whose key is the same as `key`.
pub open spec fn first_match(
    entries: Seq<(ValueView, ValueView)>,
    key: ValueView,
    at: int,
) -> bool {
    &&& 0 <= at < entries.len()
    &&& entries[at].0.same(key)
    &&& forall|j: int| 0 <= j < at ==> !(#[trigger] entries[j]).0.same(key)
}

/// No entry of `entries` has a key that is the same as `key`.
pub open spec fn no_match(entries: Seq<(ValueView, ValueView)>, key: ValueView) -> bool {
    forall|j: int| 0 <= j < entries.len() ==> !(#[trigger] entries[j]).0.same(key)
}

/// The entries whose key is not the same as `key`, in their order.
pub open spec fn without_key(
    entries: Seq<(ValueView, ValueView)>,
    key: ValueView,
) -> Seq<(ValueView, ValueView)>
    decreases entries.len(),
{
    if entries.len() == 0 {
        entries
    } else if entries.last().0.same(key) {
        without_key(entries.drop_last(), key)
    } else {
        without_key(entries.drop_last(), key).push(entries.last())
    }
}

/// The keys of the entries, in their order.
pub open spec fn keys_of(entries: Seq<(ValueView, ValueView)>) -> Seq<ValueView> {
    Seq::new(entries.len(), |i: int| entries[i].0)
}

/// The values of the entries, in their order.
pub open spec fn values_of(entries: Seq<(ValueView, ValueView)>) -> Seq<ValueView> {
    Seq::new(entries.len(), |i: int| entries[i].1)
}

/// The position of the first entry whose key is the same as `key`.
pub fn find_key(entries: &Vec<(Value, Value)>, key: &Value) -> (r: Option<usize>)
    ensures
        match r {
            Some(at) => first_match(entry_views_of(entries@), key@, at as int),
            None => no_match(entry_views_of(entries@), key@),
        },
{
    let mut i: usize = 0;
    while i < entries.len()
        invariant
            i <= entries.len(),
            forall|j: int| 0 <= j < i ==> !(#[trigger] entry_views_of(entries@)[j]).0.same(key@),
        decreases entries.len() - i,
    {
        if entries[i].0.equals(key) {
            return Some(i);
        }
        i += 1;
    }
    None
}

pub open spec fn map_get_case(m: ValueView, key: ValueView, r: RuntimeResult<Value>) -> bool {
    match m {
        ValueView::Mapping(entries) => if no_match(entries, key) {
            r matches Ok(Value::Null)
        } else {
            r matches Ok(v) && exists|at: int| #[trigger]
                first_match(entries, key, at) && v@ == entries[at].1
        },
        _ => r matches Err(e) && is_mismatch_of(e, "map"@, m),
    }
}

/// The value that a map holds under a key, or null where it holds none.
pub fn map_get(map: &Value, key: &Value) -> (r: RuntimeResult<Value>)
    ensures
        map_get_case(map@, key@, r),
{
    match map {
        Value::Mapping(entries) => {
            match find_key(entries, key) {
                Some(at) => {
                    let v = entries[at].1.clone();
                    proof {
                        assert(first_match(entry_views_of(entries@), key@, at as int));
                        assert(entry_views_of(entries@)[at as int].0.same(key@));
                    }
                    Ok(v)
                },
                None => Ok(Value::Null),
            }
        },
        _ => Err(mismatch_of("map", map)),
    }
}

pub open spec fn map_set_case(
    m: ValueView,
    key: ValueView,
    value: ValueView,
    r: RuntimeResult<Value>,
) -> bool {
    match m {
        ValueView::Mapping(entries) => if no_match(entries, key) {
            r matches Ok(v) && v@ == ValueView::Mapping(entries.push((key, value)))
        } else {
            r matches Ok(v) && exists|at: int| #[trigger]
                first_match(entries, key, at) && v@ == ValueView::Mapping(
                    entries.update(at, (key, value)),
                )
        },
        _ => r matches Err(e) && is_mismatch_of(e, "map"@, m),
    }
}

/// The map with `value` under `key`: an entry with the same key is replaced
/// where it stands, and a new entry goes to the end.
pub fn map_set(map: Value, key: Value, value: Value) -> (r: RuntimeResult<Value>)
    ensures
        map_set_case(map@, key@, value@, r),
{
    match map {
        Value::Mapping(entries) => {
            let mut entries = entries;
            let ghost before = entry_views_of(entries@);
            match find_key(&entries, &key) {
                Some(at) => {
                    entries[at] = (key, value);
                    proof {
                        assert(entry_views_of(entries@) =~= before.update(
                            at as int,
                            (key@, value@),
                        ));
                        assert(first_match(before, key@, at as int));
                    }
                    Ok(Value::Mapping(entries))
                },
                None => {
                    proof {
                        lemma_entry_views_of_push(entries@, (key, value));
                    }
                    entries.push((key, value));
                    Ok(Value::Mapping(entries))
                },
            }
        },
        other => Err(mismatch_of("map", &other)),
    }
}

pub open spec fn map_has_case(m: ValueView, key: ValueView, r: RuntimeResult<Value>) -> bool {
    match m {
        ValueView::Mapping(entries) => r matches Ok(Value::Boolean(b)) && b == !no_match(
            entries,
            key,
        ),
        _ => r matches Err(e) && is_mismatch_of(e, "map"@, m),
    }
}

/// Whether a map holds a value under a key.
pub fn map_has(map: &Value, key: &Value) -> (r: RuntimeResult<Value>)
    ensures
        map_has_case(map@, key@, r),
{
    match map {
        Value::Mapping(entries) => {
            match find_key(entries, key) {
                Some(at) => {
                    proof {
                        assert(entry_views_of(entries@)[at as int].0.same(key@));
                    }
                    Ok(Value::Boolean(true))
                },
                None => Ok(Value::Boolean(false)),
            }
        },
        _ => Err(mismatch_of("map", map)),
    }
}

pub open spec fn map_remove_case(m: ValueView, key: ValueView, r: RuntimeResult<Value>) -> bool {
    match m {
        ValueView::Mapping(entries) => r matches Ok(v) && v@ == ValueView::Mapping(
            without_key(entries, key),
        ),
        _ => r matches Err(e) && is_mismatch_of(e, "map"@, m),
    }
}

/// The map without the entries under a key; the others keep their order.
pub fn map_remove(map: &Value, key: &Value) -> (r: RuntimeResult<Value>)
    ensures
        map_remove_case(map@, key@, r),
{
    match map {
        Value::Mapping(entries) => {
            let mut kept: Vec<(Value, Value)> = Vec::new();
            let ghost all = entry_views_of(entries@);
            let mut i: usize = 0;
            while i < entries.len()
                invariant
                    i <= entries.len(),
                    all == entry_views_of(entries@),
                    entry_views_of(kept@) == without_key(all.take(i as int), key@),
                decreases entries.len() - i,
            {
                proof {
                    assert(all.take(i + 1).drop_last() =~= all.take(i as int));
                    assert(all.take(i + 1).last() == all[i as int]);
                }
                if !entries[i].0.equals(key) {
                    let k = entries[i].0.clone();
                    let v = entries[i].1.clone();
                    proof {
                        lemma_entry_views_of_push(kept@, (k, v));
                    }
                    kept.push((k, v));
                }
                i += 1;
            }
            proof {
                assert(all.take(i as int) =~= all);
            }
            Ok(Value::Mapping(kept))
        },
        _ => Err(mismatch_of("map", map)),
    }
}

pub open spec fn map_keys_case(m: ValueView, r: RuntimeResult<Value>) -> bool {
    match m {
        ValueView::Mapping(entries) => r matches Ok(v) && v@ == ValueView::Array(keys_of(entries)),
        _ => r matches Err(e) && is_mismatch_of(e, "map"@, m),
    }
}

pub open spec fn map_values_case(m: ValueView, r: RuntimeResult<Value>) -> bool {
    match m {
        ValueView::Mapping(entries) => r matches Ok(v) && v@ == ValueView::Array(
            values_of(entries),
        ),
        _ => r matches Err(e) && is_mismatch_of(e, "map"@, m),
    }
}

/// The keys of a map as an array, in insertion order.
pub fn map_keys(map: &Value) -> (r: RuntimeResult<Value>)
    ensures
        map_keys_case(map@, r),
{
    match map {
        Value::Mapping(entries) => {
            let mut keys: Vec<Value> = Vec::new();
            let mut i: usize = 0;
            while i < entries.len()
                invariant
                    i <= entries.len(),
                    views_of(keys@) == keys_of(entry_views_of(entries@)).take(i as int),
                decreases entries.len() - i,
            {
                let k = entries[i].0.clone();
                proof {
                    lemma_views_of_push(keys@, k);
                    assert(keys_of(entry_views_of(entries@)).take(i + 1) =~= keys_of(
                        entry_views_of(entries@),
                    ).take(i as int).push(k@));
                }
                keys.push(k);
                i += 1;
            }
            proof {
                assert(keys_of(entry_views_of(entries@)).take(i as int) =~= keys_of(
                    entry_views_of(entries@),
                ));
            }
            Ok(Value::Array(keys))
        },
        _ => Err(mismatch_of("map", map)),
    }
}

/// The values of a map as an array, in insertion order.
pub fn map_values(map: &Value) -> (r: RuntimeResult<Value>)
    ensures
        map_values_case(map@, r),
{
    match map {
        Value::Mapping(entries) => {
            let mut values: Vec<Value> = Vec::new();
            let mut i: usize = 0;
            while i < entries.len()
                invariant
                    i <= entries.len(),
                    views_of(values@) == values_of(entry_views_of(entries@)).take(i as int),
                decreases entries.len() - i,
            {
                let v = entries[i].1.clone();
                proof {
                    lemma_views_of_push(values@, v);
                    assert(values_of(entry_views_of(entries@)).take(i + 1) =~= values_of(
                        entry_views_of(entries@),
                    ).take(i as int).push(v@));
                }
                values.push(v);
                i += 1;
            }
            proof {
                assert(values_of(entry_views_of(entries@)).take(i as int) =~= values_of(
                    entry_views_of(entries@),
                ));
            }
            Ok(Value::Array(values))
        },
        _ => Err(mismatch_of("map", map)),
    }
}

/// The entries that a run of values makes, two by two: key, then value.
pub open spec fn paired(values: Seq<ValueView>) -> Seq<(ValueView, ValueView)> {
    Seq::new(values.len() / 2, |i: int| (values[2 * i], values[2 * i + 1]))
}

/// Makes a map of keys and values that alternate.
pub fn make_map(values: &Vec<Value>) -> (r: Value)
    requires
        values@.len() % 2 == 0,
    ensures
        r@ == ValueView::Mapping(paired(views_of(values@))),
{
    let mut entries: Vec<(Value, Value)> = Vec::new();
    let n = values.len() / 2;
    let mut i: usize = 0;
    while i < n
        invariant
            i <= n,
            n == values@.len() / 2,
            values@.len() % 2 == 0,
            values@.len() == 2 * n,
            values@.len() <= usize::MAX,
            entry_views_of(entries@) == paired(views_of(values@)).take(i as int),
        decreases n - i,
    {
        let k = values[2 * i].clone();
        let v = values[2 * i + 1].clone();
        proof {
            lemma_entry_views_of_push(entries@, (k, v));
            assert(paired(views_of(values@)).take(i + 1) =~= paired(views_of(values@)).take(
                i as int,
            ).push((k@, v@)));
        }
        entries.push((k, v));
        i += 1;
    }
    proof {
        assert(paired(views_of(values@)).take(i as int) =~= paired(views_of(values@)));
    }
    Value::Mapping(entries)
}

// ---------------------------------------------------------------------------
// Conversion, input and text
// ---------------------------------------------------------------------------

/// The request of a conversion, with the operand on top of the stack as the
/// place of the answer.
pub open spec fn asks_for_operand(r: RuntimeResult<Computed>, request: RealRequest) -> bool {
    r matches Ok(Computed::Host(q, Pending::Operand { depth: 0, resume: _ })) && q == request
}

/// What a conversion makes of a value.
pub open spec fn conversion_case(
    value: ValueView,
    target: ValueType,
    r: RuntimeResult<Computed>,
) -> bool {
    match target {
        ValueType::Integer => match value {
            ValueView::Integer(i) => r matches Ok(Computed::Done(Value::Integer(j))) && j == i,
            ValueView::Real(x) => asks_for_operand(r, RealRequest::ToInteger(x)),
            ValueView::Boolean(b) => r matches Ok(Computed::Done(Value::Integer(j))) && j == (if b {
                1i64
            } else {
                0i64
            }),
            ValueView::String(s) => match parsed_integer(s) {
                Some(i) => r matches Ok(Computed::Done(Value::Integer(j))) && j == i,
                None => r matches Err(e) && is_mismatch_of(e, "integer"@, value),
            },
            _ => r matches Err(e) && is_mismatch_of(e, "integer"@, value),
        },
        ValueType::Real => match value {
            ValueView::Integer(i) => asks_for_operand(r, RealRequest::FromInteger(i)),
            ValueView::Real(x) => r matches Ok(Computed::Done(Value::Real(y))) && y == x,
            ValueView::Boolean(b) => r matches Ok(Computed::Done(Value::Real(y))) && y.bits == (
            if b {
                crate::number::ONE_BITS
            } else {
                0
            }),
            ValueView::String(s) => r matches Ok(
                Computed::Host(RealRequest::Parse(t), Pending::Operand { depth: 0, resume: _ }),
            ) && t@ == s,
            _ => r matches Err(e) && is_mismatch_of(e, "real"@, value),
        },
        ValueType::String => match value {
            ValueView::Real(x) => asks_for_operand(r, RealRequest::ToText(x)),
            _ => r matches Ok(Computed::Done(Value::String(s))) && s@ == value.display(),
        },
        ValueType::Boolean => r matches Ok(Computed::Done(Value::Boolean(b))) && b
            == value.truthy(),
        _ => r matches Err(e) && is_mismatch_of(e, target.glyph_text(), value),
    }
}

/// Convert a value to another type. `resume` is where the instruction
/// starts.
pub fn convert_value(value: &Value, target: ValueType, resume: usize) -> (r: RuntimeResult<
    Computed,
>)
    ensures
        conversion_case(value@, target, r),
        r matches Ok(Computed::Host(_, Pending::Operand { depth: _, resume: at })) ==> at
            == resume,
{
    match target {
        ValueType::Integer => match value.to_integer() {
            Answer::Ready(Some(i)) => Ok(Computed::Done(Value::Integer(i))),
            Answer::Ready(None) => Err(mismatch_of("integer", value)),
            Answer::Ask(request) => Ok(
                Computed::Host(request, Pending::Operand { depth: 0, resume }),
            ),
        },
        ValueType::Real => match value.to_real() {
            Answer::Ready(Some(x)) => Ok(Computed::Done(Value::Real(x))),
            Answer::Ready(None) => Err(mismatch_of("real", value)),
            Answer::Ask(request) => Ok(
                Computed::Host(request, Pending::Operand { depth: 0, resume }),
            ),
        },
        ValueType::String => match value.to_string_value() {
            Answer::Ready(s) => Ok(Computed::Done(Value::String(s))),
            Answer::Ask(request) => Ok(
                Computed::Host(request, Pending::Operand { depth: 0, resume }),
            ),
        },
        ValueType::Boolean => Ok(Computed::Done(Value::Boolean(value.is_truthy()))),
        _ => {
            let expected = target.glyph();
            Err(mismatch_of(expected.as_str(), value))
        },
    }
}

/// `e` says that a line of input is no value of the type asked for.
pub open spec fn is_invalid_input(e: RuntimeError, message: Seq<char>) -> bool {
    e matches RuntimeError::InvalidInput(m) && m@ == message
}

/// The words for true and for false that a boolean input may use, after it
/// was put in lower case.
pub open spec fn reads_true(s: Seq<char>) -> bool {
    s == "true"@ || s == "◉"@ || s == "1"@ || s == "yes"@
}

pub open spec fn reads_false(s: Seq<char>) -> bool {
    s == "false"@ || s == "◎"@ || s == "0"@ || s == "no"@
}

/// What a line of input denotes for a variable of a type.
pub open spec fn input_case(
    input: Seq<char>,
    var_type: ValueType,
    r: RuntimeResult<Answer<Value>>,
) -> bool {
    match var_type {
        ValueType::Integer => match parsed_integer(input) {
            Some(i) => r matches Ok(Answer::Ready(Value::Integer(j))) && j == i,
            None => r matches Err(e) && is_invalid_input(
                e,
                "Expected integer, got '"@ + input + "'"@,
            ),
        },
        ValueType::Real => r matches Ok(Answer::Ask(RealRequest::Parse(t))) && t@ == input,
        ValueType::String => r matches Ok(Answer::Ready(Value::String(s))) && s@ == input,
        ValueType::Boolean => if reads_true(lowercase_of(input)) {
            r matches Ok(Answer::Ready(Value::Boolean(true)))
        } else if reads_false(lowercase_of(input)) {
            r matches Ok(Answer::Ready(Value::Boolean(false)))
        } else {
            r matches Err(e) && is_invalid_input(e, "Expected boolean, got '"@ + input + "'"@)
        },
        ValueType::Rune => if input.len() > 0 {
            r matches Ok(Answer::Ready(Value::Rune(c))) && c == input[0]
        } else {
            r matches Err(e) && is_invalid_input(e, "Expected a character"@)
        },
        _ => r matches Err(e) && is_invalid_input(
            e,
            "Cannot input type "@ + var_type.glyph_text(),
        ),
    }
}

/// Parse input string to a value of the given type. A real is handed to the
/// host.
pub fn parse_input(input: &str, var_type: ValueType) -> (r: RuntimeResult<Answer<Value>>)
    ensures
        input_case(input@, var_type, r),
{
    match var_type {
        ValueType::Integer => match parse_integer(input) {
            Some(i) => Ok(Answer::Ready(Value::Integer(i))),
            None => Err(
                RuntimeError::InvalidInput(
                    concat(concat("Expected integer, got '", input).as_str(), "'"),
                ),
            ),
        },
        ValueType::Real => Ok(Answer::Ask(RealRequest::Parse(String::from_str(input)))),
        ValueType::String => Ok(Answer::Ready(Value::String(String::from_str(input)))),
        ValueType::Boolean => {
            let lower = to_lowercase(input);
            let l = lower.as_str();
            if str_eq(l, "true") || str_eq(l, "◉") || str_eq(l, "1") || str_eq(l, "yes") {
                Ok(Answer::Ready(Value::Boolean(true)))
            } else if str_eq(l, "false") || str_eq(l, "◎") || str_eq(l, "0") || str_eq(l, "no") {
                Ok(Answer::Ready(Value::Boolean(false)))
            } else {
                Err(
                    RuntimeError::InvalidInput(
                        concat(concat("Expected boolean, got '", input).as_str(), "'"),
                    ),
                )
            }
        },
        ValueType::Rune => {
            let chars = chars_of(input);
            if chars.len() > 0 {
                Ok(Answer::Ready(Value::Rune(chars[0])))
            } else {
                Err(RuntimeError::InvalidInput(String::from_str("Expected a character")))
            }
        },
        _ => {
            let glyph = var_type.glyph();
            Err(RuntimeError::InvalidInput(concat("Cannot input type ", glyph.as_str())))
        },
    }
}

/// What concatenation makes of two values: the text of their display forms,
/// once the host has given that of each real operand.
pub open spec fn concat_case(a: ValueView, b: ValueView, r: Computed) -> bool {
    if a is Real {
        r matches Computed::Host(RealRequest::ToText(y), Pending::Operand { depth: 1, resume: _ })
            && a == ValueView::Real(y)
    } else if b is Real {
        r matches Computed::Host(RealRequest::ToText(y), Pending::Operand { depth: 0, resume: _ })
            && b == ValueView::Real(y)
    } else {
        r matches Computed::Done(Value::String(s)) && s@ == a.display() + b.display()
    }
}

/// Concatenates the display forms of two values.
pub fn concat_values(a: &Value, b: &Value, resume: usize) -> (r: Computed)
    ensures
        concat_case(a@, b@, r),
        r matches Computed::Host(_, Pending::Operand { depth: _, resume: at }) ==> at == resume,
{
    match a.to_string_value() {
        Answer::Ask(request) => Computed::Host(request, Pending::Operand { depth: 1, resume }),
        Answer::Ready(left) => match b.to_string_value() {
            Answer::Ask(request) => Computed::Host(request, Pending::Operand { depth: 0, resume }),
            Answer::Ready(right) => Computed::Done(
                Value::String(concat(left.as_str(), right.as_str())),
            ),
        },
    }
}

/// The placeholder that stands for the value of position `i` in a template.
pub open spec fn placeholder(i: nat) -> Seq<char> {
    "{"@ + decimal_of(i as int) + "}"@
}

/// The template with the placeholders of the first `k` values filled in, one
/// value after the other.
pub open spec fn interpolated(template: Seq<char>, values: Seq<ValueView>, k: nat) -> Seq<char>
    decreases k,
{
    if k == 0 {
        template
    } else {
        replaced(
            interpolated(template, values, (k - 1) as nat),
            placeholder((k - 1) as nat),
            values[k - 1].display(),
        )
    }
}

/// `at` is the first real among `values`.
pub open spec fn first_real(values: Seq<ValueView>, at: int) -> bool {
    &&& 0 <= at < values.len()
    &&& values[at] is Real
    &&& forall|j: int| 0 <= j < at ==> !((#[trigger] values[j]) is Real)
}

pub open spec fn no_real(values: Seq<ValueView>) -> bool {
    forall|j: int| 0 <= j < values.len() ==> !((#[trigger] values[j]) is Real)
}

/// What interpolation makes of a template and the values for it, which lie
/// on the stack with the last on top.
pub open spec fn interpolation_case(
    template: Seq<char>,
    values: Seq<ValueView>,
    r: Computed,
) -> bool {
    if no_real(values) {
        r matches Computed::Done(Value::String(s)) && s@ == interpolated(
            template,
            values,
            values.len(),
        )
    } else {
        r matches Computed::Host(RealRequest::ToText(x), Pending::Operand { depth, resume: _ })
            && exists|at: int| #[trigger]
            first_real(values, at) && values[at] == ValueView::Real(x) && depth == values.len() - 1
                - at
    }
}

/// Fills the placeholders `{0}`, `{1}`, ... of a template with the display
/// forms of the values `stack[from..]`.
pub fn interpolate(template: &str, stack: &Vec<Value>, from: usize, resume: usize) -> (r: Computed)
    requires
        from <= stack@.len(),
    ensures
        interpolation_case(template@, views_of(stack@).skip(from as int), r),
        r matches Computed::Host(_, Pending::Operand { depth: _, resume: at }) ==> at == resume,
{
    let n = stack.len() - from;
    let ghost values = views_of(stack@).skip(from as int);
    let mut i: usize = 0;
    while i < n
        invariant
            i <= n,
            from <= stack@.len(),
            n == stack@.len() - from,
            stack@.len() <= usize::MAX,
            values == views_of(stack@).skip(from as int),
            forall|j: int| 0 <= j < i ==> !((#[trigger] values[j]) is Real),
        decreases n - i,
    {
        match &stack[from + i] {
            Value::Real(x) => {
                proof {
                    assert(values[i as int] == stack@[from + i]@);
                    assert(first_real(values, i as int));
                }
                return Computed::Host(
                    RealRequest::ToText(*x),
                    Pending::Operand { depth: n - 1 - i, resume },
                );
            },
            _ => {
                proof {
                    assert(values[i as int] == stack@[from + i]@);
                }
            },
        }
        i += 1;
    }
    let mut result = String::from_str(template);
    let mut k: usize = 0;
    while k < n
        invariant
            k <= n,
            from <= stack@.len(),
            n == stack@.len() - from,
            stack@.len() <= usize::MAX,
            values == views_of(stack@).skip(from as int),
            no_real(values),
            result@ == interpolated(template@, values, k as nat),
        decreases n - k,
    {
        let number = unsigned_to_string(k as u64);
        let hole = concat(concat("{", number.as_str()).as_str(), "}");
        proof {
            assert(values[k as int] == stack@[from + k]@);
            assert(!(values[k as int] is Real));
        }
        match stack[from + k].to_string_value() {
            Answer::Ready(text) => {
                result = replace_all(result.as_str(), hole.as_str(), text.as_str());
            },
            Answer::Ask(_) => {},
        }
        k += 1;
    }
    Computed::Done(Value::String(result))
}

} // verus!
