use vstd::prelude::*;

verus! {

/// A real number, held as the bit pattern of an IEEE-754 binary64.
///
/// The library never computes with reals: it only inspects the sign, the
/// magnitude and the special values, which are read off the bit pattern.
/// Arithmetic, conversion and formatting are asked of the host.
#[derive(Clone, Copy, Debug)]
pub struct Real {
    pub bits: u64,
}

pub const SIGN_BIT: u64 = 0x8000_0000_0000_0000;

pub const INFINITY_BITS: u64 = 0x7ff0_0000_0000_0000;

/// The bit pattern of 1.0.
pub const ONE_BITS: u64 = 0x3ff0_0000_0000_0000;

/// The operations with two real operands that the host computes.
#[derive(Clone, Copy, Debug, PartialEq, Eq, Structural)]
pub enum RealOp {
    Add,
    Sub,
    Mul,
    Div,
    Rem,
    Power,
}

/// A computation that the host's floating-point unit performs for the
/// library.
#[derive(Debug)]
pub enum RealRequest {
    /// The real nearest to an integer.
    FromInteger(i64),
    /// A real truncated toward zero, saturating at the ends of the integer
    /// range, with NaN taken to zero.
    ToInteger(Real),
    /// The shortest decimal text that reads back as the same real.
    ToText(Real),
    /// The real that a decimal text denotes, if it denotes one.
    Parse(String),
    /// An arithmetic operation on two reals.
    Arithmetic(RealOp, Real, Real),
    /// A real raised to an integer power.
    PowerInteger(Real, i32),
}

/// The host's answer to a [`RealRequest`].
#[derive(Debug)]
pub enum RealReply {
    /// Answers `FromInteger`, `Arithmetic`, `PowerInteger`, and a `Parse`
    /// that succeeded.
    Number(Real),
    /// Answers `ToInteger`.
    Integer(i64),
    /// Answers `ToText`.
    Text(String),
    /// Answers a `Parse` of a text that denotes no real.
    Invalid,
}

impl Real {
    /// The bit pattern with the sign cleared.
    pub open spec fn magnitude(self) -> int {
        if self.bits >= SIGN_BIT {
            self.bits - SIGN_BIT
        } else {
            self.bits as int
        }
    }

    pub open spec fn is_negative(self) -> bool {
        self.bits >= SIGN_BIT
    }

    /// Not a number: all exponent bits set and a non-zero fraction.
    pub open spec fn is_nan(self) -> bool {
        self.magnitude() > INFINITY_BITS
    }

    /// Positive or negative zero.
    pub open spec fn is_zero(self) -> bool {
        self.magnitude() == 0
    }

    /// IEEE equality: a NaN equals nothing, the two zeros equal each other.
    pub open spec fn ieee_eq(self, other: Real) -> bool {
        !self.is_nan() && !other.is_nan() && (self.bits == other.bits || (self.is_zero()
            && other.is_zero()))
    }

    /// IEEE ordering: false whenever a NaN is involved.
    pub open spec fn ieee_lt(self, other: Real) -> bool {
        if self.is_nan() || other.is_nan() {
            false
        } else if self.is_zero() && other.is_zero() {
            false
        } else if self.is_negative() != other.is_negative() {
            self.is_negative()
        } else if self.is_negative() {
            self.magnitude() > other.magnitude()
        } else {
            self.magnitude() < other.magnitude()
        }
    }

    pub fn from_bits(bits: u64) -> (r: Real)
        ensures
            r.bits == bits,
    {
        Real { bits }
    }

    pub fn to_bits(&self) -> (bits: u64)
        ensures
            bits == self.bits,
    {
        self.bits
    }

    fn abs_bits(&self) -> (m: u64)
        ensures
            m == self.magnitude(),
    {
        if self.bits >= SIGN_BIT {
            self.bits - SIGN_BIT
        } else {
            self.bits
        }
    }

    pub fn nan(&self) -> (b: bool)
        ensures
            b == self.is_nan(),
    {
        self.abs_bits() > INFINITY_BITS
    }

    pub fn zero(&self) -> (b: bool)
        ensures
            b == self.is_zero(),
    {
        self.abs_bits() == 0
    }

    pub fn negative(&self) -> (b: bool)
        ensures
            b == self.is_negative(),
    {
        self.bits >= SIGN_BIT
    }

    /// The number with its sign flipped, which is what IEEE negation does to
    /// every value, NaN included.
    pub fn negated(&self) -> (r: Real)
        ensures
            r.magnitude() == self.magnitude(),
            r.is_negative() == !self.is_negative(),
    {
        if self.bits >= SIGN_BIT {
            Real { bits: self.bits - SIGN_BIT }
        } else {
            Real { bits: self.bits + SIGN_BIT }
        }
    }

    pub fn equals(&self, other: &Real) -> (b: bool)
        ensures
            b == self.ieee_eq(*other),
    {
        !self.nan() && !other.nan() && (self.bits == other.bits || (self.zero() && other.zero()))
    }

    pub fn less_than(&self, other: &Real) -> (b: bool)
        ensures
            b == self.ieee_lt(*other),
    {
        if self.nan() || other.nan() {
            false
        } else if self.zero() && other.zero() {
            false
        } else if self.negative() != other.negative() {
            self.negative()
        } else if self.negative() {
            self.abs_bits() > other.abs_bits()
        } else {
            self.abs_bits() < other.abs_bits()
        }
    }
}

impl PartialEq for Real {
    fn eq(&self, other: &Real) -> (b: bool) {
        self.equals(other)
    }
}

impl vstd::std_specs::cmp::PartialEqSpecImpl for Real {
    open spec fn obeys_eq_spec() -> bool {
        true
    }

    open spec fn eq_spec(&self, other: &Real) -> bool {
        self.ieee_eq(*other)
    }
}

} // verus!
