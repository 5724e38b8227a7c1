//! Arithmetic and comparison on the constants of the machine.
use crate::lox::number::{
    difference_bits, equal, is_zero, product_bits, quotient_bits, sum_bits, Number,
};
use crate::vm::chunk::Constant;
use vstd::prelude::*;

verus! {

/// Values on which the four arithmetic operations are defined. What the
/// operations give is the affair of the type: its `sum`, `difference`,
/// `product` and `quotient` say it.
pub trait ArithmeticOps: Sized {
    /// Whether the operations are defined on these two operands.
    open spec fn operands(self, other: Self) -> bool {
        true
    }

    /// Whether `other` may divide.
    open spec fn divides(other: Self) -> bool {
        true
    }

    /// The sum of two operands.
    open spec fn sum(self, other: Self) -> Self {
        arbitrary()
    }

    /// The difference of two operands.
    open spec fn difference(self, other: Self) -> Self {
        arbitrary()
    }

    /// The product of two operands.
    open spec fn product(self, other: Self) -> Self {
        arbitrary()
    }

    /// The quotient of two operands.
    open spec fn quotient(self, other: Self) -> Self {
        arbitrary()
    }

    fn add(self, other: Self) -> (r: Self)
        requires
            self.operands(other),
        ensures
            r == self.sum(other),
    ;

    fn subtract(self, other: Self) -> (r: Self)
        requires
            self.operands(other),
        ensures
            r == self.difference(other),
    ;

    fn multiply(self, other: Self) -> (r: Self)
        requires
            self.operands(other),
        ensures
            r == self.product(other),
    ;

    fn divide(self, other: Self) -> (r: Self)
        requires
            self.operands(other),
            Self::divides(other),
        ensures
            r == self.quotient(other),
    ;
}

/// Values that can be compared with a number.
pub trait Comparable {
    /// Whether the value equals the number.
    open spec fn same(&self, other: Number) -> bool {
        arbitrary()
    }

    fn equals(&self, other: Number) -> (r: bool)
        ensures
            r == self.same(other),
    ;
}

/// The bits of a constant that is a number.
pub open spec fn bits_of(c: Constant) -> u64 {
    match c {
        Constant::Number(n) => n.bits,
        _ => 0,
    }
}

impl ArithmeticOps for Constant {
    open spec fn operands(self, other: Self) -> bool {
        self is Number && other is Number
    }

    open spec fn divides(other: Self) -> bool {
        !is_zero(bits_of(other))
    }

    open spec fn sum(self, other: Self) -> Self {
        Constant::Number(Number { bits: sum_bits(bits_of(self), bits_of(other)) })
    }

    open spec fn difference(self, other: Self) -> Self {
        Constant::Number(Number { bits: difference_bits(bits_of(self), bits_of(other)) })
    }

    open spec fn product(self, other: Self) -> Self {
        Constant::Number(Number { bits: product_bits(bits_of(self), bits_of(other)) })
    }

    open spec fn quotient(self, other: Self) -> Self {
        Constant::Number(Number { bits: quotient_bits(bits_of(self), bits_of(other)) })
    }

    fn add(self, other: Self) -> (r: Self) {
        match (self, other) {
            (Constant::Number(a), Constant::Number(b)) => Constant::Number(a.plus(b)),
            _ => Constant::Number(Number { bits: 0 }),
        }
    }

    fn subtract(self, other: Self) -> (r: Self) {
        match (self, other) {
            (Constant::Number(a), Constant::Number(b)) => Constant::Number(a.minus(b)),
            _ => Constant::Number(Number { bits: 0 }),
        }
    }

    fn multiply(self, other: Self) -> (r: Self) {
        match (self, other) {
            (Constant::Number(a), Constant::Number(b)) => Constant::Number(a.times(b)),
            _ => Constant::Number(Number { bits: 0 }),
        }
    }

    fn divide(self, other: Self) -> (r: Self) {
        match (self, other) {
            (Constant::Number(a), Constant::Number(b)) => Constant::Number(a.divided_by(b)),
            _ => Constant::Number(Number { bits: 0 }),
        }
    }
}

impl Comparable for Constant {
    open spec fn same(&self, other: Number) -> bool {
        match self {
            Constant::Number(n) => equal(n.bits, other.bits),
            _ => false,
        }
    }

    fn equals(&self, other: Number) -> (r: bool) {
        match self {
            Constant::Number(n) => n.equals(other),
            _ => false,
        }
    }
}

} // verus!
