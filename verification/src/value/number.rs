//! The numeric tower: 64-bit integers and doubles.

use crate::value::float::{
    float_add, float_div, float_from_int, float_mul, float_order, float_sub, ieee_add, ieee_div,
    ieee_from_int, ieee_mul, ieee_sub, order_of, FloatOrder,
};
use vstd::prelude::*;

verus! {

/// A number: an integer, or a double held as its bit pattern.
#[derive(Clone, Copy, Debug)]
pub enum Number {
    Int(i64),
    Float(u64),
}

impl From<i64> for Number {
    fn from(val: i64) -> (r: Number) {
        Number::Int(val)
    }
}

impl vstd::std_specs::convert::FromSpecImpl<i64> for Number {
    open spec fn obeys_from_spec() -> bool {
        true
    }

    open spec fn from_spec(val: i64) -> Number {
        Number::Int(val)
    }
}

impl Number {
    /// The bits of this number as a double: an integer is converted.
    pub open spec fn as_float(self) -> u64 {
        match self {
            Number::Int(i) => ieee_from_int(i),
            Number::Float(f) => f,
        }
    }

    /// The sum: two integers add with wrap-around, anything else as doubles.
    pub open spec fn sum(self, rhs: Number) -> Number {
        match (self, rhs) {
            (Number::Int(a), Number::Int(b)) => Number::Int(a.wrapping_add(b)),
            _ => Number::Float(ieee_add(self.as_float(), rhs.as_float())),
        }
    }

    /// The difference: two integers subtract with wrap-around, anything else as doubles.
    pub open spec fn difference(self, rhs: Number) -> Number {
        match (self, rhs) {
            (Number::Int(a), Number::Int(b)) => Number::Int(a.wrapping_sub(b)),
            _ => Number::Float(ieee_sub(self.as_float(), rhs.as_float())),
        }
    }

    /// The product: two integers multiply with wrap-around, anything else as doubles.
    pub open spec fn product(self, rhs: Number) -> Number {
        match (self, rhs) {
            (Number::Int(a), Number::Int(b)) => Number::Int(a.wrapping_mul(b)),
            _ => Number::Float(ieee_mul(self.as_float(), rhs.as_float())),
        }
    }

    /// The quotient, which is a double whatever the operands are.
    pub open spec fn quotient(self, rhs: Number) -> Number {
        Number::Float(ieee_div(self.as_float(), rhs.as_float()))
    }

    /// How this number compares with `rhs`: two integers as integers,
    /// anything else as doubles.
    pub open spec fn order(self, rhs: Number) -> FloatOrder {
        match (self, rhs) {
            (Number::Int(a), Number::Int(b)) => if a < b {
                FloatOrder::Less
            } else if a == b {
                FloatOrder::Equal
            } else {
                FloatOrder::Greater
            },
            _ => order_of(self.as_float(), rhs.as_float()),
        }
    }

    /// Converts to a double.
    pub fn to_float(self) -> (r: u64)
        ensures
            r == self.as_float(),
    {
        match self {
            Number::Int(i) => float_from_int(i),
            Number::Float(f) => f,
        }
    }

    /// Adds two numbers.
    pub fn add(self, rhs: Number) -> (r: Number)
        ensures
            r == self.sum(rhs),
    {
        match (self, rhs) {
            (Number::Int(a), Number::Int(b)) => Number::Int(a.wrapping_add(b)),
            _ => Number::Float(float_add(self.to_float(), rhs.to_float())),
        }
    }

    /// Subtracts `rhs` from this number.
    pub fn sub(self, rhs: Number) -> (r: Number)
        ensures
            r == self.difference(rhs),
    {
        match (self, rhs) {
            (Number::Int(a), Number::Int(b)) => Number::Int(a.wrapping_sub(b)),
            _ => Number::Float(float_sub(self.to_float(), rhs.to_float())),
        }
    }

    /// Multiplies two numbers.
    pub fn mul(self, rhs: Number) -> (r: Number)
        ensures
            r == self.product(rhs),
    {
        match (self, rhs) {
            (Number::Int(a), Number::Int(b)) => Number::Int(a.wrapping_mul(b)),
            _ => Number::Float(float_mul(self.to_float(), rhs.to_float())),
        }
    }

    /// Divides this number by `rhs`. The result is always a double.
    pub fn div(self, rhs: Number) -> (r: Number)
        ensures
            r == self.quotient(rhs),
            r is Float,
    {
        Number::Float(float_div(self.to_float(), rhs.to_float()))
    }

    /// Compares this number with `rhs`.
    pub fn compare(self, rhs: Number) -> (r: FloatOrder)
        ensures
            r == self.order(rhs),
    {
        match (self, rhs) {
            (Number::Int(a), Number::Int(b)) => if a < b {
                FloatOrder::Less
            } else if a == b {
                FloatOrder::Equal
            } else {
                FloatOrder::Greater
            },
            _ => float_order(self.to_float(), rhs.to_float()),
        }
    }

    /// Whether the two numbers are equal in the tower.
    pub fn equals(self, rhs: Number) -> (r: bool)
        ensures
            r == (self.order(rhs) == FloatOrder::Equal),
    {
        self.compare(rhs) == FloatOrder::Equal
    }

    /// Whether this number is less than `rhs`.
    pub fn lt(self, rhs: Number) -> (r: bool)
        ensures
            r == (self.order(rhs) == FloatOrder::Less),
    {
        self.compare(rhs) == FloatOrder::Less
    }

    /// Whether this number is less than or equal to `rhs`.
    pub fn le(self, rhs: Number) -> (r: bool)
        ensures
            r == (self.order(rhs) == FloatOrder::Less || self.order(rhs) == FloatOrder::Equal),
    {
        let o = self.compare(rhs);
        o == FloatOrder::Less || o == FloatOrder::Equal
    }

    /// Whether this number is greater than `rhs`.
    pub fn gt(self, rhs: Number) -> (r: bool)
        ensures
            r == (self.order(rhs) == FloatOrder::Greater),
    {
        self.compare(rhs) == FloatOrder::Greater
    }

    /// Whether this number is greater than or equal to `rhs`.
    pub fn ge(self, rhs: Number) -> (r: bool)
        ensures
            r == (self.order(rhs) == FloatOrder::Greater || self.order(rhs) == FloatOrder::Equal),
    {
        let o = self.compare(rhs);
        o == FloatOrder::Greater || o == FloatOrder::Equal
    }
}

} // verus!
