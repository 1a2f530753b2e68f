//! The value model: a boxed double-precision numeric scalar, held as its
//! IEEE 754 bit pattern, with in-place arithmetic operations, and the
//! append-only array of values that backs a chunk's constant pool.
//!
//! Addition, subtraction, multiplication and division of doubles are
//! performed by `rustc_apfloat`, a software implementation of IEEE 754
//! binary64 arithmetic (round to nearest, ties to even) that works directly
//! on bit patterns and is deterministic on every machine.

use vstd::prelude::*;

use rustc_apfloat::Float;

verus! {

/// The bit pattern of an IEEE 754 double with its sign bit flipped, which is
/// exactly the negation of the encoded number.
pub open spec fn spec_neg_bits(b: u64) -> u64 {
    b ^ 0x8000_0000_0000_0000
}

/// The bit pattern of the IEEE 754 binary64 sum of the doubles encoded by
/// the two argument bit patterns, rounded to nearest, ties to even.
pub uninterp spec fn add_bits(a: u64, b: u64) -> u64;

/// The bit pattern of the IEEE 754 binary64 difference of the doubles
/// encoded by the two argument bit patterns, rounded to nearest, ties to even.
pub uninterp spec fn sub_bits(a: u64, b: u64) -> u64;

/// The bit pattern of the IEEE 754 binary64 product of the doubles encoded
/// by the two argument bit patterns, rounded to nearest, ties to even.
pub uninterp spec fn mul_bits(a: u64, b: u64) -> u64;

/// The bit pattern of the IEEE 754 binary64 quotient of the doubles encoded
/// by the two argument bit patterns, rounded to nearest, ties to even.
pub uninterp spec fn div_bits(a: u64, b: u64) -> u64;

/// A numeric scalar: the bit pattern of an IEEE 754 double-precision number.
/// Plain copyable data with no ownership concerns.
#[derive(Clone, Copy, Debug, PartialEq, Eq, Structural)]
pub struct Value {
    /// The IEEE 754 binary64 representation of the number.
    pub bits: u64,
}

impl Value {
    /// Boxes the double given by its bit pattern.
    pub fn new(bits: u64) -> (v: Value)
        ensures
            v.bits == bits,
    {
        Value { bits }
    }

    /// Negates the number in place by flipping the sign bit of its
    /// representation.
    pub fn negate(&mut self)
        ensures
            final(self).bits == spec_neg_bits(old(self).bits),
    {
        self.bits = self.bits ^ 0x8000_0000_0000_0000u64;
    }

    /// Adds `other` to this value in place.
    ///
    /// Relies on `rustc_apfloat::ieee::Double`'s `Add` (via `add_r` with
    /// round to nearest, ties to even): the resulting bit pattern is a
    /// function of the two argument bit patterns alone.
    #[verifier::external_body]
    pub fn add(&mut self, other: &Value)
        ensures
            final(self).bits == add_bits(old(self).bits, other.bits),
    {
        let a = rustc_apfloat::ieee::Double::from_bits(self.bits as u128);
        let b = rustc_apfloat::ieee::Double::from_bits(other.bits as u128);
        self.bits = (a + b).value.to_bits() as u64;
    }

    /// Subtracts `other` from this value in place.
    ///
    /// Relies on `rustc_apfloat::ieee::Double`'s `Sub` (via `sub_r` with
    /// round to nearest, ties to even): the resulting bit pattern is a
    /// function of the two argument bit patterns alone.
    #[verifier::external_body]
    pub fn subtract(&mut self, other: &Value)
        ensures
            final(self).bits == sub_bits(old(self).bits, other.bits),
    {
        let a = rustc_apfloat::ieee::Double::from_bits(self.bits as u128);
        let b = rustc_apfloat::ieee::Double::from_bits(other.bits as u128);
        self.bits = (a - b).value.to_bits() as u64;
    }

    /// Multiplies this value by `other` in place.
    ///
    /// Relies on `rustc_apfloat::ieee::Double`'s `Mul` (via `mul_r` with
    /// round to nearest, ties to even): the resulting bit pattern is a
    /// function of the two argument bit patterns alone.
    #[verifier::external_body]
    pub fn multiply(&mut self, other: &Value)
        ensures
            final(self).bits == mul_bits(old(self).bits, other.bits),
    {
        let a = rustc_apfloat::ieee::Double::from_bits(self.bits as u128);
        let b = rustc_apfloat::ieee::Double::from_bits(other.bits as u128);
        self.bits = (a * b).value.to_bits() as u64;
    }

    /// Divides this value by `other` in place. Division by zero follows
    /// IEEE 754 and yields an infinity or NaN, never a failure.
    ///
    /// Relies on `rustc_apfloat::ieee::Double`'s `Div` (via `div_r` with
    /// round to nearest, ties to even): the resulting bit pattern is a
    /// function of the two argument bit patterns alone.
    #[verifier::external_body]
    pub fn divide(&mut self, other: &Value)
        ensures
            final(self).bits == div_bits(old(self).bits, other.bits),
    {
        let a = rustc_apfloat::ieee::Double::from_bits(self.bits as u128);
        let b = rustc_apfloat::ieee::Double::from_bits(other.bits as u128);
        self.bits = (a / b).value.to_bits() as u64;
    }
}

/// An insertion-ordered, append-only sequence of values; indices are never
/// reused or removed.
pub struct ValueArray {
    /// The stored values, in insertion order.
    pub values: Vec<Value>,
}

impl ValueArray {
    /// Creates an empty array.
    pub fn new() -> (a: ValueArray)
        ensures
            a.values@ == Seq::<Value>::empty(),
    {
        ValueArray { values: Vec::new() }
    }

    /// Appends one value.
    pub fn write(&mut self, value: Value)
        ensures
            final(self).values@ == old(self).values@.push(value),
    {
        self.values.push(value);
    }
}

} // verus!
