//! A concrete prime field.
//!
//! The verifier is parametric over nothing: all witness values are elements of
//! the prime field of order `MODULUS` (a 64-bit prime), held in a canonical
//! representative below the modulus.  The contracts of the operations state
//! exact modular arithmetic over the mathematical value of each element, so
//! every later evaluation result is pinned as an integer in `[0, MODULUS)`.

use vstd::prelude::*;

verus! {

/// The field order: a 64-bit prime.
pub const MODULUS: u64 = 0xffff_ffff_0000_0001;

/// An element of the prime field, as its canonical representative.
///
/// Every constructor and operation of this module returns a representative
/// strictly below `MODULUS`; the mathematical value of an element is `self@`.
#[derive(Clone, Copy, Debug, PartialEq, Eq, Structural)]
pub struct Fp {
    pub repr: u64,
}

/// Addition in the field, over mathematical values.
pub open spec fn field_add(a: int, b: int) -> int {
    (a + b) % (MODULUS as int)
}

/// Multiplication in the field, over mathematical values.
pub open spec fn field_mul(a: int, b: int) -> int {
    (a * b) % (MODULUS as int)
}

/// Additive inverse in the field, over mathematical values.
pub open spec fn field_neg(a: int) -> int {
    ((MODULUS as int) - a) % (MODULUS as int)
}

impl View for Fp {
    type V = int;

    open spec fn view(&self) -> int {
        self.repr as int
    }
}

impl Fp {
    /// The additive identity.
    pub fn zero() -> (r: Fp)
        ensures
            r@ == 0,
    {
        Fp { repr: 0 }
    }

    /// The multiplicative identity.
    pub fn one() -> (r: Fp)
        ensures
            r@ == 1,
    {
        Fp { repr: 1 }
    }

    /// The canonical element congruent to `v`.
    pub fn from_u64(v: u64) -> (r: Fp)
        ensures
            r@ == v as int % (MODULUS as int),
            r@ < MODULUS,
    {
        Fp { repr: v % MODULUS }
    }

    /// Field addition.
    pub fn add(self, other: Fp) -> (r: Fp)
        ensures
            r@ == field_add(self@, other@),
            r@ < MODULUS,
    {
        let s: u128 = self.repr as u128 + other.repr as u128;
        let m: u128 = s % (MODULUS as u128);
        Fp { repr: m as u64 }
    }

    /// Field multiplication.
    pub fn mul(self, other: Fp) -> (r: Fp)
        ensures
            r@ == field_mul(self@, other@),
            r@ < MODULUS,
    {
        proof {
            assert(self.repr as int * other.repr as int <= u64::MAX as int * u64::MAX as int)
                by (nonlinear_arith)
                requires
                    self.repr as int <= u64::MAX as int,
                    other.repr as int <= u64::MAX as int,
            ;
        }
        let p: u128 = self.repr as u128 * other.repr as u128;
        let m: u128 = p % (MODULUS as u128);
        Fp { repr: m as u64 }
    }

    /// The additive inverse.
    pub fn neg(self) -> (r: Fp)
        ensures
            r@ == field_neg(self@ % (MODULUS as int)),
            r@ < MODULUS,
    {
        let v: u64 = self.repr % MODULUS;
        if v == 0 {
            Fp { repr: 0 }
        } else {
            Fp { repr: MODULUS - v }
        }
    }

    /// Field subtraction: `self + (-other)`.
    pub fn sub(self, other: Fp) -> (r: Fp)
        ensures
            r@ == field_add(self@, field_neg(other@ % (MODULUS as int))),
            r@ < MODULUS,
    {
        self.add(other.neg())
    }

    /// Equality of mathematical values; on canonical representatives this is
    /// equality in the field.
    pub fn eq_val(self, other: Fp) -> (r: bool)
        ensures
            r == (self@ == other@),
    {
        self.repr == other.repr
    }
}

} // verus!
