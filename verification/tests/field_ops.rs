use mock_prover::field::{Fp, MODULUS};

#[test]
fn canonical_construction() {
    assert_eq!(Fp::from_u64(MODULUS), Fp::zero());
    assert_eq!(Fp::from_u64(MODULUS - 1).add(Fp::one()), Fp::zero());
}

#[test]
fn exact_modular_arithmetic() {
    assert_eq!(Fp::from_u64(3).add(Fp::from_u64(5)), Fp::from_u64(8));
    assert_eq!(Fp::from_u64(3).mul(Fp::from_u64(5)), Fp::from_u64(15));
    // (-1) * (-1) = 1 in any field.
    let minus_one = Fp::zero().sub(Fp::one());
    assert_eq!(minus_one, Fp::from_u64(MODULUS - 1));
    assert_eq!(minus_one.mul(minus_one), Fp::one());
    // Wraparound just past the modulus.
    assert_eq!(Fp::from_u64(MODULUS - 1).add(Fp::from_u64(2)), Fp::one());
}

#[test]
fn negation_is_additive_inverse() {
    let x = Fp::from_u64(123_456_789);
    assert_eq!(x.add(x.neg()), Fp::zero());
    assert_eq!(Fp::zero().neg(), Fp::zero());
    assert!(x.eq_val(x));
    assert!(!x.eq_val(Fp::zero()));
}
