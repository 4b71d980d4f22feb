use r1cs_circuits::field::{fe_add, fe_eq, fe_from_u64, fe_mul, fe_neg, fe_square};

#[test]
fn field_from_distinguishes_values() {
    let five = fe_from_u64(5);
    let six = fe_from_u64(6);
    assert!(fe_eq(&five, &five));
    assert!(!fe_eq(&five, &six));
}

#[test]
fn field_addition() {
    let a = fe_from_u64(2);
    let b = fe_from_u64(3);
    let sum = fe_add(&a, &b);
    assert!(fe_eq(&sum, &fe_from_u64(5)));
    assert!(!fe_eq(&sum, &a));
    assert!(!fe_eq(&sum, &b));
}

#[test]
fn field_multiplication() {
    let a = fe_from_u64(6);
    let b = fe_from_u64(7);
    let prod = fe_mul(&a, &b);
    assert!(fe_eq(&prod, &fe_from_u64(42)));
    assert!(!fe_eq(&prod, &a));
}

#[test]
fn field_square() {
    let a = fe_from_u64(9);
    let sq = fe_square(&a);
    assert!(fe_eq(&sq, &fe_from_u64(81)));
    assert!(fe_eq(&sq, &fe_mul(&a, &a)));
}

#[test]
fn field_negation_cancels() {
    let a = fe_from_u64(123456789);
    let na = fe_neg(&a);
    assert!(!fe_eq(&a, &na));
    assert!(fe_eq(&fe_add(&a, &na), &fe_from_u64(0)));
}

#[test]
fn field_negation_of_zero() {
    let z = fe_from_u64(0);
    assert!(fe_eq(&fe_neg(&z), &z));
}
