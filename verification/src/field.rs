//! Field elements of the BLS12-381 scalar field.
//!
//! The arithmetic itself is done by the `bls12_381` crate; a `Fe` couples an
//! opaque scalar with a ghost natural number, its canonical value below the
//! field modulus. Every operation that produces a `Fe` states how the ghost
//! value of the result follows from the ghost values of the operands, so all
//! reasoning about circuits happens over plain modular arithmetic.

use vstd::prelude::*;
use crate::modulus;

verus! {

#[verifier::external_type_specification]
#[verifier::external_body]
pub struct ExScalar(bls12_381::Scalar);

/// A scalar of the BLS12-381 scalar field, together with its ghost canonical
/// value (a natural number below `modulus()`).
#[derive(Clone, Copy)]
pub struct Fe {
    scalar: bls12_381::Scalar,
    value: Ghost<nat>,
}

impl View for Fe {
    type V = nat;

    closed spec fn view(&self) -> nat {
        self.value@
    }
}

/// A field element is well formed when its value is reduced below the modulus.
pub open spec fn fe_wf(f: Fe) -> bool {
    f@ < modulus()
}

/// Relies on `bls12_381::Scalar`'s `From<u64>`: the canonical embedding of a
/// machine integer into the field. Every `u64` is below the modulus, so the
/// embedding does not wrap.
#[verifier::external_body]
pub fn fe_from_u64(n: u64) -> (r: Fe)
    ensures
        r@ == n as nat,
{
    Fe { scalar: bls12_381::Scalar::from(n), value: Ghost(n as nat) }
}

/// Relies on `bls12_381::Scalar::add`: addition modulo the field order.
#[verifier::external_body]
pub fn fe_add(a: &Fe, b: &Fe) -> (r: Fe)
    requires
        fe_wf(*a),
        fe_wf(*b),
    ensures
        r@ == (a@ + b@) % modulus(),
{
    Fe { scalar: a.scalar.add(&b.scalar), value: Ghost((a@ + b@) % modulus()) }
}

/// Relies on `bls12_381::Scalar::mul`: multiplication modulo the field order.
#[verifier::external_body]
pub fn fe_mul(a: &Fe, b: &Fe) -> (r: Fe)
    requires
        fe_wf(*a),
        fe_wf(*b),
    ensures
        r@ == (a@ * b@) % modulus(),
{
    Fe { scalar: a.scalar.mul(&b.scalar), value: Ghost((a@ * b@) % modulus()) }
}

/// Relies on `bls12_381::Scalar::square`: the square of a scalar, equal to the
/// scalar multiplied by itself modulo the field order.
#[verifier::external_body]
pub fn fe_square(a: &Fe) -> (r: Fe)
    requires
        fe_wf(*a),
    ensures
        r@ == (a@ * a@) % modulus(),
{
    Fe { scalar: a.scalar.square(), value: Ghost((a@ * a@) % modulus()) }
}

/// Relies on `bls12_381::Scalar::neg`: the additive inverse, which is
/// `modulus() - a` for a nonzero reduced scalar and `0` for `0`.
#[verifier::external_body]
pub fn fe_neg(a: &Fe) -> (r: Fe)
    requires
        fe_wf(*a),
    ensures
        r@ == if a@ == 0 { 0nat } else { (modulus() - a@) as nat },
{
    Fe { scalar: a.scalar.neg(), value: Ghost(if a@ == 0 { 0nat } else { (modulus() - a@) as nat }) }
}

/// Relies on `PartialEq` for `bls12_381::Scalar`: scalars are kept in a
/// canonical representation, so representations are equal exactly when the
/// field elements are.
#[verifier::external_body]
pub fn fe_eq(a: &Fe, b: &Fe) -> (r: bool)
    requires
        fe_wf(*a),
        fe_wf(*b),
    ensures
        r <==> a@ == b@,
{
    a.scalar == b.scalar
}

/// Hands the underlying scalar to unverified callers that feed a proving
/// backend. Relies on nothing: the result is opaque.
#[verifier::external_body]
pub fn fe_scalar(f: &Fe) -> bls12_381::Scalar {
    f.scalar
}

} // verus!
