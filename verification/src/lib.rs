//! Rank-1 constraint systems for a family of arithmetic circuits
//! (polynomial evaluation, matrix multiplication, integer division,
//! boolean XOR, Fibonacci recurrence), synthesized over the scalar
//! field of the BLS12-381 curve.

use vstd::prelude::*;

pub mod circuits;
pub mod field;
pub mod gadgets;
pub mod math;
pub mod r1cs;

verus! {

/// The order of the BLS12-381 scalar field, the prime field the proving
/// backend operates over.
pub open spec fn modulus() -> nat {
    0x73eda753299d7d483339d80809a1d80553bda402fffe5bfeffffffff00000001nat
}

} // verus!
