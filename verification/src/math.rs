//! Small facts about modular arithmetic used by the circuit proofs.

use vstd::prelude::*;
use vstd::arithmetic::div_mod::{
    lemma_add_mod_noop, lemma_mul_mod_noop_general, lemma_mul_mod_noop_right, lemma_small_mod,
};

verus! {

/// Replacing a factor of one summand by its remainder does not change the
/// remainder of the sum: `(k·(t % m) + rest) % m == (k·t + rest) % m`.
pub proof fn lemma_mod_mul_term(k: int, t: int, rest: int, m: int)
    requires
        m > 0,
    ensures
        (k * (t % m) + rest) % m == (k * t + rest) % m,
{
    lemma_mul_mod_noop_right(k, t, m);
    lemma_add_mod_noop(k * (t % m), rest, m);
    lemma_add_mod_noop(k * t, rest, m);
}

/// Replacing one summand by its remainder does not change the remainder of
/// the sum: `((t % m) + rest) % m == (t + rest) % m`.
pub proof fn lemma_mod_add_term(t: int, rest: int, m: int)
    requires
        m > 0,
    ensures
        ((t % m) + rest) % m == (t + rest) % m,
{
    lemma_mod_mul_term(1, t, rest, m);
}

/// A congruence with a reduced right-hand side pins the value:
/// for `0 <= z < m`, `x % m == z % m` exactly when `z == x % m`.
pub proof fn lemma_reduced_congruence(x: int, z: int, m: int)
    requires
        m > 0,
        0 <= z < m,
    ensures
        (x % m == z % m) <==> (z == x % m),
{
    lemma_small_mod(z as nat, m as nat);
}

/// The remainder of a product of remainders: `((x % m)·(y % m)) % m == (x·y) % m`.
pub proof fn lemma_mod_mul_both(x: int, y: int, m: int)
    requires
        m > 0,
    ensures
        ((x % m) * (y % m)) % m == (x * y) % m,
        ((x % m) * y) % m == (x * y) % m,
        (x * (y % m)) % m == (x * y) % m,
{
    lemma_mul_mod_noop_general(x, y, m);
}

} // verus!
