//! Reusable constraint patterns: the multiplication gadget `x * y = z` and
//! the linear-sum gadget `Σ terms = target`, enforced through the trivial
//! product with the constant-one variable.

use vstd::prelude::*;
use crate::modulus;
use crate::r1cs::{
    constraint_holds, lc_value, lc_wf, lemma_lc_value1, var_in_range, var_value, ConstraintSystem,
    ConstraintView, LinearCombination, VarView, Variable,
};

verus! {

/// The constraint emitted by the multiplication gadget: `x * y = z`.
pub open spec fn mul_constraint(x: VarView, y: VarView, z: VarView) -> ConstraintView {
    ConstraintView { a: seq![(1nat, x)], b: seq![(1nat, y)], c: seq![(1nat, z)] }
}

/// The constraint emitted by the linear-sum gadget: `(Σ terms) * 1 = target`.
pub open spec fn lin_sum_constraint(terms: Seq<(nat, VarView)>, target: VarView) -> ConstraintView {
    ConstraintView { a: terms, b: seq![(1nat, VarView::One)], c: seq![(1nat, target)] }
}

/// The mirrored linear-sum constraint: `1 * (Σ terms) = target`.
pub open spec fn lin_sum_constraint_flipped(
    terms: Seq<(nat, VarView)>,
    target: VarView,
) -> ConstraintView {
    ConstraintView { a: seq![(1nat, VarView::One)], b: terms, c: seq![(1nat, target)] }
}

/// A multiplication constraint holds exactly when the product of the two
/// variable values equals the third value in the field.
pub proof fn lemma_mul_constraint_holds(
    x: VarView,
    y: VarView,
    z: VarView,
    aux: Seq<nat>,
    inputs: Seq<nat>,
)
    ensures
        constraint_holds(mul_constraint(x, y, z), aux, inputs) <==>
            ((var_value(x, aux, inputs) * var_value(y, aux, inputs)) as int) % (modulus() as int)
                == (var_value(z, aux, inputs) as int) % (modulus() as int),
{
    lemma_lc_value1((1nat, x), aux, inputs);
    lemma_lc_value1((1nat, y), aux, inputs);
    lemma_lc_value1((1nat, z), aux, inputs);
}

/// A linear-sum constraint holds exactly when the sum is congruent to the
/// target value.
pub proof fn lemma_lin_sum_constraint_holds(
    terms: Seq<(nat, VarView)>,
    target: VarView,
    aux: Seq<nat>,
    inputs: Seq<nat>,
)
    ensures
        constraint_holds(lin_sum_constraint(terms, target), aux, inputs) <==>
            lc_value(terms, aux, inputs) % (modulus() as int)
                == (var_value(target, aux, inputs) as int) % (modulus() as int),
        constraint_holds(lin_sum_constraint_flipped(terms, target), aux, inputs) <==>
            lc_value(terms, aux, inputs) % (modulus() as int)
                == (var_value(target, aux, inputs) as int) % (modulus() as int),
{
    let cv = lin_sum_constraint(terms, target);
    let cf = lin_sum_constraint_flipped(terms, target);
    lemma_lc_value1((1nat, VarView::One), aux, inputs);
    lemma_lc_value1((1nat, target), aux, inputs);
    assert(lc_value(cv.b, aux, inputs) == 1);
    assert(lc_value(cv.c, aux, inputs) == var_value(target, aux, inputs));
    assert(lc_value(cv.a, aux, inputs) * lc_value(cv.b, aux, inputs)
        == lc_value(terms, aux, inputs));
    assert(cf.a == cv.b);
    assert(lc_value(cf.a, aux, inputs) == 1);
    assert(lc_value(cf.a, aux, inputs) * lc_value(cf.b, aux, inputs)
        == lc_value(terms, aux, inputs));
}

/// Emits the multiplication constraint `x * y = z`.
pub fn mul_gadget(cs: &mut ConstraintSystem, x: Variable, y: Variable, z: Variable)
    requires
        old(cs).wf(),
        var_in_range(x@, old(cs).num_aux as int, old(cs).num_input as int),
        var_in_range(y@, old(cs).num_aux as int, old(cs).num_input as int),
        var_in_range(z@, old(cs).num_aux as int, old(cs).num_input as int),
    ensures
        final(cs).wf(),
        final(cs).mode == old(cs).mode,
        final(cs).num_aux == old(cs).num_aux,
        final(cs).num_input == old(cs).num_input,
        final(cs).aux_vals() == old(cs).aux_vals(),
        final(cs).input_vals() == old(cs).input_vals(),
        final(cs).constraints_vw() == old(cs).constraints_vw().push(mul_constraint(x@, y@, z@)),
{
    let a = LinearCombination::new().with_var(x);
    let b = LinearCombination::new().with_var(y);
    let c = LinearCombination::new().with_var(z);
    proof {
        assert(a@ =~= seq![(1nat, x@)]);
        assert(b@ =~= seq![(1nat, y@)]);
        assert(c@ =~= seq![(1nat, z@)]);
        lemma_single_term_wf(x@, old(cs).num_aux as int, old(cs).num_input as int);
        lemma_single_term_wf(y@, old(cs).num_aux as int, old(cs).num_input as int);
        lemma_single_term_wf(z@, old(cs).num_aux as int, old(cs).num_input as int);
    }
    cs.enforce(a, b, c);
}

/// Emits the linear-sum constraint `(Σ terms) * 1 = target`.
pub fn lin_sum_gadget(cs: &mut ConstraintSystem, terms: LinearCombination, target: Variable)
    requires
        old(cs).wf(),
        lc_wf(terms@, old(cs).num_aux as int, old(cs).num_input as int),
        var_in_range(target@, old(cs).num_aux as int, old(cs).num_input as int),
    ensures
        final(cs).wf(),
        final(cs).mode == old(cs).mode,
        final(cs).num_aux == old(cs).num_aux,
        final(cs).num_input == old(cs).num_input,
        final(cs).aux_vals() == old(cs).aux_vals(),
        final(cs).input_vals() == old(cs).input_vals(),
        final(cs).constraints_vw() == old(cs).constraints_vw().push(
            lin_sum_constraint(terms@, target@),
        ),
{
    let b = LinearCombination::new().with_var(Variable::One);
    let c = LinearCombination::new().with_var(target);
    proof {
        assert(b@ =~= seq![(1nat, VarView::One)]);
        assert(c@ =~= seq![(1nat, target@)]);
        lemma_single_term_wf(VarView::One, old(cs).num_aux as int, old(cs).num_input as int);
        lemma_single_term_wf(target@, old(cs).num_aux as int, old(cs).num_input as int);
    }
    cs.enforce(terms, b, c);
}

/// Emits the mirrored linear-sum constraint `1 * (Σ terms) = target`.
pub fn lin_sum_gadget_flipped(cs: &mut ConstraintSystem, terms: LinearCombination, target: Variable)
    requires
        old(cs).wf(),
        lc_wf(terms@, old(cs).num_aux as int, old(cs).num_input as int),
        var_in_range(target@, old(cs).num_aux as int, old(cs).num_input as int),
    ensures
        final(cs).wf(),
        final(cs).mode == old(cs).mode,
        final(cs).num_aux == old(cs).num_aux,
        final(cs).num_input == old(cs).num_input,
        final(cs).aux_vals() == old(cs).aux_vals(),
        final(cs).input_vals() == old(cs).input_vals(),
        final(cs).constraints_vw() == old(cs).constraints_vw().push(
            lin_sum_constraint_flipped(terms@, target@),
        ),
{
    let a = LinearCombination::new().with_var(Variable::One);
    let c = LinearCombination::new().with_var(target);
    proof {
        assert(a@ =~= seq![(1nat, VarView::One)]);
        assert(c@ =~= seq![(1nat, target@)]);
        lemma_single_term_wf(VarView::One, old(cs).num_aux as int, old(cs).num_input as int);
        lemma_single_term_wf(target@, old(cs).num_aux as int, old(cs).num_input as int);
    }
    cs.enforce(a, terms, c);
}

/// A one-term combination with coefficient 1 on an allocated variable is
/// well formed.
proof fn lemma_single_term_wf(v: VarView, na: int, ni: int)
    requires
        var_in_range(v, na, ni),
    ensures
        lc_wf(seq![(1nat, v)], na, ni),
{
    let s = seq![(1nat, v)];
    assert forall|i: int| 0 <= i < s.len() implies
        var_in_range((#[trigger] s[i]).1, na, ni) && s[i].0 < modulus() by {
        assert(s[i] == (1nat, v));
    }
}

} // verus!
