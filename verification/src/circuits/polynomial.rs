//! The polynomial circuit: `2·x² + 3·y + 5 = z`, with private `x`, `y` and
//! public `z`. One multiplication gate fixes `x²`; one linear-sum gate ties
//! the polynomial to `z`.

use vstd::prelude::*;
use vstd::arithmetic::div_mod::lemma_mod_twice;
use crate::modulus;
use crate::field::{fe_from_u64, fe_square, Fe};
use crate::gadgets::{
    lemma_lin_sum_constraint_holds, lemma_mul_constraint_holds, lin_sum_constraint, lin_sum_gadget,
    mul_constraint, mul_gadget,
};
use crate::math::{lemma_mod_mul_term, lemma_reduced_congruence};
use crate::r1cs::{
    constraint_holds, lc_value, var_in_range, lemma_lc_value3,
    lemma_satisfied_extend, ConstraintSystem, ConstraintView, LinearCombination, Mode,
    SynthesisError, VarView, Variable,
};

verus! {

/// The circuit `2·x² + 3·y + 5 = z`. The inputs are placeholders (`None`)
/// during a setup pass and concrete field elements during a proving pass.
pub struct PolynomialCircuit {
    pub x: Option<Fe>,
    pub y: Option<Fe>,
    pub z: Option<Fe>,
}

/// The value of the polynomial `2·x² + 3·y + 5` in the field.
pub open spec fn polynomial_eval(x: nat, y: nat) -> nat {
    (2 * x * x + 3 * y + 5) % modulus()
}

/// The two constraints the polynomial circuit emits, over the variable
/// counts of the system it is synthesized into.
pub open spec fn polynomial_constraints(na: int, ni: int) -> Seq<ConstraintView> {
    seq![
        mul_constraint(VarView::Aux(na), VarView::Aux(na), VarView::Aux(na + 2)),
        lin_sum_constraint(
            seq![(2nat, VarView::Aux(na + 2)), (3nat, VarView::Aux(na + 1)), (5nat, VarView::One)],
            VarView::Input(ni),
        ),
    ]
}

impl PolynomialCircuit {
    /// Inputs that are present carry reduced field values.
    pub open spec fn wf(self) -> bool {
        &&& (self.x matches Some(v) ==> v@ < modulus())
        &&& (self.y matches Some(v) ==> v@ < modulus())
        &&& (self.z matches Some(v) ==> v@ < modulus())
    }

    /// All inputs are present, as a proving pass demands.
    pub open spec fn complete(self) -> bool {
        self.x is Some && self.y is Some && self.z is Some
    }

    /// How a successful synthesis of this circuit relates the system after
    /// the pass to the system before it.
    pub open spec fn synthesized(self, pre: ConstraintSystem, post: ConstraintSystem) -> bool {
        &&& post.mode == pre.mode
        &&& post.num_aux == pre.num_aux + 3
        &&& post.num_input == pre.num_input + 1
        &&& post.constraints_vw() == pre.constraints_vw()
            + polynomial_constraints(pre.num_aux as int, pre.num_input as int)
        &&& (pre.mode == Mode::Setup ==> post.aux_vals() == pre.aux_vals()
            && post.input_vals() == pre.input_vals())
        &&& (pre.mode == Mode::Prove ==> {
            &&& post.aux_vals() == pre.aux_vals() + seq![
                self.x.unwrap()@,
                self.y.unwrap()@,
                (self.x.unwrap()@ * self.x.unwrap()@) % modulus(),
            ]
            &&& post.input_vals() == pre.input_vals().push(self.z.unwrap()@)
        })
    }

    /// Allocates `x`, `y`, the intermediate `x²` and the public `z`, and
    /// emits the two gates. In proving mode the recorded system is satisfied
    /// exactly when `z` is the value of the polynomial at `(x, y)`.
    pub fn synthesize(self, cs: &mut ConstraintSystem) -> (r: Result<(), SynthesisError>)
        requires
            old(cs).wf(),
            self.wf(),
            old(cs).num_aux + 3 <= usize::MAX,
            old(cs).num_input + 1 <= usize::MAX,
        ensures
            final(cs).wf(),
            final(cs).mode == old(cs).mode,
            r is Err <==> (old(cs).mode == Mode::Prove && !self.complete()),
            r is Ok ==> self.synthesized(*old(cs), *final(cs)),
            (old(cs).mode == Mode::Prove && r is Ok) ==> (final(cs).satisfied() <==> (
                old(cs).satisfied()
                    && self.z.unwrap()@ == polynomial_eval(self.x.unwrap()@, self.y.unwrap()@)
            )),
    {
        let ghost pre = *old(cs);
        let ghost na = pre.num_aux as int;
        let ghost ni = pre.num_input as int;

        let x_squared_val = match &self.x {
            Some(x) => Some(fe_square(x)),
            None => None,
        };
        let x = cs.allocate_witness(self.x)?;
        let y = cs.allocate_witness(self.y)?;
        let x_squared = cs.allocate_witness(x_squared_val)?;
        let z = cs.allocate_public_input(self.z)?;

        mul_gadget(cs, x, x, x_squared);

        let two = fe_from_u64(2);
        let three = fe_from_u64(3);
        let five = fe_from_u64(5);
        let sum = LinearCombination::new()
            .with_term(two, x_squared)
            .with_term(three, y)
            .with_term(five, Variable::One);
        let ghost sum_terms = seq![
            (2nat, VarView::Aux(na + 2)),
            (3nat, VarView::Aux(na + 1)),
            (5nat, VarView::One),
        ];
        proof {
            assert(sum@ =~= sum_terms);
            assert forall|i: int| 0 <= i < sum_terms.len() implies
                var_in_range((#[trigger] sum_terms[i]).1, cs.num_aux as int, cs.num_input as int)
                    && sum_terms[i].0 < modulus() by {
                if i == 0 {
                    assert(sum_terms[i] == (2nat, VarView::Aux(na + 2)));
                } else if i == 1 {
                    assert(sum_terms[i] == (3nat, VarView::Aux(na + 1)));
                } else {
                    assert(sum_terms[i] == (5nat, VarView::One));
                }
            }
        }
        lin_sum_gadget(cs, sum, z);

        proof {
            let c1 = mul_constraint(VarView::Aux(na), VarView::Aux(na), VarView::Aux(na + 2));
            let c2 = lin_sum_constraint(sum_terms, VarView::Input(ni));
            assert(cs.constraints_vw() =~= pre.constraints_vw() + polynomial_constraints(na, ni));
            if pre.mode == Mode::Prove {
                let xv = self.x.unwrap()@;
                let yv = self.y.unwrap()@;
                let zv = self.z.unwrap()@;
                let xsv = (xv * xv) % modulus();
                let p = modulus() as int;
                assert(cs.aux_vals() =~= pre.aux_vals() + seq![xv, yv, xsv]);
                assert(cs.input_vals() =~= pre.input_vals().push(zv));

                let aux = cs.aux_vals();
                let inp = cs.input_vals();
                assert(pre.aux_vals().len() == na);
                assert(pre.input_vals().len() == ni);
                assert(aux[na] == xv);
                assert(aux[na + 1] == yv);
                assert(aux[na + 2] == xsv);
                assert(inp[ni] == zv);

                lemma_satisfied_extend(pre, *cs);
                assert(cs.constraints_vw()[pre.constraints_vw().len() as int] == c1);
                assert(cs.constraints_vw()[pre.constraints_vw().len() as int + 1] == c2);

                // The squaring gate holds of the recorded witness.
                lemma_mul_constraint_holds(
                    VarView::Aux(na), VarView::Aux(na), VarView::Aux(na + 2), aux, inp);
                assert(constraint_holds(c1, aux, inp)) by {
                    lemma_mod_twice((xv * xv) as int, p);
                }

                // The linear-sum gate pins `z` to the polynomial value.
                lemma_lin_sum_constraint_holds(sum_terms, VarView::Input(ni), aux, inp);
                lemma_lc_value3(
                    (2nat, VarView::Aux(na + 2)),
                    (3nat, VarView::Aux(na + 1)),
                    (5nat, VarView::One),
                    aux,
                    inp,
                );
                assert(lc_value(sum_terms, aux, inp) == 2 * xsv + 3 * yv + 5);
                assert(constraint_holds(c2, aux, inp) <==> zv == polynomial_eval(xv, yv)) by {
                    lemma_mod_mul_term(2, (xv * xv) as int, (3 * yv + 5) as int, p);
                    assert(2 * ((xv * xv) as int) == (2 * xv * xv) as int) by (nonlinear_arith);
                    lemma_reduced_congruence((2 * xv * xv + 3 * yv + 5) as int, zv as int, p);
                }

                assert(cs.satisfied() <==> (pre.satisfied() && zv == polynomial_eval(xv, yv))) by {
                    if constraint_holds(c2, aux, inp) {
                        assert forall|i: int|
                            pre.constraints_vw().len() <= i < cs.constraints_vw().len() implies
                            constraint_holds(#[trigger] cs.constraints_vw()[i], aux, inp) by {
                            if i == pre.constraints_vw().len() {
                                assert(cs.constraints_vw()[i] == c1);
                            } else {
                                assert(cs.constraints_vw()[i] == c2);
                            }
                        }
                    }
                }
            }
        }
        Ok(())
    }
}

/// Re-synthesizing the polynomial circuit over systems with equal topologies
/// yields equal topologies, whatever witness values the two passes carry.
pub proof fn lemma_polynomial_idempotent(
    c1: PolynomialCircuit,
    c2: PolynomialCircuit,
    pre1: ConstraintSystem,
    post1: ConstraintSystem,
    pre2: ConstraintSystem,
    post2: ConstraintSystem,
)
    requires
        c1.synthesized(pre1, post1),
        c2.synthesized(pre2, post2),
        pre1.topology() == pre2.topology(),
    ensures
        post1.topology() == post2.topology(),
{
}

} // verus!
