//! The division circuit: `numerator = quotient · denominator`, with private
//! `numerator`, `denominator` and public `quotient`.
//!
//! The first gate, `denominator * 1 = denominator`, is a tautology kept for
//! structural symmetry: it does *not* exclude a zero denominator. With
//! `denominator = 0` the system is still satisfiable whenever
//! `numerator = 0`, whatever the quotient; see
//! [`lemma_division_zero_denominator`].

use vstd::prelude::*;
use crate::modulus;
use crate::field::Fe;
use crate::gadgets::{
    lemma_lin_sum_constraint_holds, lemma_mul_constraint_holds, lin_sum_constraint, lin_sum_gadget,
    mul_constraint, mul_gadget,
};
use crate::math::lemma_reduced_congruence;
use crate::r1cs::{
    constraint_holds, lc_value, lemma_lc_value1, lemma_satisfied_extend, ConstraintSystem,
    ConstraintView, LinearCombination, Mode, SynthesisError, VarView,
};

verus! {

/// The circuit `quotient · denominator = numerator`.
pub struct DivisionCircuit {
    pub numerator: Option<Fe>,
    pub denominator: Option<Fe>,
    pub quotient: Option<Fe>,
}

/// The relation the division circuit enforces between its recorded values:
/// the numerator is the field product of quotient and denominator.
pub open spec fn division_holds(num: nat, den: nat, quot: nat) -> bool {
    num == (quot * den) % modulus()
}

/// The two constraints the division circuit emits.
pub open spec fn division_constraints(na: int, ni: int) -> Seq<ConstraintView> {
    seq![
        lin_sum_constraint(seq![(1nat, VarView::Aux(na + 1))], VarView::Aux(na + 1)),
        mul_constraint(VarView::Input(ni), VarView::Aux(na + 1), VarView::Aux(na)),
    ]
}

/// The weak non-zero gate does not rule out division by zero: with both
/// numerator and denominator zero the enforced relation holds for every
/// quotient.
pub proof fn lemma_division_zero_denominator(quot: nat)
    ensures
        division_holds(0, 0, quot),
{
    assert((quot * 0) % modulus() == 0);
}

impl DivisionCircuit {
    /// Inputs that are present carry reduced field values.
    pub open spec fn wf(self) -> bool {
        &&& (self.numerator matches Some(v) ==> v@ < modulus())
        &&& (self.denominator matches Some(v) ==> v@ < modulus())
        &&& (self.quotient matches Some(v) ==> v@ < modulus())
    }

    /// All inputs are present, as a proving pass demands.
    pub open spec fn complete(self) -> bool {
        self.numerator is Some && self.denominator is Some && self.quotient is Some
    }

    /// How a successful synthesis of this circuit relates the system after
    /// the pass to the system before it.
    pub open spec fn synthesized(self, pre: ConstraintSystem, post: ConstraintSystem) -> bool {
        &&& post.mode == pre.mode
        &&& post.num_aux == pre.num_aux + 2
        &&& post.num_input == pre.num_input + 1
        &&& post.constraints_vw() == pre.constraints_vw()
            + division_constraints(pre.num_aux as int, pre.num_input as int)
        &&& (pre.mode == Mode::Setup ==> post.aux_vals() == pre.aux_vals()
            && post.input_vals() == pre.input_vals())
        &&& (pre.mode == Mode::Prove ==> {
            &&& post.aux_vals() == pre.aux_vals()
                + seq![self.numerator.unwrap()@, self.denominator.unwrap()@]
            &&& post.input_vals() == pre.input_vals().push(self.quotient.unwrap()@)
        })
    }

    /// Allocates the three values and emits the weak non-zero gate and the
    /// product gate. In proving mode the recorded system is satisfied exactly
    /// when the numerator is the field product of quotient and denominator.
    pub fn synthesize(self, cs: &mut ConstraintSystem) -> (r: Result<(), SynthesisError>)
        requires
            old(cs).wf(),
            self.wf(),
            old(cs).num_aux + 2 <= usize::MAX,
            old(cs).num_input + 1 <= usize::MAX,
        ensures
            final(cs).wf(),
            final(cs).mode == old(cs).mode,
            r is Err <==> (old(cs).mode == Mode::Prove && !self.complete()),
            r is Ok ==> self.synthesized(*old(cs), *final(cs)),
            (old(cs).mode == Mode::Prove && r is Ok) ==> (final(cs).satisfied() <==> (
                old(cs).satisfied() && division_holds(
                    self.numerator.unwrap()@,
                    self.denominator.unwrap()@,
                    self.quotient.unwrap()@,
                )
            )),
    {
        let ghost pre = *old(cs);
        let ghost na = pre.num_aux as int;
        let ghost ni = pre.num_input as int;

        let numerator = cs.allocate_witness(self.numerator)?;
        let denominator = cs.allocate_witness(self.denominator)?;
        let quotient = cs.allocate_public_input(self.quotient)?;

        let den_sum = LinearCombination::new().with_var(denominator);
        proof {
            assert(den_sum@ =~= seq![(1nat, VarView::Aux(na + 1))]);
            assert forall|i: int| 0 <= i < den_sum@.len() implies
                crate::r1cs::var_in_range(
                    (#[trigger] den_sum@[i]).1,
                    cs.num_aux as int,
                    cs.num_input as int,
                ) && den_sum@[i].0 < modulus() by {
                assert(den_sum@[i] == (1nat, VarView::Aux(na + 1)));
            }
        }
        lin_sum_gadget(cs, den_sum, denominator);
        mul_gadget(cs, quotient, denominator, numerator);

        proof {
            let dterms = seq![(1nat, VarView::Aux(na + 1))];
            let c1 = lin_sum_constraint(dterms, VarView::Aux(na + 1));
            let c2 = mul_constraint(VarView::Input(ni), VarView::Aux(na + 1), VarView::Aux(na));
            assert(cs.constraints_vw() =~= pre.constraints_vw() + division_constraints(na, ni));
            if pre.mode == Mode::Prove {
                let nv = self.numerator.unwrap()@;
                let dv = self.denominator.unwrap()@;
                let qv = self.quotient.unwrap()@;
                let p = modulus() as int;
                assert(cs.aux_vals() =~= pre.aux_vals() + seq![nv, dv]);
                assert(cs.input_vals() =~= pre.input_vals().push(qv));

                let aux = cs.aux_vals();
                let inp = cs.input_vals();
                assert(pre.aux_vals().len() == na);
                assert(pre.input_vals().len() == ni);
                assert(aux[na] == nv);
                assert(aux[na + 1] == dv);
                assert(inp[ni] == qv);

                lemma_satisfied_extend(pre, *cs);
                assert(cs.constraints_vw()[pre.constraints_vw().len() as int] == c1);
                assert(cs.constraints_vw()[pre.constraints_vw().len() as int + 1] == c2);

                // The tautological gate always holds.
                lemma_lin_sum_constraint_holds(dterms, VarView::Aux(na + 1), aux, inp);
                lemma_lc_value1((1nat, VarView::Aux(na + 1)), aux, inp);
                assert(1nat * crate::r1cs::var_value(VarView::Aux(na + 1), aux, inp) == dv);
                assert(lc_value(dterms, aux, inp) == dv);
                assert(constraint_holds(c1, aux, inp));

                // The product gate pins the numerator.
                lemma_mul_constraint_holds(
                    VarView::Input(ni), VarView::Aux(na + 1), VarView::Aux(na), aux, inp);
                assert(constraint_holds(c2, aux, inp) <==> division_holds(nv, dv, qv)) by {
                    lemma_reduced_congruence((qv * dv) as int, nv as int, p);
                }

                assert(cs.satisfied() <==> (pre.satisfied() && division_holds(nv, dv, qv))) by {
                    if constraint_holds(c2, aux, inp) {
                        assert forall|i: int|
                            pre.constraints_vw().len() <= i < cs.constraints_vw().len() implies
                            constraint_holds(#[trigger] cs.constraints_vw()[i], aux, inp) by {
                            if i == pre.constraints_vw().len() {
                                assert(cs.constraints_vw()[i] == c1);
                            } else {
                                assert(cs.constraints_vw()[i] == c2);
                            }
                        }
                    }
                }
            }
        }
        Ok(())
    }
}

/// Re-synthesizing the division circuit over systems with equal topologies
/// yields equal topologies, whatever witness values the two passes carry.
pub proof fn lemma_division_idempotent(
    c1: DivisionCircuit,
    c2: DivisionCircuit,
    pre1: ConstraintSystem,
    post1: ConstraintSystem,
    pre2: ConstraintSystem,
    post2: ConstraintSystem,
)
    requires
        c1.synthesized(pre1, post1),
        c2.synthesized(pre2, post2),
        pre1.topology() == pre2.topology(),
    ensures
        post1.topology() == post2.topology(),
{
}

} // verus!
