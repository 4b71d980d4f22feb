//! The composite circuit: a degree-3 single-variable polynomial evaluation
//! `a·x³ + b·x² + c·x + d = poly_result` concatenated with the 2×2
//! matrix-multiplication circuit inside one synthesis pass, sharing nothing
//! but the constraint system. The public inputs are the polynomial result
//! followed by the four matrix result cells, in declaration order.
//!
//! The polynomial part allocates its monomial values as witnesses and emits
//! one linear-sum gate only: nothing ties `ax3`, `bx2`, `cx` to `x`, `a`,
//! `b`, `c`, which are never allocated as variables.

use vstd::prelude::*;
use crate::modulus;
use crate::field::{fe_mul, Fe};
use crate::gadgets::{
    lemma_lin_sum_constraint_holds, lin_sum_constraint_flipped, lin_sum_gadget_flipped,
};
use crate::math::{lemma_mod_add_term, lemma_mod_mul_both, lemma_reduced_congruence};
use crate::circuits::matrix_multiplication::{
    mat_mul_correct, matrix_aux_vals, matrix_constraints, matrix_input_vals, synthesize_matrix_product, Matrix2,
};
use crate::r1cs::{
    constraint_holds, lc_value, lemma_lc_value4, lemma_satisfied_extend, var_in_range,
    var_value, ConstraintSystem, ConstraintView, LinearCombination, Mode, SynthesisError, VarView,
};

verus! {

/// The composite circuit: polynomial evaluation plus matrix multiplication.
pub struct ComplexCircuit {
    pub x: Option<Fe>,
    pub a: Option<Fe>,
    pub b: Option<Fe>,
    pub c: Option<Fe>,
    pub d: Option<Fe>,
    pub m1: Option<Matrix2>,
    pub m2: Option<Matrix2>,
    pub poly_result: Option<Fe>,
    pub matrix_result: Option<Matrix2>,
}

/// The value of the polynomial `a·x³ + b·x² + c·x + d` in the field.
pub open spec fn cubic_eval(x: nat, a: nat, b: nat, c: nat, d: nat) -> nat {
    (a * x * x * x + b * x * x + c * x + d) % modulus()
}

/// The chained witness values of the polynomial part, as the proving pass
/// computes them: left-associated products, reduced at each step.
pub open spec fn cubic_ax(x: nat, a: nat) -> nat {
    (a * x) % modulus()
}

pub open spec fn cubic_ax2(x: nat, a: nat) -> nat {
    (cubic_ax(x, a) * x) % modulus()
}

pub open spec fn cubic_ax3(x: nat, a: nat) -> nat {
    (cubic_ax2(x, a) * x) % modulus()
}

pub open spec fn cubic_bx(x: nat, b: nat) -> nat {
    (b * x) % modulus()
}

pub open spec fn cubic_bx2(x: nat, b: nat) -> nat {
    (cubic_bx(x, b) * x) % modulus()
}

pub open spec fn cubic_cx(x: nat, c: nat) -> nat {
    (c * x) % modulus()
}

/// The one gate of the polynomial part:
/// `1 * (ax3 + bx2 + cx + d) = poly_result`.
pub open spec fn cubic_constraint(na: int, ni: int) -> ConstraintView {
    lin_sum_constraint_flipped(
        seq![
            (1nat, VarView::Aux(na + 1)),
            (1nat, VarView::Aux(na + 2)),
            (1nat, VarView::Aux(na + 3)),
            (1nat, VarView::Aux(na)),
        ],
        VarView::Input(ni),
    )
}

/// The auxiliary values the polynomial part records: `d`, then the three
/// monomial values.
pub open spec fn cubic_aux_vals(x: nat, a: nat, b: nat, c: nat, d: nat) -> Seq<nat> {
    seq![d, cubic_ax3(x, a), cubic_bx2(x, b), cubic_cx(x, c)]
}

/// The chained monomial values sum to the polynomial value.
proof fn lemma_cubic_sum(x: nat, a: nat, b: nat, c: nat, d: nat)
    ensures
        (cubic_ax3(x, a) + cubic_bx2(x, b) + cubic_cx(x, c) + d) % modulus()
            == cubic_eval(x, a, b, c, d),
{
    let p = modulus() as int;
    assert(cubic_ax3(x, a) == (a * x * x * x) % modulus()) by {
        lemma_mod_mul_both((a * x) as int, x as int, p);
        assert(cubic_ax2(x, a) == (a * x * x) % modulus());
        lemma_mod_mul_both((a * x * x) as int, x as int, p);
    }
    assert(cubic_bx2(x, b) == (b * x * x) % modulus()) by {
        lemma_mod_mul_both((b * x) as int, x as int, p);
    }
    let t1 = (a * x * x * x) as int;
    let t2 = (b * x * x) as int;
    let t3 = (c * x) as int;
    lemma_mod_add_term(t1, (t2 % p) + (t3 % p) + d, p);
    lemma_mod_add_term(t2, t1 + (t3 % p) + d, p);
    lemma_mod_add_term(t3, t1 + t2 + d, p);
}

/// In proving mode, the system grown by the polynomial part is satisfied
/// exactly when the system it grew from was and `poly_result` is the value
/// of the polynomial.
#[verifier::rlimit(60)]
proof fn lemma_cubic_satisfaction(
    x: nat,
    a: nat,
    b: nat,
    c: nat,
    d: nat,
    prv: nat,
    pre: ConstraintSystem,
    post: ConstraintSystem,
)
    requires
        pre.wf(),
        pre.mode == Mode::Prove,
        post.mode == Mode::Prove,
        prv < modulus(),
        post.constraints_vw() == pre.constraints_vw().push(
            cubic_constraint(pre.num_aux as int, pre.num_input as int),
        ),
        post.aux_vals() == pre.aux_vals() + cubic_aux_vals(x, a, b, c, d),
        post.input_vals() == pre.input_vals().push(prv),
    ensures
        post.satisfied() <==> (pre.satisfied() && prv == cubic_eval(x, a, b, c, d)),
{
    let na = pre.num_aux as int;
    let ni = pre.num_input as int;
    let p = modulus() as int;
    let aux = post.aux_vals();
    let inp = post.input_vals();
    let len0 = pre.constraints_vw().len() as int;
    let cc = cubic_constraint(na, ni);

    assert(pre.aux_vals().len() == na);
    assert(pre.input_vals().len() == ni);
    assert(aux[na] == d);
    assert(aux[na + 1] == cubic_ax3(x, a));
    assert(aux[na + 2] == cubic_bx2(x, b));
    assert(aux[na + 3] == cubic_cx(x, c));
    assert(inp[ni] == prv);

    lemma_satisfied_extend(pre, post);
    assert(post.constraints_vw()[len0] == cc);

    let terms = seq![
        (1nat, VarView::Aux(na + 1)),
        (1nat, VarView::Aux(na + 2)),
        (1nat, VarView::Aux(na + 3)),
        (1nat, VarView::Aux(na)),
    ];
    lemma_lin_sum_constraint_holds(terms, VarView::Input(ni), aux, inp);
    lemma_lc_value4(
        (1nat, VarView::Aux(na + 1)),
        (1nat, VarView::Aux(na + 2)),
        (1nat, VarView::Aux(na + 3)),
        (1nat, VarView::Aux(na)),
        aux,
        inp,
    );
    assert(1nat * var_value(VarView::Aux(na + 1), aux, inp) == cubic_ax3(x, a));
    assert(1nat * var_value(VarView::Aux(na + 2), aux, inp) == cubic_bx2(x, b));
    assert(1nat * var_value(VarView::Aux(na + 3), aux, inp) == cubic_cx(x, c));
    assert(1nat * var_value(VarView::Aux(na), aux, inp) == d);
    assert(lc_value(terms, aux, inp)
        == cubic_ax3(x, a) + cubic_bx2(x, b) + cubic_cx(x, c) + d);
    assert(constraint_holds(cc, aux, inp) <==> prv == cubic_eval(x, a, b, c, d)) by {
        lemma_cubic_sum(x, a, b, c, d);
        lemma_reduced_congruence(
            (cubic_ax3(x, a) + cubic_bx2(x, b) + cubic_cx(x, c) + d) as int,
            prv as int,
            p,
        );
    }

    if constraint_holds(cc, aux, inp) {
        assert forall|i: int| len0 <= i < post.constraints_vw().len() implies
            constraint_holds(#[trigger] post.constraints_vw()[i], aux, inp) by {
            assert(post.constraints_vw()[i] == cc);
        }
    }
    if post.satisfied() {
        assert(constraint_holds(post.constraints_vw()[len0], aux, inp));
    }
}

impl ComplexCircuit {
    /// Inputs that are present carry reduced field values.
    pub open spec fn wf(self) -> bool {
        &&& (self.x matches Some(v) ==> v@ < modulus())
        &&& (self.a matches Some(v) ==> v@ < modulus())
        &&& (self.b matches Some(v) ==> v@ < modulus())
        &&& (self.c matches Some(v) ==> v@ < modulus())
        &&& (self.d matches Some(v) ==> v@ < modulus())
        &&& (self.m1 matches Some(m) ==> m.wf())
        &&& (self.m2 matches Some(m) ==> m.wf())
        &&& (self.poly_result matches Some(v) ==> v@ < modulus())
        &&& (self.matrix_result matches Some(m) ==> m.wf())
    }

    /// All inputs are present, as a proving pass demands.
    pub open spec fn complete(self) -> bool {
        &&& self.x is Some
        &&& self.a is Some
        &&& self.b is Some
        &&& self.c is Some
        &&& self.d is Some
        &&& self.m1 is Some
        &&& self.m2 is Some
        &&& self.poly_result is Some
        &&& self.matrix_result is Some
    }

    /// How a successful synthesis of this circuit relates the system after
    /// the pass to the system before it.
    pub open spec fn synthesized(self, pre: ConstraintSystem, post: ConstraintSystem) -> bool {
        &&& post.mode == pre.mode
        &&& post.num_aux == pre.num_aux + 24
        &&& post.num_input == pre.num_input + 5
        &&& post.constraints_vw() == pre.constraints_vw().push(
            cubic_constraint(pre.num_aux as int, pre.num_input as int),
        ) + matrix_constraints(pre.num_aux as int + 4, pre.num_input as int + 1)
        &&& (pre.mode == Mode::Setup ==> post.aux_vals() == pre.aux_vals()
            && post.input_vals() == pre.input_vals())
        &&& (pre.mode == Mode::Prove ==> {
            &&& post.aux_vals() == pre.aux_vals() + cubic_aux_vals(
                self.x.unwrap()@,
                self.a.unwrap()@,
                self.b.unwrap()@,
                self.c.unwrap()@,
                self.d.unwrap()@,
            ) + matrix_aux_vals(self.m1.unwrap(), self.m2.unwrap())
            &&& post.input_vals() == pre.input_vals().push(self.poly_result.unwrap()@)
                + matrix_input_vals(self.matrix_result.unwrap())
        })
    }

    /// Synthesizes the polynomial part (one linear-sum gate over witnessed
    /// monomial values) and then the matrix product. In proving mode the
    /// recorded system is satisfied exactly when `poly_result` is the value
    /// of the polynomial and the declared matrix result is the product.
    pub fn synthesize(self, cs: &mut ConstraintSystem) -> (r: Result<(), SynthesisError>)
        requires
            old(cs).wf(),
            self.wf(),
            old(cs).num_aux + 24 <= usize::MAX,
            old(cs).num_input + 5 <= usize::MAX,
        ensures
            final(cs).wf(),
            final(cs).mode == old(cs).mode,
            r is Err <==> (old(cs).mode == Mode::Prove && !self.complete()),
            r is Ok ==> self.synthesized(*old(cs), *final(cs)),
            (old(cs).mode == Mode::Prove && r is Ok) ==> (final(cs).satisfied() <==> (
                old(cs).satisfied()
                    && self.poly_result.unwrap()@ == cubic_eval(
                        self.x.unwrap()@,
                        self.a.unwrap()@,
                        self.b.unwrap()@,
                        self.c.unwrap()@,
                        self.d.unwrap()@,
                    )
                    && mat_mul_correct(
                        self.m1.unwrap(),
                        self.m2.unwrap(),
                        self.matrix_result.unwrap(),
                    )
            )),
    {
        let ghost pre = *old(cs);
        let ghost na = pre.num_aux as int;
        let ghost ni = pre.num_input as int;

        // Monomial witness values, left-associated products as declared.
        let ax3_val = match (&self.a, &self.x) {
            (Some(af), Some(xf)) => Some(fe_mul(&fe_mul(&fe_mul(af, xf), xf), xf)),
            _ => None,
        };
        let bx2_val = match (&self.b, &self.x) {
            (Some(bf), Some(xf)) => Some(fe_mul(&fe_mul(bf, xf), xf)),
            _ => None,
        };
        let cx_val = match (&self.c, &self.x) {
            (Some(cf), Some(xf)) => Some(fe_mul(cf, xf)),
            _ => None,
        };

        let d = cs.allocate_witness(self.d)?;
        let poly_result = cs.allocate_public_input(self.poly_result)?;
        let ax3 = cs.allocate_witness(ax3_val)?;
        let bx2 = cs.allocate_witness(bx2_val)?;
        let cx = cs.allocate_witness(cx_val)?;

        let sum = LinearCombination::new()
            .with_var(ax3)
            .with_var(bx2)
            .with_var(cx)
            .with_var(d);
        let ghost sum_terms = seq![
            (1nat, VarView::Aux(na + 1)),
            (1nat, VarView::Aux(na + 2)),
            (1nat, VarView::Aux(na + 3)),
            (1nat, VarView::Aux(na)),
        ];
        proof {
            assert(sum@ =~= sum_terms);
            assert forall|i: int| 0 <= i < sum_terms.len() implies
                var_in_range((#[trigger] sum_terms[i]).1, cs.num_aux as int, cs.num_input as int)
                    && sum_terms[i].0 < modulus() by {
                if i == 0 {
                    assert(sum_terms[i] == (1nat, VarView::Aux(na + 1)));
                } else if i == 1 {
                    assert(sum_terms[i] == (1nat, VarView::Aux(na + 2)));
                } else if i == 2 {
                    assert(sum_terms[i] == (1nat, VarView::Aux(na + 3)));
                } else {
                    assert(sum_terms[i] == (1nat, VarView::Aux(na)));
                }
            }
        }
        lin_sum_gadget_flipped(cs, sum, poly_result);

        let ghost mid = *cs;
        proof {
            assert(mid.constraints_vw() =~= pre.constraints_vw().push(cubic_constraint(na, ni)));
            if pre.mode == Mode::Prove {
                let xv = self.x.unwrap()@;
                let av = self.a.unwrap()@;
                let bv = self.b.unwrap()@;
                let cv = self.c.unwrap()@;
                let dv = self.d.unwrap()@;
                assert(ax3_val.unwrap()@ == cubic_ax3(xv, av));
                assert(bx2_val.unwrap()@ == cubic_bx2(xv, bv));
                assert(cx_val.unwrap()@ == cubic_cx(xv, cv));
                assert(mid.aux_vals() =~= pre.aux_vals() + cubic_aux_vals(xv, av, bv, cv, dv));
                assert(mid.input_vals() =~= pre.input_vals().push(self.poly_result.unwrap()@));
                lemma_cubic_satisfaction(
                    xv, av, bv, cv, dv, self.poly_result.unwrap()@, pre, mid);
            }
        }

        let mat = synthesize_matrix_product(cs, self.m1, self.m2, self.matrix_result);
        match mat {
            Ok(()) => {},
            Err(e) => {
                return Err(e);
            },
        }

        proof {
            assert(cs.constraints_vw() =~= pre.constraints_vw().push(cubic_constraint(na, ni))
                + matrix_constraints(na + 4, ni + 1));
            if pre.mode == Mode::Prove {
                let xv = self.x.unwrap()@;
                let av = self.a.unwrap()@;
                let bv = self.b.unwrap()@;
                let cv = self.c.unwrap()@;
                let dv = self.d.unwrap()@;
                assert(cs.aux_vals() =~= pre.aux_vals() + cubic_aux_vals(xv, av, bv, cv, dv)
                    + matrix_aux_vals(self.m1.unwrap(), self.m2.unwrap()));
                assert(cs.input_vals() =~= pre.input_vals().push(self.poly_result.unwrap()@)
                    + matrix_input_vals(self.matrix_result.unwrap()));
            }
        }
        Ok(())
    }
}

/// Re-synthesizing the composite circuit over systems with equal topologies
/// yields equal topologies, whatever witness values the two passes carry.
pub proof fn lemma_complex_idempotent(
    c1: ComplexCircuit,
    c2: ComplexCircuit,
    pre1: ConstraintSystem,
    post1: ConstraintSystem,
    pre2: ConstraintSystem,
    post2: ConstraintSystem,
)
    requires
        c1.synthesized(pre1, post1),
        c2.synthesized(pre2, post2),
        pre1.topology() == pre2.topology(),
    ensures
        post1.topology() == post2.topology(),
{
}

} // verus!
