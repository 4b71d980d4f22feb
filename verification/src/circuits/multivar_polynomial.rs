//! The multivariate polynomial circuit:
//! `a·x³y² + b·x²y + c·xy + d = result`, with private `x, y, a, b, c, d` and
//! public `result`.
//!
//! The power ladder `x², x³, y²` is built with one multiplication gate each;
//! each monomial is a chain of binary multiplication gates (a gate multiplies
//! exactly two linear combinations); a final linear-sum gate ties the three
//! monomials plus `d` to `result`. Ten constraints in all.

use vstd::prelude::*;
use vstd::arithmetic::div_mod::lemma_mod_twice;
use crate::modulus;
use crate::field::{fe_mul, Fe};
use crate::gadgets::{
    lemma_lin_sum_constraint_holds, lemma_mul_constraint_holds, lin_sum_constraint, lin_sum_gadget,
    mul_constraint, mul_gadget,
};
use crate::math::{lemma_mod_add_term, lemma_mod_mul_both, lemma_reduced_congruence};
use crate::r1cs::{
    constraint_holds, lc_value, lemma_lc_value4, lemma_satisfied_extend, var_in_range,
    var_value, ConstraintSystem, ConstraintView, LinearCombination, Mode, SynthesisError, VarView,
};

verus! {

/// The circuit `a·x³y² + b·x²y + c·xy + d = result`.
pub struct MultiVarPolynomialCircuit {
    pub x: Option<Fe>,
    pub y: Option<Fe>,
    pub a: Option<Fe>,
    pub b: Option<Fe>,
    pub c: Option<Fe>,
    pub d: Option<Fe>,
    pub result: Option<Fe>,
}

/// The value of the polynomial in the field.
pub open spec fn multivar_eval(x: nat, y: nat, a: nat, b: nat, c: nat, d: nat) -> nat {
    (a * x * x * x * y * y + b * x * x * y + c * x * y + d) % modulus()
}

/// The chained intermediate witness values, each the field product of the two
/// variables its gate multiplies.
pub open spec fn mv_x2(x: nat) -> nat {
    (x * x) % modulus()
}

pub open spec fn mv_x3(x: nat) -> nat {
    (mv_x2(x) * x) % modulus()
}

pub open spec fn mv_y2(y: nat) -> nat {
    (y * y) % modulus()
}

pub open spec fn mv_ax3(x: nat, a: nat) -> nat {
    (a * mv_x3(x)) % modulus()
}

pub open spec fn mv_ax3y2(x: nat, y: nat, a: nat) -> nat {
    (mv_ax3(x, a) * mv_y2(y)) % modulus()
}

pub open spec fn mv_bx2(x: nat, b: nat) -> nat {
    (b * mv_x2(x)) % modulus()
}

pub open spec fn mv_bx2y(x: nat, y: nat, b: nat) -> nat {
    (mv_bx2(x, b) * y) % modulus()
}

pub open spec fn mv_cx(x: nat, c: nat) -> nat {
    (c * x) % modulus()
}

pub open spec fn mv_cxy(x: nat, y: nat, c: nat) -> nat {
    (mv_cx(x, c) * y) % modulus()
}

/// The ten constraints of the circuit: the power ladder, the three monomial
/// chains, and the final sum.
pub open spec fn multivar_constraints(na: int, ni: int) -> Seq<ConstraintView> {
    seq![
        mul_constraint(VarView::Aux(na), VarView::Aux(na), VarView::Aux(na + 6)),
        mul_constraint(VarView::Aux(na + 6), VarView::Aux(na), VarView::Aux(na + 7)),
        mul_constraint(VarView::Aux(na + 1), VarView::Aux(na + 1), VarView::Aux(na + 8)),
        mul_constraint(VarView::Aux(na + 2), VarView::Aux(na + 7), VarView::Aux(na + 9)),
        mul_constraint(VarView::Aux(na + 9), VarView::Aux(na + 8), VarView::Aux(na + 10)),
        mul_constraint(VarView::Aux(na + 3), VarView::Aux(na + 6), VarView::Aux(na + 11)),
        mul_constraint(VarView::Aux(na + 11), VarView::Aux(na + 1), VarView::Aux(na + 12)),
        mul_constraint(VarView::Aux(na + 4), VarView::Aux(na), VarView::Aux(na + 13)),
        mul_constraint(VarView::Aux(na + 13), VarView::Aux(na + 1), VarView::Aux(na + 14)),
        lin_sum_constraint(
            seq![
                (1nat, VarView::Aux(na + 10)),
                (1nat, VarView::Aux(na + 12)),
                (1nat, VarView::Aux(na + 14)),
                (1nat, VarView::Aux(na + 5)),
            ],
            VarView::Input(ni),
        ),
    ]
}

/// The auxiliary values a proving pass records, in allocation order.
pub open spec fn multivar_aux_vals(x: nat, y: nat, a: nat, b: nat, c: nat, d: nat) -> Seq<nat> {
    seq![
        x,
        y,
        a,
        b,
        c,
        d,
        mv_x2(x),
        mv_x3(x),
        mv_y2(y),
        mv_ax3(x, a),
        mv_ax3y2(x, y, a),
        mv_bx2(x, b),
        mv_bx2y(x, y, b),
        mv_cx(x, c),
        mv_cxy(x, y, c),
    ]
}

/// The sum of the chained monomial values equals the polynomial value.
proof fn lemma_multivar_sum(x: nat, y: nat, a: nat, b: nat, c: nat, d: nat)
    ensures
        (mv_ax3y2(x, y, a) + mv_bx2y(x, y, b) + mv_cxy(x, y, c) + d) % modulus()
            == multivar_eval(x, y, a, b, c, d),
{
    let p = modulus() as int;

    // The first monomial chain produces `a·x³y²` in the field.
    assert(mv_ax3y2(x, y, a) == (a * x * x * x * y * y) % modulus()) by {
        lemma_mod_mul_both((x * x) as int, x as int, p);
        assert(mv_x3(x) == (x * x * x) % modulus());
        lemma_mod_mul_both(a as int, (x * x * x) as int, p);
        assert(a * (x * x * x) == a * x * x * x) by (nonlinear_arith);
        assert(mv_ax3(x, a) == (a * x * x * x) % modulus());
        lemma_mod_mul_both((a * x * x * x) as int, (y * y) as int, p);
        assert((a * x * x * x) * (y * y) == a * x * x * x * y * y) by (nonlinear_arith);
    }

    // The second chain produces `b·x²y`.
    assert(mv_bx2y(x, y, b) == (b * x * x * y) % modulus()) by {
        lemma_mod_mul_both(b as int, (x * x) as int, p);
        assert(b * (x * x) == b * x * x) by (nonlinear_arith);
        assert(mv_bx2(x, b) == (b * x * x) % modulus());
        lemma_mod_mul_both((b * x * x) as int, y as int, p);
    }

    // The third chain produces `c·xy`.
    assert(mv_cxy(x, y, c) == (c * x * y) % modulus()) by {
        lemma_mod_mul_both((c * x) as int, y as int, p);
    }

    // Fold the three reduced monomials into the unreduced sum.
    let t1 = (a * x * x * x * y * y) as int;
    let t2 = (b * x * x * y) as int;
    let t3 = (c * x * y) as int;
    lemma_mod_add_term(t1, (t2 % p) + (t3 % p) + d, p);
    lemma_mod_add_term(t2, t1 + (t3 % p) + d, p);
    lemma_mod_add_term(t3, t1 + t2 + d, p);
}

impl MultiVarPolynomialCircuit {
    /// Inputs that are present carry reduced field values.
    pub open spec fn wf(self) -> bool {
        &&& (self.x matches Some(v) ==> v@ < modulus())
        &&& (self.y matches Some(v) ==> v@ < modulus())
        &&& (self.a matches Some(v) ==> v@ < modulus())
        &&& (self.b matches Some(v) ==> v@ < modulus())
        &&& (self.c matches Some(v) ==> v@ < modulus())
        &&& (self.d matches Some(v) ==> v@ < modulus())
        &&& (self.result matches Some(v) ==> v@ < modulus())
    }

    /// All inputs are present, as a proving pass demands.
    pub open spec fn complete(self) -> bool {
        &&& self.x is Some
        &&& self.y is Some
        &&& self.a is Some
        &&& self.b is Some
        &&& self.c is Some
        &&& self.d is Some
        &&& self.result is Some
    }

    /// How a successful synthesis of this circuit relates the system after
    /// the pass to the system before it.
    pub open spec fn synthesized(self, pre: ConstraintSystem, post: ConstraintSystem) -> bool {
        &&& post.mode == pre.mode
        &&& post.num_aux == pre.num_aux + 15
        &&& post.num_input == pre.num_input + 1
        &&& post.constraints_vw() == pre.constraints_vw()
            + multivar_constraints(pre.num_aux as int, pre.num_input as int)
        &&& (pre.mode == Mode::Setup ==> post.aux_vals() == pre.aux_vals()
            && post.input_vals() == pre.input_vals())
        &&& (pre.mode == Mode::Prove ==> {
            &&& post.aux_vals() == pre.aux_vals() + multivar_aux_vals(
                self.x.unwrap()@,
                self.y.unwrap()@,
                self.a.unwrap()@,
                self.b.unwrap()@,
                self.c.unwrap()@,
                self.d.unwrap()@,
            )
            &&& post.input_vals() == pre.input_vals().push(self.result.unwrap()@)
        })
    }

    /// Allocates the six inputs, the public `result`, and the nine chained
    /// intermediates with their gates, then the final sum gate. In proving
    /// mode the recorded system is satisfied exactly when `result` is the
    /// value of the polynomial.
    #[verifier::rlimit(60)]
    pub fn synthesize(self, cs: &mut ConstraintSystem) -> (r: Result<(), SynthesisError>)
        requires
            old(cs).wf(),
            self.wf(),
            old(cs).num_aux + 15 <= usize::MAX,
            old(cs).num_input + 1 <= usize::MAX,
        ensures
            final(cs).wf(),
            final(cs).mode == old(cs).mode,
            r is Err <==> (old(cs).mode == Mode::Prove && !self.complete()),
            r is Ok ==> self.synthesized(*old(cs), *final(cs)),
            (old(cs).mode == Mode::Prove && r is Ok) ==> (final(cs).satisfied() <==> (
                old(cs).satisfied() && self.result.unwrap()@ == multivar_eval(
                    self.x.unwrap()@,
                    self.y.unwrap()@,
                    self.a.unwrap()@,
                    self.b.unwrap()@,
                    self.c.unwrap()@,
                    self.d.unwrap()@,
                )
            )),
    {
        let ghost pre = *old(cs);
        let ghost na = pre.num_aux as int;
        let ghost ni = pre.num_input as int;

        // Chained witness values, each the product its gate will check.
        let x2_val = match (&self.x, &self.x) {
            (Some(xa), Some(xb)) => Some(fe_mul(xa, xb)),
            _ => None,
        };
        let x3_val = match (&x2_val, &self.x) {
            (Some(x2), Some(xf)) => Some(fe_mul(x2, xf)),
            _ => None,
        };
        let y2_val = match &self.y {
            Some(yf) => Some(fe_mul(yf, yf)),
            None => None,
        };
        let ax3_val = match (&self.a, &x3_val) {
            (Some(af), Some(x3)) => Some(fe_mul(af, x3)),
            _ => None,
        };
        let ax3y2_val = match (&ax3_val, &y2_val) {
            (Some(ax3), Some(y2)) => Some(fe_mul(ax3, y2)),
            _ => None,
        };
        let bx2_val = match (&self.b, &x2_val) {
            (Some(bf), Some(x2)) => Some(fe_mul(bf, x2)),
            _ => None,
        };
        let bx2y_val = match (&bx2_val, &self.y) {
            (Some(bx2), Some(yf)) => Some(fe_mul(bx2, yf)),
            _ => None,
        };
        let cx_val = match (&self.c, &self.x) {
            (Some(cf), Some(xf)) => Some(fe_mul(cf, xf)),
            _ => None,
        };
        let cxy_val = match (&cx_val, &self.y) {
            (Some(cx), Some(yf)) => Some(fe_mul(cx, yf)),
            _ => None,
        };

        let x = cs.allocate_witness(self.x)?;
        let y = cs.allocate_witness(self.y)?;
        let a = cs.allocate_witness(self.a)?;
        let b = cs.allocate_witness(self.b)?;
        let c = cs.allocate_witness(self.c)?;
        let d = cs.allocate_witness(self.d)?;
        let result = cs.allocate_public_input(self.result)?;

        let x2 = cs.allocate_witness(x2_val)?;
        mul_gadget(cs, x, x, x2);
        let x3 = cs.allocate_witness(x3_val)?;
        mul_gadget(cs, x2, x, x3);
        let y2 = cs.allocate_witness(y2_val)?;
        mul_gadget(cs, y, y, y2);
        let ax3 = cs.allocate_witness(ax3_val)?;
        mul_gadget(cs, a, x3, ax3);
        let ax3y2 = cs.allocate_witness(ax3y2_val)?;
        mul_gadget(cs, ax3, y2, ax3y2);
        let bx2 = cs.allocate_witness(bx2_val)?;
        mul_gadget(cs, b, x2, bx2);
        let bx2y = cs.allocate_witness(bx2y_val)?;
        mul_gadget(cs, bx2, y, bx2y);
        let cx = cs.allocate_witness(cx_val)?;
        mul_gadget(cs, c, x, cx);
        let cxy = cs.allocate_witness(cxy_val)?;
        mul_gadget(cs, cx, y, cxy);

        let sum = LinearCombination::new()
            .with_var(ax3y2)
            .with_var(bx2y)
            .with_var(cxy)
            .with_var(d);
        let ghost sum_terms = seq![
            (1nat, VarView::Aux(na + 10)),
            (1nat, VarView::Aux(na + 12)),
            (1nat, VarView::Aux(na + 14)),
            (1nat, VarView::Aux(na + 5)),
        ];
        proof {
            assert(sum@ =~= sum_terms);
            assert forall|i: int| 0 <= i < sum_terms.len() implies
                var_in_range((#[trigger] sum_terms[i]).1, cs.num_aux as int, cs.num_input as int)
                    && sum_terms[i].0 < modulus() by {
                if i == 0 {
                    assert(sum_terms[i] == (1nat, VarView::Aux(na + 10)));
                } else if i == 1 {
                    assert(sum_terms[i] == (1nat, VarView::Aux(na + 12)));
                } else if i == 2 {
                    assert(sum_terms[i] == (1nat, VarView::Aux(na + 14)));
                } else {
                    assert(sum_terms[i] == (1nat, VarView::Aux(na + 5)));
                }
            }
        }
        lin_sum_gadget(cs, sum, result);

        proof {
            assert(cs.constraints_vw() =~= pre.constraints_vw() + multivar_constraints(na, ni));
            if pre.mode == Mode::Prove {
                let xv = self.x.unwrap()@;
                let yv = self.y.unwrap()@;
                let av = self.a.unwrap()@;
                let bv = self.b.unwrap()@;
                let cv = self.c.unwrap()@;
                let dv = self.d.unwrap()@;
                let rv = self.result.unwrap()@;
                assert(cs.aux_vals() =~= pre.aux_vals() + multivar_aux_vals(
                    xv, yv, av, bv, cv, dv));
                assert(cs.input_vals() =~= pre.input_vals().push(rv));
                lemma_multivar_satisfaction(xv, yv, av, bv, cv, dv, rv, pre, *cs);
            }
        }
        Ok(())
    }
}

/// In proving mode, the grown system is satisfied exactly when the system it
/// grew from was and `result` is the value of the polynomial.
#[verifier::rlimit(100)]
proof fn lemma_multivar_satisfaction(
    x: nat,
    y: nat,
    a: nat,
    b: nat,
    c: nat,
    d: nat,
    rv: nat,
    pre: ConstraintSystem,
    post: ConstraintSystem,
)
    requires
        pre.wf(),
        pre.mode == Mode::Prove,
        post.mode == Mode::Prove,
        rv < modulus(),
        post.constraints_vw() == pre.constraints_vw()
            + multivar_constraints(pre.num_aux as int, pre.num_input as int),
        post.aux_vals() == pre.aux_vals() + multivar_aux_vals(x, y, a, b, c, d),
        post.input_vals() == pre.input_vals().push(rv),
    ensures
        post.satisfied() <==> (pre.satisfied() && rv == multivar_eval(x, y, a, b, c, d)),
{
    let na = pre.num_aux as int;
    let ni = pre.num_input as int;
    let p = modulus() as int;
    let aux = post.aux_vals();
    let inp = post.input_vals();
    let mav = multivar_aux_vals(x, y, a, b, c, d);
    let mcs = multivar_constraints(na, ni);
    let len0 = pre.constraints_vw().len() as int;

    assert(pre.aux_vals().len() == na);
    assert(pre.input_vals().len() == ni);
    assert(mav.len() == 15);
    assert(mcs.len() == 10);

    assert forall|k: int| 0 <= k < 15 implies aux[na + k] == mav[k] by {}
    assert(inp[ni] == rv);
    assert forall|k: int| 0 <= k < 10 implies post.constraints_vw()[len0 + k] == mcs[k] by {}

    lemma_satisfied_extend(pre, post);

    // Each multiplication gate checks exactly the product its witness value
    // was computed as, so all nine hold.
    assert(constraint_holds(mcs[0], aux, inp)) by {
        lemma_mul_constraint_holds(VarView::Aux(na), VarView::Aux(na), VarView::Aux(na + 6), aux, inp);
        lemma_mod_twice((x * x) as int, p);
    }
    assert(constraint_holds(mcs[1], aux, inp)) by {
        lemma_mul_constraint_holds(VarView::Aux(na + 6), VarView::Aux(na), VarView::Aux(na + 7), aux, inp);
        lemma_mod_twice((mv_x2(x) * x) as int, p);
    }
    assert(constraint_holds(mcs[2], aux, inp)) by {
        lemma_mul_constraint_holds(VarView::Aux(na + 1), VarView::Aux(na + 1), VarView::Aux(na + 8), aux, inp);
        lemma_mod_twice((y * y) as int, p);
    }
    assert(constraint_holds(mcs[3], aux, inp)) by {
        lemma_mul_constraint_holds(VarView::Aux(na + 2), VarView::Aux(na + 7), VarView::Aux(na + 9), aux, inp);
        lemma_mod_twice((a * mv_x3(x)) as int, p);
    }
    assert(constraint_holds(mcs[4], aux, inp)) by {
        lemma_mul_constraint_holds(VarView::Aux(na + 9), VarView::Aux(na + 8), VarView::Aux(na + 10), aux, inp);
        lemma_mod_twice((mv_ax3(x, a) * mv_y2(y)) as int, p);
    }
    assert(constraint_holds(mcs[5], aux, inp)) by {
        lemma_mul_constraint_holds(VarView::Aux(na + 3), VarView::Aux(na + 6), VarView::Aux(na + 11), aux, inp);
        lemma_mod_twice((b * mv_x2(x)) as int, p);
    }
    assert(constraint_holds(mcs[6], aux, inp)) by {
        lemma_mul_constraint_holds(VarView::Aux(na + 11), VarView::Aux(na + 1), VarView::Aux(na + 12), aux, inp);
        lemma_mod_twice((mv_bx2(x, b) * y) as int, p);
    }
    assert(constraint_holds(mcs[7], aux, inp)) by {
        lemma_mul_constraint_holds(VarView::Aux(na + 4), VarView::Aux(na), VarView::Aux(na + 13), aux, inp);
        lemma_mod_twice((c * x) as int, p);
    }
    assert(constraint_holds(mcs[8], aux, inp)) by {
        lemma_mul_constraint_holds(VarView::Aux(na + 13), VarView::Aux(na + 1), VarView::Aux(na + 14), aux, inp);
        lemma_mod_twice((mv_cx(x, c) * y) as int, p);
    }

    // The final sum gate pins `result` to the polynomial value.
    let sum_terms = seq![
        (1nat, VarView::Aux(na + 10)),
        (1nat, VarView::Aux(na + 12)),
        (1nat, VarView::Aux(na + 14)),
        (1nat, VarView::Aux(na + 5)),
    ];
    lemma_lin_sum_constraint_holds(sum_terms, VarView::Input(ni), aux, inp);
    lemma_lc_value4(
        (1nat, VarView::Aux(na + 10)),
        (1nat, VarView::Aux(na + 12)),
        (1nat, VarView::Aux(na + 14)),
        (1nat, VarView::Aux(na + 5)),
        aux,
        inp,
    );
    assert(1nat * var_value(VarView::Aux(na + 10), aux, inp) == mv_ax3y2(x, y, a));
    assert(1nat * var_value(VarView::Aux(na + 12), aux, inp) == mv_bx2y(x, y, b));
    assert(1nat * var_value(VarView::Aux(na + 14), aux, inp) == mv_cxy(x, y, c));
    assert(1nat * var_value(VarView::Aux(na + 5), aux, inp) == d);
    assert(lc_value(sum_terms, aux, inp)
        == 1nat * var_value(VarView::Aux(na + 10), aux, inp)
            + 1nat * var_value(VarView::Aux(na + 12), aux, inp)
            + 1nat * var_value(VarView::Aux(na + 14), aux, inp)
            + 1nat * var_value(VarView::Aux(na + 5), aux, inp));
    assert(lc_value(sum_terms, aux, inp)
        == mv_ax3y2(x, y, a) + mv_bx2y(x, y, b) + mv_cxy(x, y, c) + d);
    assert(constraint_holds(mcs[9], aux, inp) <==> rv == multivar_eval(x, y, a, b, c, d)) by {
        lemma_multivar_sum(x, y, a, b, c, d);
        lemma_reduced_congruence(
            (mv_ax3y2(x, y, a) + mv_bx2y(x, y, b) + mv_cxy(x, y, c) + d) as int,
            rv as int,
            p,
        );
    }

    if rv == multivar_eval(x, y, a, b, c, d) {
        assert forall|i: int| len0 <= i < post.constraints_vw().len() implies
            constraint_holds(#[trigger] post.constraints_vw()[i], aux, inp) by {
            assert(post.constraints_vw()[i] == mcs[i - len0]);
        }
    }
    if post.satisfied() {
        assert(constraint_holds(post.constraints_vw()[len0 + 9], aux, inp));
    }
}

/// Re-synthesizing the multivariate circuit over systems with equal
/// topologies yields equal topologies, whatever witness values the two
/// passes carry.
pub proof fn lemma_multivar_idempotent(
    c1: MultiVarPolynomialCircuit,
    c2: MultiVarPolynomialCircuit,
    pre1: ConstraintSystem,
    post1: ConstraintSystem,
    pre2: ConstraintSystem,
    post2: ConstraintSystem,
)
    requires
        c1.synthesized(pre1, post1),
        c2.synthesized(pre2, post2),
        pre1.topology() == pre2.topology(),
    ensures
        post1.topology() == post2.topology(),
{
}

} // verus!
