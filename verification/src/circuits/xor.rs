//! The XOR circuit: `a XOR b = result` through the field identity
//! `a + b - 2ab = result`, with private `a`, `b` and public `result`.
//!
//! The identity computes exclusive or only on boolean inputs, and the circuit
//! enforces no booleanity of `a` or `b`: for any field values the system is
//! satisfiable at some `result`. [`lemma_xor_eval_boolean`] gives the boolean
//! case; [`lemma_xor_no_booleanity_check`] documents the non-strictness.

use vstd::prelude::*;
use vstd::arithmetic::div_mod::{lemma_mod_bound, lemma_mod_multiples_basic, lemma_mod_twice, lemma_small_mod};
use crate::modulus;
use crate::field::{fe_from_u64, fe_mul, fe_neg, Fe};
use crate::gadgets::{
    lemma_lin_sum_constraint_holds, lin_sum_constraint, lin_sum_gadget,
};
use crate::math::{lemma_mod_mul_both, lemma_reduced_congruence};
use crate::r1cs::{
    constraint_holds, lc_value, lc_wf, lemma_lc_value1, lemma_lc_value3, lemma_satisfied_extend,
    var_in_range, var_value, ConstraintSystem, ConstraintView, LinearCombination, Mode,
    SynthesisError, VarView,
};

verus! {

/// The circuit `a + b - 2ab = result`.
pub struct XorCircuit {
    pub a: Option<Fe>,
    pub b: Option<Fe>,
    pub result: Option<Fe>,
}

/// The value the circuit's identity assigns to `result`: `a + b - 2ab` in
/// the field, with the subtraction written as a multiple of `modulus() - 1`.
pub open spec fn xor_eval(a: nat, b: nat) -> nat {
    ((a + b + (modulus() - 1) * ((2 * a * b) % modulus())) % (modulus() as int)) as nat
}

/// The first gate of the circuit: `(2a) * b = two_ab`.
pub open spec fn xor_mul_constraint(na: int) -> ConstraintView {
    ConstraintView {
        a: seq![(2nat, VarView::Aux(na))],
        b: seq![(1nat, VarView::Aux(na + 1))],
        c: seq![(1nat, VarView::Aux(na + 2))],
    }
}

/// The two constraints the XOR circuit emits.
pub open spec fn xor_constraints(na: int, ni: int) -> Seq<ConstraintView> {
    seq![
        xor_mul_constraint(na),
        lin_sum_constraint(
            seq![
                (1nat, VarView::Aux(na)),
                (1nat, VarView::Aux(na + 1)),
                ((modulus() - 1) as nat, VarView::Aux(na + 2)),
            ],
            VarView::Input(ni),
        ),
    ]
}

/// On boolean inputs the circuit's identity is exclusive or.
pub proof fn lemma_xor_eval_boolean(a: nat, b: nat)
    requires
        a == 0 || a == 1,
        b == 0 || b == 1,
    ensures
        xor_eval(a, b) == (if a != b { 1nat } else { 0nat }),
{
    let p = modulus() as int;
    if a == 1 && b == 1 {
        assert((2 * a * b) % modulus() == 2) by {
            lemma_small_mod(2nat, modulus());
        }
        assert(a + b + (modulus() - 1) * 2 == 2 * p);
        lemma_mod_multiples_basic(2, p);
    } else {
        assert((2 * a * b) % modulus() == 0) by {
            lemma_small_mod(0nat, modulus());
        }
        if a == 1 || b == 1 {
            lemma_small_mod(1nat, modulus());
        } else {
            lemma_small_mod(0nat, modulus());
        }
    }
}

/// The circuit does not check booleanity: whatever field values `a` and `b`
/// hold, `xor_eval(a, b)` is a reduced field value, so a proving pass with
/// that `result` yields a satisfied system.
pub proof fn lemma_xor_no_booleanity_check(a: nat, b: nat)
    ensures
        xor_eval(a, b) < modulus(),
{
    lemma_mod_bound(
        (a + b + (modulus() - 1) * ((2 * a * b) % modulus())) as int,
        modulus() as int,
    );
}

impl XorCircuit {
    /// Inputs that are present carry reduced field values.
    pub open spec fn wf(self) -> bool {
        &&& (self.a matches Some(v) ==> v@ < modulus())
        &&& (self.b matches Some(v) ==> v@ < modulus())
        &&& (self.result matches Some(v) ==> v@ < modulus())
    }

    /// All inputs are present, as a proving pass demands.
    pub open spec fn complete(self) -> bool {
        self.a is Some && self.b is Some && self.result is Some
    }

    /// How a successful synthesis of this circuit relates the system after
    /// the pass to the system before it.
    pub open spec fn synthesized(self, pre: ConstraintSystem, post: ConstraintSystem) -> bool {
        &&& post.mode == pre.mode
        &&& post.num_aux == pre.num_aux + 3
        &&& post.num_input == pre.num_input + 1
        &&& post.constraints_vw() == pre.constraints_vw()
            + xor_constraints(pre.num_aux as int, pre.num_input as int)
        &&& (pre.mode == Mode::Setup ==> post.aux_vals() == pre.aux_vals()
            && post.input_vals() == pre.input_vals())
        &&& (pre.mode == Mode::Prove ==> {
            &&& post.aux_vals() == pre.aux_vals() + seq![
                self.a.unwrap()@,
                self.b.unwrap()@,
                (2 * self.a.unwrap()@ * self.b.unwrap()@) % modulus(),
            ]
            &&& post.input_vals() == pre.input_vals().push(self.result.unwrap()@)
        })
    }

    /// Allocates `a`, `b`, the public `result` and the intermediate `2ab`,
    /// and emits the two gates. In proving mode the recorded system is
    /// satisfied exactly when `result` equals `a + b - 2ab` in the field.
    pub fn synthesize(self, cs: &mut ConstraintSystem) -> (r: Result<(), SynthesisError>)
        requires
            old(cs).wf(),
            self.wf(),
            old(cs).num_aux + 3 <= usize::MAX,
            old(cs).num_input + 1 <= usize::MAX,
        ensures
            final(cs).wf(),
            final(cs).mode == old(cs).mode,
            r is Err <==> (old(cs).mode == Mode::Prove && !self.complete()),
            r is Ok ==> self.synthesized(*old(cs), *final(cs)),
            (old(cs).mode == Mode::Prove && r is Ok) ==> (final(cs).satisfied() <==> (
                old(cs).satisfied()
                    && self.result.unwrap()@ == xor_eval(self.a.unwrap()@, self.b.unwrap()@)
            )),
    {
        let ghost pre = *old(cs);
        let ghost na = pre.num_aux as int;
        let ghost ni = pre.num_input as int;

        let two = fe_from_u64(2);
        let two_ab_val = match (&self.a, &self.b) {
            (Some(a), Some(b)) => Some(fe_mul(&fe_mul(&two, a), b)),
            _ => None,
        };
        let a = cs.allocate_witness(self.a)?;
        let b = cs.allocate_witness(self.b)?;
        let result = cs.allocate_public_input(self.result)?;
        let two_ab = cs.allocate_witness(two_ab_val)?;

        // First gate: (2a) * b = two_ab.
        let ga = LinearCombination::new().with_term(two, a);
        let gb = LinearCombination::new().with_var(b);
        let gc = LinearCombination::new().with_var(two_ab);
        proof {
            assert(ga@ =~= seq![(2nat, VarView::Aux(na))]);
            assert(gb@ =~= seq![(1nat, VarView::Aux(na + 1))]);
            assert(gc@ =~= seq![(1nat, VarView::Aux(na + 2))]);
            lemma_singleton_wf((2nat, VarView::Aux(na)), cs.num_aux as int, cs.num_input as int);
            lemma_singleton_wf((1nat, VarView::Aux(na + 1)), cs.num_aux as int, cs.num_input as int);
            lemma_singleton_wf((1nat, VarView::Aux(na + 2)), cs.num_aux as int, cs.num_input as int);
        }
        cs.enforce(ga, gb, gc);

        // Second gate: (a + b - 2ab) * 1 = result.
        let one = fe_from_u64(1);
        let neg_one = fe_neg(&one);
        let sum = LinearCombination::new()
            .with_var(a)
            .with_var(b)
            .with_term(neg_one, two_ab);
        let ghost sum_terms = seq![
            (1nat, VarView::Aux(na)),
            (1nat, VarView::Aux(na + 1)),
            ((modulus() - 1) as nat, VarView::Aux(na + 2)),
        ];
        proof {
            assert(sum@ =~= sum_terms);
            assert forall|i: int| 0 <= i < sum_terms.len() implies
                var_in_range((#[trigger] sum_terms[i]).1, cs.num_aux as int, cs.num_input as int)
                    && sum_terms[i].0 < modulus() by {
                if i == 0 {
                    assert(sum_terms[i] == (1nat, VarView::Aux(na)));
                } else if i == 1 {
                    assert(sum_terms[i] == (1nat, VarView::Aux(na + 1)));
                } else {
                    assert(sum_terms[i] == (((modulus() - 1) as nat), VarView::Aux(na + 2)));
                }
            }
        }
        lin_sum_gadget(cs, sum, result);

        proof {
            assert(cs.constraints_vw() =~= pre.constraints_vw() + xor_constraints(na, ni));
            if pre.mode == Mode::Prove {
                let av = self.a.unwrap()@;
                let bv = self.b.unwrap()@;
                let rv = self.result.unwrap()@;
                let tv = (2 * av * bv) % modulus();
                let p = modulus() as int;
                assert(two_ab_val.unwrap()@ == tv) by {
                    lemma_mod_mul_both((2 * av) as int, bv as int, p);
                    lemma_small_mod(2nat, modulus());
                }
                assert(cs.aux_vals() =~= pre.aux_vals() + seq![av, bv, tv]);
                assert(cs.input_vals() =~= pre.input_vals().push(rv));
                lemma_xor_satisfaction(av, bv, rv, pre, *cs);
            }
        }
        Ok(())
    }
}

/// In proving mode, the grown system is satisfied exactly when the system it
/// grew from was and `result` equals the XOR identity at `(a, b)`.
#[verifier::rlimit(60)]
proof fn lemma_xor_satisfaction(av: nat, bv: nat, rv: nat, pre: ConstraintSystem, post: ConstraintSystem)
    requires
        pre.wf(),
        pre.mode == Mode::Prove,
        post.mode == Mode::Prove,
        rv < modulus(),
        post.constraints_vw() == pre.constraints_vw()
            + xor_constraints(pre.num_aux as int, pre.num_input as int),
        post.aux_vals() == pre.aux_vals() + seq![av, bv, (2 * av * bv) % modulus()],
        post.input_vals() == pre.input_vals().push(rv),
    ensures
        post.satisfied() <==> (pre.satisfied() && rv == xor_eval(av, bv)),
{
    let na = pre.num_aux as int;
    let ni = pre.num_input as int;
    let p = modulus() as int;
    let tv = (2 * av * bv) % modulus();
    let aux = post.aux_vals();
    let inp = post.input_vals();
    let len0 = pre.constraints_vw().len() as int;
    let c1 = xor_mul_constraint(na);
    let sum_terms = seq![
        (1nat, VarView::Aux(na)),
        (1nat, VarView::Aux(na + 1)),
        ((modulus() - 1) as nat, VarView::Aux(na + 2)),
    ];
    let c2 = lin_sum_constraint(sum_terms, VarView::Input(ni));

    assert(pre.aux_vals().len() == na);
    assert(pre.input_vals().len() == ni);
    assert(aux[na] == av);
    assert(aux[na + 1] == bv);
    assert(aux[na + 2] == tv);
    assert(inp[ni] == rv);

    lemma_satisfied_extend(pre, post);
    assert(post.constraints_vw()[len0] == c1);
    assert(post.constraints_vw()[len0 + 1] == c2);

    // The product gate holds of the recorded witness.
    lemma_lc_value1((2nat, VarView::Aux(na)), aux, inp);
    lemma_lc_value1((1nat, VarView::Aux(na + 1)), aux, inp);
    lemma_lc_value1((1nat, VarView::Aux(na + 2)), aux, inp);
    assert(var_value(VarView::Aux(na), aux, inp) == av);
    assert(var_value(VarView::Aux(na + 1), aux, inp) == bv);
    assert(var_value(VarView::Aux(na + 2), aux, inp) == tv);
    assert(lc_value(c1.a, aux, inp) == 2nat * var_value(VarView::Aux(na), aux, inp));
    assert(lc_value(c1.b, aux, inp) == 1nat * var_value(VarView::Aux(na + 1), aux, inp));
    assert(lc_value(c1.c, aux, inp) == 1nat * var_value(VarView::Aux(na + 2), aux, inp));
    assert(constraint_holds(c1, aux, inp)) by {
        lemma_mod_twice((2 * av * bv) as int, p);
        assert((2nat * av) * bv == 2 * av * bv);
    }

    // The linear-sum gate pins `result` to the XOR identity.
    lemma_lin_sum_constraint_holds(sum_terms, VarView::Input(ni), aux, inp);
    lemma_lc_value3(
        (1nat, VarView::Aux(na)),
        (1nat, VarView::Aux(na + 1)),
        ((modulus() - 1) as nat, VarView::Aux(na + 2)),
        aux,
        inp,
    );
    assert(((modulus() - 1) as nat) * var_value(VarView::Aux(na + 2), aux, inp)
        == (modulus() - 1) * tv);
    assert(1nat * var_value(VarView::Aux(na), aux, inp) == av);
    assert(1nat * var_value(VarView::Aux(na + 1), aux, inp) == bv);
    assert(lc_value(sum_terms, aux, inp)
        == 1nat * var_value(VarView::Aux(na), aux, inp)
            + 1nat * var_value(VarView::Aux(na + 1), aux, inp)
            + ((modulus() - 1) as nat) * var_value(VarView::Aux(na + 2), aux, inp));
    assert(lc_value(sum_terms, aux, inp) == av + bv + (modulus() - 1) * tv);
    assert(constraint_holds(c2, aux, inp) <==> rv == xor_eval(av, bv)) by {
        lemma_xor_no_booleanity_check(av, bv);
        lemma_reduced_congruence((av + bv + (modulus() - 1) * tv) as int, rv as int, p);
    }

    if constraint_holds(c2, aux, inp) {
        assert forall|i: int| len0 <= i < post.constraints_vw().len() implies
            constraint_holds(#[trigger] post.constraints_vw()[i], aux, inp) by {
            if i == len0 {
                assert(post.constraints_vw()[i] == c1);
            } else {
                assert(post.constraints_vw()[i] == c2);
            }
        }
    }
    if post.satisfied() {
        assert(constraint_holds(post.constraints_vw()[len0 + 1], aux, inp));
    }
}

/// A one-term combination over an allocated variable with a reduced
/// coefficient is well formed.
proof fn lemma_singleton_wf(t: (nat, VarView), na: int, ni: int)
    requires
        var_in_range(t.1, na, ni),
        t.0 < modulus(),
    ensures
        lc_wf(seq![t], na, ni),
{
    let s = seq![t];
    assert forall|i: int| 0 <= i < s.len() implies
        var_in_range((#[trigger] s[i]).1, na, ni) && s[i].0 < modulus() by {
        assert(s[i] == t);
    }
}

/// Re-synthesizing the XOR circuit over systems with equal topologies yields
/// equal topologies, whatever witness values the two passes carry.
pub proof fn lemma_xor_idempotent(
    c1: XorCircuit,
    c2: XorCircuit,
    pre1: ConstraintSystem,
    post1: ConstraintSystem,
    pre2: ConstraintSystem,
    post2: ConstraintSystem,
)
    requires
        c1.synthesized(pre1, post1),
        c2.synthesized(pre2, post2),
        pre1.topology() == pre2.topology(),
    ensures
        post1.topology() == post2.topology(),
{
}

} // verus!
