//! The Fibonacci circuit: the public `fn_val` is constrained to be the `n`th
//! term of the recurrence seeded by the private `f0`, `f1`.
//!
//! The parameter `n` fixes the constraint topology, not a witness value: a
//! setup pass and a proving pass must use the same `n` or their systems are
//! structurally incompatible. Each recurrence step allocates one variable and
//! emits one linear-sum gate `prev + current = next`; a final gate equates
//! the last term with `fn_val`. For `n` below 2 no step is emitted and the
//! final gate equates `f1` with `fn_val`.

use vstd::prelude::*;
use vstd::arithmetic::div_mod::{lemma_mod_bound, lemma_small_mod};
use crate::modulus;
use crate::field::{fe_add, Fe};
use crate::gadgets::{
    lemma_lin_sum_constraint_holds, lin_sum_constraint, lin_sum_constraint_flipped,
    lin_sum_gadget, lin_sum_gadget_flipped,
};
use crate::math::lemma_reduced_congruence;
use crate::r1cs::{
    constraint_holds, lc_value, lemma_lc_value1, lemma_lc_value2, lemma_lc_wf1, lemma_lc_wf2,
    lemma_satisfied_extend, var_value, ConstraintSystem, ConstraintView, LinearCombination, Mode,
    SynthesisError, VarView,
};

verus! {

/// The circuit `fn_val = f_n` where `f_i = f_{i-1} + f_{i-2}` in the field.
pub struct FibonacciCircuit {
    pub f0: Option<Fe>,
    pub f1: Option<Fe>,
    pub fn_val: Option<Fe>,
    pub n: usize,
}

/// The `i`th term of the recurrence in the field.
pub open spec fn fib_mod(f0: nat, f1: nat, i: nat) -> nat
    decreases i,
{
    if i == 0 {
        f0
    } else if i == 1 {
        f1
    } else {
        (fib_mod(f0, f1, (i - 2) as nat) + fib_mod(f0, f1, (i - 1) as nat)) % modulus()
    }
}

/// The index of the term the final gate equates with `fn_val`: the last
/// variable the circuit allocates, which is `f1` when no step runs.
pub open spec fn fib_last(n: int) -> int {
    if n >= 2 {
        n
    } else {
        1
    }
}

/// The step gate for term `i`: `f_{i-2} + f_{i-1} = f_i`.
pub open spec fn fib_step_constraint(na: int, i: int) -> ConstraintView {
    lin_sum_constraint(
        seq![(1nat, VarView::Aux(na + i - 2)), (1nat, VarView::Aux(na + i - 1))],
        VarView::Aux(na + i),
    )
}

/// The step gates for terms `2, ..., i - 1`, in order.
pub open spec fn fib_step_constraints(na: int, i: int) -> Seq<ConstraintView>
    decreases i,
{
    if i <= 2 {
        Seq::empty()
    } else {
        fib_step_constraints(na, i - 1).push(fib_step_constraint(na, i - 1))
    }
}

/// All constraints of the Fibonacci circuit: the step gates and the final
/// equality with the public `fn_val`.
pub open spec fn fibonacci_constraints(na: int, ni: int, n: int) -> Seq<ConstraintView> {
    fib_step_constraints(na, fib_last(n) + 1).push(
        lin_sum_constraint_flipped(
            seq![(1nat, VarView::Aux(na + fib_last(n)))],
            VarView::Input(ni),
        ),
    )
}

/// The terms `f_0, ..., f_{count-1}`, the auxiliary values a proving pass
/// records.
pub open spec fn fib_vals(f0: nat, f1: nat, count: int) -> Seq<nat>
    decreases count,
{
    if count <= 0 {
        Seq::empty()
    } else {
        fib_vals(f0, f1, count - 1).push(fib_mod(f0, f1, (count - 1) as nat))
    }
}

/// Every term of the recurrence over reduced seeds is reduced.
pub proof fn lemma_fib_mod_wf(f0: nat, f1: nat, i: nat)
    requires
        f0 < modulus(),
        f1 < modulus(),
    ensures
        fib_mod(f0, f1, i) < modulus(),
    decreases i,
{
    if i >= 2 {
        lemma_mod_bound(
            (fib_mod(f0, f1, (i - 2) as nat) + fib_mod(f0, f1, (i - 1) as nat)) as int,
            modulus() as int,
        );
    }
}

/// Length and contents of the recorded term sequence.
proof fn lemma_fib_vals_index(f0: nat, f1: nat, count: int)
    ensures
        fib_vals(f0, f1, count).len() == if count <= 0 { 0int } else { count },
        forall|k: int| 0 <= k < count ==> fib_vals(f0, f1, count)[k] == fib_mod(f0, f1, k as nat),
    decreases count,
{
    if count > 0 {
        lemma_fib_vals_index(f0, f1, count - 1);
    }
}

/// Length and contents of the step-gate sequence.
proof fn lemma_fib_steps_index(na: int, i: int)
    ensures
        fib_step_constraints(na, i).len() == if i <= 2 { 0int } else { i - 2 },
        forall|k: int| 0 <= k < i - 2 ==> fib_step_constraints(na, i)[k]
            == fib_step_constraint(na, k + 2),
    decreases i,
{
    if i > 2 {
        lemma_fib_steps_index(na, i - 1);
    }
}

/// In proving mode, the grown system is satisfied exactly when the system it
/// grew from was and `fn_val` is the last term of the recurrence.
#[verifier::rlimit(100)]
proof fn lemma_fib_satisfaction(
    f0: nat,
    f1: nat,
    fnv: nat,
    n: int,
    pre: ConstraintSystem,
    post: ConstraintSystem,
)
    requires
        pre.wf(),
        pre.mode == Mode::Prove,
        post.mode == Mode::Prove,
        f0 < modulus(),
        f1 < modulus(),
        fnv < modulus(),
        post.constraints_vw() == pre.constraints_vw()
            + fibonacci_constraints(pre.num_aux as int, pre.num_input as int, n),
        post.aux_vals() == pre.aux_vals() + fib_vals(f0, f1, fib_last(n) + 1),
        post.input_vals() == pre.input_vals().push(fnv),
    ensures
        post.satisfied() <==> (pre.satisfied() && fnv == fib_mod(f0, f1, fib_last(n) as nat)),
{
    let na = pre.num_aux as int;
    let ni = pre.num_input as int;
    let p = modulus() as int;
    let last = fib_last(n);
    let aux = post.aux_vals();
    let inp = post.input_vals();
    let len0 = pre.constraints_vw().len() as int;
    let fcs = fibonacci_constraints(na, ni, n);

    lemma_fib_vals_index(f0, f1, last + 1);
    lemma_fib_steps_index(na, last + 1);
    assert(fcs.len() == last);

    assert(pre.aux_vals().len() == na);
    assert(pre.input_vals().len() == ni);
    assert forall|k: int| 0 <= k <= last implies #[trigger] aux[na + k] == fib_mod(
        f0,
        f1,
        k as nat,
    ) by {
        assert(fib_vals(f0, f1, last + 1)[k] == fib_mod(f0, f1, k as nat));
    }
    assert(inp[ni] == fnv);
    assert forall|k: int| 0 <= k < fcs.len() implies post.constraints_vw()[len0 + k] == fcs[k] by {}

    lemma_satisfied_extend(pre, post);

    // Every step gate holds of the recorded terms.
    assert forall|k: int| 0 <= k < last - 1 implies constraint_holds(
        #[trigger] fcs[k],
        aux,
        inp,
    ) by {
        let j = k + 2;
        assert(fcs[k] == fib_step_constraint(na, j));
        let t0 = (1nat, VarView::Aux(na + j - 2));
        let t1 = (1nat, VarView::Aux(na + j - 1));
        let terms = seq![t0, t1];
        lemma_lin_sum_constraint_holds(terms, VarView::Aux(na + j), aux, inp);
        lemma_lc_value2(t0, t1, aux, inp);
        let prev = fib_mod(f0, f1, (j - 2) as nat);
        let cur = fib_mod(f0, f1, (j - 1) as nat);
        let nxt = fib_mod(f0, f1, j as nat);
        assert(1nat * var_value(t0.1, aux, inp) == prev);
        assert(1nat * var_value(t1.1, aux, inp) == cur);
        assert(lc_value(terms, aux, inp) == prev + cur);
        assert(nxt == (prev + cur) % modulus());
        lemma_mod_bound((prev + cur) as int, p);
        lemma_small_mod(nxt, modulus());
    }

    // The final gate holds exactly when `fn_val` is the last term.
    let fin_terms = seq![(1nat, VarView::Aux(na + last))];
    let fin = lin_sum_constraint_flipped(fin_terms, VarView::Input(ni));
    assert(fcs[last - 1] == fin);
    lemma_lin_sum_constraint_holds(fin_terms, VarView::Input(ni), aux, inp);
    lemma_lc_value1((1nat, VarView::Aux(na + last)), aux, inp);
    let lastv = fib_mod(f0, f1, last as nat);
    assert(1nat * var_value(VarView::Aux(na + last), aux, inp) == lastv);
    assert(lc_value(fin_terms, aux, inp) == lastv);
    assert(constraint_holds(fin, aux, inp) <==> fnv == lastv) by {
        lemma_fib_mod_wf(f0, f1, last as nat);
        lemma_small_mod(lastv, modulus());
        lemma_small_mod(fnv, modulus());
    }

    if fnv == lastv {
        assert forall|i: int| len0 <= i < post.constraints_vw().len() implies
            constraint_holds(#[trigger] post.constraints_vw()[i], aux, inp) by {
            assert(post.constraints_vw()[i] == fcs[i - len0]);
            if i - len0 < last - 1 {
                assert(constraint_holds(fcs[i - len0], aux, inp));
            } else {
                assert(fcs[i - len0] == fin);
            }
        }
    }
    if post.satisfied() {
        assert(constraint_holds(post.constraints_vw()[len0 + last - 1], aux, inp));
    }
}

impl FibonacciCircuit {
    /// Inputs that are present carry reduced field values.
    pub open spec fn wf(self) -> bool {
        &&& (self.f0 matches Some(v) ==> v@ < modulus())
        &&& (self.f1 matches Some(v) ==> v@ < modulus())
        &&& (self.fn_val matches Some(v) ==> v@ < modulus())
    }

    /// All inputs are present, as a proving pass demands.
    pub open spec fn complete(self) -> bool {
        self.f0 is Some && self.f1 is Some && self.fn_val is Some
    }

    /// How a successful synthesis of this circuit relates the system after
    /// the pass to the system before it.
    pub open spec fn synthesized(self, pre: ConstraintSystem, post: ConstraintSystem) -> bool {
        &&& post.mode == pre.mode
        &&& post.num_aux == pre.num_aux + fib_last(self.n as int) + 1
        &&& post.num_input == pre.num_input + 1
        &&& post.constraints_vw() == pre.constraints_vw()
            + fibonacci_constraints(pre.num_aux as int, pre.num_input as int, self.n as int)
        &&& (pre.mode == Mode::Setup ==> post.aux_vals() == pre.aux_vals()
            && post.input_vals() == pre.input_vals())
        &&& (pre.mode == Mode::Prove ==> {
            &&& post.aux_vals() == pre.aux_vals() + fib_vals(
                self.f0.unwrap()@,
                self.f1.unwrap()@,
                fib_last(self.n as int) + 1,
            )
            &&& post.input_vals() == pre.input_vals().push(self.fn_val.unwrap()@)
        })
    }

    /// Allocates the seeds and the public `fn_val`, then one variable and one
    /// step gate per term, and the final equality gate. In proving mode the
    /// recorded system is satisfied exactly when `fn_val` is the last term of
    /// the recurrence.
    pub fn synthesize(self, cs: &mut ConstraintSystem) -> (r: Result<(), SynthesisError>)
        requires
            old(cs).wf(),
            self.wf(),
            old(cs).num_aux + self.n + 2 <= usize::MAX,
            old(cs).num_input + 1 <= usize::MAX,
        ensures
            final(cs).wf(),
            final(cs).mode == old(cs).mode,
            r is Err <==> (old(cs).mode == Mode::Prove && !self.complete()),
            r is Ok ==> self.synthesized(*old(cs), *final(cs)),
            (old(cs).mode == Mode::Prove && r is Ok) ==> (final(cs).satisfied() <==> (
                old(cs).satisfied() && self.fn_val.unwrap()@ == fib_mod(
                    self.f0.unwrap()@,
                    self.f1.unwrap()@,
                    fib_last(self.n as int) as nat,
                )
            )),
    {
        let ghost pre = *old(cs);
        let ghost na = pre.num_aux as int;
        let ghost ni = pre.num_input as int;

        let mut prev_var = cs.allocate_witness(self.f0)?;
        let mut current_var = cs.allocate_witness(self.f1)?;
        let fn_var = cs.allocate_public_input(self.fn_val)?;

        let mut prev_val = self.f0;
        let mut current_val = self.f1;

        let mut i: usize = 2;
        proof {
            assert(fib_step_constraints(na, 2) =~= Seq::<ConstraintView>::empty());
            assert(cs.constraints_vw() =~= pre.constraints_vw() + fib_step_constraints(na, 2));
            if pre.mode == Mode::Prove {
                lemma_fib_vals_index(self.f0.unwrap()@, self.f1.unwrap()@, 2);
                assert(fib_vals(self.f0.unwrap()@, self.f1.unwrap()@, 2) =~= seq![
                    self.f0.unwrap()@,
                    self.f1.unwrap()@,
                ]);
                assert(cs.aux_vals() =~= pre.aux_vals() + fib_vals(
                    self.f0.unwrap()@, self.f1.unwrap()@, 2));
            }
        }
        while i <= self.n
            invariant
                2 <= i,
                self.n >= 2 ==> i <= self.n + 1,
                self.n < 2 ==> i == 2,
                pre.wf(),
                pre.num_aux == na,
                pre.num_input == ni,
                pre.num_aux + self.n + 2 <= usize::MAX,
                cs.wf(),
                cs.mode == pre.mode,
                cs.num_aux == pre.num_aux + i,
                cs.num_input == pre.num_input + 1,
                self.wf(),
                prev_var@ == VarView::Aux(na + i - 2),
                current_var@ == VarView::Aux(na + i - 1),
                prev_val matches Some(v) ==> v@ < modulus(),
                current_val matches Some(v) ==> v@ < modulus(),
                cs.constraints_vw() == pre.constraints_vw() + fib_step_constraints(na, i as int),
                pre.mode == Mode::Setup ==> cs.aux_vals() == pre.aux_vals()
                    && cs.input_vals() == pre.input_vals(),
                pre.mode == Mode::Prove ==> {
                    &&& self.complete()
                    &&& (prev_val matches Some(v) && v@ == fib_mod(
                        self.f0.unwrap()@, self.f1.unwrap()@, (i - 2) as nat))
                    &&& (current_val matches Some(v) && v@ == fib_mod(
                        self.f0.unwrap()@, self.f1.unwrap()@, (i - 1) as nat))
                    &&& cs.aux_vals() == pre.aux_vals() + fib_vals(
                        self.f0.unwrap()@, self.f1.unwrap()@, i as int)
                    &&& cs.input_vals() == pre.input_vals().push(self.fn_val.unwrap()@)
                },
            decreases self.n + 1 - i,
        {
            let ghost f0v = self.f0.unwrap()@;
            let ghost f1v = self.f1.unwrap()@;
            let next_val = match (&prev_val, &current_val) {
                (Some(pv), Some(cv)) => {
                    proof {
                        if pre.mode == Mode::Prove {
                            lemma_fib_mod_wf(f0v, f1v, (i - 2) as nat);
                            lemma_fib_mod_wf(f0v, f1v, (i - 1) as nat);
                        }
                    }
                    Some(fe_add(pv, cv))
                },
                _ => None,
            };
            proof {
                if pre.mode == Mode::Prove {
                    lemma_fib_mod_wf(f0v, f1v, (i - 2) as nat);
                    lemma_fib_mod_wf(f0v, f1v, (i - 1) as nat);
                    lemma_mod_bound(
                        (fib_mod(f0v, f1v, (i - 2) as nat) + fib_mod(f0v, f1v, (i - 1) as nat)) as int,
                        modulus() as int,
                    );
                }
            }
            let next_var = cs.allocate_witness(next_val)?;
            let terms = LinearCombination::new().with_var(prev_var).with_var(current_var);
            proof {
                assert(terms@ =~= seq![(1nat, prev_var@), (1nat, current_var@)]);
                lemma_lc_wf2(
                    (1nat, prev_var@),
                    (1nat, current_var@),
                    cs.num_aux as int,
                    cs.num_input as int,
                );
            }
            lin_sum_gadget(cs, terms, next_var);
            proof {
                assert(cs.constraints_vw() =~= pre.constraints_vw() + fib_step_constraints(
                    na, i as int + 1));
                if pre.mode == Mode::Prove {
                    assert(next_val.unwrap()@ == fib_mod(f0v, f1v, i as nat));
                    assert(cs.aux_vals() =~= pre.aux_vals() + fib_vals(f0v, f1v, i as int + 1));
                }
            }
            prev_var = current_var;
            current_var = next_var;
            prev_val = current_val;
            current_val = next_val;
            i = i + 1;
        }

        let fin = LinearCombination::new().with_var(current_var);
        proof {
            assert(fin@ =~= seq![(1nat, current_var@)]);
            lemma_lc_wf1((1nat, current_var@), cs.num_aux as int, cs.num_input as int);
        }
        lin_sum_gadget_flipped(cs, fin, fn_var);

        proof {
            let nn = self.n as int;
            assert(current_var@ == VarView::Aux(na + fib_last(nn)));
            assert(cs.constraints_vw() =~= pre.constraints_vw() + fibonacci_constraints(
                na, ni, nn));
            if pre.mode == Mode::Prove {
                let f0v = self.f0.unwrap()@;
                let f1v = self.f1.unwrap()@;
                let fnv = self.fn_val.unwrap()@;
                assert(cs.aux_vals() == pre.aux_vals() + fib_vals(f0v, f1v, fib_last(nn) + 1));
                lemma_fib_satisfaction(f0v, f1v, fnv, nn, pre, *cs);
            }
        }
        Ok(())
    }
}

/// Re-synthesizing the Fibonacci circuit with the same parameter `n` over
/// systems with equal topologies yields equal topologies, whatever witness
/// values the two passes carry. Setup and proving passes with the same `n`
/// therefore agree on the constraint structure.
pub proof fn lemma_fibonacci_idempotent(
    c1: FibonacciCircuit,
    c2: FibonacciCircuit,
    pre1: ConstraintSystem,
    post1: ConstraintSystem,
    pre2: ConstraintSystem,
    post2: ConstraintSystem,
)
    requires
        c1.synthesized(pre1, post1),
        c2.synthesized(pre2, post2),
        c1.n == c2.n,
        pre1.topology() == pre2.topology(),
    ensures
        post1.topology() == post2.topology(),
{
}

} // verus!
