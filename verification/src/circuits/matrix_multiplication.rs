//! The matrix-multiplication circuit: a public 2×2 `matrix_result` is
//! constrained to be the product of two private 2×2 matrices `m1` and `m2`.
//!
//! For each output cell the two entrywise products are fixed by
//! multiplication gates, a running sum combines them, and a final gate
//! equates the sum with the declared public cell: four constraints per cell,
//! sixteen in all.

use vstd::prelude::*;
use vstd::arithmetic::div_mod::{lemma_add_mod_noop, lemma_mod_twice};
use crate::modulus;
use crate::field::{fe_add, fe_mul, Fe};
use crate::gadgets::{
    lemma_lin_sum_constraint_holds, lemma_mul_constraint_holds, lin_sum_constraint_flipped,
    lin_sum_gadget_flipped, mul_constraint, mul_gadget,
};
use crate::math::lemma_reduced_congruence;
use crate::r1cs::{
    constraint_holds, lc_value, lemma_lc_value1, lemma_lc_value2, lemma_lc_wf1, lemma_lc_wf2,
    lemma_satisfied_extend, var_value, ConstraintSystem, ConstraintView,
    LinearCombination, Mode, SynthesisError, VarView,
};

verus! {

/// A 2×2 matrix of field elements, row major.
#[derive(Clone, Copy)]
pub struct Matrix2 {
    pub m00: Fe,
    pub m01: Fe,
    pub m10: Fe,
    pub m11: Fe,
}

impl Matrix2 {
    /// The ghost value of entry `(i, j)`.
    pub open spec fn entry(self, i: int, j: int) -> nat {
        if i == 0 && j == 0 {
            self.m00@
        } else if i == 0 && j == 1 {
            self.m01@
        } else if i == 1 && j == 0 {
            self.m10@
        } else {
            self.m11@
        }
    }

    /// All entries are reduced field values.
    pub open spec fn wf(self) -> bool {
        &&& self.m00@ < modulus()
        &&& self.m01@ < modulus()
        &&& self.m10@ < modulus()
        &&& self.m11@ < modulus()
    }

    /// Entry `(i, j)` as an executable value.
    pub fn get(&self, i: usize, j: usize) -> (r: Fe)
        requires
            i < 2,
            j < 2,
        ensures
            r@ == self.entry(i as int, j as int),
    {
        if i == 0 {
            if j == 0 { self.m00 } else { self.m01 }
        } else {
            if j == 0 { self.m10 } else { self.m11 }
        }
    }
}

/// The circuit `matrix_result = m1 × m2` over 2×2 matrices.
pub struct MatrixMultiplication {
    pub m1: Option<Matrix2>,
    pub m2: Option<Matrix2>,
    pub matrix_result: Option<Matrix2>,
}

/// Entry `(i, j)` of the matrix product in the field.
pub open spec fn mat_mul_entry(m1: Matrix2, m2: Matrix2, i: int, j: int) -> nat {
    (m1.entry(i, 0) * m2.entry(0, j) + m1.entry(i, 1) * m2.entry(1, j)) % modulus()
}

/// The declared result equals the matrix product entrywise.
pub open spec fn mat_mul_correct(m1: Matrix2, m2: Matrix2, res: Matrix2) -> bool {
    &&& res.entry(0, 0) == mat_mul_entry(m1, m2, 0, 0)
    &&& res.entry(0, 1) == mat_mul_entry(m1, m2, 0, 1)
    &&& res.entry(1, 0) == mat_mul_entry(m1, m2, 1, 0)
    &&& res.entry(1, 1) == mat_mul_entry(m1, m2, 1, 1)
}

/// The sixteen constraints of the matrix product, over the base variable
/// counts: per cell, two entrywise products, one running sum, one equality
/// with the declared public cell.
pub open spec fn matrix_constraints(na: int, ni: int) -> Seq<ConstraintView> {
    seq![
        // cell (0, 0)
        mul_constraint(VarView::Aux(na), VarView::Aux(na + 1), VarView::Aux(na + 8)),
        mul_constraint(VarView::Aux(na + 2), VarView::Aux(na + 5), VarView::Aux(na + 9)),
        lin_sum_constraint_flipped(
            seq![(1nat, VarView::Aux(na + 8)), (1nat, VarView::Aux(na + 9))],
            VarView::Aux(na + 10),
        ),
        lin_sum_constraint_flipped(seq![(1nat, VarView::Aux(na + 10))], VarView::Input(ni)),
        // cell (0, 1)
        mul_constraint(VarView::Aux(na), VarView::Aux(na + 3), VarView::Aux(na + 11)),
        mul_constraint(VarView::Aux(na + 2), VarView::Aux(na + 7), VarView::Aux(na + 12)),
        lin_sum_constraint_flipped(
            seq![(1nat, VarView::Aux(na + 11)), (1nat, VarView::Aux(na + 12))],
            VarView::Aux(na + 13),
        ),
        lin_sum_constraint_flipped(seq![(1nat, VarView::Aux(na + 13))], VarView::Input(ni + 1)),
        // cell (1, 0)
        mul_constraint(VarView::Aux(na + 4), VarView::Aux(na + 1), VarView::Aux(na + 14)),
        mul_constraint(VarView::Aux(na + 6), VarView::Aux(na + 5), VarView::Aux(na + 15)),
        lin_sum_constraint_flipped(
            seq![(1nat, VarView::Aux(na + 14)), (1nat, VarView::Aux(na + 15))],
            VarView::Aux(na + 16),
        ),
        lin_sum_constraint_flipped(seq![(1nat, VarView::Aux(na + 16))], VarView::Input(ni + 2)),
        // cell (1, 1)
        mul_constraint(VarView::Aux(na + 4), VarView::Aux(na + 3), VarView::Aux(na + 17)),
        mul_constraint(VarView::Aux(na + 6), VarView::Aux(na + 7), VarView::Aux(na + 18)),
        lin_sum_constraint_flipped(
            seq![(1nat, VarView::Aux(na + 17)), (1nat, VarView::Aux(na + 18))],
            VarView::Aux(na + 19),
        ),
        lin_sum_constraint_flipped(seq![(1nat, VarView::Aux(na + 19))], VarView::Input(ni + 3)),
    ]
}

/// The auxiliary values a proving pass records: the eight matrix entries in
/// allocation order, then per cell the two products and their running sum.
pub open spec fn matrix_aux_vals(m1: Matrix2, m2: Matrix2) -> Seq<nat> {
    let p = modulus();
    seq![
        m1.entry(0, 0),
        m2.entry(0, 0),
        m1.entry(0, 1),
        m2.entry(0, 1),
        m1.entry(1, 0),
        m2.entry(1, 0),
        m1.entry(1, 1),
        m2.entry(1, 1),
        (m1.entry(0, 0) * m2.entry(0, 0)) % p,
        (m1.entry(0, 1) * m2.entry(1, 0)) % p,
        ((m1.entry(0, 0) * m2.entry(0, 0)) % p + (m1.entry(0, 1) * m2.entry(1, 0)) % p) % p,
        (m1.entry(0, 0) * m2.entry(0, 1)) % p,
        (m1.entry(0, 1) * m2.entry(1, 1)) % p,
        ((m1.entry(0, 0) * m2.entry(0, 1)) % p + (m1.entry(0, 1) * m2.entry(1, 1)) % p) % p,
        (m1.entry(1, 0) * m2.entry(0, 0)) % p,
        (m1.entry(1, 1) * m2.entry(1, 0)) % p,
        ((m1.entry(1, 0) * m2.entry(0, 0)) % p + (m1.entry(1, 1) * m2.entry(1, 0)) % p) % p,
        (m1.entry(1, 0) * m2.entry(0, 1)) % p,
        (m1.entry(1, 1) * m2.entry(1, 1)) % p,
        ((m1.entry(1, 0) * m2.entry(0, 1)) % p + (m1.entry(1, 1) * m2.entry(1, 1)) % p) % p,
    ]
}

/// The public input values a proving pass records: the declared result
/// entries in row-major order.
pub open spec fn matrix_input_vals(res: Matrix2) -> Seq<nat> {
    seq![res.entry(0, 0), res.entry(0, 1), res.entry(1, 0), res.entry(1, 1)]
}

/// How a successful synthesis of the matrix product relates the system after
/// the pass to the system before it.
pub open spec fn matrix_synthesized(
    m1: Option<Matrix2>,
    m2: Option<Matrix2>,
    res: Option<Matrix2>,
    pre: ConstraintSystem,
    post: ConstraintSystem,
) -> bool {
    &&& post.mode == pre.mode
    &&& post.num_aux == pre.num_aux + 20
    &&& post.num_input == pre.num_input + 4
    &&& post.constraints_vw() == pre.constraints_vw()
        + matrix_constraints(pre.num_aux as int, pre.num_input as int)
    &&& (pre.mode == Mode::Setup ==> post.aux_vals() == pre.aux_vals()
        && post.input_vals() == pre.input_vals())
    &&& (pre.mode == Mode::Prove ==> {
        &&& post.aux_vals() == pre.aux_vals() + matrix_aux_vals(m1.unwrap(), m2.unwrap())
        &&& post.input_vals() == pre.input_vals() + matrix_input_vals(res.unwrap())
    })
}

/// The entry `(i, j)` of a well-formed matrix is reduced.
pub proof fn lemma_entry_wf(m: Matrix2, i: int, j: int)
    requires
        m.wf(),
    ensures
        m.entry(i, j) < modulus(),
{
}

/// The four constraints of one output cell: the product and sum gates hold
/// of the recorded witness, and the equality gate holds exactly when the
/// declared entry is the product entry.
#[verifier::rlimit(30)]
proof fn lemma_cell_constraints(
    aux: Seq<nat>,
    inp: Seq<nat>,
    vx0: int,
    vy0: int,
    vx1: int,
    vy1: int,
    vp0: int,
    vp1: int,
    vs: int,
    vr: int,
    x0: nat,
    y0: nat,
    x1: nat,
    y1: nat,
    rv: nat,
)
    requires
        0 <= vx0 < aux.len(),
        0 <= vy0 < aux.len(),
        0 <= vx1 < aux.len(),
        0 <= vy1 < aux.len(),
        0 <= vp0 < aux.len(),
        0 <= vp1 < aux.len(),
        0 <= vs < aux.len(),
        0 <= vr < inp.len(),
        aux[vx0] == x0,
        aux[vy0] == y0,
        aux[vx1] == x1,
        aux[vy1] == y1,
        aux[vp0] == (x0 * y0) % modulus(),
        aux[vp1] == (x1 * y1) % modulus(),
        aux[vs] == ((x0 * y0) % modulus() + (x1 * y1) % modulus()) % modulus(),
        inp[vr] == rv,
        rv < modulus(),
    ensures
        constraint_holds(
            mul_constraint(VarView::Aux(vx0), VarView::Aux(vy0), VarView::Aux(vp0)), aux, inp),
        constraint_holds(
            mul_constraint(VarView::Aux(vx1), VarView::Aux(vy1), VarView::Aux(vp1)), aux, inp),
        constraint_holds(
            lin_sum_constraint_flipped(
                seq![(1nat, VarView::Aux(vp0)), (1nat, VarView::Aux(vp1))],
                VarView::Aux(vs),
            ),
            aux,
            inp,
        ),
        constraint_holds(
            lin_sum_constraint_flipped(seq![(1nat, VarView::Aux(vs))], VarView::Input(vr)),
            aux,
            inp,
        ) <==> rv == (x0 * y0 + x1 * y1) % modulus(),
{
    let p = modulus() as int;
    let p0 = (x0 * y0) % modulus();
    let p1 = (x1 * y1) % modulus();
    let sv = (p0 + p1) % modulus();

    lemma_mul_constraint_holds(VarView::Aux(vx0), VarView::Aux(vy0), VarView::Aux(vp0), aux, inp);
    lemma_mod_twice((x0 * y0) as int, p);
    lemma_mul_constraint_holds(VarView::Aux(vx1), VarView::Aux(vy1), VarView::Aux(vp1), aux, inp);
    lemma_mod_twice((x1 * y1) as int, p);

    let sum_terms = seq![(1nat, VarView::Aux(vp0)), (1nat, VarView::Aux(vp1))];
    lemma_lin_sum_constraint_holds(sum_terms, VarView::Aux(vs), aux, inp);
    lemma_lc_value2((1nat, VarView::Aux(vp0)), (1nat, VarView::Aux(vp1)), aux, inp);
    assert(var_value(VarView::Aux(vp0), aux, inp) == p0);
    assert(var_value(VarView::Aux(vp1), aux, inp) == p1);
    assert(lc_value(sum_terms, aux, inp)
        == 1nat * var_value(VarView::Aux(vp0), aux, inp)
            + 1nat * var_value(VarView::Aux(vp1), aux, inp));
    assert(lc_value(sum_terms, aux, inp) == p0 + p1);
    lemma_mod_twice((p0 + p1) as int, p);

    let res_terms = seq![(1nat, VarView::Aux(vs))];
    lemma_lin_sum_constraint_holds(res_terms, VarView::Input(vr), aux, inp);
    lemma_lc_value1((1nat, VarView::Aux(vs)), aux, inp);
    assert(var_value(VarView::Aux(vs), aux, inp) == sv);
    assert(lc_value(res_terms, aux, inp) == 1nat * var_value(VarView::Aux(vs), aux, inp));
    assert(lc_value(res_terms, aux, inp) == sv);
    // The running sum equals the product entry.
    lemma_add_mod_noop((x0 * y0) as int, (x1 * y1) as int, p);
    assert(sv == (x0 * y0 + x1 * y1) % modulus());
    lemma_reduced_congruence(sv as int, rv as int, p);
}

/// In proving mode, the grown system is satisfied exactly when the system it
/// grew from was and the declared result is the matrix product.
#[verifier::rlimit(100)]
proof fn lemma_matrix_satisfaction(
    m1: Matrix2,
    m2: Matrix2,
    res: Matrix2,
    pre: ConstraintSystem,
    post: ConstraintSystem,
)
    requires
        pre.wf(),
        pre.mode == Mode::Prove,
        post.mode == Mode::Prove,
        m1.wf(),
        m2.wf(),
        res.wf(),
        post.constraints_vw() == pre.constraints_vw()
            + matrix_constraints(pre.num_aux as int, pre.num_input as int),
        post.aux_vals() == pre.aux_vals() + matrix_aux_vals(m1, m2),
        post.input_vals() == pre.input_vals() + matrix_input_vals(res),
    ensures
        post.satisfied() <==> (pre.satisfied() && mat_mul_correct(m1, m2, res)),
{
    let na = pre.num_aux as int;
    let ni = pre.num_input as int;
    let p = modulus();
    let aux = post.aux_vals();
    let inp = post.input_vals();
    let mav = matrix_aux_vals(m1, m2);
    let miv = matrix_input_vals(res);
    let mcs = matrix_constraints(na, ni);
    let len0 = pre.constraints_vw().len() as int;

    assert(pre.aux_vals().len() == na);
    assert(pre.input_vals().len() == ni);
    assert(mav.len() == 20);
    assert(miv.len() == 4);
    assert(mcs.len() == 16);

    assert forall|k: int| 0 <= k < 20 implies aux[na + k] == mav[k] by {}
    assert forall|k: int| 0 <= k < 4 implies inp[ni + k] == miv[k] by {}
    assert forall|k: int| 0 <= k < 16 implies post.constraints_vw()[len0 + k] == mcs[k] by {}

    lemma_satisfied_extend(pre, post);

    lemma_entry_wf(res, 0, 0);
    lemma_entry_wf(res, 0, 1);
    lemma_entry_wf(res, 1, 0);
    lemma_entry_wf(res, 1, 1);

    // cell (0, 0)
    lemma_cell_constraints(
        aux, inp,
        na, na + 1, na + 2, na + 5, na + 8, na + 9, na + 10, ni,
        m1.entry(0, 0), m2.entry(0, 0), m1.entry(0, 1), m2.entry(1, 0), res.entry(0, 0),
    );
    // cell (0, 1)
    lemma_cell_constraints(
        aux, inp,
        na, na + 3, na + 2, na + 7, na + 11, na + 12, na + 13, ni + 1,
        m1.entry(0, 0), m2.entry(0, 1), m1.entry(0, 1), m2.entry(1, 1), res.entry(0, 1),
    );
    // cell (1, 0)
    lemma_cell_constraints(
        aux, inp,
        na + 4, na + 1, na + 6, na + 5, na + 14, na + 15, na + 16, ni + 2,
        m1.entry(1, 0), m2.entry(0, 0), m1.entry(1, 1), m2.entry(1, 0), res.entry(1, 0),
    );
    // cell (1, 1)
    lemma_cell_constraints(
        aux, inp,
        na + 4, na + 3, na + 6, na + 7, na + 17, na + 18, na + 19, ni + 3,
        m1.entry(1, 0), m2.entry(0, 1), m1.entry(1, 1), m2.entry(1, 1), res.entry(1, 1),
    );

    if mat_mul_correct(m1, m2, res) {
        assert forall|i: int| len0 <= i < post.constraints_vw().len() implies
            constraint_holds(#[trigger] post.constraints_vw()[i], aux, inp) by {
            assert(post.constraints_vw()[i] == mcs[i - len0]);
        }
    }
    if post.satisfied() {
        assert(constraint_holds(post.constraints_vw()[len0 + 3], aux, inp));
        assert(constraint_holds(post.constraints_vw()[len0 + 7], aux, inp));
        assert(constraint_holds(post.constraints_vw()[len0 + 11], aux, inp));
        assert(constraint_holds(post.constraints_vw()[len0 + 15], aux, inp));
    }
}

/// The entry of a matrix that may be absent, for lazy witness computation.
fn opt_entry(m: &Option<Matrix2>, i: usize, j: usize) -> (r: Option<Fe>)
    requires
        i < 2,
        j < 2,
        (m matches Some(mm) ==> mm.wf()),
    ensures
        r is Some <==> m is Some,
        m matches Some(mm) ==> (r matches Some(f) && f@ == mm.entry(i as int, j as int)),
{
    match m {
        Some(mm) => Some(mm.get(i, j)),
        None => None,
    }
}

/// The entrywise product `m1[i][k] · m2[k][j]`, absent when either matrix is.
fn opt_prod(m1: &Option<Matrix2>, m2: &Option<Matrix2>, i: usize, k: usize, j: usize) -> (r: Option<
    Fe,
>)
    requires
        i < 2,
        k < 2,
        j < 2,
        (m1 matches Some(mm) ==> mm.wf()),
        (m2 matches Some(mm) ==> mm.wf()),
    ensures
        r is Some <==> (m1 is Some && m2 is Some),
        m1 matches Some(x) ==> m2 matches Some(y) ==> (r matches Some(f) && f@ == (x.entry(
            i as int,
            k as int,
        ) * y.entry(k as int, j as int)) % modulus()),
{
    match (m1, m2) {
        (Some(x), Some(y)) => {
            let xf = x.get(i, k);
            let yf = y.get(k, j);
            Some(fe_mul(&xf, &yf))
        },
        _ => None,
    }
}

/// The sum of two optional field values, absent when either is.
fn opt_sum(a: &Option<Fe>, b: &Option<Fe>) -> (r: Option<Fe>)
    requires
        (a matches Some(v) ==> v@ < modulus()),
        (b matches Some(v) ==> v@ < modulus()),
    ensures
        r is Some <==> (a is Some && b is Some),
        a matches Some(x) ==> b matches Some(y) ==> (r matches Some(f) && f@ == (x@ + y@)
            % modulus()),
{
    match (a, b) {
        (Some(x), Some(y)) => Some(fe_add(x, y)),
        _ => None,
    }
}

/// Allocates the matrix entries and declared result cells, then per cell the
/// two entrywise products and their running sum, with the four gates of each
/// cell. Shared by the matrix circuit and the composite circuit.
pub(crate) fn synthesize_matrix_product(
    cs: &mut ConstraintSystem,
    m1: Option<Matrix2>,
    m2: Option<Matrix2>,
    matrix_result: Option<Matrix2>,
) -> (r: Result<(), SynthesisError>)
    requires
        old(cs).wf(),
        (m1 matches Some(m) ==> m.wf()),
        (m2 matches Some(m) ==> m.wf()),
        (matrix_result matches Some(m) ==> m.wf()),
        old(cs).num_aux + 20 <= usize::MAX,
        old(cs).num_input + 4 <= usize::MAX,
    ensures
        final(cs).wf(),
        final(cs).mode == old(cs).mode,
        r is Err <==> (old(cs).mode == Mode::Prove && !(m1 is Some && m2 is Some
            && matrix_result is Some)),
        r is Ok ==> matrix_synthesized(m1, m2, matrix_result, *old(cs), *final(cs)),
        (old(cs).mode == Mode::Prove && r is Ok) ==> (final(cs).satisfied() <==> (
            old(cs).satisfied() && mat_mul_correct(m1.unwrap(), m2.unwrap(), matrix_result.unwrap())
        )),
{
    let ghost pre = *old(cs);
    let ghost na = pre.num_aux as int;
    let ghost ni = pre.num_input as int;

    // Allocate the matrix entries and the declared public cells, row major.
    let a_m1_00 = cs.allocate_witness(opt_entry(&m1, 0, 0))?;
    let a_m2_00 = cs.allocate_witness(opt_entry(&m2, 0, 0))?;
    let r_00 = cs.allocate_public_input(opt_entry(&matrix_result, 0, 0))?;
    let a_m1_01 = cs.allocate_witness(opt_entry(&m1, 0, 1))?;
    let a_m2_01 = cs.allocate_witness(opt_entry(&m2, 0, 1))?;
    let r_01 = cs.allocate_public_input(opt_entry(&matrix_result, 0, 1))?;
    let a_m1_10 = cs.allocate_witness(opt_entry(&m1, 1, 0))?;
    let a_m2_10 = cs.allocate_witness(opt_entry(&m2, 1, 0))?;
    let r_10 = cs.allocate_public_input(opt_entry(&matrix_result, 1, 0))?;
    let a_m1_11 = cs.allocate_witness(opt_entry(&m1, 1, 1))?;
    let a_m2_11 = cs.allocate_witness(opt_entry(&m2, 1, 1))?;
    let r_11 = cs.allocate_public_input(opt_entry(&matrix_result, 1, 1))?;

    // cell (0, 0)
    let p00_0 = opt_prod(&m1, &m2, 0, 0, 0);
    let v00_0 = cs.allocate_witness(p00_0)?;
    mul_gadget(cs, a_m1_00, a_m2_00, v00_0);
    let p00_1 = opt_prod(&m1, &m2, 0, 1, 0);
    let v00_1 = cs.allocate_witness(p00_1)?;
    mul_gadget(cs, a_m1_01, a_m2_10, v00_1);
    let s00 = cs.allocate_witness(opt_sum(&p00_0, &p00_1))?;
    let sum00 = LinearCombination::new().with_var(v00_0).with_var(v00_1);
    proof {
        assert(sum00@ =~= seq![(1nat, v00_0@), (1nat, v00_1@)]);
        lemma_lc_wf2((1nat, v00_0@), (1nat, v00_1@), cs.num_aux as int, cs.num_input as int);
    }
    lin_sum_gadget_flipped(cs, sum00, s00);
    let res00 = LinearCombination::new().with_var(s00);
    proof {
        assert(res00@ =~= seq![(1nat, s00@)]);
        lemma_lc_wf1((1nat, s00@), cs.num_aux as int, cs.num_input as int);
    }
    lin_sum_gadget_flipped(cs, res00, r_00);

    // cell (0, 1)
    let p01_0 = opt_prod(&m1, &m2, 0, 0, 1);
    let v01_0 = cs.allocate_witness(p01_0)?;
    mul_gadget(cs, a_m1_00, a_m2_01, v01_0);
    let p01_1 = opt_prod(&m1, &m2, 0, 1, 1);
    let v01_1 = cs.allocate_witness(p01_1)?;
    mul_gadget(cs, a_m1_01, a_m2_11, v01_1);
    let s01 = cs.allocate_witness(opt_sum(&p01_0, &p01_1))?;
    let sum01 = LinearCombination::new().with_var(v01_0).with_var(v01_1);
    proof {
        assert(sum01@ =~= seq![(1nat, v01_0@), (1nat, v01_1@)]);
        lemma_lc_wf2((1nat, v01_0@), (1nat, v01_1@), cs.num_aux as int, cs.num_input as int);
    }
    lin_sum_gadget_flipped(cs, sum01, s01);
    let res01 = LinearCombination::new().with_var(s01);
    proof {
        assert(res01@ =~= seq![(1nat, s01@)]);
        lemma_lc_wf1((1nat, s01@), cs.num_aux as int, cs.num_input as int);
    }
    lin_sum_gadget_flipped(cs, res01, r_01);

    // cell (1, 0)
    let p10_0 = opt_prod(&m1, &m2, 1, 0, 0);
    let v10_0 = cs.allocate_witness(p10_0)?;
    mul_gadget(cs, a_m1_10, a_m2_00, v10_0);
    let p10_1 = opt_prod(&m1, &m2, 1, 1, 0);
    let v10_1 = cs.allocate_witness(p10_1)?;
    mul_gadget(cs, a_m1_11, a_m2_10, v10_1);
    let s10 = cs.allocate_witness(opt_sum(&p10_0, &p10_1))?;
    let sum10 = LinearCombination::new().with_var(v10_0).with_var(v10_1);
    proof {
        assert(sum10@ =~= seq![(1nat, v10_0@), (1nat, v10_1@)]);
        lemma_lc_wf2((1nat, v10_0@), (1nat, v10_1@), cs.num_aux as int, cs.num_input as int);
    }
    lin_sum_gadget_flipped(cs, sum10, s10);
    let res10 = LinearCombination::new().with_var(s10);
    proof {
        assert(res10@ =~= seq![(1nat, s10@)]);
        lemma_lc_wf1((1nat, s10@), cs.num_aux as int, cs.num_input as int);
    }
    lin_sum_gadget_flipped(cs, res10, r_10);

    // cell (1, 1)
    let p11_0 = opt_prod(&m1, &m2, 1, 0, 1);
    let v11_0 = cs.allocate_witness(p11_0)?;
    mul_gadget(cs, a_m1_10, a_m2_01, v11_0);
    let p11_1 = opt_prod(&m1, &m2, 1, 1, 1);
    let v11_1 = cs.allocate_witness(p11_1)?;
    mul_gadget(cs, a_m1_11, a_m2_11, v11_1);
    let s11 = cs.allocate_witness(opt_sum(&p11_0, &p11_1))?;
    let sum11 = LinearCombination::new().with_var(v11_0).with_var(v11_1);
    proof {
        assert(sum11@ =~= seq![(1nat, v11_0@), (1nat, v11_1@)]);
        lemma_lc_wf2((1nat, v11_0@), (1nat, v11_1@), cs.num_aux as int, cs.num_input as int);
    }
    lin_sum_gadget_flipped(cs, sum11, s11);
    let res11 = LinearCombination::new().with_var(s11);
    proof {
        assert(res11@ =~= seq![(1nat, s11@)]);
        lemma_lc_wf1((1nat, s11@), cs.num_aux as int, cs.num_input as int);
    }
    lin_sum_gadget_flipped(cs, res11, r_11);

    proof {
        assert(cs.constraints_vw() =~= pre.constraints_vw() + matrix_constraints(na, ni));
        if pre.mode == Mode::Prove {
            assert(cs.aux_vals() =~= pre.aux_vals() + matrix_aux_vals(m1.unwrap(), m2.unwrap()));
            assert(cs.input_vals() =~= pre.input_vals() + matrix_input_vals(
                matrix_result.unwrap(),
            ));
            lemma_matrix_satisfaction(m1.unwrap(), m2.unwrap(), matrix_result.unwrap(), pre, *cs);
        }
    }
    Ok(())
}

impl MatrixMultiplication {
    /// Matrices that are present carry reduced field values.
    pub open spec fn wf(self) -> bool {
        &&& (self.m1 matches Some(m) ==> m.wf())
        &&& (self.m2 matches Some(m) ==> m.wf())
        &&& (self.matrix_result matches Some(m) ==> m.wf())
    }

    /// All inputs are present, as a proving pass demands.
    pub open spec fn complete(self) -> bool {
        self.m1 is Some && self.m2 is Some && self.matrix_result is Some
    }

    pub open spec fn synthesized(self, pre: ConstraintSystem, post: ConstraintSystem) -> bool {
        matrix_synthesized(self.m1, self.m2, self.matrix_result, pre, post)
    }

    /// Synthesizes the sixteen constraints of the 2×2 matrix product. In
    /// proving mode the recorded system is satisfied exactly when the
    /// declared result is the product of the two matrices, entrywise.
    pub fn synthesize(self, cs: &mut ConstraintSystem) -> (r: Result<(), SynthesisError>)
        requires
            old(cs).wf(),
            self.wf(),
            old(cs).num_aux + 20 <= usize::MAX,
            old(cs).num_input + 4 <= usize::MAX,
        ensures
            final(cs).wf(),
            final(cs).mode == old(cs).mode,
            r is Err <==> (old(cs).mode == Mode::Prove && !self.complete()),
            r is Ok ==> self.synthesized(*old(cs), *final(cs)),
            (old(cs).mode == Mode::Prove && r is Ok) ==> (final(cs).satisfied() <==> (
                old(cs).satisfied() && mat_mul_correct(
                    self.m1.unwrap(),
                    self.m2.unwrap(),
                    self.matrix_result.unwrap(),
                )
            )),
    {
        synthesize_matrix_product(cs, self.m1, self.m2, self.matrix_result)
    }
}

/// Re-synthesizing the matrix circuit over systems with equal topologies
/// yields equal topologies, whatever witness values the two passes carry.
pub proof fn lemma_matrix_idempotent(
    c1: MatrixMultiplication,
    c2: MatrixMultiplication,
    pre1: ConstraintSystem,
    post1: ConstraintSystem,
    pre2: ConstraintSystem,
    post2: ConstraintSystem,
)
    requires
        c1.synthesized(pre1, post1),
        c2.synthesized(pre2, post2),
        pre1.topology() == pre2.topology(),
    ensures
        post1.topology() == post2.topology(),
{
}

} // verus!
