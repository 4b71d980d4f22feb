//! Rank-1 constraint systems.
//!
//! A constraint system is built by one synthesis pass of a circuit: auxiliary
//! (private witness) variables and public input variables are allocated in
//! order, and constraints `A * B = C` over linear combinations of variables
//! are recorded. The system carries values for its variables when built in
//! proving mode and only the topology when built in setup mode.
//!
//! All semantic notions (the value of a linear combination, whether a
//! constraint holds) are stated over the ghost values of field elements,
//! i.e. over plain arithmetic modulo `modulus()`.

use vstd::prelude::*;
use vstd::arithmetic::div_mod::{
    lemma_add_mod_noop, lemma_mod_bound, lemma_mul_mod_noop_general, lemma_small_mod,
};
use crate::modulus;
use crate::field::{fe_add, fe_eq, fe_from_u64, fe_mul, Fe};

verus! {

/// Spec-level identity of a variable: the implicit constant-one variable, an
/// auxiliary (witness) variable, or a public input variable.
pub enum VarView {
    One,
    Aux(int),
    Input(int),
}

/// A handle to an allocated variable of a constraint system.
#[derive(Clone, Copy, Debug, PartialEq, Eq, Structural)]
pub enum Variable {
    One,
    Aux(usize),
    Input(usize),
}

impl View for Variable {
    type V = VarView;

    open spec fn view(&self) -> VarView {
        match *self {
            Variable::One => VarView::One,
            Variable::Aux(i) => VarView::Aux(i as int),
            Variable::Input(i) => VarView::Input(i as int),
        }
    }
}

/// A linear combination of variables: a list of coefficient/variable pairs.
/// A term on the constant-one variable contributes its coefficient directly.
pub struct LinearCombination {
    pub terms: Vec<(Fe, Variable)>,
}

impl View for LinearCombination {
    type V = Seq<(nat, VarView)>;

    open spec fn view(&self) -> Seq<(nat, VarView)> {
        self.terms@.map(|i: int, t: (Fe, Variable)| (t.0@, t.1@))
    }
}

impl LinearCombination {
    pub fn new() -> (r: LinearCombination)
        ensures
            r@ == Seq::<(nat, VarView)>::empty(),
    {
        let r = LinearCombination { terms: Vec::new() };
        proof {
            assert(r@ =~= Seq::<(nat, VarView)>::empty());
        }
        r
    }

    /// Appends the term `coeff * var`.
    pub fn with_term(self, coeff: Fe, var: Variable) -> (r: LinearCombination)
        ensures
            r@ == self@.push((coeff@, var@)),
    {
        let ghost orig = self;
        let mut terms = self.terms;
        terms.push((coeff, var));
        let r = LinearCombination { terms };
        proof {
            assert(r@ =~= orig@.push((coeff@, var@)));
        }
        r
    }

    /// Appends the term `1 * var`.
    pub fn with_var(self, var: Variable) -> (r: LinearCombination)
        ensures
            r@ == self@.push((1nat, var@)),
    {
        let one = fe_from_u64(1);
        self.with_term(one, var)
    }
}

/// One constraint `A * B = C` over linear combinations.
pub struct Constraint {
    pub a: LinearCombination,
    pub b: LinearCombination,
    pub c: LinearCombination,
}

/// Spec-level contents of a constraint.
pub struct ConstraintView {
    pub a: Seq<(nat, VarView)>,
    pub b: Seq<(nat, VarView)>,
    pub c: Seq<(nat, VarView)>,
}

impl View for Constraint {
    type V = ConstraintView;

    open spec fn view(&self) -> ConstraintView {
        ConstraintView { a: self.a@, b: self.b@, c: self.c@ }
    }
}

/// Whether a variable refers to an allocated slot, given how many auxiliary
/// and input variables have been allocated.
pub open spec fn var_in_range(v: VarView, num_aux: int, num_input: int) -> bool {
    match v {
        VarView::One => true,
        VarView::Aux(i) => 0 <= i < num_aux,
        VarView::Input(i) => 0 <= i < num_input,
    }
}

/// A linear combination is well formed when its variables are allocated and
/// its coefficients are reduced field values.
pub open spec fn lc_wf(lc: Seq<(nat, VarView)>, num_aux: int, num_input: int) -> bool {
    forall|i: int| 0 <= i < lc.len() ==>
        var_in_range((#[trigger] lc[i]).1, num_aux, num_input) && lc[i].0 < modulus()
}

pub open spec fn constraint_wf(c: ConstraintView, num_aux: int, num_input: int) -> bool {
    &&& lc_wf(c.a, num_aux, num_input)
    &&& lc_wf(c.b, num_aux, num_input)
    &&& lc_wf(c.c, num_aux, num_input)
}

/// The value a variable takes under an assignment of the auxiliary and input
/// variables. The constant-one variable always takes the value 1.
pub open spec fn var_value(v: VarView, aux: Seq<nat>, inputs: Seq<nat>) -> nat {
    match v {
        VarView::One => 1nat,
        VarView::Aux(i) => aux[i],
        VarView::Input(i) => inputs[i],
    }
}

/// The value of a linear combination under an assignment, as an unreduced
/// integer sum; constraints compare such sums modulo `modulus()`.
pub open spec fn lc_value(lc: Seq<(nat, VarView)>, aux: Seq<nat>, inputs: Seq<nat>) -> int
    decreases lc.len(),
{
    if lc.len() == 0 {
        0
    } else {
        lc[0].0 * var_value(lc[0].1, aux, inputs) + lc_value(lc.drop_first(), aux, inputs)
    }
}

/// A constraint `A * B = C` holds under an assignment when the product of the
/// values of `A` and `B` equals the value of `C` in the field.
pub open spec fn constraint_holds(c: ConstraintView, aux: Seq<nat>, inputs: Seq<nat>) -> bool {
    (lc_value(c.a, aux, inputs) * lc_value(c.b, aux, inputs)) % (modulus() as int)
        == lc_value(c.c, aux, inputs) % (modulus() as int)
}

/// Whether a synthesis pass fixes only the topology (setup) or also records
/// concrete variable values (proving).
#[derive(Clone, Copy, Debug, PartialEq, Eq, Structural)]
pub enum Mode {
    Setup,
    Prove,
}

/// The one synthesis failure: a concrete value was demanded in proving mode
/// but the circuit held a placeholder.
#[derive(Clone, Copy, Debug, PartialEq, Eq, Structural)]
pub enum SynthesisError {
    AssignmentMissing,
}

/// A constraint system under construction: the port circuits synthesize into.
pub struct ConstraintSystem {
    pub mode: Mode,
    pub num_aux: usize,
    pub num_input: usize,
    pub aux_values: Vec<Fe>,
    pub input_values: Vec<Fe>,
    pub constraints: Vec<Constraint>,
}

impl ConstraintSystem {
    /// The recorded constraints, as spec values.
    pub open spec fn constraints_vw(self) -> Seq<ConstraintView> {
        self.constraints@.map(|i: int, c: Constraint| c@)
    }

    /// The recorded auxiliary variable values (empty in setup mode).
    pub open spec fn aux_vals(self) -> Seq<nat> {
        self.aux_values@.map(|i: int, f: Fe| f@)
    }

    /// The recorded public input values (empty in setup mode).
    pub open spec fn input_vals(self) -> Seq<nat> {
        self.input_values@.map(|i: int, f: Fe| f@)
    }

    /// The structure of the system: variable counts and constraints, but no
    /// variable values. Two synthesis passes of the same circuit agree on
    /// this whatever values they carry.
    pub open spec fn topology(self) -> (int, int, Seq<ConstraintView>) {
        (self.num_aux as int, self.num_input as int, self.constraints_vw())
    }

    pub open spec fn wf(self) -> bool {
        &&& forall|i: int| 0 <= i < self.constraints_vw().len() ==>
                constraint_wf(
                    #[trigger] self.constraints_vw()[i],
                    self.num_aux as int,
                    self.num_input as int,
                )
        &&& match self.mode {
            Mode::Setup => self.aux_values@.len() == 0 && self.input_values@.len() == 0,
            Mode::Prove => self.aux_values@.len() == self.num_aux
                && self.input_values@.len() == self.num_input,
        }
        &&& forall|i: int| 0 <= i < self.aux_vals().len() ==> #[trigger] self.aux_vals()[i] < modulus()
        &&& forall|i: int| 0 <= i < self.input_vals().len() ==> #[trigger] self.input_vals()[i] < modulus()
    }

    /// Whether every recorded constraint holds under the recorded values.
    /// Meaningful for systems built in proving mode.
    pub open spec fn satisfied(self) -> bool {
        forall|i: int| 0 <= i < self.constraints_vw().len() ==>
            constraint_holds(#[trigger] self.constraints_vw()[i], self.aux_vals(), self.input_vals())
    }

    pub fn new(mode: Mode) -> (r: ConstraintSystem)
        ensures
            r.wf(),
            r.mode == mode,
            r.num_aux == 0,
            r.num_input == 0,
            r.constraints_vw() == Seq::<ConstraintView>::empty(),
            r.aux_vals() == Seq::<nat>::empty(),
            r.input_vals() == Seq::<nat>::empty(),
            r.satisfied(),
    {
        let r = ConstraintSystem {
            mode,
            num_aux: 0,
            num_input: 0,
            aux_values: Vec::new(),
            input_values: Vec::new(),
            constraints: Vec::new(),
        };
        proof {
            assert(r.constraints_vw() =~= Seq::<ConstraintView>::empty());
            assert(r.aux_vals() =~= Seq::<nat>::empty());
            assert(r.input_vals() =~= Seq::<nat>::empty());
        }
        r
    }

    /// The implicit constant-one variable, available without allocation.
    pub fn one() -> (r: Variable)
        ensures
            r@ == VarView::One,
    {
        Variable::One
    }

    /// Allocates an auxiliary (private witness) variable. In proving mode the
    /// value must be present and is recorded; in setup mode it is ignored.
    pub fn allocate_witness(&mut self, value: Option<Fe>) -> (r: Result<Variable, SynthesisError>)
        requires
            old(self).wf(),
            old(self).num_aux < usize::MAX,
            value matches Some(v) ==> v@ < modulus(),
        ensures
            final(self).wf(),
            final(self).mode == old(self).mode,
            final(self).num_input == old(self).num_input,
            final(self).input_vals() == old(self).input_vals(),
            final(self).constraints_vw() == old(self).constraints_vw(),
            match old(self).mode {
                Mode::Setup => {
                    &&& r matches Ok(v) && v@ == VarView::Aux(old(self).num_aux as int)
                    &&& final(self).num_aux == old(self).num_aux + 1
                    &&& final(self).aux_vals() == old(self).aux_vals()
                },
                Mode::Prove => match value {
                    Some(fe) => {
                        &&& r matches Ok(v) && v@ == VarView::Aux(old(self).num_aux as int)
                        &&& final(self).num_aux == old(self).num_aux + 1
                        &&& final(self).aux_vals() == old(self).aux_vals().push(fe@)
                    },
                    None => {
                        &&& r matches Err(e) && e == SynthesisError::AssignmentMissing
                        &&& *final(self) == *old(self)
                    },
                },
            },
    {
        match self.mode {
            Mode::Setup => {
                let idx: usize = self.num_aux;
                self.num_aux = idx + 1;
                proof {
                    lemma_wf_grow(*old(self), *self);
                }
                Ok(Variable::Aux(idx))
            },
            Mode::Prove => match value {
                Some(fe) => {
                    let idx: usize = self.num_aux;
                    self.num_aux = idx + 1;
                    self.aux_values.push(fe);
                    proof {
                        assert(self.aux_vals() =~= old(self).aux_vals().push(fe@));
                        assert forall|i: int| 0 <= i < self.aux_vals().len() implies
                            #[trigger] self.aux_vals()[i] < modulus() by {
                            if i < old(self).aux_vals().len() {
                                assert(old(self).aux_vals()[i] < modulus());
                            }
                        }
                        assert(self.input_vals() == old(self).input_vals());
                        assert forall|i: int| 0 <= i < self.input_vals().len() implies
                            #[trigger] self.input_vals()[i] < modulus() by {
                            assert(old(self).input_vals()[i] < modulus());
                        }
                        lemma_wf_grow(*old(self), *self);
                    }
                    Ok(Variable::Aux(idx))
                },
                None => Err(SynthesisError::AssignmentMissing),
            },
        }
    }

    /// Allocates a public input variable, appended to the public input vector
    /// in call order. In proving mode the value must be present.
    pub fn allocate_public_input(&mut self, value: Option<Fe>) -> (r: Result<Variable, SynthesisError>)
        requires
            old(self).wf(),
            old(self).num_input < usize::MAX,
            value matches Some(v) ==> v@ < modulus(),
        ensures
            final(self).wf(),
            final(self).mode == old(self).mode,
            final(self).num_aux == old(self).num_aux,
            final(self).aux_vals() == old(self).aux_vals(),
            final(self).constraints_vw() == old(self).constraints_vw(),
            match old(self).mode {
                Mode::Setup => {
                    &&& r matches Ok(v) && v@ == VarView::Input(old(self).num_input as int)
                    &&& final(self).num_input == old(self).num_input + 1
                    &&& final(self).input_vals() == old(self).input_vals()
                },
                Mode::Prove => match value {
                    Some(fe) => {
                        &&& r matches Ok(v) && v@ == VarView::Input(old(self).num_input as int)
                        &&& final(self).num_input == old(self).num_input + 1
                        &&& final(self).input_vals() == old(self).input_vals().push(fe@)
                    },
                    None => {
                        &&& r matches Err(e) && e == SynthesisError::AssignmentMissing
                        &&& *final(self) == *old(self)
                    },
                },
            },
    {
        match self.mode {
            Mode::Setup => {
                let idx: usize = self.num_input;
                self.num_input = idx + 1;
                proof {
                    lemma_wf_grow(*old(self), *self);
                }
                Ok(Variable::Input(idx))
            },
            Mode::Prove => match value {
                Some(fe) => {
                    let idx: usize = self.num_input;
                    self.num_input = idx + 1;
                    self.input_values.push(fe);
                    proof {
                        assert(self.input_vals() =~= old(self).input_vals().push(fe@));
                        assert forall|i: int| 0 <= i < self.input_vals().len() implies
                            #[trigger] self.input_vals()[i] < modulus() by {
                            if i < old(self).input_vals().len() {
                                assert(old(self).input_vals()[i] < modulus());
                            }
                        }
                        assert(self.aux_vals() == old(self).aux_vals());
                        assert forall|i: int| 0 <= i < self.aux_vals().len() implies
                            #[trigger] self.aux_vals()[i] < modulus() by {
                            assert(old(self).aux_vals()[i] < modulus());
                        }
                        lemma_wf_grow(*old(self), *self);
                    }
                    Ok(Variable::Input(idx))
                },
                None => Err(SynthesisError::AssignmentMissing),
            },
        }
    }

    /// Records the constraint `a * b = c`. Recording never fails; an
    /// unsatisfiable constraint only surfaces later, at verification.
    pub fn enforce(&mut self, a: LinearCombination, b: LinearCombination, c: LinearCombination)
        requires
            old(self).wf(),
            lc_wf(a@, old(self).num_aux as int, old(self).num_input as int),
            lc_wf(b@, old(self).num_aux as int, old(self).num_input as int),
            lc_wf(c@, old(self).num_aux as int, old(self).num_input as int),
        ensures
            final(self).wf(),
            final(self).mode == old(self).mode,
            final(self).num_aux == old(self).num_aux,
            final(self).num_input == old(self).num_input,
            final(self).aux_vals() == old(self).aux_vals(),
            final(self).input_vals() == old(self).input_vals(),
            final(self).constraints_vw() == old(self).constraints_vw().push(
                (ConstraintView { a: a@, b: b@, c: c@ }),
            ),
    {
        let ghost cv = ConstraintView { a: a@, b: b@, c: c@ };
        self.constraints.push(Constraint { a, b, c });
        proof {
            assert(self.constraints_vw() =~= old(self).constraints_vw().push(cv));
            assert forall|i: int| 0 <= i < self.constraints_vw().len() implies
                constraint_wf(
                    #[trigger] self.constraints_vw()[i],
                    self.num_aux as int,
                    self.num_input as int,
                ) by {
                if i < old(self).constraints_vw().len() {
                    assert(constraint_wf(
                        old(self).constraints_vw()[i],
                        self.num_aux as int,
                        self.num_input as int,
                    ));
                } else {
                    assert(self.constraints_vw()[i] == cv);
                }
            }
            assert(self.aux_vals() == old(self).aux_vals());
            assert(self.input_vals() == old(self).input_vals());
            assert forall|i: int| 0 <= i < self.aux_vals().len() implies
                #[trigger] self.aux_vals()[i] < modulus() by {
                assert(old(self).aux_vals()[i] < modulus());
            }
            assert forall|i: int| 0 <= i < self.input_vals().len() implies
                #[trigger] self.input_vals()[i] < modulus() by {
                assert(old(self).input_vals()[i] < modulus());
            }
        }
    }
}

/// Extending a well-formed system with more variables keeps every recorded
/// constraint well formed.
proof fn lemma_wf_grow(pre: ConstraintSystem, post: ConstraintSystem)
    requires
        pre.wf(),
        post.constraints_vw() == pre.constraints_vw(),
        pre.num_aux <= post.num_aux,
        pre.num_input <= post.num_input,
        match post.mode {
            Mode::Setup => post.aux_values@.len() == 0 && post.input_values@.len() == 0,
            Mode::Prove => post.aux_values@.len() == post.num_aux
                && post.input_values@.len() == post.num_input,
        },
        forall|i: int| 0 <= i < post.aux_vals().len() ==> #[trigger] post.aux_vals()[i] < modulus(),
        forall|i: int| 0 <= i < post.input_vals().len() ==> #[trigger] post.input_vals()[i] < modulus(),
    ensures
        post.wf(),
{
    assert forall|i: int| 0 <= i < post.constraints_vw().len() implies
        constraint_wf(
            #[trigger] post.constraints_vw()[i],
            post.num_aux as int,
            post.num_input as int,
        ) by {
        let c = post.constraints_vw()[i];
        assert(constraint_wf(c, pre.num_aux as int, pre.num_input as int));
        lemma_constraint_wf_monotone(
            c,
            pre.num_aux as int,
            pre.num_input as int,
            post.num_aux as int,
            post.num_input as int,
        );
    }
}

/// Well-formedness of a linear combination is monotone in the variable counts.
pub proof fn lemma_lc_wf_monotone(lc: Seq<(nat, VarView)>, na1: int, ni1: int, na2: int, ni2: int)
    requires
        lc_wf(lc, na1, ni1),
        na1 <= na2,
        ni1 <= ni2,
    ensures
        lc_wf(lc, na2, ni2),
{
    assert forall|i: int| 0 <= i < lc.len() implies
        var_in_range((#[trigger] lc[i]).1, na2, ni2) && lc[i].0 < modulus() by {
        assert(var_in_range(lc[i].1, na1, ni1));
    }
}

pub proof fn lemma_constraint_wf_monotone(c: ConstraintView, na1: int, ni1: int, na2: int, ni2: int)
    requires
        constraint_wf(c, na1, ni1),
        na1 <= na2,
        ni1 <= ni2,
    ensures
        constraint_wf(c, na2, ni2),
{
    lemma_lc_wf_monotone(c.a, na1, ni1, na2, ni2);
    lemma_lc_wf_monotone(c.b, na1, ni1, na2, ni2);
    lemma_lc_wf_monotone(c.c, na1, ni1, na2, ni2);
}

/// The value of a linear combination does not change when the assignment is
/// extended with values for variables allocated later.
pub proof fn lemma_lc_value_extend(
    lc: Seq<(nat, VarView)>,
    aux1: Seq<nat>,
    in1: Seq<nat>,
    aux2: Seq<nat>,
    in2: Seq<nat>,
    na: int,
    ni: int,
)
    requires
        lc_wf(lc, na, ni),
        na <= aux1.len(),
        ni <= in1.len(),
        aux1.len() <= aux2.len(),
        in1.len() <= in2.len(),
        forall|i: int| 0 <= i < aux1.len() ==> aux1[i] == #[trigger] aux2[i],
        forall|i: int| 0 <= i < in1.len() ==> in1[i] == #[trigger] in2[i],
    ensures
        lc_value(lc, aux2, in2) == lc_value(lc, aux1, in1),
    decreases lc.len(),
{
    if lc.len() > 0 {
        assert(var_in_range(lc[0].1, na, ni));
        assert(var_value(lc[0].1, aux2, in2) == var_value(lc[0].1, aux1, in1));
        assert(lc_wf(lc.drop_first(), na, ni)) by {
            assert forall|i: int| 0 <= i < lc.drop_first().len() implies
                var_in_range((#[trigger] lc.drop_first()[i]).1, na, ni)
                    && lc.drop_first()[i].0 < modulus() by {
                assert(lc.drop_first()[i] == lc[i + 1]);
            }
        }
        lemma_lc_value_extend(lc.drop_first(), aux1, in1, aux2, in2, na, ni);
    }
}

/// Whether a constraint holds does not change when the assignment is extended
/// with values for variables allocated later.
pub proof fn lemma_constraint_holds_extend(
    c: ConstraintView,
    aux1: Seq<nat>,
    in1: Seq<nat>,
    aux2: Seq<nat>,
    in2: Seq<nat>,
    na: int,
    ni: int,
)
    requires
        constraint_wf(c, na, ni),
        na <= aux1.len(),
        ni <= in1.len(),
        aux1.len() <= aux2.len(),
        in1.len() <= in2.len(),
        forall|i: int| 0 <= i < aux1.len() ==> aux1[i] == #[trigger] aux2[i],
        forall|i: int| 0 <= i < in1.len() ==> in1[i] == #[trigger] in2[i],
    ensures
        constraint_holds(c, aux2, in2) <==> constraint_holds(c, aux1, in1),
{
    lemma_lc_value_extend(c.a, aux1, in1, aux2, in2, na, ni);
    lemma_lc_value_extend(c.b, aux1, in1, aux2, in2, na, ni);
    lemma_lc_value_extend(c.c, aux1, in1, aux2, in2, na, ni);
}

/// Satisfaction of a grown system splits into satisfaction of the system it
/// grew from and the new constraints holding under the grown assignment.
pub proof fn lemma_satisfied_extend(pre: ConstraintSystem, post: ConstraintSystem)
    requires
        pre.wf(),
        pre.mode == Mode::Prove,
        post.mode == Mode::Prove,
        pre.constraints_vw().len() <= post.constraints_vw().len(),
        forall|i: int| 0 <= i < pre.constraints_vw().len() ==>
            #[trigger] post.constraints_vw()[i] == pre.constraints_vw()[i],
        pre.aux_vals().len() <= post.aux_vals().len(),
        forall|i: int| 0 <= i < pre.aux_vals().len() ==>
            #[trigger] post.aux_vals()[i] == pre.aux_vals()[i],
        pre.input_vals().len() <= post.input_vals().len(),
        forall|i: int| 0 <= i < pre.input_vals().len() ==>
            #[trigger] post.input_vals()[i] == pre.input_vals()[i],
        pre.aux_vals().len() == pre.num_aux,
        pre.input_vals().len() == pre.num_input,
    ensures
        post.satisfied() <==> (pre.satisfied() && (forall|i: int|
            pre.constraints_vw().len() <= i < post.constraints_vw().len() ==>
                constraint_holds(
                    #[trigger] post.constraints_vw()[i],
                    post.aux_vals(),
                    post.input_vals(),
                ))),
{
    if post.satisfied() {
        assert forall|i: int| 0 <= i < pre.constraints_vw().len() implies
            constraint_holds(#[trigger] pre.constraints_vw()[i], pre.aux_vals(), pre.input_vals()) by {
            assert(constraint_holds(post.constraints_vw()[i], post.aux_vals(), post.input_vals()));
            lemma_constraint_holds_extend(
                pre.constraints_vw()[i],
                pre.aux_vals(),
                pre.input_vals(),
                post.aux_vals(),
                post.input_vals(),
                pre.num_aux as int,
                pre.num_input as int,
            );
        }
    }
    if pre.satisfied() && (forall|i: int|
        pre.constraints_vw().len() <= i < post.constraints_vw().len() ==>
            constraint_holds(
                #[trigger] post.constraints_vw()[i],
                post.aux_vals(),
                post.input_vals(),
            )) {
        assert forall|i: int| 0 <= i < post.constraints_vw().len() implies
            constraint_holds(#[trigger] post.constraints_vw()[i], post.aux_vals(), post.input_vals()) by {
            if i < pre.constraints_vw().len() {
                assert(constraint_holds(pre.constraints_vw()[i], pre.aux_vals(), pre.input_vals()));
                lemma_constraint_holds_extend(
                    pre.constraints_vw()[i],
                    pre.aux_vals(),
                    pre.input_vals(),
                    post.aux_vals(),
                    post.input_vals(),
                    pre.num_aux as int,
                    pre.num_input as int,
                );
            }
        }
    }
}

/// A one-term combination over an allocated variable with a reduced
/// coefficient is well formed.
pub proof fn lemma_lc_wf1(t0: (nat, VarView), na: int, ni: int)
    requires
        var_in_range(t0.1, na, ni),
        t0.0 < modulus(),
    ensures
        lc_wf(seq![t0], na, ni),
{
    let s = seq![t0];
    assert forall|i: int| 0 <= i < s.len() implies
        var_in_range((#[trigger] s[i]).1, na, ni) && s[i].0 < modulus() by {
        assert(s[i] == t0);
    }
}

/// A two-term combination over allocated variables with reduced coefficients
/// is well formed.
pub proof fn lemma_lc_wf2(t0: (nat, VarView), t1: (nat, VarView), na: int, ni: int)
    requires
        var_in_range(t0.1, na, ni),
        t0.0 < modulus(),
        var_in_range(t1.1, na, ni),
        t1.0 < modulus(),
    ensures
        lc_wf(seq![t0, t1], na, ni),
{
    let s = seq![t0, t1];
    assert forall|i: int| 0 <= i < s.len() implies
        var_in_range((#[trigger] s[i]).1, na, ni) && s[i].0 < modulus() by {
        if i == 0 {
            assert(s[i] == t0);
        } else {
            assert(s[i] == t1);
        }
    }
}

/// Closed form for the value of a one-term linear combination.
pub proof fn lemma_lc_value1(t0: (nat, VarView), aux: Seq<nat>, inputs: Seq<nat>)
    ensures
        lc_value(seq![t0], aux, inputs) == t0.0 * var_value(t0.1, aux, inputs),
{
    let s = seq![t0];
    assert(s.len() == 1);
    assert(s[0] == t0);
    assert(s.drop_first() =~= Seq::<(nat, VarView)>::empty());
    assert(lc_value(s.drop_first(), aux, inputs) == 0);
}

/// Closed form for the value of a two-term linear combination.
pub proof fn lemma_lc_value2(t0: (nat, VarView), t1: (nat, VarView), aux: Seq<nat>, inputs: Seq<nat>)
    ensures
        lc_value(seq![t0, t1], aux, inputs)
            == t0.0 * var_value(t0.1, aux, inputs) + t1.0 * var_value(t1.1, aux, inputs),
{
    assert(seq![t0, t1].drop_first() =~= seq![t1]);
    lemma_lc_value1(t1, aux, inputs);
}

/// Closed form for the value of a three-term linear combination.
pub proof fn lemma_lc_value3(
    t0: (nat, VarView),
    t1: (nat, VarView),
    t2: (nat, VarView),
    aux: Seq<nat>,
    inputs: Seq<nat>,
)
    ensures
        lc_value(seq![t0, t1, t2], aux, inputs)
            == t0.0 * var_value(t0.1, aux, inputs)
                + t1.0 * var_value(t1.1, aux, inputs)
                + t2.0 * var_value(t2.1, aux, inputs),
{
    assert(seq![t0, t1, t2].drop_first() =~= seq![t1, t2]);
    lemma_lc_value2(t1, t2, aux, inputs);
}

/// Closed form for the value of a four-term linear combination.
pub proof fn lemma_lc_value4(
    t0: (nat, VarView),
    t1: (nat, VarView),
    t2: (nat, VarView),
    t3: (nat, VarView),
    aux: Seq<nat>,
    inputs: Seq<nat>,
)
    ensures
        lc_value(seq![t0, t1, t2, t3], aux, inputs)
            == t0.0 * var_value(t0.1, aux, inputs)
                + t1.0 * var_value(t1.1, aux, inputs)
                + t2.0 * var_value(t2.1, aux, inputs)
                + t3.0 * var_value(t3.1, aux, inputs),
{
    assert(seq![t0, t1, t2, t3].drop_first() =~= seq![t1, t2, t3]);
    lemma_lc_value3(t1, t2, t3, aux, inputs);
}

/// The value a variable takes in a proving-mode system, as a field element.
fn var_fe(cs: &ConstraintSystem, v: Variable) -> (r: Fe)
    requires
        cs.wf(),
        cs.mode == Mode::Prove,
        var_in_range(v@, cs.num_aux as int, cs.num_input as int),
    ensures
        r@ == var_value(v@, cs.aux_vals(), cs.input_vals()),
        r@ < modulus(),
{
    match v {
        Variable::One => fe_from_u64(1),
        Variable::Aux(i) => {
            let f = cs.aux_values[i];
            proof {
                assert(cs.aux_vals()[i as int] == f@);
                assert(cs.aux_vals()[i as int] < modulus());
            }
            f
        },
        Variable::Input(i) => {
            let f = cs.input_values[i];
            proof {
                assert(cs.input_vals()[i as int] == f@);
                assert(cs.input_vals()[i as int] < modulus());
            }
            f
        },
    }
}

/// The reduced value of a linear combination in a proving-mode system.
fn eval_lc(cs: &ConstraintSystem, lc: &LinearCombination) -> (r: Fe)
    requires
        cs.wf(),
        cs.mode == Mode::Prove,
        lc_wf(lc@, cs.num_aux as int, cs.num_input as int),
    ensures
        r@ == lc_value(lc@, cs.aux_vals(), cs.input_vals()) % (modulus() as int),
        r@ < modulus(),
{
    let ghost aux = cs.aux_vals();
    let ghost inp = cs.input_vals();
    let mut idx: usize = lc.terms.len();
    let mut acc = fe_from_u64(0);
    proof {
        assert(lc@.subrange(idx as int, lc@.len() as int) =~= Seq::<(nat, VarView)>::empty());
        lemma_small_mod(0nat, modulus());
    }
    while idx > 0
        invariant
            cs.wf(),
            cs.mode == Mode::Prove,
            lc_wf(lc@, cs.num_aux as int, cs.num_input as int),
            idx <= lc.terms@.len(),
            lc@.len() == lc.terms@.len(),
            aux == cs.aux_vals(),
            inp == cs.input_vals(),
            acc@ == lc_value(lc@.subrange(idx as int, lc@.len() as int), aux, inp)
                % (modulus() as int),
            acc@ < modulus(),
        decreases idx,
    {
        idx = idx - 1;
        let (coeff, var) = lc.terms[idx];
        proof {
            assert(lc@[idx as int] == (coeff@, var@));
            assert(var_in_range(lc@[idx as int].1, cs.num_aux as int, cs.num_input as int)
                && lc@[idx as int].0 < modulus());
        }
        let vfe = var_fe(cs, var);
        let term = fe_mul(&coeff, &vfe);
        let ghost acc_old = acc@;
        acc = fe_add(&term, &acc);
        proof {
            let p = modulus() as int;
            let s_new = lc@.subrange(idx as int, lc@.len() as int);
            let s_old = lc@.subrange(idx as int + 1, lc@.len() as int);
            assert(s_new.drop_first() =~= s_old);
            assert(s_new[0] == (coeff@, var@));
            let tv = (coeff@ * var_value(var@, aux, inp)) as int;
            let rest = lc_value(s_old, aux, inp);
            assert(lc_value(s_new, aux, inp) == tv + rest);
            lemma_mod_bound(tv, p);
            lemma_add_mod_noop(tv, rest, p);
            assert(acc@ == ((tv % p) + (rest % p)) % p);
            lemma_mod_bound(tv + rest, p);
        }
    }
    proof {
        assert(lc@.subrange(0, lc@.len() as int) =~= lc@);
    }
    acc
}

/// Whether one recorded constraint holds of the recorded values.
fn constraint_satisfied(cs: &ConstraintSystem, c: &Constraint) -> (r: bool)
    requires
        cs.wf(),
        cs.mode == Mode::Prove,
        constraint_wf(c@, cs.num_aux as int, cs.num_input as int),
    ensures
        r == constraint_holds(c@, cs.aux_vals(), cs.input_vals()),
{
    let av = eval_lc(cs, &c.a);
    let bv = eval_lc(cs, &c.b);
    let cv = eval_lc(cs, &c.c);
    let ab = fe_mul(&av, &bv);
    proof {
        let p = modulus() as int;
        let la = lc_value(c.a@, cs.aux_vals(), cs.input_vals());
        let lb = lc_value(c.b@, cs.aux_vals(), cs.input_vals());
        lemma_mul_mod_noop_general(la, lb, p);
        assert(ab@ == (la * lb) % p);
        lemma_mod_bound(la * lb, p);
    }
    fe_eq(&ab, &cv)
}

/// Whether every recorded constraint of a proving-mode system holds of the
/// recorded values: the executable counterpart of [`ConstraintSystem::satisfied`].
pub fn check_satisfied(cs: &ConstraintSystem) -> (r: bool)
    requires
        cs.wf(),
        cs.mode == Mode::Prove,
    ensures
        r == cs.satisfied(),
{
    let mut idx: usize = 0;
    let mut ok = true;
    while idx < cs.constraints.len()
        invariant
            cs.wf(),
            cs.mode == Mode::Prove,
            idx <= cs.constraints@.len(),
            ok == (forall|i: int| 0 <= i < idx ==> constraint_holds(
                #[trigger] cs.constraints_vw()[i],
                cs.aux_vals(),
                cs.input_vals(),
            )),
        decreases cs.constraints@.len() - idx,
    {
        proof {
            assert(constraint_wf(
                cs.constraints_vw()[idx as int],
                cs.num_aux as int,
                cs.num_input as int,
            ));
        }
        let sat = constraint_satisfied(cs, &cs.constraints[idx]);
        let ghost old_ok = ok;
        ok = ok && sat;
        proof {
            let aux = cs.aux_vals();
            let inp = cs.input_vals();
            if old_ok && sat {
                assert forall|i: int| 0 <= i < idx + 1 implies constraint_holds(
                    #[trigger] cs.constraints_vw()[i],
                    aux,
                    inp,
                ) by {
                    if i < idx {
                        assert(constraint_holds(cs.constraints_vw()[i], aux, inp));
                    }
                }
            } else {
                if forall|i: int| 0 <= i < idx + 1 ==> constraint_holds(
                    #[trigger] cs.constraints_vw()[i],
                    aux,
                    inp,
                ) {
                    assert forall|i: int| 0 <= i < idx implies constraint_holds(
                        #[trigger] cs.constraints_vw()[i],
                        aux,
                        inp,
                    ) by {
                        assert(constraint_holds(cs.constraints_vw()[i], aux, inp));
                    }
                    assert(constraint_holds(cs.constraints_vw()[idx as int], aux, inp));
                    assert(false);
                }
            }
        }
        idx = idx + 1;
    }
    ok
}

/// Whether an assignment of the auxiliary variables consists of reduced field
/// values and makes every constraint hold under the given public inputs.
pub open spec fn assignment_satisfies(
    constraints: Seq<ConstraintView>,
    aux: Seq<nat>,
    inputs: Seq<nat>,
) -> bool {
    &&& forall|i: int| 0 <= i < aux.len() ==> #[trigger] aux[i] < modulus()
    &&& forall|i: int| 0 <= i < constraints.len() ==> constraint_holds(
        #[trigger] constraints[i],
        aux,
        inputs,
    )
}

/// Whether some witness assignment satisfies the constraints under the given
/// public inputs: satisfiability of the system as the verifier sees it.
pub open spec fn satisfiable(
    constraints: Seq<ConstraintView>,
    num_aux: int,
    inputs: Seq<nat>,
) -> bool {
    exists|aux: Seq<nat>|
        #[trigger] assignment_satisfies(constraints, aux, inputs) && aux.len() == num_aux
}

/// A proving-mode system whose recorded constraints are satisfied witnesses
/// its own satisfiability: the recorded auxiliary values are the assignment.
pub proof fn lemma_satisfied_implies_satisfiable(cs: ConstraintSystem)
    requires
        cs.wf(),
        cs.mode == Mode::Prove,
        cs.satisfied(),
    ensures
        satisfiable(cs.constraints_vw(), cs.num_aux as int, cs.input_vals()),
{
    assert(assignment_satisfies(cs.constraints_vw(), cs.aux_vals(), cs.input_vals()));
    assert(cs.aux_vals().len() == cs.num_aux as int);
}

} // verus!
