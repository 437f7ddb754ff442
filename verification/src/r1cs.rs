//! Rank-1 constraint systems: variables, linear combinations over them,
//! and the sink that records allocations and constraints in order.

use crate::field::{field_sum, modulus, FieldElement};
use crate::witness::{witness_view, WitnessValue};
use vstd::arithmetic::div_mod::lemma_small_mod;
use vstd::prelude::*;

verus! {

/// A handle to an allocated value. It carries no data, only the identity
/// by which constraints refer to the value: public inputs and private
/// (auxiliary) values are numbered apart, each from zero.
#[derive(Clone, Copy, Debug, PartialEq, Eq, Structural)]
pub enum Variable {
    Input(usize),
    Aux(usize),
}

/// The public variable that always holds one.
pub fn one() -> (r: Variable)
    ensures
        r == Variable::Input(0),
{
    Variable::Input(0)
}

/// One summand of a linear combination.
#[derive(Clone, Copy, Debug, PartialEq, Eq)]
pub struct Term {
    pub coeff: FieldElement,
    pub var: Variable,
}

/// The coefficient that a mapping gives a variable: zero where the
/// variable does not occur.
pub open spec fn coefficient(m: Map<Variable, nat>, v: Variable) -> nat {
    if m.contains_key(v) {
        m[v]
    } else {
        0
    }
}

/// The mapping that a list of terms denotes. A variable that occurs more
/// than once gets the sum of its coefficients.
pub open spec fn terms_map(terms: Seq<Term>) -> Map<Variable, nat>
    decreases terms.len(),
{
    if terms.len() == 0 {
        Map::empty()
    } else {
        let rest = terms_map(terms.drop_last());
        let t = terms.last();
        rest.insert(t.var, field_sum(coefficient(rest, t.var), t.coeff@))
    }
}

/// No variable occurs in two terms.
pub open spec fn distinct_vars(terms: Seq<Term>) -> bool {
    forall|i: int, j: int| 0 <= i < j < terms.len() ==> terms[i].var != terms[j].var
}

/// Every coefficient is below the field's order.
pub open spec fn canonical_coeffs(terms: Seq<Term>) -> bool {
    forall|i: int| 0 <= i < terms.len() ==> (#[trigger] terms[i]).coeff@ < modulus()
}

/// How a list of terms changes when `coeff` times `var` is added: where
/// the variable has a term, that term's coefficient grows by `coeff` and
/// nothing else changes; where it has none, a term for it comes last.
pub open spec fn term_added(
    before: Seq<Term>,
    after: Seq<Term>,
    coeff: FieldElement,
    var: Variable,
) -> bool {
    if exists|i: int| 0 <= i < before.len() && (#[trigger] before[i]).var == var {
        &&& after.len() == before.len()
        &&& forall|i: int| 0 <= i < before.len() ==> (#[trigger] after[i]).var == before[i].var
        &&& forall|i: int|
            0 <= i < before.len() ==> (#[trigger] after[i]).coeff@ == if before[i].var == var {
                field_sum(before[i].coeff@, coeff@)
            } else {
                before[i].coeff@
            }
    } else {
        after == before.push(Term { coeff, var })
    }
}

/// A variable is in the mapping exactly when some term names it.
pub proof fn lemma_terms_map_domain(terms: Seq<Term>, v: Variable)
    ensures
        terms_map(terms).contains_key(v) <==> exists|i: int|
            0 <= i < terms.len() && (#[trigger] terms[i]).var == v,
    decreases terms.len(),
{
    if terms.len() > 0 {
        let front = terms.drop_last();
        lemma_terms_map_domain(front, v);
        if terms_map(terms).contains_key(v) {
            if terms.last().var == v {
                assert(terms[terms.len() - 1].var == v);
            } else {
                let i = choose|i: int| 0 <= i < front.len() && (#[trigger] front[i]).var == v;
                assert(terms[i].var == v);
            }
        }
        if exists|i: int| 0 <= i < terms.len() && (#[trigger] terms[i]).var == v {
            let i = choose|i: int| 0 <= i < terms.len() && (#[trigger] terms[i]).var == v;
            if i < terms.len() - 1 {
                assert(front[i].var == v);
            }
        }
    }
}

/// Where no variable occurs twice, the mapping gives each variable the
/// coefficient of its one term.
pub proof fn lemma_terms_map_value(terms: Seq<Term>, i: int)
    requires
        distinct_vars(terms),
        canonical_coeffs(terms),
        0 <= i < terms.len(),
    ensures
        terms_map(terms).contains_key(terms[i].var),
        terms_map(terms)[terms[i].var] == terms[i].coeff@,
    decreases terms.len(),
{
    let front = terms.drop_last();
    let last = terms.last();
    assert(distinct_vars(front)) by {
        assert forall|a: int, b: int| 0 <= a < b < front.len() implies front[a].var
            != front[b].var by {
            assert(terms[a].var != terms[b].var);
        }
    }
    assert(canonical_coeffs(front)) by {
        assert forall|a: int| 0 <= a < front.len() implies (#[trigger] front[a]).coeff@
            < modulus() by {
            assert(terms[a].coeff@ < modulus());
        }
    }
    if i == terms.len() - 1 {
        lemma_terms_map_domain(front, last.var);
        if terms_map(front).contains_key(last.var) {
            let k = choose|k: int| 0 <= k < front.len() && (#[trigger] front[k]).var == last.var;
            assert(terms[k].var == terms[i].var);
        }
        assert(terms[i].coeff@ < modulus());
        lemma_small_mod(last.coeff@, modulus());
    } else {
        lemma_terms_map_value(front, i);
        assert(front[i] == terms[i]);
        assert(terms[i].var != last.var);
    }
}

/// Replacing the coefficient of one term, where no variable occurs twice,
/// replaces that variable's entry in the mapping.
pub proof fn lemma_terms_map_replace(terms: Seq<Term>, i: int, coeff: FieldElement)
    requires
        distinct_vars(terms),
        canonical_coeffs(terms),
        0 <= i < terms.len(),
        coeff@ < modulus(),
    ensures
        distinct_vars(terms.update(i, Term { coeff, var: terms[i].var })),
        canonical_coeffs(terms.update(i, Term { coeff, var: terms[i].var })),
        terms_map(terms.update(i, Term { coeff, var: terms[i].var })) == terms_map(terms).insert(
            terms[i].var,
            coeff@,
        ),
{
    let var = terms[i].var;
    let changed = terms.update(i, Term { coeff, var });
    assert(distinct_vars(changed)) by {
        assert forall|a: int, b: int| 0 <= a < b < changed.len() implies changed[a].var
            != changed[b].var by {
            assert(terms[a].var != terms[b].var);
        }
    }
    assert(canonical_coeffs(changed)) by {
        assert forall|a: int| 0 <= a < changed.len() implies (#[trigger] changed[a]).coeff@
            < modulus() by {
            if a != i {
                assert(terms[a].coeff@ < modulus());
            }
        }
    }
    let left = terms_map(changed);
    let right = terms_map(terms).insert(var, coeff@);
    assert forall|v: Variable| left.contains_key(v) <==> right.contains_key(v) by {
        lemma_terms_map_domain(changed, v);
        lemma_terms_map_domain(terms, v);
        if left.contains_key(v) {
            let k = choose|k: int| 0 <= k < changed.len() && (#[trigger] changed[k]).var == v;
            assert(terms[k].var == v);
        }
        if terms_map(terms).contains_key(v) {
            let k = choose|k: int| 0 <= k < terms.len() && (#[trigger] terms[k]).var == v;
            assert(changed[k].var == v);
        }
        if v == var {
            assert(changed[i].var == v);
        }
    }
    assert forall|v: Variable| left.contains_key(v) implies left[v] == right[v] by {
        lemma_terms_map_domain(changed, v);
        let k = choose|k: int| 0 <= k < changed.len() && (#[trigger] changed[k]).var == v;
        lemma_terms_map_value(changed, k);
        if k != i {
            lemma_terms_map_value(terms, k);
            assert(terms[k].var != terms[i].var);
        }
    }
    assert(left =~= right);
}

/// A sum of variables weighted by field elements. Its view maps each
/// variable that occurs to its coefficient.
#[derive(Clone, Debug, PartialEq, Eq)]
pub struct LinearCombination {
    terms: Vec<Term>,
}

impl View for LinearCombination {
    type V = Map<Variable, nat>;

    open spec fn view(&self) -> Map<Variable, nat> {
        terms_map(self.term_seq())
    }
}

impl LinearCombination {
    /// The terms, in the order in which their variables first came.
    pub closed spec fn term_seq(&self) -> Seq<Term> {
        self.terms@
    }

    /// Each variable has one term, and each coefficient is canonical.
    pub open spec fn wf(&self) -> bool {
        distinct_vars(self.term_seq()) && canonical_coeffs(self.term_seq())
    }

    /// The combination without terms.
    pub fn zero() -> (r: LinearCombination)
        ensures
            r.wf(),
            r@ == Map::<Variable, nat>::empty(),
            r.term_seq().len() == 0,
    {
        LinearCombination { terms: Vec::new() }
    }

    /// Adds `coeff` times `var`. Where `var` occurs already, the two
    /// coefficients are summed in the field.
    pub fn add_term(self, coeff: FieldElement, var: Variable) -> (r: LinearCombination)
        requires
            self.wf(),
        ensures
            r.wf(),
            r@ == self@.insert(var, field_sum(coefficient(self@, var), coeff@)),
            term_added(self.term_seq(), r.term_seq(), coeff, var),
    {
        proof {
            use_type_invariant(&coeff);
            coeff.lemma_wf();
        }
        let mut this = self;
        let n = this.terms.len();
        let mut i: usize = 0;
        while i < n
            invariant
                i <= n,
                n == this.terms.len(),
                this == self,
                self.wf(),
                coeff@ < modulus(),
                forall|k: int| 0 <= k < i ==> (#[trigger] this.terms@[k]).var != var,
            decreases n - i,
        {
            let current = this.terms[i];
            if current.var == var {
                let merged = current.coeff.add(&coeff);
                proof {
                    lemma_terms_map_value(self.terms@, i as int);
                    lemma_terms_map_replace(self.terms@, i as int, merged);
                    merged.lemma_wf();
                }
                this.terms[i] = Term { coeff: merged, var };
                proof {
                    assert(self.terms@[i as int].var == var);
                    assert forall|k: int| 0 <= k < n implies (#[trigger] this.terms@[k]).coeff@
                        == if self.terms@[k].var == var {
                        field_sum(self.terms@[k].coeff@, coeff@)
                    } else {
                        self.terms@[k].coeff@
                    } by {
                        if k != i {
                            if k < i {
                                assert(self.terms@[k].var != self.terms@[i as int].var);
                            } else {
                                assert(self.terms@[i as int].var != self.terms@[k].var);
                            }
                        }
                    }
                }
                return this;
            }
            i += 1;
        }
        proof {
            lemma_terms_map_domain(self.terms@, var);
            lemma_small_mod(coeff@, modulus());
            assert(this.terms@.push(Term { coeff, var }).drop_last() =~= this.terms@);
        }
        this.terms.push(Term { coeff, var });
        this
    }

    /// Adds `var` with the coefficient one.
    pub fn add_variable(self, var: Variable) -> (r: LinearCombination)
        requires
            self.wf(),
        ensures
            r.wf(),
            r@ == self@.insert(var, field_sum(coefficient(self@, var), 1)),
            exists|unit: FieldElement|
                unit@ == 1 && term_added(self.term_seq(), r.term_seq(), unit, var),
    {
        self.add_term(FieldElement::from_u64(1), var)
    }

    /// The terms: one for each variable that occurs.
    pub fn terms(&self) -> (r: &Vec<Term>)
        ensures
            r@ == self.term_seq(),
    {
        &self.terms
    }

    /// The coefficient of a variable, or `None` where the variable does
    /// not occur.
    pub fn coefficient_of(&self, var: Variable) -> (r: Option<FieldElement>)
        requires
            self.wf(),
        ensures
            r is Some <==> self@.contains_key(var),
            r is Some ==> r->0@ == self@[var],
    {
        let n = self.terms.len();
        let mut i: usize = 0;
        while i < n
            invariant
                i <= n,
                n == self.terms.len(),
                self.wf(),
                forall|k: int| 0 <= k < i ==> (#[trigger] self.terms@[k]).var != var,
            decreases n - i,
        {
            let current = self.terms[i];
            if current.var == var {
                proof {
                    lemma_terms_map_value(self.terms@, i as int);
                }
                return Some(current.coeff);
            }
            i += 1;
        }
        proof {
            lemma_terms_map_domain(self.terms@, var);
        }
        None
    }
}

/// One constraint: the values of `a` and `b` multiply to the value of `c`.
#[derive(Clone, Debug, PartialEq, Eq)]
pub struct Constraint {
    pub a: LinearCombination,
    pub b: LinearCombination,
    pub c: LinearCombination,
}

/// A constraint as three mappings from variables to coefficients.
pub struct ConstraintView {
    pub a: Map<Variable, nat>,
    pub b: Map<Variable, nat>,
    pub c: Map<Variable, nat>,
}

impl View for Constraint {
    type V = ConstraintView;

    open spec fn view(&self) -> ConstraintView {
        ConstraintView { a: self.a@, b: self.b@, c: self.c@ }
    }
}

impl Constraint {
    /// Each of the three combinations is well formed.
    pub open spec fn wf(&self) -> bool {
        self.a.wf() && self.b.wf() && self.c.wf()
    }
}

/// What a sink does with the values it is handed.
#[derive(Clone, Copy, Debug, PartialEq, Eq, Structural)]
pub enum SinkMode {
    /// Only the shape is recorded: values are never looked at, and every
    /// variable stays unassigned.
    Shape,
    /// Every variable needs a value: an allocation without one fails.
    Assign,
}

/// Why building or using a constraint system failed.
#[derive(Clone, Copy, Debug, PartialEq, Eq, Structural)]
pub enum SynthesisFault {
    AssignmentMissing,
    DivisionByZero,
    Unsatisfiable,
    PolynomialDegreeTooLarge,
    UnexpectedIdentity,
    IoError,
    MalformedVerifyingKey,
    UnconstrainedVariable,
    MalformedProofs,
    MalformedSrs,
    NonPowerOfTwo,
    IncompatibleLengthVector,
    InvalidPairing,
}

/// A constraint system as plain data: the assignment of the public and of
/// the private variables, in allocation order, and the constraints, in the
/// order in which they were enforced.
pub struct SystemView {
    pub mode: SinkMode,
    pub inputs: Seq<Option<nat>>,
    pub aux: Seq<Option<nat>>,
    pub constraints: Seq<ConstraintView>,
}

/// The variable has been allocated in the system.
pub open spec fn allocated(s: SystemView, v: Variable) -> bool {
    match v {
        Variable::Input(i) => i < s.inputs.len(),
        Variable::Aux(i) => i < s.aux.len(),
    }
}

/// Every variable of the combination has been allocated in the system.
pub open spec fn within(lc: Map<Variable, nat>, s: SystemView) -> bool {
    forall|v: Variable| #[trigger] lc.contains_key(v) ==> allocated(s, v)
}

/// What a sink keeps of a value it is handed.
pub open spec fn stored(mode: SinkMode, value: Option<nat>) -> Option<nat> {
    match mode {
        SinkMode::Shape => None,
        SinkMode::Assign => value,
    }
}

/// The sink cannot take the value: it needs one and there is none.
pub open spec fn refuses(mode: SinkMode, value: Option<nat>) -> bool {
    mode == SinkMode::Assign && value is None
}

/// A stored value suits the mode: none while shaping, a number below the
/// field's order while assigning.
pub open spec fn fits(mode: SinkMode, value: Option<nat>) -> bool {
    match mode {
        SinkMode::Shape => value is None,
        SinkMode::Assign => value is Some && value->0 < modulus(),
    }
}

/// The system holds the constant one as its first public variable, its
/// variables can be numbered by machine integers, every stored value suits
/// the mode, and every constraint speaks of allocated variables only.
pub open spec fn valid(s: SystemView) -> bool {
    &&& 1 <= s.inputs.len() <= usize::MAX
    &&& s.aux.len() <= usize::MAX
    &&& s.inputs[0] == stored(s.mode, Some(1nat))
    &&& forall|i: int| 0 <= i < s.inputs.len() ==> fits(s.mode, #[trigger] s.inputs[i])
    &&& forall|i: int| 0 <= i < s.aux.len() ==> fits(s.mode, #[trigger] s.aux[i])
    &&& forall|k: int|
        0 <= k < s.constraints.len() ==> {
            &&& within((#[trigger] s.constraints[k]).a, s)
            &&& within(s.constraints[k].b, s)
            &&& within(s.constraints[k].c, s)
        }
}

/// The system that a new sink holds: the constant one and nothing else.
pub open spec fn fresh(mode: SinkMode) -> SystemView {
    SystemView {
        mode,
        inputs: seq![stored(mode, Some(1nat))],
        aux: Seq::empty(),
        constraints: Seq::empty(),
    }
}

/// The system after one private allocation.
pub open spec fn after_alloc(s: SystemView, value: Option<nat>) -> SystemView {
    if refuses(s.mode, value) {
        s
    } else {
        SystemView { aux: s.aux.push(stored(s.mode, value)), ..s }
    }
}

/// The system after one public allocation.
pub open spec fn after_alloc_input(s: SystemView, value: Option<nat>) -> SystemView {
    if refuses(s.mode, value) {
        s
    } else {
        SystemView { inputs: s.inputs.push(stored(s.mode, value)), ..s }
    }
}

/// The system after one more constraint.
pub open spec fn after_enforce(s: SystemView, c: ConstraintView) -> SystemView {
    SystemView { constraints: s.constraints.push(c), ..s }
}

/// The views of a list of witness values.
pub open spec fn witness_seq(values: Seq<WitnessValue>) -> Seq<Option<nat>> {
    values.map_values(|w: WitnessValue| witness_view(w))
}

/// The views of a list of constraints.
pub open spec fn constraint_seq(constraints: Seq<Constraint>) -> Seq<ConstraintView> {
    constraints.map_values(|c: Constraint| c@)
}

/// A sink for allocations and constraints. It records the private and the
/// public variables with what it keeps of their values, and the
/// constraints in the order in which they come.
#[derive(Clone, Debug, PartialEq, Eq)]
pub struct ConstraintSystem {
    mode: SinkMode,
    inputs: Vec<WitnessValue>,
    aux: Vec<WitnessValue>,
    constraints: Vec<Constraint>,
}

impl View for ConstraintSystem {
    type V = SystemView;

    closed spec fn view(&self) -> SystemView {
        SystemView {
            mode: self.mode,
            inputs: witness_seq(self.inputs@),
            aux: witness_seq(self.aux@),
            constraints: constraint_seq(self.constraints@),
        }
    }
}

impl ConstraintSystem {
    /// Every recorded combination is well formed.
    pub closed spec fn built(&self) -> bool {
        forall|k: int| 0 <= k < self.constraints@.len() ==> (#[trigger] self.constraints@[k]).wf()
    }

    /// The recorded system is valid and its combinations are well formed.
    pub open spec fn wf(&self) -> bool {
        valid(self@) && self.built()
    }

    /// A sink that holds the constant one and nothing else.
    pub fn new(mode: SinkMode) -> (r: ConstraintSystem)
        ensures
            r.wf(),
            r@ == fresh(mode),
    {
        let unit: WitnessValue = match mode {
            SinkMode::Shape => None,
            SinkMode::Assign => Some(FieldElement::from_u64(1)),
        };
        let mut inputs: Vec<WitnessValue> = Vec::new();
        inputs.push(unit);
        let r = ConstraintSystem { mode, inputs, aux: Vec::new(), constraints: Vec::new() };
        proof {
            assert(r@.inputs =~= fresh(mode).inputs);
            assert(r@.aux =~= fresh(mode).aux);
            assert(r@.constraints =~= fresh(mode).constraints);
        }
        r
    }

    /// What the sink does with values.
    pub fn mode(&self) -> (r: SinkMode)
        ensures
            r == self@.mode,
    {
        self.mode
    }

    /// The number of public variables, the constant one included.
    pub fn num_inputs(&self) -> (r: usize)
        ensures
            r == self@.inputs.len(),
    {
        self.inputs.len()
    }

    /// The number of private variables.
    pub fn num_aux(&self) -> (r: usize)
        ensures
            r == self@.aux.len(),
    {
        self.aux.len()
    }

    /// The number of constraints.
    pub fn num_constraints(&self) -> (r: usize)
        ensures
            r == self@.constraints.len(),
    {
        self.constraints.len()
    }

    /// What the sink keeps of the value of a public variable.
    pub fn input(&self, i: usize) -> (r: WitnessValue)
        requires
            i < self@.inputs.len(),
        ensures
            witness_view(r) == self@.inputs[i as int],
    {
        self.inputs[i]
    }

    /// What the sink keeps of the value of a private variable.
    pub fn aux(&self, i: usize) -> (r: WitnessValue)
        requires
            i < self@.aux.len(),
        ensures
            witness_view(r) == self@.aux[i as int],
    {
        self.aux[i]
    }

    /// A constraint, by its place in the order of enforcement.
    pub fn constraint(&self, k: usize) -> (r: &Constraint)
        requires
            k < self@.constraints.len(),
        ensures
            r@ == self@.constraints[k as int],
            self.wf() ==> r.wf(),
    {
        &self.constraints[k]
    }

    /// Allocates a private variable. A shaping sink never looks at the
    /// value; an assigning sink keeps it, and fails without one. The label
    /// serves readers only.
    pub fn allocate(&mut self, _label: &str, value: WitnessValue) -> (r: Result<
        Variable,
        SynthesisFault,
    >)
        requires
            old(self).wf(),
        ensures
            final(self).wf(),
            final(self)@ == after_alloc(old(self)@, witness_view(value)),
            refuses(old(self)@.mode, witness_view(value)) ==> r == Err::<Variable, SynthesisFault>(
                SynthesisFault::AssignmentMissing,
            ),
            !refuses(old(self)@.mode, witness_view(value)) ==> r == Ok::<Variable, SynthesisFault>(
                Variable::Aux(old(self)@.aux.len() as usize),
            ),
    {
        let kept: WitnessValue = match self.mode {
            SinkMode::Shape => None,
            SinkMode::Assign => match value {
                Some(v) => {
                    proof {
                        use_type_invariant(&v);
                        v.lemma_wf();
                    }
                    Some(v)
                },
                None => {
                    return Err(SynthesisFault::AssignmentMissing);
                },
            },
        };
        let index = self.aux.len();
        self.aux.push(kept);
        proof {
            let before = old(self)@;
            let after = after_alloc(before, witness_view(value));
            assert(self.aux@.len() == self.aux.len());
            assert(self@.aux =~= after.aux);
            assert(self@.inputs =~= after.inputs);
            assert(self@.constraints =~= after.constraints);
            lemma_valid_grows(before, after);
        }
        Ok(Variable::Aux(index))
    }

    /// Allocates a public variable: one that belongs to the statement. A
    /// shaping sink never looks at the value; an assigning sink keeps it,
    /// and fails without one. The label serves readers only.
    pub fn allocate_input(&mut self, _label: &str, value: WitnessValue) -> (r: Result<
        Variable,
        SynthesisFault,
    >)
        requires
            old(self).wf(),
        ensures
            final(self).wf(),
            final(self)@ == after_alloc_input(old(self)@, witness_view(value)),
            refuses(old(self)@.mode, witness_view(value)) ==> r == Err::<Variable, SynthesisFault>(
                SynthesisFault::AssignmentMissing,
            ),
            !refuses(old(self)@.mode, witness_view(value)) ==> r == Ok::<Variable, SynthesisFault>(
                Variable::Input(old(self)@.inputs.len() as usize),
            ),
    {
        let kept: WitnessValue = match self.mode {
            SinkMode::Shape => None,
            SinkMode::Assign => match value {
                Some(v) => {
                    proof {
                        use_type_invariant(&v);
                        v.lemma_wf();
                    }
                    Some(v)
                },
                None => {
                    return Err(SynthesisFault::AssignmentMissing);
                },
            },
        };
        let index = self.inputs.len();
        self.inputs.push(kept);
        proof {
            let before = old(self)@;
            let after = after_alloc_input(before, witness_view(value));
            assert(self.inputs@.len() == self.inputs.len());
            assert(self@.aux =~= after.aux);
            assert(self@.inputs =~= after.inputs);
            assert(self@.constraints =~= after.constraints);
            lemma_valid_grows(before, after);
        }
        Ok(Variable::Input(index))
    }

    /// Appends the constraint `a * b = c`. The three combinations speak of
    /// variables that this sink has allocated. The label serves readers
    /// only.
    pub fn enforce(
        &mut self,
        _label: &str,
        a: LinearCombination,
        b: LinearCombination,
        c: LinearCombination,
    )
        requires
            old(self).wf(),
            a.wf(),
            b.wf(),
            c.wf(),
            within(a@, old(self)@),
            within(b@, old(self)@),
            within(c@, old(self)@),
        ensures
            final(self).wf(),
            final(self)@ == after_enforce(old(self)@, (ConstraintView { a: a@, b: b@, c: c@ })),
    {
        let constraint = Constraint { a, b, c };
        self.constraints.push(constraint);
        proof {
            let before = old(self)@;
            let after = after_enforce(before, constraint@);
            assert(self@.aux =~= after.aux);
            assert(self@.inputs =~= after.inputs);
            assert(self@.constraints =~= after.constraints);
            assert forall|k: int| 0 <= k < after.constraints.len() implies {
                &&& within((#[trigger] after.constraints[k]).a, after)
                &&& within(after.constraints[k].b, after)
                &&& within(after.constraints[k].c, after)
            } by {
                if k < before.constraints.len() {
                    assert(after.constraints[k] == before.constraints[k]);
                }
            }
        }
    }
}

/// A valid system stays valid when variables are added whose stored
/// values suit its mode.
pub proof fn lemma_valid_grows(before: SystemView, after: SystemView)
    requires
        valid(before),
        after.mode == before.mode,
        after.constraints == before.constraints,
        before.inputs.len() <= after.inputs.len() <= usize::MAX,
        before.aux.len() <= after.aux.len() <= usize::MAX,
        forall|i: int| 0 <= i < before.inputs.len() ==> after.inputs[i] == before.inputs[i],
        forall|i: int| 0 <= i < before.aux.len() ==> after.aux[i] == before.aux[i],
        forall|i: int|
            before.inputs.len() <= i < after.inputs.len() ==> fits(after.mode, after.inputs[i]),
        forall|i: int| before.aux.len() <= i < after.aux.len() ==> fits(after.mode, after.aux[i]),
    ensures
        valid(after),
{
    assert forall|k: int| 0 <= k < after.constraints.len() implies {
        &&& within((#[trigger] after.constraints[k]).a, after)
        &&& within(after.constraints[k].b, after)
        &&& within(after.constraints[k].c, after)
    } by {
        let c = before.constraints[k];
        assert(within(c.a, before) && within(c.b, before) && within(c.c, before));
    }
}

} // verus!
