//! The circuit for `out = x^7 + x^5 + 3`: six private values, one public
//! value, and six constraints, always in the same order.
//!
//! | value | witness     | constraint                    |
//! |-------|-------------|-------------------------------|
//! | `x`   | the input   |                               |
//! | `x2`  | `x * x`     | `x * x = x2`                  |
//! | `x4`  | `x2 * x2`   | `x2 * x2 = x4`                |
//! | `x6`  | `x4 * x2`   | `x4 * x2 = x6`                |
//! | `x7`  | `x6 * x`    | `x6 * x = x7`                 |
//! | `x5`  | `x4 * x`    | `x4 * x = x5`                 |
//! | `out` | `x7+x5+3`   | `(x7 + x5 + 3) * 1 = out`     |
//!
//! Only `out` is public. No value is shared between two rows, even where
//! two rows hold the same power.

use crate::field::{modulus, FieldElement};
use crate::r1cs::{
    fresh, one, refuses, stored, valid, ConstraintSystem, ConstraintView, LinearCombination, SinkMode,
    SynthesisFault, SystemView, Variable,
};
use crate::witness::{
    lemma_field_polynomial, lemma_field_power_one, lemma_field_power_product, output, product,
    witness_output, witness_polynomial, witness_power, witness_product, witness_view, WitnessValue,
};
use vstd::arithmetic::div_mod::lemma_small_mod;
use vstd::prelude::*;

verus! {

/// The number of private variables that one evaluation allocates.
pub const PRIVATE_COUNT: usize = 6;

/// The number of public variables that one evaluation allocates.
pub const PUBLIC_COUNT: usize = 1;

/// The number of constraints that one evaluation enforces.
pub const GATE_COUNT: usize = 6;

/// The values derived from the input, each from the ones before it.
pub struct Derived {
    pub x2: Option<nat>,
    pub x4: Option<nat>,
    pub x6: Option<nat>,
    pub x7: Option<nat>,
    pub x5: Option<nat>,
    pub out: Option<nat>,
}

/// The derivation that the circuit follows.
pub open spec fn derive(x: Option<nat>) -> Derived {
    let x2 = witness_product(x, x);
    let x4 = witness_product(x2, x2);
    let x6 = witness_product(x4, x2);
    let x7 = witness_product(x6, x);
    let x5 = witness_product(x4, x);
    let out = witness_output(x7, x5);
    Derived { x2, x4, x6, x7, x5, out }
}

/// The private values, in allocation order, as powers of the input.
pub open spec fn private_values(x: Option<nat>) -> Seq<Option<nat>> {
    seq![
        x,
        witness_power(x, 2),
        witness_power(x, 4),
        witness_power(x, 6),
        witness_power(x, 7),
        witness_power(x, 5),
    ]
}

/// The combination that is one variable with the coefficient one.
pub open spec fn single(v: Variable) -> Map<Variable, nat> {
    Map::<Variable, nat>::empty().insert(v, 1nat)
}

/// The constraint `a * b = c` between three variables.
pub open spec fn product_gate(a: Variable, b: Variable, c: Variable) -> ConstraintView {
    ConstraintView { a: single(a), b: single(b), c: single(c) }
}

/// The constraint `(x7 + x5 + 3) * 1 = out`.
pub open spec fn output_gate(x7: Variable, x5: Variable, out: Variable) -> ConstraintView {
    ConstraintView {
        a: single(x7).insert(x5, 1nat).insert(Variable::Input(0), 3nat),
        b: single(Variable::Input(0)),
        c: single(out),
    }
}

/// The private variable that is `k` places after the first `n`.
pub open spec fn aux_at(n: nat, k: nat) -> Variable {
    Variable::Aux((n + k) as usize)
}

/// The six constraints, where the circuit's private variables start at
/// `n` and its public variable is number `m`.
pub open spec fn gates(n: nat, m: nat) -> Seq<ConstraintView> {
    seq![
        product_gate(aux_at(n, 0), aux_at(n, 0), aux_at(n, 1)),
        product_gate(aux_at(n, 1), aux_at(n, 1), aux_at(n, 2)),
        product_gate(aux_at(n, 2), aux_at(n, 1), aux_at(n, 3)),
        product_gate(aux_at(n, 3), aux_at(n, 0), aux_at(n, 4)),
        product_gate(aux_at(n, 2), aux_at(n, 0), aux_at(n, 5)),
        output_gate(aux_at(n, 4), aux_at(n, 5), Variable::Input(m as usize)),
    ]
}

/// The system after one evaluation of the circuit with the input `x`.
pub open spec fn synthesized(s: SystemView, x: Option<nat>) -> SystemView {
    SystemView {
        mode: s.mode,
        inputs: s.inputs.push(stored(s.mode, witness_polynomial(x))),
        aux: s.aux + private_values(x).map_values(|v: Option<nat>| stored(s.mode, v)),
        constraints: s.constraints + gates(s.aux.len(), s.inputs.len()),
    }
}

/// The mode in which an evaluation with this input cannot fail.
pub open spec fn mode_for(x: Option<nat>) -> SinkMode {
    if x is Some {
        SinkMode::Assign
    } else {
        SinkMode::Shape
    }
}

/// Every derived value is present exactly when the input is, and then is
/// the power of the input that its name says; the output is the
/// polynomial at the input.
pub proof fn lemma_witness_propagation(x: Option<nat>)
    requires
        x is Some ==> x->0 < modulus(),
    ensures
        derive(x).x2 == witness_power(x, 2),
        derive(x).x4 == witness_power(x, 4),
        derive(x).x6 == witness_power(x, 6),
        derive(x).x7 == witness_power(x, 7),
        derive(x).x5 == witness_power(x, 5),
        derive(x).out == witness_polynomial(x),
        x is None ==> derive(x) == (Derived {
            x2: None,
            x4: None,
            x6: None,
            x7: None,
            x5: None,
            out: None,
        }),
        x is Some ==> {
            &&& derive(x).x2 is Some
            &&& derive(x).x4 is Some
            &&& derive(x).x6 is Some
            &&& derive(x).x7 is Some
            &&& derive(x).x5 is Some
            &&& derive(x).out is Some
        },
{
    if let Some(v) = x {
        lemma_field_power_one(v);
        lemma_field_power_product(v, 1, 1);
        lemma_field_power_product(v, 2, 2);
        lemma_field_power_product(v, 4, 2);
        lemma_field_power_product(v, 6, 1);
        lemma_field_power_product(v, 4, 1);
        lemma_field_polynomial(v);
    }
}

/// One evaluation allocates six private variables and one public
/// variable, and enforces six constraints, whatever the witness is and
/// whether or not it is there.
pub proof fn lemma_gate_count(s: SystemView, x: Option<nat>)
    ensures
        synthesized(s, x).aux.len() == s.aux.len() + PRIVATE_COUNT,
        synthesized(s, x).inputs.len() == s.inputs.len() + PUBLIC_COUNT,
        synthesized(s, x).constraints.len() == s.constraints.len() + GATE_COUNT,
        synthesized(s, x).mode == s.mode,
{
}

/// Shaping does not depend on the witness: two evaluations into shaping
/// sinks in the same state give the same system, and two evaluations into
/// any sinks in the same state give the same constraints and the same
/// numbers of public and private variables.
pub proof fn lemma_shape_deterministic(s: SystemView, x: Option<nat>, y: Option<nat>)
    ensures
        synthesized(s, x).constraints == synthesized(s, y).constraints,
        synthesized(s, x).inputs.len() == synthesized(s, y).inputs.len(),
        synthesized(s, x).aux.len() == synthesized(s, y).aux.len(),
        s.mode == SinkMode::Shape ==> synthesized(s, x) == synthesized(s, y),
{
    if s.mode == SinkMode::Shape {
        assert(synthesized(s, x).aux =~= synthesized(s, y).aux);
        assert(synthesized(s, x).inputs =~= synthesized(s, y).inputs);
    }
}

/// Of the variables that one evaluation allocates, exactly one is public:
/// the last public variable of the system, which the last constraint
/// equates with the output. Every other variable of the six constraints
/// is private or the constant one.
pub proof fn lemma_public_private_partition(s: SystemView, x: Option<nat>)
    requires
        valid(s),
        s.aux.len() + PRIVATE_COUNT <= usize::MAX,
        s.inputs.len() + PUBLIC_COUNT <= usize::MAX,
    ensures
        synthesized(s, x).inputs.len() == s.inputs.len() + 1,
        synthesized(s, x).inputs.last() == stored(s.mode, witness_polynomial(x)),
        synthesized(s, x).constraints.last().c == single(Variable::Input(s.inputs.len() as usize)),
        forall|k: int, v: Variable|
            s.constraints.len() <= k < synthesized(s, x).constraints.len() && (
            synthesized(s, x).constraints[k].a.contains_key(v)
                || synthesized(s, x).constraints[k].b.contains_key(v)
                || synthesized(s, x).constraints[k].c.contains_key(v)) ==> (v is Aux
                || v == Variable::Input(0) || v == Variable::Input(s.inputs.len() as usize)),
{
    let after = synthesized(s, x);
    let g = gates(s.aux.len(), s.inputs.len());
    assert forall|k: int, v: Variable|
        s.constraints.len() <= k < after.constraints.len() && (after.constraints[k].a.contains_key(
            v,
        ) || after.constraints[k].b.contains_key(v) || after.constraints[k].c.contains_key(
            v,
        )) implies (v is Aux || v == Variable::Input(0) || v == Variable::Input(
        s.inputs.len() as usize,
    )) by {
        let j = k - s.constraints.len();
        assert(after.constraints[k] == g[j]);
    }
}

/// The circuit: the secret input, present while proving and absent while
/// shaping.
#[derive(Clone, Copy, Debug, PartialEq, Eq)]
pub struct MyCircuit {
    pub x: WitnessValue,
}

/// The combination that is one variable with the coefficient one.
fn variable(v: Variable) -> (r: LinearCombination)
    ensures
        r.wf(),
        r@ == single(v),
{
    proof {
        lemma_small_mod(1, modulus());
    }
    LinearCombination::zero().add_variable(v)
}

impl MyCircuit {
    /// Evaluates the circuit into a sink: allocates `x`, `x2`, `x4`,
    /// `x6`, `x7` and `x5` as private variables and `out` as a public
    /// one, and enforces the six constraints between them.
    ///
    /// It fails exactly when the sink needs values and the input is
    /// absent, and then leaves the sink as it was.
    pub fn synthesize(self, cs: &mut ConstraintSystem) -> (r: Result<(), SynthesisFault>)
        requires
            old(cs).wf(),
        ensures
            final(cs).wf(),
            refuses(old(cs)@.mode, witness_view(self.x)) ==> {
                &&& r == Err::<(), SynthesisFault>(SynthesisFault::AssignmentMissing)
                &&& final(cs)@ == old(cs)@
            },
            !refuses(old(cs)@.mode, witness_view(self.x)) ==> {
                &&& r == Ok::<(), SynthesisFault>(())
                &&& final(cs)@ == synthesized(old(cs)@, witness_view(self.x))
            },
    {
        let x = self.x;
        proof {
            if let Some(v) = x {
                use_type_invariant(&v);
                v.lemma_wf();
            }
            lemma_witness_propagation(witness_view(x));
            lemma_small_mod(1, modulus());
            lemma_small_mod(3, modulus());
        }
        let ghost start = cs@;
        let x_var = cs.allocate("x", x)?;

        let x2 = product(&x, &x);
        let x2_var = cs.allocate("x^2", x2)?;
        cs.enforce("x * x = x^2", variable(x_var), variable(x_var), variable(x2_var));

        let x4 = product(&x2, &x2);
        let x4_var = cs.allocate("x^4", x4)?;
        cs.enforce("x^2 * x^2 = x^4", variable(x2_var), variable(x2_var), variable(x4_var));

        let x6 = product(&x4, &x2);
        let x6_var = cs.allocate("x^6", x6)?;
        cs.enforce("x^4 * x^2 = x^6", variable(x4_var), variable(x2_var), variable(x6_var));

        let x7 = product(&x6, &x);
        let x7_var = cs.allocate("x^7", x7)?;
        cs.enforce("x^6 * x = x^7", variable(x6_var), variable(x_var), variable(x7_var));

        let x5 = product(&x4, &x);
        let x5_var = cs.allocate("x^5", x5)?;
        cs.enforce("x^4 * x = x^5", variable(x4_var), variable(x_var), variable(x5_var));

        let out = output(&x7, &x5);
        let out_var = cs.allocate_input("out", out)?;
        let sum = variable(x7_var).add_variable(x5_var).add_term(FieldElement::from_u64(3), one());
        cs.enforce("(x^7 + x^5 + 3) * 1 = out", sum, variable(one()), variable(out_var));

        proof {
            let goal = synthesized(start, witness_view(x));
            assert(cs@.aux =~= goal.aux);
            assert(cs@.inputs =~= goal.inputs);
            assert(cs@.constraints =~= goal.constraints);
        }
        Ok(())
    }

    /// The mode of the sink that suits the witness: assigning where the
    /// input is present, shaping where it is absent.
    pub fn suitable_mode(&self) -> (r: SinkMode)
        ensures
            r == mode_for(witness_view(self.x)),
    {
        match self.x {
            Some(_) => SinkMode::Assign,
            None => SinkMode::Shape,
        }
    }

    /// Evaluates the circuit into a new sink of the mode that suits the
    /// witness, and hands the sink back. This never fails.
    pub fn evaluate(self) -> (r: ConstraintSystem)
        ensures
            r.wf(),
            r@ == synthesized(fresh(mode_for(witness_view(self.x))), witness_view(self.x)),
    {
        let mut cs = ConstraintSystem::new(self.suitable_mode());
        let _ = self.synthesize(&mut cs);
        cs
    }
}

} // verus!
