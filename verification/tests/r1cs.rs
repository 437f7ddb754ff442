use poly_circuit::field::{fr_from_i128, FieldElement};
use poly_circuit::r1cs::{
    one, ConstraintSystem, LinearCombination, SinkMode, SynthesisFault, Term, Variable,
};

const MODULUS_LE: [u8; 32] = [
    1, 0, 0, 0, 255, 255, 255, 255, 254, 91, 254, 255, 2, 164, 189, 83, 5, 216, 161, 9, 8, 216, 57,
    51, 72, 125, 157, 41, 83, 167, 237, 115,
];

fn minus_one() -> FieldElement {
    let mut bytes = MODULUS_LE;
    bytes[0] = 0;
    FieldElement::from_bytes_le(&bytes).unwrap()
}

#[test]
fn one_is_the_first_public_variable() {
    assert_eq!(one(), Variable::Input(0));
}

#[test]
fn zero_has_no_terms() {
    let lc = LinearCombination::zero();
    assert!(lc.terms().is_empty());
    assert_eq!(lc.coefficient_of(Variable::Aux(0)), None);
    assert_eq!(lc.coefficient_of(one()), None);
}

#[test]
fn add_variable_gives_the_coefficient_one() {
    let lc = LinearCombination::zero().add_variable(Variable::Aux(4));
    assert_eq!(lc.coefficient_of(Variable::Aux(4)), Some(fr_from_i128(1)));
    assert_eq!(lc.coefficient_of(Variable::Input(4)), None);
    assert_eq!(lc.terms().len(), 1);
}

#[test]
fn add_term_keeps_each_variable_apart() {
    let lc = LinearCombination::zero()
        .add_term(fr_from_i128(5), Variable::Aux(0))
        .add_term(fr_from_i128(7), Variable::Input(0))
        .add_term(fr_from_i128(9), Variable::Aux(1));
    assert_eq!(lc.coefficient_of(Variable::Aux(0)), Some(fr_from_i128(5)));
    assert_eq!(lc.coefficient_of(Variable::Input(0)), Some(fr_from_i128(7)));
    assert_eq!(lc.coefficient_of(Variable::Aux(1)), Some(fr_from_i128(9)));
    assert_eq!(lc.coefficient_of(Variable::Input(1)), None);
    assert_eq!(
        lc.terms(),
        &vec![
            Term { coeff: fr_from_i128(5), var: Variable::Aux(0) },
            Term { coeff: fr_from_i128(7), var: Variable::Input(0) },
            Term { coeff: fr_from_i128(9), var: Variable::Aux(1) },
        ]
    );
}

#[test]
fn a_repeated_variable_is_summed_not_overwritten() {
    let lc = LinearCombination::zero()
        .add_term(fr_from_i128(5), Variable::Aux(0))
        .add_term(fr_from_i128(1), Variable::Aux(1))
        .add_term(fr_from_i128(7), Variable::Aux(0));
    assert_eq!(lc.coefficient_of(Variable::Aux(0)), Some(fr_from_i128(12)));
    assert_eq!(lc.coefficient_of(Variable::Aux(1)), Some(fr_from_i128(1)));
    assert_eq!(lc.terms().len(), 2);
    let twice = LinearCombination::zero().add_variable(one()).add_variable(one());
    assert_eq!(twice.coefficient_of(one()), Some(fr_from_i128(2)));
}

#[test]
fn a_repeated_variable_is_summed_in_the_field() {
    let lc = LinearCombination::zero()
        .add_term(minus_one(), Variable::Aux(3))
        .add_term(fr_from_i128(3), Variable::Aux(3));
    assert_eq!(lc.coefficient_of(Variable::Aux(3)), Some(fr_from_i128(2)));
    let cancelled = LinearCombination::zero()
        .add_term(minus_one(), Variable::Aux(3))
        .add_variable(Variable::Aux(3));
    assert_eq!(cancelled.coefficient_of(Variable::Aux(3)), Some(fr_from_i128(0)));
    assert_eq!(cancelled.terms().len(), 1);
}

#[test]
fn a_new_shaping_sink_holds_the_unassigned_one() {
    let cs = ConstraintSystem::new(SinkMode::Shape);
    assert_eq!(cs.mode(), SinkMode::Shape);
    assert_eq!(cs.num_inputs(), 1);
    assert_eq!(cs.num_aux(), 0);
    assert_eq!(cs.num_constraints(), 0);
    assert_eq!(cs.input(0), None);
}

#[test]
fn a_new_assigning_sink_holds_one() {
    let cs = ConstraintSystem::new(SinkMode::Assign);
    assert_eq!(cs.mode(), SinkMode::Assign);
    assert_eq!(cs.num_inputs(), 1);
    assert_eq!(cs.num_aux(), 0);
    assert_eq!(cs.num_constraints(), 0);
    assert_eq!(cs.input(0), Some(fr_from_i128(1)));
}

#[test]
fn a_shaping_sink_never_looks_at_the_value() {
    let mut cs = ConstraintSystem::new(SinkMode::Shape);
    assert_eq!(cs.allocate("a", None), Ok(Variable::Aux(0)));
    assert_eq!(cs.allocate("b", Some(fr_from_i128(9))), Ok(Variable::Aux(1)));
    assert_eq!(cs.allocate_input("c", None), Ok(Variable::Input(1)));
    assert_eq!(cs.allocate_input("d", Some(fr_from_i128(9))), Ok(Variable::Input(2)));
    assert_eq!(cs.num_aux(), 2);
    assert_eq!(cs.num_inputs(), 3);
    assert_eq!(cs.aux(0), None);
    assert_eq!(cs.aux(1), None);
    assert_eq!(cs.input(1), None);
    assert_eq!(cs.input(2), None);
}

#[test]
fn an_assigning_sink_keeps_the_value() {
    let mut cs = ConstraintSystem::new(SinkMode::Assign);
    assert_eq!(cs.allocate("a", Some(fr_from_i128(5))), Ok(Variable::Aux(0)));
    assert_eq!(cs.allocate("b", Some(fr_from_i128(6))), Ok(Variable::Aux(1)));
    assert_eq!(cs.allocate_input("c", Some(fr_from_i128(7))), Ok(Variable::Input(1)));
    assert_eq!(cs.aux(0), Some(fr_from_i128(5)));
    assert_eq!(cs.aux(1), Some(fr_from_i128(6)));
    assert_eq!(cs.input(1), Some(fr_from_i128(7)));
    assert_eq!(cs.num_constraints(), 0);
}

#[test]
fn an_assigning_sink_fails_without_a_value() {
    let mut cs = ConstraintSystem::new(SinkMode::Assign);
    assert_eq!(cs.allocate("a", Some(fr_from_i128(5))), Ok(Variable::Aux(0)));
    let before = cs.clone();
    assert_eq!(cs.allocate("b", None), Err(SynthesisFault::AssignmentMissing));
    assert_eq!(cs, before);
    assert_eq!(cs.allocate_input("c", None), Err(SynthesisFault::AssignmentMissing));
    assert_eq!(cs, before);
    assert_eq!(cs.allocate("d", Some(fr_from_i128(6))), Ok(Variable::Aux(1)));
}

#[test]
fn enforce_appends_in_order() {
    let mut cs = ConstraintSystem::new(SinkMode::Shape);
    let a = cs.allocate("a", None).unwrap();
    let b = cs.allocate("b", None).unwrap();
    let c = cs.allocate_input("c", None).unwrap();
    cs.enforce(
        "a * b = c",
        LinearCombination::zero().add_variable(a),
        LinearCombination::zero().add_variable(b),
        LinearCombination::zero().add_variable(c),
    );
    cs.enforce(
        "c * 1 = a",
        LinearCombination::zero().add_variable(c),
        LinearCombination::zero().add_variable(one()),
        LinearCombination::zero().add_variable(a),
    );
    assert_eq!(cs.num_constraints(), 2);
    assert_eq!(cs.num_aux(), 2);
    assert_eq!(cs.num_inputs(), 2);
    let first = cs.constraint(0);
    assert_eq!(first.a, LinearCombination::zero().add_variable(a));
    assert_eq!(first.b, LinearCombination::zero().add_variable(b));
    assert_eq!(first.c, LinearCombination::zero().add_variable(c));
    let second = cs.constraint(1);
    assert_eq!(second.a.coefficient_of(c), Some(fr_from_i128(1)));
    assert_eq!(second.b.coefficient_of(one()), Some(fr_from_i128(1)));
    assert_eq!(second.c.coefficient_of(a), Some(fr_from_i128(1)));
    assert_eq!(second.c.coefficient_of(b), None);
}
