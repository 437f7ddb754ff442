use poly_circuit::field::{fr_from_i128, FieldElement};
use poly_circuit::witness::{output, product, WitnessValue};

fn present(v: i128) -> WitnessValue {
    Some(fr_from_i128(v))
}

#[test]
fn product_of_two_present_values() {
    assert_eq!(product(&present(6), &present(7)), present(42));
    assert_eq!(product(&present(2022), &present(2022)), present(4088484));
}

#[test]
fn product_is_absent_when_an_input_is() {
    assert_eq!(product(&None, &present(7)), None);
    assert_eq!(product(&present(7), &None), None);
    assert_eq!(product(&None, &None), None);
}

#[test]
fn output_adds_both_values_and_three() {
    assert_eq!(output(&present(10), &present(20)), present(33));
    assert_eq!(output(&present(0), &present(0)), Some(FieldElement::from_u64(3)));
    assert_eq!(
        output(&present(138187276906174901013888), &present(33799148267713632)),
        present(138187310705323168727523)
    );
}

#[test]
fn output_is_absent_when_an_input_is() {
    assert_eq!(output(&None, &present(1)), None);
    assert_eq!(output(&present(1), &None), None);
    assert_eq!(output(&None, &None), None);
}
