//! Witness values: field elements that are present while proving and
//! absent while the circuit is only being shaped.
//!
//! Every derived value is present exactly when all of its inputs are, so
//! a single code path serves both passes.

use crate::field::{field_product, field_sum, modulus, FieldElement};
use vstd::arithmetic::div_mod::{
    lemma_add_mod_noop, lemma_mod_bound, lemma_mul_mod_noop, lemma_small_mod,
};
use vstd::arithmetic::power::{lemma_pow1, lemma_pow_adds, pow};
use vstd::prelude::*;

verus! {

/// A field element that may be absent.
pub type WitnessValue = Option<FieldElement>;

/// The number that a witness value holds, if it holds one.
pub open spec fn witness_view(w: WitnessValue) -> Option<nat> {
    match w {
        Some(f) => Some(f@),
        None => None,
    }
}

/// `x` to the power `k` in the field.
pub open spec fn field_power(x: nat, k: nat) -> nat {
    (pow(x as int, k) % (modulus() as int)) as nat
}

/// The value of `x^7 + x^5 + 3` in the field.
pub open spec fn polynomial(x: nat) -> nat {
    ((pow(x as int, 7) + pow(x as int, 5) + 3) % (modulus() as int)) as nat
}

/// The product of two witness values: present when both are.
pub open spec fn witness_product(a: Option<nat>, b: Option<nat>) -> Option<nat> {
    match (a, b) {
        (Some(x), Some(y)) => Some(field_product(x, y)),
        _ => None,
    }
}

/// The sum of two witness values and the constant three: present when
/// both values are.
pub open spec fn witness_output(a: Option<nat>, b: Option<nat>) -> Option<nat> {
    match (a, b) {
        (Some(x), Some(y)) => Some(field_sum(field_sum(x, y), 3)),
        _ => None,
    }
}

/// A power of a witness value: present when the value is.
pub open spec fn witness_power(x: Option<nat>, k: nat) -> Option<nat> {
    match x {
        Some(v) => Some(field_power(v, k)),
        None => None,
    }
}

/// The polynomial at a witness value: present when the value is.
pub open spec fn witness_polynomial(x: Option<nat>) -> Option<nat> {
    match x {
        Some(v) => Some(polynomial(v)),
        None => None,
    }
}

/// A number below the order is its own first power in the field.
pub proof fn lemma_field_power_one(x: nat)
    requires
        x < modulus(),
    ensures
        field_power(x, 1) == x,
{
    lemma_pow1(x as int);
    lemma_small_mod(x, modulus());
}

/// Multiplying two powers of one number in the field adds the exponents.
pub proof fn lemma_field_power_product(x: nat, i: nat, j: nat)
    ensures
        field_product(field_power(x, i), field_power(x, j)) == field_power(x, i + j),
{
    let p = modulus() as int;
    let a = pow(x as int, i);
    let b = pow(x as int, j);
    lemma_mod_bound(a, p);
    lemma_mod_bound(b, p);
    lemma_mul_mod_noop(a, b, p);
    lemma_pow_adds(x as int, i, j);
    lemma_mod_bound(a * b, p);
}

/// Adding the seventh power, the fifth power and three in the field gives
/// the polynomial.
pub proof fn lemma_field_polynomial(x: nat)
    ensures
        field_sum(field_sum(field_power(x, 7), field_power(x, 5)), 3) == polynomial(x),
{
    let p = modulus() as int;
    let a = pow(x as int, 7);
    let b = pow(x as int, 5);
    lemma_mod_bound(a, p);
    lemma_mod_bound(b, p);
    lemma_add_mod_noop(a, b, p);
    lemma_mod_bound(a + b, p);
    lemma_add_mod_noop(a + b, 3, p);
    lemma_small_mod(3, modulus());
    lemma_mod_bound(a + b + 3, p);
}

/// The product of two witness values. It is present exactly when both
/// inputs are, and then holds their product in the field.
pub fn product(a: &WitnessValue, b: &WitnessValue) -> (r: WitnessValue)
    ensures
        witness_view(r) == witness_product(witness_view(*a), witness_view(*b)),
{
    match (a, b) {
        (Some(x), Some(y)) => Some(x.mul(y)),
        _ => None,
    }
}

/// The sum of two witness values and the constant three. It is present
/// exactly when both inputs are.
pub fn output(a: &WitnessValue, b: &WitnessValue) -> (r: WitnessValue)
    ensures
        witness_view(r) == witness_output(witness_view(*a), witness_view(*b)),
{
    match (a, b) {
        (Some(x), Some(y)) => {
            let three = FieldElement::from_u64(3);
            Some(x.add(y).add(&three))
        },
        _ => None,
    }
}

} // verus!
