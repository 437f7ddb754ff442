//! Elements of the scalar field of BLS12-381, held by their canonical
//! little-endian encoding.
//!
//! The arithmetic itself is done by `blstrs`; this module states what each
//! operation yields as a natural number below the field's order, and
//! verifies the byte layout by which small integers enter the field.

use blstrs::Scalar;
use vstd::prelude::*;

verus! {

/// Width in bytes of the canonical encoding of a field element.
pub const ENCODED_LEN: usize = 32;

/// Width in bytes of the integers that `fr_from_i128` encodes.
pub const SMALL_LEN: usize = 16;

/// The order of the scalar field: a 255-bit prime.
pub open spec fn modulus() -> nat {
    0x73eda753299d7d483339d80809a1d80553bda402fffe5bfeffffffff00000001nat
}

/// Two to the power 128.
pub open spec fn two_pow_128() -> nat {
    0x1_0000_0000_0000_0000_0000_0000_0000_0000nat
}

/// 256 to the power `n`.
pub open spec fn pow256(n: nat) -> nat
    decreases n,
{
    if n == 0 {
        1
    } else {
        256 * pow256((n - 1) as nat)
    }
}

/// The natural number that a little-endian byte string denotes.
pub open spec fn le_value(bytes: Seq<u8>) -> nat
    decreases bytes.len(),
{
    if bytes.len() == 0 {
        0
    } else {
        bytes[0] as nat + 256 * le_value(bytes.skip(1))
    }
}

/// The unsigned reading of the 128-bit two's complement pattern of `v`.
pub open spec fn twos_complement(v: i128) -> nat {
    if v >= 0 {
        v as nat
    } else {
        (v + two_pow_128()) as nat
    }
}

/// The signed reading of a 128-bit pattern given by its unsigned value.
pub open spec fn signed_reading(u: nat) -> int {
    if u < two_pow_128() / 2 {
        u as int
    } else {
        u - two_pow_128()
    }
}

/// The sum of two field elements, as natural numbers below the order.
pub open spec fn field_sum(a: nat, b: nat) -> nat {
    (a + b) % modulus()
}

/// The product of two field elements, as natural numbers below the order.
pub open spec fn field_product(a: nat, b: nat) -> nat {
    (a * b) % modulus()
}

/// A byte string of `n` zeros.
pub open spec fn zeros(n: nat) -> Seq<u8> {
    Seq::new(n, |i: int| 0u8)
}

/// The powers of 256 that the encoding of small integers meets.
pub proof fn lemma_pow256_values()
    ensures
        pow256(0) == 1,
        pow256(1) == 256,
        pow256(16) == two_pow_128(),
{
    reveal_with_fuel(pow256, 17);
}

/// All-zero bytes denote zero.
pub proof fn lemma_le_value_zeros(n: nat)
    ensures
        le_value(zeros(n)) == 0,
    decreases n,
{
    if n > 0 {
        assert(zeros(n).skip(1) =~= zeros((n - 1) as nat));
        lemma_le_value_zeros((n - 1) as nat);
    }
}

/// Replacing the byte at position `i` moves the value by the difference of
/// the two bytes, weighted by `256^i`.
pub proof fn lemma_le_value_update(bytes: Seq<u8>, i: int, b: u8)
    requires
        0 <= i < bytes.len(),
    ensures
        le_value(bytes.update(i, b)) + bytes[i] as nat * pow256(i as nat) == le_value(bytes) + b
            as nat * pow256(i as nat),
    decreases bytes.len(),
{
    let updated = bytes.update(i, b);
    let weight = pow256(i as nat);
    let p = bytes[i] as nat;
    let q = b as nat;
    if i == 0 {
        assert(updated.skip(1) =~= bytes.skip(1));
        assert(p * weight == p && q * weight == q) by (nonlinear_arith)
            requires
                weight == 1,
        ;
    } else {
        let tail = bytes.skip(1);
        assert(updated.skip(1) =~= tail.update(i - 1, b));
        lemma_le_value_update(tail, i - 1, b);
        let w = pow256((i - 1) as nat);
        let before = le_value(tail);
        let after = le_value(tail.update(i - 1, b));
        assert(256 * after + p * weight == 256 * before + q * weight) by (nonlinear_arith)
            requires
                after + p * w == before + q * w,
                weight == 256 * w,
        ;
    }
}

/// Two byte strings of one length that denote the same number are equal.
pub proof fn lemma_le_value_injective(a: Seq<u8>, b: Seq<u8>)
    requires
        a.len() == b.len(),
        le_value(a) == le_value(b),
    ensures
        a == b,
    decreases a.len(),
{
    if a.len() > 0 {
        let x = le_value(a.skip(1));
        let y = le_value(b.skip(1));
        assert(a[0] as nat + 256 * x == b[0] as nat + 256 * y);
        assert(x == y && a[0] == b[0]) by (nonlinear_arith)
            requires
                a[0] as nat + 256 * x == b[0] as nat + 256 * y,
                a[0] < 256,
                b[0] < 256,
        ;
        lemma_le_value_injective(a.skip(1), b.skip(1));
        assert(a =~= seq![a[0]] + a.skip(1));
        assert(b =~= seq![b[0]] + b.skip(1));
    } else {
        assert(a =~= b);
    }
}

/// An element of the scalar field, held as the 32 bytes of its canonical
/// little-endian encoding. Its view is the number that the bytes denote,
/// which is always below the field's order.
#[derive(Clone, Copy, Debug, PartialEq, Eq)]
pub struct FieldElement {
    bytes: [u8; 32],
}

impl View for FieldElement {
    type V = nat;

    open spec fn view(&self) -> nat {
        le_value(self.encoding())
    }
}

impl FieldElement {
    /// The bytes of the canonical encoding, least significant first.
    pub closed spec fn encoding(&self) -> Seq<u8> {
        self.bytes@
    }

    /// The encoding is canonical: it denotes a number below the order.
    #[verifier::type_invariant]
    pub closed spec fn wf(&self) -> bool {
        le_value(self.bytes@) < modulus()
    }

    /// Validity in terms of the view, for use in proofs.
    pub proof fn lemma_wf(self)
        ensures
            self.encoding().len() == ENCODED_LEN,
            self.wf() <==> self@ < modulus(),
    {
    }

    /// Two elements with the same value are the same element.
    pub proof fn lemma_equal_by_value(self, other: FieldElement)
        requires
            self@ == other@,
        ensures
            self == other,
    {
        lemma_le_value_injective(self.bytes@, other.bytes@);
        assert(self.bytes =~= other.bytes);
    }

    /// Decodes 32 little-endian bytes. The result is `None` exactly when
    /// the bytes denote a number that is not below the field's order.
    pub fn from_bytes_le(bytes: &[u8; 32]) -> (r: Option<FieldElement>)
        ensures
            r is Some <==> le_value(bytes@) < modulus(),
            r is Some ==> r->0.encoding() == bytes@ && r->0.wf(),
    {
        scalar_from_bytes_le(bytes)
    }

    /// The canonical encoding: 32 little-endian bytes.
    pub fn to_bytes_le(&self) -> (r: [u8; 32])
        ensures
            r@ == self.encoding(),
            le_value(r@) == self@,
    {
        self.bytes
    }

    /// The field element that a 64-bit integer denotes.
    pub fn from_u64(v: u64) -> (r: FieldElement)
        ensures
            r@ == v,
            r.wf(),
    {
        scalar_from_u64(v)
    }

    /// The sum in the field.
    pub fn add(&self, rhs: &FieldElement) -> (r: FieldElement)
        ensures
            r@ == field_sum(self@, rhs@),
            r.wf(),
    {
        proof {
            use_type_invariant(self);
            use_type_invariant(rhs);
        }
        scalar_add(self, rhs)
    }

    /// The product in the field.
    pub fn mul(&self, rhs: &FieldElement) -> (r: FieldElement)
        ensures
            r@ == field_product(self@, rhs@),
            r.wf(),
    {
        proof {
            use_type_invariant(self);
            use_type_invariant(rhs);
        }
        scalar_mul(self, rhs)
    }
}

/// `blstrs::Scalar::from_bytes_le`, followed by `Scalar::to_bytes_le` on
/// success. The contract claims that the outside decoder accepts exactly
/// the encodings of numbers below the field's order, and that encoding the
/// decoded element again gives the bytes that went in.
#[verifier::external_body]
fn scalar_from_bytes_le(bytes: &[u8; 32]) -> (r: Option<FieldElement>)
    ensures
        r is Some <==> le_value(bytes@) < modulus(),
        r is Some ==> r->0.encoding() == bytes@ && r->0.wf(),
{
    let decoded: Option<Scalar> = Scalar::from_bytes_le(bytes).into();
    match decoded {
        Some(s) => Some(FieldElement { bytes: s.to_bytes_le() }),
        None => None,
    }
}

/// `blstrs::Scalar`'s `From<u64>`. The contract claims that the element
/// made from `v` is the one whose canonical encoding denotes `v`.
#[verifier::external_body]
fn scalar_from_u64(v: u64) -> (r: FieldElement)
    ensures
        r@ == v,
        r.wf(),
{
    FieldElement { bytes: Scalar::from(v).to_bytes_le() }
}

/// `blstrs::Scalar`'s `Add`. The contract claims that the outside addition
/// is addition of the two numbers modulo the field's order, and that the
/// result's encoding is canonical.
#[verifier::external_body]
fn scalar_add(a: &FieldElement, b: &FieldElement) -> (r: FieldElement)
    requires
        a.wf(),
        b.wf(),
    ensures
        r@ == field_sum(a@, b@),
        r.wf(),
{
    let x = Scalar::from_bytes_le(&a.bytes).unwrap();
    let y = Scalar::from_bytes_le(&b.bytes).unwrap();
    FieldElement { bytes: (x + y).to_bytes_le() }
}

/// `blstrs::Scalar`'s `Mul`. The contract claims that the outside
/// multiplication is multiplication of the two numbers modulo the field's
/// order, and that the result's encoding is canonical.
#[verifier::external_body]
fn scalar_mul(a: &FieldElement, b: &FieldElement) -> (r: FieldElement)
    requires
        a.wf(),
        b.wf(),
    ensures
        r@ == field_product(a@, b@),
        r.wf(),
{
    let x = Scalar::from_bytes_le(&a.bytes).unwrap();
    let y = Scalar::from_bytes_le(&b.bytes).unwrap();
    FieldElement { bytes: (x * y).to_bytes_le() }
}

/// Encoding and then decoding gives back the integer: read as a signed
/// 128-bit pattern the encoded number is the integer itself, for every
/// integer; read as it stands it is the integer where that is not
/// negative. Two integers never share an encoding, and every encoding is
/// canonical.
pub proof fn lemma_encoding_round_trip(v: i128, w: i128)
    ensures
        signed_reading(twos_complement(v)) == v,
        v >= 0 ==> twos_complement(v) == v,
        twos_complement(v) < two_pow_128(),
        twos_complement(v) < modulus(),
        twos_complement(v) == twos_complement(w) ==> v == w,
{
}

/// Encodes a 128-bit integer as a field element: the sixteen bytes of its
/// two's complement pattern, least significant first, followed by sixteen
/// zero bytes.
pub fn fr_from_i128(v: i128) -> (r: FieldElement)
    ensures
        r@ == twos_complement(v),
        signed_reading(r@) == v,
        r.encoding().len() == ENCODED_LEN,
        forall|j: int| SMALL_LEN <= j < ENCODED_LEN ==> r.encoding()[j] == 0,
        r.wf(),
{
    let unsigned: u128 = if v >= 0 {
        v as u128
    } else {
        ((v + i128::MAX + 1) as u128) + 0x8000_0000_0000_0000_0000_0000_0000_0000u128
    };
    let mut repr: [u8; 32] = [0u8; 32];
    let mut rest: u128 = unsigned;
    let mut i: usize = 0;
    proof {
        assert(repr@ =~= zeros(32));
        lemma_le_value_zeros(32);
        assert(rest * pow256(0) == rest) by (nonlinear_arith)
            requires
                pow256(0) == 1,
        ;
    }
    while i < 16
        invariant
            i <= 16,
            le_value(repr@) + rest * pow256(i as nat) == unsigned,
            forall|j: int| i <= j < 32 ==> repr@[j] == 0,
        decreases 16 - i,
    {
        let low: u8 = (rest % 256) as u8;
        let ghost before = repr@;
        let ghost weight = pow256(i as nat);
        let ghost old_rest = rest;
        repr[i] = low;
        rest = rest / 256;
        proof {
            lemma_le_value_update(before, i as int, low);
            assert(pow256((i + 1) as nat) == 256 * weight);
            assert(old_rest * weight == rest * (256 * weight) + low * weight) by (nonlinear_arith)
                requires
                    old_rest == 256 * rest + low,
            ;
            assert(0 * weight == 0) by (nonlinear_arith);
        }
        i += 1;
    }
    proof {
        lemma_pow256_values();
        assert(rest == 0) by (nonlinear_arith)
            requires
                le_value(repr@) + rest * pow256(16) == unsigned,
                unsigned < pow256(16),
        ;
        assert(0 * pow256(16) == 0) by (nonlinear_arith);
    }
    let decoded = scalar_from_bytes_le(&repr);
    decoded.unwrap()
}

} // verus!
