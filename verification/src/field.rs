//! Elements of the two prime fields of the curve. Each is held as the 32
//! big-endian bytes of its least non-negative representative, and is made
//! from arbitrary bytes by reduction.

use vstd::prelude::*;
use crate::word::{be_value, lemma_be_value_injective};
use ark_ff_zypher::{BigInteger, PrimeField};

verus! {

/// Ten to the thirtieth power: the step between the three groups of decimal
/// digits in which the two orders below are written.
pub open spec fn ten_pow_30() -> nat {
    1_000_000_000_000_000_000_000_000_000_000
}

/// The order of the field in which the curve's coordinates and the hash live.
pub open spec fn base_modulus() -> nat {
    21888242871839275 * ten_pow_30() * ten_pow_30()
        + 222246405745257275088548364400 * ten_pow_30()
        + 416034343698204186575808495617
}

/// The order of the curve's prime subgroup, and so of its field of scalars.
pub open spec fn scalar_modulus() -> nat {
    2736030358979909 * ten_pow_30() * ten_pow_30()
        + 402780800718157159386076813972 * ten_pow_30()
        + 158567259200215660948447373041
}

/// An element of the base field.
#[derive(Debug, Clone, Copy, PartialEq, Eq)]
pub struct FieldElement {
    pub(crate) bytes: [u8; 32],
}

/// An element of the field of scalars.
#[derive(Debug, Clone, Copy, PartialEq, Eq)]
pub struct Scalar {
    pub(crate) bytes: [u8; 32],
}

/// `PrimeField::from_be_bytes_mod_order` of ark-ff on the base field, and
/// `into_bigint` with `to_bytes_be` for the bytes that are kept: the element
/// is the big-endian number of `bytes` reduced by the field's order, and the
/// bytes kept are the 32 big-endian bytes of that representative.
#[verifier::external_body]
fn reduce_mod_base(bytes: &[u8]) -> (r: FieldElement)
    ensures
        r.value() == be_value(bytes@) % base_modulus(),
{
    let repr = ark_bn254_zypher::Fr::from_be_bytes_mod_order(bytes).into_bigint().to_bytes_be();
    FieldElement { bytes: repr.try_into().unwrap() }
}

/// `PrimeField::from_be_bytes_mod_order` of ark-ff on the field of scalars,
/// and `into_bigint` with `to_bytes_be` for the bytes that are kept: the
/// element is the big-endian number of `bytes` reduced by the field's order,
/// and the bytes kept are the 32 big-endian bytes of that representative.
#[verifier::external_body]
fn reduce_mod_scalar(bytes: &[u8]) -> (r: Scalar)
    ensures
        r.value() == be_value(bytes@) % scalar_modulus(),
{
    let repr = ark_ed_on_bn254_zypher::Fr::from_be_bytes_mod_order(bytes).into_bigint().to_bytes_be();
    Scalar { bytes: repr.try_into().unwrap() }
}

impl FieldElement {
    /// The 32 bytes that are kept, the highest first.
    pub closed spec fn repr(self) -> Seq<u8> {
        self.bytes@
    }

    /// The element as a number.
    pub open spec fn value(self) -> nat {
        be_value(self.repr())
    }

    /// The element that the big-endian number of `bytes` stands for. A number
    /// at or above the order is reduced, not refused.
    pub fn from_be_bytes_mod_order(bytes: &[u8]) -> (r: FieldElement)
        ensures
            r.value() == be_value(bytes@) % base_modulus(),
            r.value() < base_modulus(),
    {
        reduce_mod_base(bytes)
    }

    /// The element as 32 bytes, the highest first.
    pub fn to_bytes_be(&self) -> (r: [u8; 32])
        ensures
            r@ == self.repr(),
            be_value(r@) == self.value(),
    {
        self.bytes
    }

    /// Writes the element's 32 bytes to `ret` from position `at` on and leaves
    /// the rest of `ret` as it was.
    pub fn write_be(&self, ret: &mut [u8], at: usize)
        requires
            at + 32 <= old(ret).len(),
        ensures
            final(ret)@.len() == old(ret)@.len(),
            final(ret)@.subrange(at as int, at + 32) == self.repr(),
            forall|j: int|
                0 <= j < old(ret)@.len() && !(at <= j < at + 32) ==> final(ret)@[j] == old(ret)@[j],
    {
        let ghost before = ret@;
        let mut i: usize = 0;
        while i < 32
            invariant
                i <= 32,
                at + 32 <= ret.len(),
                ret@.len() == before.len(),
                forall|j: int| 0 <= j < i ==> ret@[at + j] == self.bytes@[j],
                forall|j: int| 0 <= j < before.len() && !(at <= j < at + 32) ==> ret@[j] == before[j],
            decreases 32 - i,
        {
            ret[at + i] = self.bytes[i];
            i += 1;
        }
        assert(ret@.subrange(at as int, at + 32) =~= self.repr());
    }
}

impl Scalar {
    /// The 32 bytes that are kept, the highest first.
    pub closed spec fn repr(self) -> Seq<u8> {
        self.bytes@
    }

    /// The scalar as a number.
    pub open spec fn value(self) -> nat {
        be_value(self.repr())
    }

    /// The scalar that the big-endian number of `bytes` stands for. A number
    /// at or above the order is reduced, not refused.
    pub fn from_be_bytes_mod_order(bytes: &[u8]) -> (r: Scalar)
        ensures
            r.value() == be_value(bytes@) % scalar_modulus(),
            r.value() < scalar_modulus(),
    {
        reduce_mod_scalar(bytes)
    }

    /// The scalar as 32 bytes, the highest first.
    pub fn to_bytes_be(&self) -> (r: [u8; 32])
        ensures
            r@ == self.repr(),
            be_value(r@) == self.value(),
    {
        self.bytes
    }
}

/// The bytes kept for a field element number 32, and two field elements of
/// the same value are kept as the same bytes.
pub proof fn lemma_value_decides_repr(a: FieldElement, b: FieldElement)
    requires
        a.value() == b.value(),
    ensures
        a.repr().len() == 32,
        a.repr() == b.repr(),
{
    lemma_be_value_injective(a.repr(), b.repr());
}

} // verus!
