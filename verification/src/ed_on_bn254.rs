//! Point addition and scalar multiplication on the twisted Edwards curve
//! over the scalar field of BN254: call data that holds 256-bit integers in,
//! the two coordinates of the resulting point out.

use vstd::prelude::*;
use crate::abi::{are_slots_of, decode, lemma_uints_are_read_back, wide_addresses, DeclaredType};
use crate::error::Error;
use crate::field::{base_modulus, ten_pow_30, FieldElement, Scalar, scalar_modulus};
use crate::utils::{into_uint256, joined};
use crate::word::{be_value, lemma_be_value_injective, U256};
use ark_ec_zypher::{AffineRepr, CurveGroup};
use ark_ed_on_bn254_zypher::EdwardsAffine;
use ark_ff_zypher::{BigInteger, PrimeField};

verus! {

/// The flat cost of one point addition.
pub const POINY_ADD_GAS: u64 = 100;

/// The flat cost of one scalar multiplication.
pub const SCALAR_MUL_GAS: u64 = 200;

/// A pair of coordinates in the base field. Nothing here says that the pair
/// lies on the curve: see `admissible`.
#[derive(Debug, Clone, Copy, PartialEq, Eq)]
pub struct CurvePoint {
    pub x: FieldElement,
    pub y: FieldElement,
}

/// The coefficient `d` of the curve `x^2 + y^2 = 1 + d x^2 y^2`.
pub open spec fn coeff_d() -> nat {
    9706598848417545 * ten_pow_30() * ten_pow_30()
        + 097372247223557719406784115219 * ten_pow_30()
        + 466060233080913168975159366771
}

/// Whether the coordinates meet the curve's equation in the base field.
pub open spec fn on_curve(x: nat, y: nat) -> bool {
    (x * x + y * y) % base_modulus() == (1 + coeff_d() * (x * x) * (y * y)) % base_modulus()
}

/// Whether the point of these coordinates, which is on the curve, lies in
/// the subgroup of prime order: what
/// `is_in_correct_subgroup_assuming_on_curve` of ark-ec finds.
pub uninterp spec fn in_prime_subgroup(x: nat, y: nat) -> bool;

/// The coordinates of the sum of two points as ark-ec computes it. The sum
/// may be the neutral element, whose coordinates are `(0, 1)`.
pub uninterp spec fn point_sum(x1: nat, y1: nat, x2: nat, y2: nat) -> (nat, nat);

/// The coordinates of the multiple of the point `(x, y)` by `scalar` as
/// ark-ec computes it. The multiple may be the neutral element, whose
/// coordinates are `(0, 1)`.
pub uninterp spec fn point_multiple(scalar: nat, x: nat, y: nat) -> (nat, nat);

/// Whether the curve's arithmetic takes the point of these coordinates: it
/// is on the curve and in the subgroup of prime order.
pub open spec fn admissible(x: nat, y: nat) -> bool {
    on_curve(x, y) && in_prime_subgroup(x, y)
}

/// Whether the two coordinates are field elements in their least form and
/// the curve's arithmetic takes their point.
pub open spec fn is_point(x: nat, y: nat) -> bool {
    x < base_modulus() && y < base_modulus() && admissible(x, y)
}

/// `Affine::is_on_curve` of ark-ec on the point that
/// `Affine::new_unchecked` makes of the two coordinates: it compares
/// `y^2 + x^2` with `1 + d x^2 y^2` in the base field, where `d` is the
/// `COEFF_D` of ark-ed-on-bn254 and the coefficient of `x^2` is one.
#[verifier::external_body]
fn is_on_curve(p: &CurvePoint) -> (b: bool)
    ensures
        b == on_curve(p.x.value(), p.y.value()),
{
    let x = PrimeField::from_be_bytes_mod_order(&p.x.bytes);
    let y = PrimeField::from_be_bytes_mod_order(&p.y.bytes);
    EdwardsAffine::new_unchecked(x, y).is_on_curve()
}

/// `Affine::is_in_correct_subgroup_assuming_on_curve` of ark-ec on the point
/// that `Affine::new_unchecked` makes of the two coordinates.
#[verifier::external_body]
fn is_in_prime_subgroup(p: &CurvePoint) -> (b: bool)
    requires
        on_curve(p.x.value(), p.y.value()),
    ensures
        b == in_prime_subgroup(p.x.value(), p.y.value()),
{
    let x = PrimeField::from_be_bytes_mod_order(&p.x.bytes);
    let y = PrimeField::from_be_bytes_mod_order(&p.y.bytes);
    EdwardsAffine::new_unchecked(x, y).is_in_correct_subgroup_assuming_on_curve()
}

/// The sum of two points of ark-ec: `Affine::new` on each pair of
/// coordinates, which asserts what `admissible` says, the `+` of the two,
/// and the fields `x` and `y` of what `into_affine` gives, which for the
/// neutral element are 0 and 1. The sum of two points of the subgroup is a
/// point of the subgroup again, and `into_bigint` gives each coordinate as
/// the representative below the order of the field.
#[verifier::external_body]
fn sum_of_points(p: &CurvePoint, q: &CurvePoint) -> (r: CurvePoint)
    requires
        admissible(p.x.value(), p.y.value()),
        admissible(q.x.value(), q.y.value()),
    ensures
        (r.x.value(), r.y.value()) == point_sum(
            p.x.value(),
            p.y.value(),
            q.x.value(),
            q.y.value(),
        ),
        is_point(r.x.value(), r.y.value()),
{
    let a = EdwardsAffine::new(
        PrimeField::from_be_bytes_mod_order(&p.x.bytes),
        PrimeField::from_be_bytes_mod_order(&p.y.bytes),
    );
    let b = EdwardsAffine::new(
        PrimeField::from_be_bytes_mod_order(&q.x.bytes),
        PrimeField::from_be_bytes_mod_order(&q.y.bytes),
    );
    let sum = (a + b).into_affine();
    CurvePoint {
        x: FieldElement { bytes: sum.x.into_bigint().to_bytes_be().try_into().unwrap() },
        y: FieldElement { bytes: sum.y.into_bigint().to_bytes_be().try_into().unwrap() },
    }
}

/// The multiple of a point of ark-ec by a scalar: `Affine::new` on the
/// coordinates, which asserts what `admissible` says, the `*` of point and
/// scalar, and the fields `x` and `y` of what `into_affine` gives, which for
/// the neutral element are 0 and 1. A multiple of a point of the subgroup is
/// a point of the subgroup again, and `into_bigint` gives each coordinate as
/// the representative below the order of the field.
#[verifier::external_body]
fn multiple_of_point(p: &CurvePoint, scalar: &Scalar) -> (r: CurvePoint)
    requires
        admissible(p.x.value(), p.y.value()),
    ensures
        (r.x.value(), r.y.value()) == point_multiple(scalar.value(), p.x.value(), p.y.value()),
        is_point(r.x.value(), r.y.value()),
{
    let a = EdwardsAffine::new(
        PrimeField::from_be_bytes_mod_order(&p.x.bytes),
        PrimeField::from_be_bytes_mod_order(&p.y.bytes),
    );
    let s: ark_ed_on_bn254_zypher::Fr = PrimeField::from_be_bytes_mod_order(&scalar.bytes);
    let multiple = (a * s).into_affine();
    CurvePoint {
        x: FieldElement { bytes: multiple.x.into_bigint().to_bytes_be().try_into().unwrap() },
        y: FieldElement { bytes: multiple.y.into_bigint().to_bytes_be().try_into().unwrap() },
    }
}

impl CurvePoint {
    /// The point of the two coordinates, each integer reduced to a field
    /// element. No check is made that the point is on the curve.
    pub fn from_uints(x: &U256, y: &U256) -> (p: CurvePoint)
        ensures
            p.x.value() == x.value() % base_modulus(),
            p.y.value() == y.value() % base_modulus(),
    {
        let xb = x.to_big_endian();
        let yb = y.to_big_endian();
        CurvePoint {
            x: FieldElement::from_be_bytes_mod_order(xb.as_slice()),
            y: FieldElement::from_be_bytes_mod_order(yb.as_slice()),
        }
    }

    /// Whether the curve's arithmetic takes this point.
    pub fn is_admissible(&self) -> (b: bool)
        ensures
            b == admissible(self.x.value(), self.y.value()),
    {
        is_on_curve(self) && is_in_prime_subgroup(self)
    }

    /// Writes the two coordinates to `ret`, 32 big-endian bytes each, the
    /// first coordinate first.
    pub fn write_be(&self, ret: &mut [u8])
        requires
            old(ret).len() == 64,
        ensures
            final(ret)@.len() == 64,
            final(ret)@.subrange(0, 32) == self.x.repr(),
            final(ret)@.subrange(32, 64) == self.y.repr(),
    {
        self.x.write_be(ret, 0);
        let ghost half = ret@;
        self.y.write_be(ret, 32);
        assert(ret@.subrange(0, 32) =~= half.subrange(0, 32));
    }
}

/// What adding the two points comes to: the coordinates of the sum, which
/// for the neutral element are `(0, 1)`, or `Error::Unknown` where the
/// curve's arithmetic does not take one of the points.
pub open spec fn add_outcome(x1: nat, y1: nat, x2: nat, y2: nat) -> Result<(nat, nat), Error> {
    if admissible(x1, y1) && admissible(x2, y2) {
        Ok(point_sum(x1, y1, x2, y2))
    } else {
        Err(Error::Unknown)
    }
}

/// What multiplying the point by the scalar comes to: the coordinates of
/// the multiple, which for the neutral element are `(0, 1)`, or
/// `Error::Unknown` where the curve's arithmetic does not take the point.
pub open spec fn mul_outcome(scalar: nat, x: nat, y: nat) -> Result<(nat, nat), Error> {
    if admissible(x, y) {
        Ok(point_multiple(scalar, x, y))
    } else {
        Err(Error::Unknown)
    }
}

/// The coordinates of a point that was computed.
pub open spec fn computed(r: Result<CurvePoint, Error>) -> Result<(nat, nat), Error> {
    match r {
        Ok(p) => Ok((p.x.value(), p.y.value())),
        Err(e) => Err(e),
    }
}

/// The sum of two points. It is a point that the curve's arithmetic takes
/// again.
pub fn add_points(p: &CurvePoint, q: &CurvePoint) -> (r: Result<CurvePoint, Error>)
    ensures
        computed(r) == add_outcome(p.x.value(), p.y.value(), q.x.value(), q.y.value()),
        r matches Ok(sum) ==> is_point(sum.x.value(), sum.y.value()),
{
    if !p.is_admissible() || !q.is_admissible() {
        return Err(Error::Unknown);
    }
    Ok(sum_of_points(p, q))
}

/// The multiple of a point by a scalar. It is a point that the curve's
/// arithmetic takes again.
pub fn mul_point(p: &CurvePoint, scalar: &Scalar) -> (r: Result<CurvePoint, Error>)
    ensures
        computed(r) == mul_outcome(scalar.value(), p.x.value(), p.y.value()),
        r matches Ok(multiple) ==> is_point(multiple.x.value(), multiple.y.value()),
{
    if !p.is_admissible() {
        return Err(Error::Unknown);
    }
    Ok(multiple_of_point(p, scalar))
}

/// Whether the call data holds `count` slots of 32 bytes and can be read
/// on this target.
pub open spec fn holds_slots(count: nat, data: Seq<u8>) -> bool {
    wide_addresses() && data.len() >= 32 * count
}

/// The big-endian number of the slot of index `i` in the call data.
pub open spec fn slot(data: Seq<u8>, i: int) -> nat {
    be_value(data.subrange(32 * i, 32 * i + 32))
}

/// Reads `count` unsigned integers of 256 bits from call data: the numbers
/// of its first `count` slots of 32 bytes. What follows them is not read.
pub fn read_uints(count: usize, data: &[u8]) -> (r: Result<Vec<U256>, Error>)
    ensures
        r is Ok <==> holds_slots(count as nat, data@),
        r matches Err(e) ==> e == Error::Deserialize,
        r matches Ok(uints) ==> (uints@.len() == count && forall|i: int|
            0 <= i < count ==> (#[trigger] uints@[i]).bytes@ == data@.subrange(32 * i, 32 * i + 32)),
{
    let mut schema: Vec<DeclaredType> = Vec::new();
    let mut i: usize = 0;
    while i < count
        invariant
            i <= count,
            schema@.len() == i,
            forall|j: int| 0 <= j < i ==> (#[trigger] schema@[j]) is Uint,
        decreases count - i,
    {
        schema.push(DeclaredType::Uint(256));
        i += 1;
    }
    let tokens = match decode(schema.as_slice(), data) {
        Ok(tokens) => tokens,
        Err(e) => { return Err(e); },
    };
    let mut uints: Vec<U256> = Vec::new();
    for token in it: tokens.into_iter()
        invariant
            it.seq() == tokens@,
            tokens@.len() == count,
            are_slots_of(tokens@, data@),
            uints.len() == it.index(),
            forall|j: int|
                0 <= j < it.index() ==> (#[trigger] uints@[j]).bytes@ == data@.subrange(
                    32 * j,
                    32 * j + 32,
                ),
    {
        assert(tokens@[it.index()] is Uint);
        match into_uint256(Some(token)) {
            Some(uint) => uints.push(uint),
            None => { return Err(Error::Deserialize); },
        }
    }
    Ok(uints)
}

/// What `point_add` makes of the call data `data`: the coordinates of the
/// sum of the points `(x1, y1)` and `(x2, y2)` that its first four slots
/// give, each slot reduced to a field element, or the failure.
pub open spec fn point_add_outcome(data: Seq<u8>) -> Result<(nat, nat), Error> {
    if holds_slots(4, data) {
        add_outcome(
            slot(data, 0) % base_modulus(),
            slot(data, 1) % base_modulus(),
            slot(data, 2) % base_modulus(),
            slot(data, 3) % base_modulus(),
        )
    } else {
        Err(Error::Deserialize)
    }
}

/// What `scalar_mul` makes of the call data `data`: the coordinates of the
/// multiple of the point `(x, y)` by the scalar, where the first three slots
/// of the data are the scalar, `x` and `y`, each reduced to its field, or
/// the failure.
pub open spec fn scalar_mul_outcome(data: Seq<u8>) -> Result<(nat, nat), Error> {
    if holds_slots(3, data) {
        mul_outcome(
            slot(data, 0) % scalar_modulus(),
            slot(data, 1) % base_modulus(),
            slot(data, 2) % base_modulus(),
        )
    } else {
        Err(Error::Deserialize)
    }
}

/// Whether `r` and the bytes written say what `outcome` says: on success the
/// 64 bytes are the two coordinates, 32 big-endian bytes each; on failure
/// nothing was written.
pub open spec fn wrote_outcome(
    outcome: Result<(nat, nat), Error>,
    r: Result<(), Error>,
    before: Seq<u8>,
    after: Seq<u8>,
) -> bool {
    match outcome {
        Ok((x, y)) => {
            &&& r == Ok::<(), Error>(())
            &&& after.len() == 64
            &&& be_value(after.subrange(0, 32)) == x
            &&& be_value(after.subrange(32, 64)) == y
        },
        Err(e) => r == Err::<(), Error>(e) && after == before,
    }
}

/// Adds the two points that `data` holds as four 256-bit integers
/// `x1, y1, x2, y2` and writes the coordinates of the sum to `ret`. A sum
/// that is the neutral element is written as its coordinates `(0, 1)`.
pub fn point_add(data: &[u8], ret: &mut [u8]) -> (r: Result<(), Error>)
    requires
        old(ret).len() == 64,
    ensures
        wrote_outcome(point_add_outcome(data@), r, old(ret)@, final(ret)@),
        point_add_outcome(data@) matches Ok(sum) ==> is_point(sum.0, sum.1),
{
    let uints = match read_uints(4, data) {
        Ok(uints) => uints,
        Err(e) => { return Err(e); },
    };
    let left = CurvePoint::from_uints(&uints[0], &uints[1]);
    let right = CurvePoint::from_uints(&uints[2], &uints[3]);
    match add_points(&left, &right) {
        Ok(sum) => {
            sum.write_be(ret);
            Ok(())
        },
        Err(e) => Err(e),
    }
}

/// Multiplies the point that `data` holds by the scalar that it holds, as
/// three 256-bit integers `scalar, x, y`, and writes the coordinates of the
/// multiple to `ret`. A multiple that is the neutral element is written as
/// its coordinates `(0, 1)`.
pub fn scalar_mul(data: &[u8], ret: &mut [u8]) -> (r: Result<(), Error>)
    requires
        old(ret).len() == 64,
    ensures
        wrote_outcome(scalar_mul_outcome(data@), r, old(ret)@, final(ret)@),
        scalar_mul_outcome(data@) matches Ok(multiple) ==> is_point(multiple.0, multiple.1),
{
    let uints = match read_uints(3, data) {
        Ok(uints) => uints,
        Err(e) => { return Err(e); },
    };
    let sb = uints[0].to_big_endian();
    let s = Scalar::from_be_bytes_mod_order(sb.as_slice());
    let p = CurvePoint::from_uints(&uints[1], &uints[2]);
    match mul_point(&p, &s) {
        Ok(multiple) => {
            multiple.write_be(ret);
            Ok(())
        },
        Err(e) => Err(e),
    }
}

/// Call data that is cut short of its last slot is answered with
/// `Error::Deserialize`, whatever it holds. Call data that holds its slots
/// is answered with a point if the curve's arithmetic takes every point
/// that it gives, the neutral element among them, and with `Error::Unknown`
/// if not. Bytes behind the last slot change nothing.
pub proof fn lemma_failures_of_curve_calls(data: Seq<u8>, more: Seq<u8>)
    ensures
        data.len() < 128 ==> point_add_outcome(data) == Err::<(nat, nat), Error>(
            Error::Deserialize,
        ),
        data.len() < 96 ==> scalar_mul_outcome(data) == Err::<(nat, nat), Error>(
            Error::Deserialize,
        ),
        holds_slots(4, data) ==> (point_add_outcome(data) is Ok <==> admissible(
            slot(data, 0) % base_modulus(),
            slot(data, 1) % base_modulus(),
        ) && admissible(slot(data, 2) % base_modulus(), slot(data, 3) % base_modulus())),
        holds_slots(3, data) ==> (scalar_mul_outcome(data) is Ok <==> admissible(
            slot(data, 1) % base_modulus(),
            slot(data, 2) % base_modulus(),
        )),
        holds_slots(4, data) ==> point_add_outcome(data) is Ok || point_add_outcome(data)
            == Err::<(nat, nat), Error>(Error::Unknown),
        holds_slots(3, data) ==> scalar_mul_outcome(data) is Ok || scalar_mul_outcome(data)
            == Err::<(nat, nat), Error>(Error::Unknown),
        holds_slots(4, data) ==> point_add_outcome(data + more) == point_add_outcome(data),
        holds_slots(3, data) ==> scalar_mul_outcome(data + more) == scalar_mul_outcome(data),
{
    if holds_slots(3, data) {
        assert((data + more).subrange(0, 32) =~= data.subrange(0, 32));
        assert((data + more).subrange(32, 64) =~= data.subrange(32, 64));
        assert((data + more).subrange(64, 96) =~= data.subrange(64, 96));
    }
    if holds_slots(4, data) {
        assert((data + more).subrange(96, 128) =~= data.subrange(96, 128));
    }
}

/// Whether two points can be added does not depend on their order: the sum
/// is refused for the one order if and only if it is refused for the other,
/// and with the same error. What the two sums are is the curve library's to
/// say.
pub proof fn lemma_add_is_refused_in_either_order(x1: nat, y1: nat, x2: nat, y2: nat)
    ensures
        add_outcome(x1, y1, x2, y2) is Ok <==> add_outcome(x2, y2, x1, y1) is Ok,
        add_outcome(x1, y1, x2, y2) is Err ==> add_outcome(x1, y1, x2, y2) == add_outcome(
            x2,
            y2,
            x1,
            y1,
        ),
        add_outcome(x1, y1, x2, y2) is Ok <==> admissible(x1, y1) && admissible(x2, y2),
{
}

/// Call data that encodes four 32-byte words asks to add the points of
/// their numbers, and call data that encodes three asks to multiply, each
/// number reduced to its field.
pub proof fn lemma_encoded_words_are_operands(words: Seq<Seq<u8>>)
    requires
        wide_addresses(),
        forall|i: int| 0 <= i < words.len() ==> (#[trigger] words[i]).len() == 32,
    ensures
        words.len() == 4 ==> point_add_outcome(joined(words)) == add_outcome(
            be_value(words[0]) % base_modulus(),
            be_value(words[1]) % base_modulus(),
            be_value(words[2]) % base_modulus(),
            be_value(words[3]) % base_modulus(),
        ),
        words.len() == 3 ==> scalar_mul_outcome(joined(words)) == mul_outcome(
            be_value(words[0]) % scalar_modulus(),
            be_value(words[1]) % base_modulus(),
            be_value(words[2]) % base_modulus(),
        ),
{
    let none = Seq::<u8>::empty();
    assert(joined(words) + none =~= joined(words));
    if words.len() >= 3 {
        lemma_uints_are_read_back(words, none, 0);
        lemma_uints_are_read_back(words, none, 1);
        lemma_uints_are_read_back(words, none, 2);
    }
    if words.len() == 4 {
        lemma_uints_are_read_back(words, none, 3);
    }
}

/// What a call writes is decided by its call data: two outputs that both
/// say what `outcome` says are the same bytes.
pub proof fn lemma_output_is_decided(
    outcome: Result<(nat, nat), Error>,
    r1: Result<(), Error>,
    r2: Result<(), Error>,
    before: Seq<u8>,
    first: Seq<u8>,
    second: Seq<u8>,
)
    requires
        wrote_outcome(outcome, r1, before, first),
        wrote_outcome(outcome, r2, before, second),
    ensures
        r1 == r2,
        first == second,
{
    if outcome is Ok {
        lemma_be_value_injective(first.subrange(0, 32), second.subrange(0, 32));
        lemma_be_value_injective(first.subrange(32, 64), second.subrange(32, 64));
        assert(first =~= first.subrange(0, 32) + first.subrange(32, 64));
        assert(second =~= second.subrange(0, 32) + second.subrange(32, 64));
    }
}

/// The cost of a point addition, whatever the call data.
pub fn point_add_gas(data_len: usize) -> (gas: u64)
    ensures
        gas == POINY_ADD_GAS,
{
    POINY_ADD_GAS
}

/// The cost of a scalar multiplication, whatever the call data.
pub fn scalar_mul_gas(data_len: usize) -> (gas: u64)
    ensures
        gas == SCALAR_MUL_GAS,
{
    SCALAR_MUL_GAS
}

} // verus!
