//! Big-endian numbers: what a run of bytes counts to, and the 256-bit
//! unsigned integer that the call-data encoding carries.

use vstd::prelude::*;

verus! {

/// The number that `s` writes in base 256, the highest digit first.
pub open spec fn be_value(s: Seq<u8>) -> nat
    decreases s.len(),
{
    if s.len() == 0 {
        0
    } else {
        be_value(s.drop_last()) * 256 + s.last() as nat
    }
}

/// 256 to the power `k`.
pub open spec fn base256(k: nat) -> nat
    decreases k,
{
    if k == 0 {
        1
    } else {
        256 * base256((k - 1) as nat)
    }
}

/// A number of `n` digits is below 256 to the `n`.
pub proof fn lemma_be_value_bound(s: Seq<u8>)
    ensures
        be_value(s) < base256(s.len()),
    decreases s.len(),
{
    if s.len() > 0 {
        lemma_be_value_bound(s.drop_last());
    }
}

/// Writing `b` behind `a` shifts `a` by the digits of `b`.
pub proof fn lemma_be_value_concat(a: Seq<u8>, b: Seq<u8>)
    ensures
        be_value(a + b) == be_value(a) * base256(b.len()) + be_value(b),
    decreases b.len(),
{
    if b.len() == 0 {
        assert(a + b =~= a);
        assert(be_value(a) * 1 == be_value(a)) by (nonlinear_arith);
    } else {
        let front = b.drop_last();
        lemma_be_value_concat(a, front);
        assert((a + b).drop_last() =~= a + front);
        assert((a + b).last() == b.last());
        let x = be_value(a);
        let h = base256(front.len());
        let y = be_value(front);
        assert(base256(b.len()) == 256 * h);
        assert((x * h + y) * 256 == x * (256 * h) + y * 256) by (nonlinear_arith);
    }
}

/// Digits that are all zero write zero.
pub proof fn lemma_be_value_zero(s: Seq<u8>)
    requires
        forall|i: int| 0 <= i < s.len() ==> s[i] == 0,
    ensures
        be_value(s) == 0,
    decreases s.len(),
{
    if s.len() > 0 {
        lemma_be_value_zero(s.drop_last());
    }
}

/// One digit that is not zero makes the number positive.
pub proof fn lemma_be_value_positive(s: Seq<u8>, k: int)
    requires
        0 <= k < s.len(),
        s[k] != 0,
    ensures
        be_value(s) >= 1,
    decreases s.len(),
{
    if k < s.len() - 1 {
        lemma_be_value_positive(s.drop_last(), k);
    }
}

/// Two numbers of the same count of digits are equal only if their digits are.
pub proof fn lemma_be_value_injective(a: Seq<u8>, b: Seq<u8>)
    requires
        a.len() == b.len(),
        be_value(a) == be_value(b),
    ensures
        a == b,
    decreases a.len(),
{
    if a.len() > 0 {
        assert(be_value(a.drop_last()) == be_value(b.drop_last()) && a.last() == b.last()) by {
            let x = be_value(a.drop_last());
            let y = be_value(b.drop_last());
            let p = a.last() as nat;
            let q = b.last() as nat;
            assert(x * 256 + p == y * 256 + q);
            assert(x == y && p == q) by (nonlinear_arith)
                requires
                    x * 256 + p == y * 256 + q,
                    p < 256,
                    q < 256,
            ;
        }
        lemma_be_value_injective(a.drop_last(), b.drop_last());
        assert(a =~= a.drop_last().push(a.last()));
        assert(b =~= b.drop_last().push(b.last()));
    } else {
        assert(a =~= b);
    }
}

/// 256 to the sixteenth is one more than the largest `u128`.
pub proof fn lemma_base256_sixteen()
    ensures
        base256(16) == u128::MAX + 1,
{
    reveal_with_fuel(base256, 17);
}

/// An unsigned integer of 256 bits, held as its 32 bytes, the highest first.
#[derive(Debug, Clone, Copy, PartialEq, Eq)]
pub struct U256 {
    pub bytes: [u8; 32],
}

impl U256 {
    /// The number that this integer is.
    pub open spec fn value(self) -> nat {
        be_value(self.bytes@)
    }

    /// The integer whose big-endian bytes are `bytes`.
    pub fn from_big_endian(bytes: [u8; 32]) -> (r: U256)
        ensures
            r.bytes == bytes,
            r.value() == be_value(bytes@),
    {
        U256 { bytes }
    }

    /// The 32 bytes of this integer, the highest first.
    pub fn to_big_endian(&self) -> (r: [u8; 32])
        ensures
            r == self.bytes,
            be_value(r@) == self.value(),
    {
        self.bytes
    }

    /// This integer as a `u128`, where it fits in one.
    pub fn to_u128(&self) -> (r: Option<u128>)
        ensures
            r is Some <==> self.value() <= u128::MAX,
            r matches Some(n) ==> n == self.value(),
    {
        let ghost high = self.bytes@.subrange(0, 16);
        let ghost low = self.bytes@.subrange(16, 32);
        proof {
            assert(self.bytes@ =~= high + low);
            lemma_be_value_concat(high, low);
            lemma_be_value_bound(low);
            lemma_base256_sixteen();
        }
        let mut i: usize = 0;
        while i < 16
            invariant
                i <= 16,
                high == self.bytes@.subrange(0, 16),
                forall|j: int| 0 <= j < i ==> self.bytes@[j] == 0,
                self.value() == be_value(high) * base256(16) + be_value(low),
                be_value(low) < base256(16),
                base256(16) == u128::MAX + 1,
            decreases 16 - i,
        {
            if self.bytes[i] != 0 {
                proof {
                    lemma_be_value_positive(high, i as int);
                    assert(be_value(high) * base256(16) >= base256(16)) by (nonlinear_arith)
                        requires
                            be_value(high) >= 1,
                    ;
                }
                return None;
            }
            i += 1;
        }
        proof {
            lemma_be_value_zero(high);
        }
        let mut acc: u128 = 0;
        let mut k: usize = 0;
        while k < 16
            invariant
                k <= 16,
                low == self.bytes@.subrange(16, 32),
                acc == be_value(low.subrange(0, k as int)),
                base256(16) == u128::MAX + 1,
            decreases 16 - k,
        {
            proof {
                let next = low.subrange(0, k + 1);
                assert(next.drop_last() =~= low.subrange(0, k as int));
                assert(next.last() == self.bytes@[16 + k]);
                lemma_be_value_bound(next);
                lemma_base256_monotonic((k + 1) as nat, 16);
            }
            acc = acc * 256 + self.bytes[16 + k] as u128;
            k += 1;
        }
        proof {
            assert(low.subrange(0, 16) =~= low);
        }
        Some(acc)
    }
}

/// A higher power of 256 is no smaller.
pub proof fn lemma_base256_monotonic(a: nat, b: nat)
    requires
        a <= b,
    ensures
        base256(a) <= base256(b),
        base256(a) >= 1,
    decreases b,
{
    if a < b {
        lemma_base256_monotonic(a, (b - 1) as nat);
    } else if a > 0 {
        lemma_base256_monotonic((a - 1) as nat, (a - 1) as nat);
    }
}

} // verus!
