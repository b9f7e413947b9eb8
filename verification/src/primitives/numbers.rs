//! 256-bit numbers, with the arithmetic of `alloy_primitives`.

use vstd::prelude::*;

verus! {

/// An unsigned 256-bit number.
#[derive(Debug, Clone, Copy, PartialEq, Eq)]
pub struct U256 {
    /// Digits in base 2^64, the lowest first
    pub limbs: [u64; 4],
}

/// A signed 256-bit number.
#[derive(Debug, Clone, Copy, PartialEq, Eq)]
pub struct I256 {
    /// Digits in base 2^64 of the two's complement, the lowest first
    pub limbs: [u64; 4],
}

/// 2^64
pub open spec fn limb_base() -> int {
    0x1_0000_0000_0000_0000
}

/// 2^256
pub open spec fn modulus() -> int {
    limb_base() * limb_base() * limb_base() * limb_base()
}

/// The number with the given digits in base 2^64.
pub open spec fn limbs_value(limbs: Seq<u64>) -> int {
    limbs[0] + limb_base() * (limbs[1] + limb_base() * (limbs[2] + limb_base() * limbs[3]))
}

impl View for U256 {
    type V = int;

    open spec fn view(&self) -> int {
        limbs_value(self.limbs@)
    }
}

impl View for I256 {
    type V = int;

    open spec fn view(&self) -> int {
        let bits = limbs_value(self.limbs@);
        if 2 * bits < modulus() {
            bits
        } else {
            bits - modulus()
        }
    }
}

/// A 256-bit number is below 2^256.
pub proof fn u256_range(n: U256)
    ensures
        0 <= n@ < modulus(),
{
    let a = n.limbs@[0] as int;
    let b = n.limbs@[1] as int;
    let c = n.limbs@[2] as int;
    let d = n.limbs@[3] as int;
    let base = limb_base();
    assert(0 <= a + base * (b + base * (c + base * d)) < base * base * base * base)
        by (nonlinear_arith)
        requires
            0 <= a < base,
            0 <= b < base,
            0 <= c < base,
            0 <= d < base,
            base == 0x1_0000_0000_0000_0000,
    ;
}

impl U256 {
    /// Zero.
    pub fn zero() -> (n: U256)
        ensures
            n@ == 0,
    {
        U256 { limbs: [0, 0, 0, 0] }
    }

    /// A small number.
    pub fn from_u64(value: u64) -> (n: U256)
        ensures
            n@ == value,
    {
        U256 { limbs: [value, 0, 0, 0] }
    }
}

impl I256 {
    /// Whether the number is below zero.
    pub fn is_negative(&self) -> (negative: bool)
        ensures
            negative == (self@ < 0),
    {
        proof {
            let a = self.limbs@[0] as int;
            let b = self.limbs@[1] as int;
            let c = self.limbs@[2] as int;
            let d = self.limbs@[3] as int;
            let base = limb_base();
            let low = a + base * (b + base * c);
            assert(0 <= low < base * base * base) by (nonlinear_arith)
                requires
                    low == a + base * (b + base * c),
                    0 <= a < base,
                    0 <= b < base,
                    0 <= c < base,
                    base == 0x1_0000_0000_0000_0000,
            ;
            let bits = limbs_value(self.limbs@);
            assert(bits == low + base * base * base * d) by (nonlinear_arith)
                requires
                    bits == a + base * (b + base * (c + base * d)),
                    low == a + base * (b + base * c),
            ;
            assert(2 * bits < modulus() <==> d < 0x8000_0000_0000_0000) by (nonlinear_arith)
                requires
                    bits == low + base * base * base * d,
                    0 <= low < base * base * base,
                    base == 0x1_0000_0000_0000_0000,
                    modulus() == base * base * base * base,
            ;
            u256_range(U256 { limbs: self.limbs });
        }
        self.limbs[3] >= 0x8000_0000_0000_0000
    }
}

/// A number with a gain added to it or a loss taken off: the sum modulo 2^256, none where it would
/// be negative.
pub fn with_delta(value: U256, delta: I256) -> (sum: Option<U256>)
    ensures
        match sum {
            Some(sum) => value@ + delta@ >= 0 && sum@ == (value@ + delta@) % modulus(),
            None => value@ + delta@ < 0,
        },
{
    proof {
        u256_range(value);
    }
    if delta.is_negative() {
        let rest = checked_sub(value, unsigned_abs(delta));
        proof {
            if value@ + delta@ >= 0 {
                assert((value@ + delta@) % modulus() == value@ + delta@) by (nonlinear_arith)
                    requires
                        0 <= value@ + delta@ < modulus(),
                ;
            }
        }
        rest
    } else {
        Some(wrapping_sum(value, unsigned_abs(delta)))
    }
}

/// `U256::checked_sub`: the difference, where it is not negative.
#[verifier::external_body]
pub(crate) fn checked_sub(a: U256, b: U256) -> (difference: Option<U256>)
    ensures
        match difference {
            Some(d) => a@ >= b@ && d@ == a@ - b@,
            None => a@ < b@,
        },
{
    alloy_primitives::U256::from_limbs(a.limbs)
        .checked_sub(alloy_primitives::U256::from_limbs(b.limbs))
        .map(|d| U256 { limbs: d.into_limbs() })
}

/// `max` of two `U256`s: the larger one.
#[verifier::external_body]
pub(crate) fn larger(a: U256, b: U256) -> (max: U256)
    ensures
        max@ == (if a@ >= b@ {
            a@
        } else {
            b@
        }),
{
    let (a, b) = (
        alloy_primitives::U256::from_limbs(a.limbs),
        alloy_primitives::U256::from_limbs(b.limbs),
    );
    U256 { limbs: a.max(b).into_limbs() }
}

/// `+` on `U256`s: the sum modulo 2^256.
#[verifier::external_body]
pub(crate) fn wrapping_sum(a: U256, b: U256) -> (sum: U256)
    ensures
        sum@ == (a@ + b@) % modulus(),
{
    let sum = alloy_primitives::U256::from_limbs(a.limbs)
        + alloy_primitives::U256::from_limbs(b.limbs);
    U256 { limbs: sum.into_limbs() }
}

/// `I256::unsigned_abs`: the absolute value.
#[verifier::external_body]
pub(crate) fn unsigned_abs(n: I256) -> (abs: U256)
    ensures
        abs@ == (if n@ >= 0 {
            n@
        } else {
            -n@
        }),
{
    U256 { limbs: alloy_primitives::I256::from_limbs(n.limbs).unsigned_abs().into_limbs() }
}

/// A 256-bit number tells its digits: two of the same value have the same ones.
pub proof fn numbers_are_told_by_their_digits(a: U256, b: U256)
    requires
        a@ == b@,
    ensures
        a.limbs@ == b.limbs@,
{
    let base = limb_base();
    let (a0, a1, a2, a3) = (
        a.limbs@[0] as int,
        a.limbs@[1] as int,
        a.limbs@[2] as int,
        a.limbs@[3] as int,
    );
    let (b0, b1, b2, b3) = (
        b.limbs@[0] as int,
        b.limbs@[1] as int,
        b.limbs@[2] as int,
        b.limbs@[3] as int,
    );
    lemma_digit(a0, a1 + base * (a2 + base * a3), b0, b1 + base * (b2 + base * b3));
    lemma_digit(a1, a2 + base * a3, b1, b2 + base * b3);
    lemma_digit(a2, a3, b2, b3);
    assert(a.limbs@ =~= b.limbs@);
}

proof fn lemma_digit(a: int, rest_a: int, b: int, rest_b: int)
    requires
        0 <= a < limb_base(),
        0 <= b < limb_base(),
        a + limb_base() * rest_a == b + limb_base() * rest_b,
    ensures
        a == b,
        rest_a == rest_b,
{
    let base = limb_base();
    assert(a == b && rest_a == rest_b) by (nonlinear_arith)
        requires
            0 <= a < base,
            0 <= b < base,
            base == 0x1_0000_0000_0000_0000,
            a + base * rest_a == b + base * rest_b,
    ;
}

} // verus!
