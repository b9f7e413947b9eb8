//! The part of Recursive Length Prefix encoding that keys a transaction trie.

use vstd::prelude::*;

verus! {

/// The big-endian digits of `n` in base 256, without leading zeros.
pub open spec fn big_endian(n: nat) -> Seq<u8>
    decreases n,
{
    if n == 0 {
        Seq::empty()
    } else {
        big_endian(n / 256).push((n % 256) as u8)
    }
}

/// The number that a byte string stands for in big-endian order.
pub open spec fn big_endian_value(s: Seq<u8>) -> nat
    decreases s.len(),
{
    if s.len() == 0 {
        0
    } else {
        big_endian_value(s.drop_last()) * 256 + s.last() as nat
    }
}

/// The RLP encoding of a byte string.
pub open spec fn rlp_string(s: Seq<u8>) -> Seq<u8> {
    if s.len() == 1 && s[0] < 0x80 {
        s
    } else if s.len() <= 55 {
        seq![(0x80 + s.len()) as u8] + s
    } else {
        seq![(0xb7 + big_endian(s.len()).len()) as u8] + big_endian(s.len()) + s
    }
}

/// The RLP encoding of an unsigned integer: that of its big-endian digits.
pub open spec fn rlp_uint(n: nat) -> Seq<u8> {
    rlp_string(big_endian(n))
}

/// `alloy_rlp::encode` on a `U256` made from an index: the RLP encoding of the number.
#[verifier::external_body]
pub(crate) fn encode_index(index: usize) -> (key: Vec<u8>)
    ensures
        key@ == rlp_uint(index as nat),
{
    alloy_rlp::encode(alloy_primitives::U256::from(index))
}

/// Reading the digits of a number back gives the number.
pub proof fn big_endian_round_trip(n: nat)
    ensures
        big_endian_value(big_endian(n)) == n,
    decreases n,
{
    if n > 0 {
        big_endian_round_trip(n / 256);
        let s = big_endian(n);
        assert(s.drop_last() =~= big_endian(n / 256));
        assert(s.last() == (n % 256) as u8);
        assert((n / 256) * 256 + n % 256 == n);
    }
}

/// A machine word has at most eight digits.
proof fn lemma_word_digits(n: nat, k: nat)
    requires
        n < pow256(k),
    ensures
        big_endian(n).len() <= k,
    decreases k,
{
    if k == 0 {
    } else if n > 0 {
        assert(n / 256 < pow256((k - 1) as nat)) by (nonlinear_arith)
            requires
                n < 256 * pow256((k - 1) as nat),
        ;
        lemma_word_digits(n / 256, (k - 1) as nat);
    }
}

spec fn pow256(k: nat) -> nat
    decreases k,
{
    if k == 0 {
        1
    } else {
        256 * pow256((k - 1) as nat)
    }
}

proof fn lemma_word_has_few_digits(n: nat)
    requires
        n <= u64::MAX,
    ensures
        big_endian(n).len() <= 8,
{
    assert(pow256(8) == 0x1_0000_0000_0000_0000) by {
        reveal_with_fuel(pow256, 9);
    }
    lemma_word_digits(n, 8);
}

proof fn lemma_short_string_injective(s: Seq<u8>, t: Seq<u8>)
    requires
        s.len() <= 55,
        t.len() <= 55,
        rlp_string(s) == rlp_string(t),
    ensures
        s == t,
{
    let es = rlp_string(s);
    let et = rlp_string(t);
    let s_bare = s.len() == 1 && s[0] < 0x80;
    let t_bare = t.len() == 1 && t[0] < 0x80;
    if s_bare && t_bare {
    } else if s_bare {
        assert(es[0] == s[0]);
        assert(et[0] == (0x80 + t.len()) as u8);
    } else if t_bare {
        assert(et[0] == t[0]);
        assert(es[0] == (0x80 + s.len()) as u8);
    } else {
        assert(es.subrange(1, es.len() as int) =~= s);
        assert(et.subrange(1, et.len() as int) =~= t);
    }
}

/// Distinct indices have distinct keys.
pub proof fn index_keys_are_distinct(i: usize, j: usize)
    ensures
        rlp_uint(i as nat) == rlp_uint(j as nat) ==> i == j,
{
    lemma_word_has_few_digits(i as nat);
    lemma_word_has_few_digits(j as nat);
    if rlp_uint(i as nat) == rlp_uint(j as nat) {
        lemma_short_string_injective(big_endian(i as nat), big_endian(j as nat));
        big_endian_round_trip(i as nat);
        big_endian_round_trip(j as nat);
    }
}

} // verus!
