//! Which byte strings the trie's node decoder can be given.
//!
//! The decoder panics on a leaf or an extension whose path is not a hex-prefix path. Proofs come
//! from outside, so such nodes are left out before a proof reaches it.

use crate::primitives::bytes::{byte_strings, copy_bytes};
use crate::primitives::rlp::big_endian_value;
use vstd::prelude::*;
use vstd::slice::slice_subrange;

verus! {

/// Header length and payload length of the RLP item that starts `bytes`, if one does.
pub open spec fn item_header(bytes: Seq<u8>) -> Option<(int, int)> {
    if bytes.len() == 0 {
        None
    } else {
        let b = bytes[0];
        let header = if b <= 0x7f {
            Some((0, 1))
        } else if b <= 0xb7 {
            Some((1, b - 0x80))
        } else if b <= 0xbf {
            long_header(bytes, b - 0xb7)
        } else if b <= 0xf7 {
            Some((1, b - 0xc0))
        } else {
            long_header(bytes, b - 0xf7)
        };
        match header {
            Some((h, v)) => if h + v <= bytes.len() {
                Some((h, v))
            } else {
                None
            },
            None => None,
        }
    }
}

/// A header whose payload length takes `n` bytes of its own.
pub open spec fn long_header(bytes: Seq<u8>, n: int) -> Option<(int, int)> {
    if bytes.len() < 1 + n || bytes[1] == 0 {
        None
    } else {
        let v = big_endian_value(bytes.subrange(1, 1 + n)) as int;
        if v <= 55 {
            None
        } else {
            Some((1 + n, v))
        }
    }
}

/// The items that `payload` starts with, up to the first byte that starts none.
pub open spec fn leading_items(payload: Seq<u8>) -> Seq<Seq<u8>>
    decreases payload.len(),
{
    match item_header(payload) {
        Some((h, v)) => if 0 < h + v <= payload.len() {
            seq![payload.take(h + v)] + leading_items(payload.skip(h + v))
        } else {
            Seq::empty()
        },
        None => Seq::empty(),
    }
}

/// The items of an encoded list, as the decoder counts them: the first has to lie within the
/// list's payload; the others follow it up to the end of the bytes.
pub open spec fn node_items(bytes: Seq<u8>) -> Seq<Seq<u8>> {
    match item_header(bytes) {
        None => Seq::empty(),
        Some((h, v)) => if item_header(bytes.subrange(h, h + v)) is None {
            Seq::empty()
        } else {
            leading_items(bytes.skip(h))
        },
    }
}

/// The payload of an item.
pub open spec fn item_payload(item: Seq<u8>) -> Seq<u8> {
    match item_header(item) {
        Some((h, v)) => item.subrange(h, h + v),
        None => Seq::empty(),
    }
}

/// A hex-prefix path: a flag nibble from 0 to 3, and at least one nibble in an extension's path.
pub open spec fn is_node_path(path: Seq<u8>) -> bool {
    &&& path.len() > 0
    &&& path[0] / 16 <= 3
    &&& path[0] / 16 == 0 ==> path.len() >= 2
}

/// Whether every leaf and extension in an encoded node, and in the nodes embedded in it, has a
/// hex-prefix path.
pub open spec fn is_decodable_node(bytes: Seq<u8>) -> bool
    decreases bytes.len(),
{
    if bytes.len() == 0 || bytes[0] < 0xc0 {
        true
    } else {
        let items = node_items(bytes);
        if items.len() == 2 {
            let path = item_payload(items[0]);
            is_node_path(path) && (path[0] / 16 >= 2 || (items[1].len() < bytes.len()
                && is_decodable_node(items[1])))
        } else if items.len() == 17 {
            forall|i: int|
                0 <= i < 16 ==> (#[trigger] items[i]).len() < bytes.len() && is_decodable_node(
                    items[i],
                )
        } else {
            true
        }
    }
}

/// The nodes of a proof that the decoder can be given, in order.
pub open spec fn decodable_nodes(proof: Seq<Seq<u8>>) -> Seq<Seq<u8>>
    decreases proof.len(),
{
    if proof.len() == 0 {
        Seq::empty()
    } else {
        let before = decodable_nodes(proof.drop_last());
        if is_decodable_node(proof.last()) {
            before.push(proof.last())
        } else {
            before
        }
    }
}

/// Nothing is left out of a proof whose nodes can all be decoded.
pub proof fn decodable_proof_is_kept(proof: Seq<Seq<u8>>)
    requires
        forall|i: int| 0 <= i < proof.len() ==> is_decodable_node(#[trigger] proof[i]),
    ensures
        decodable_nodes(proof) == proof,
    decreases proof.len(),
{
    if proof.len() > 0 {
        let before = proof.drop_last();
        assert forall|i: int| 0 <= i < before.len() implies is_decodable_node(
            #[trigger] before[i],
        ) by {
            assert(before[i] == proof[i]);
        }
        decodable_proof_is_kept(before);
        assert(is_decodable_node(proof[proof.len() - 1]));
        assert(before.push(proof.last()) =~= proof);
    }
}

proof fn lemma_value_of_prefix(s: Seq<u8>, k: int)
    requires
        0 <= k <= s.len(),
    ensures
        big_endian_value(s.take(k)) <= big_endian_value(s),
    decreases s.len() - k,
{
    if k == s.len() {
        assert(s.take(k) =~= s);
    } else {
        lemma_value_of_prefix(s, k + 1);
        let t = s.take(k + 1);
        assert(t.drop_last() =~= s.take(k));
    }
}

fn read_long_header(bytes: &[u8], n: usize) -> (header: Option<(usize, usize)>)
    requires
        1 <= n <= 8,
    ensures
        header matches Some((h, v)) ==> long_header(bytes@, n as int) == Some((h as int, v as int))
            && h + v <= bytes@.len(),
        header is None ==> (long_header(bytes@, n as int) matches Some((h, v)) ==> h + v
            > bytes@.len()),
{
    if bytes.len() < 1 + n || bytes[1] == 0 {
        return None;
    }
    let ghost digits = bytes@.subrange(1, 1 + n);
    let len: usize = bytes.len();
    let mut value: u128 = 0;
    let mut i: usize = 0;
    assert(digits.take(0) =~= Seq::<u8>::empty());
    while i < n
        invariant
            i <= n <= 8,
            1 + n <= bytes@.len(),
            bytes@[1] != 0,
            digits == bytes@.subrange(1, 1 + n),
            value == big_endian_value(digits.take(i as int)),
            value <= len == bytes@.len(),
        decreases n - i,
    {
        let next: u128 = value * 256 + bytes[1 + i] as u128;
        proof {
            let t = digits.take(i + 1);
            assert(t.drop_last() =~= digits.take(i as int));
            assert(t.last() == bytes@[1 + i]);
        }
        if next > len as u128 {
            proof {
                lemma_value_of_prefix(digits, i + 1);
            }
            return None;
        }
        value = next;
        i += 1;
    }
    assert(digits.take(n as int) =~= digits);
    if value <= 55 {
        return None;
    }
    let v: usize = value as usize;
    if v > len - 1 - n {
        return None;
    }
    Some((1 + n, v))
}

fn read_header(bytes: &[u8]) -> (header: Option<(usize, usize)>)
    ensures
        match header {
            Some((h, v)) => item_header(bytes@) == Some((h as int, v as int)) && h + v
                <= bytes@.len(),
            None => item_header(bytes@) is None,
        },
{
    if bytes.len() == 0 {
        return None;
    }
    let b: u8 = bytes[0];
    if b <= 0x7f {
        Some((0, 1))
    } else if b <= 0xb7 {
        let v: usize = (b - 0x80) as usize;
        if v > bytes.len() - 1 {
            None
        } else {
            Some((1, v))
        }
    } else if b <= 0xbf {
        read_long_header(bytes, (b - 0xb7) as usize)
    } else if b <= 0xf7 {
        let v: usize = (b - 0xc0) as usize;
        if v > bytes.len() - 1 {
            None
        } else {
            Some((1, v))
        }
    } else {
        read_long_header(bytes, (b - 0xf7) as usize)
    }
}

/// The ranges of `payload` that hold its leading items.
fn split_items(payload: &[u8]) -> (ranges: Vec<(usize, usize)>)
    ensures
        ranges@.len() == leading_items(payload@).len(),
        forall|k: int|
            0 <= k < ranges@.len() ==> (#[trigger] ranges@[k]).0 <= ranges@[k].1
                <= payload@.len() && payload@.subrange(ranges@[k].0 as int, ranges@[k].1 as int)
                == leading_items(payload@)[k],
{
    let mut ranges: Vec<(usize, usize)> = Vec::new();
    let mut at: usize = 0;
    assert(payload@.skip(0) =~= payload@);
    loop
        invariant
            at <= payload@.len(),
            ranges@.len() <= leading_items(payload@).len(),
            leading_items(payload@).skip(ranges@.len() as int) == leading_items(
                payload@.skip(at as int),
            ),
            forall|k: int|
                0 <= k < ranges@.len() ==> (#[trigger] ranges@[k]).0 <= ranges@[k].1
                    <= payload@.len() && payload@.subrange(
                    ranges@[k].0 as int,
                    ranges@[k].1 as int,
                ) == leading_items(payload@)[k],
        decreases payload@.len() - at,
    {
        let ghost all = leading_items(payload@);
        let rest = slice_subrange(payload, at, payload.len());
        assert(rest@ =~= payload@.skip(at as int));
        match read_header(rest) {
            None => {
                assert(leading_items(rest@).len() == 0);
                assert(all.skip(ranges@.len() as int).len() == 0);
                return ranges;
            },
            Some((h, v)) => {
                let end: usize = at + h + v;
                proof {
                    let n = ranges@.len() as int;
                    let tail = leading_items(rest@);
                    assert(tail == seq![rest@.take(h + v)] + leading_items(rest@.skip(h + v)));
                    assert(all.skip(n)[0] == tail[0]);
                    assert(tail[0] == rest@.take(h + v));
                    assert(rest@.take(h + v) =~= payload@.subrange(at as int, end as int));
                    assert(all.skip(n + 1) =~= all.skip(n).skip(1));
                    assert(tail.skip(1) =~= leading_items(rest@.skip(h + v)));
                    assert(rest@.skip(h + v) =~= payload@.skip(end as int));
                }
                ranges.push((at, end));
                at = end;
            },
        }
    }
}

proof fn lemma_items_are_shorter(payload: Seq<u8>, k: int)
    requires
        0 <= k < leading_items(payload).len(),
    ensures
        leading_items(payload)[k].len() <= payload.len(),
    decreases payload.len(),
{
    let (h, v) = item_header(payload)->0;
    if k > 0 {
        lemma_items_are_shorter(payload.skip(h + v), k - 1);
    }
}

/// Whether an encoded node can be handed to the trie's decoder. Calls itself once for each node
/// embedded in another, so the stack bounds how deep they can be nested.
pub fn check_node(bytes: &[u8]) -> (decodable: bool)
    ensures
        decodable == is_decodable_node(bytes@),
    decreases bytes@.len(),
{
    if bytes.len() == 0 || bytes[0] < 0xc0 {
        return true;
    }
    let (h, v) = match read_header(bytes) {
        Some(header) => header,
        None => {
            return true;
        },
    };
    let listed = slice_subrange(bytes, h, h + v);
    if read_header(listed).is_none() {
        return true;
    }
    let payload = slice_subrange(bytes, h, bytes.len());
    let ranges = split_items(payload);
    let ghost items = leading_items(payload@);
    proof {
        assert(payload@ =~= bytes@.skip(h as int));
        assert(items == node_items(bytes@));
        assert(h > 0);
        assert forall|k: int| 0 <= k < items.len() implies (#[trigger] items[k]).len()
            < bytes@.len() by {
            lemma_items_are_shorter(payload@, k);
        }
    }
    if ranges.len() == 2 {
        let first = slice_subrange(payload, ranges[0].0, ranges[0].1);
        assert(first@ == items[0]);
        let (ph, pv) = match read_header(first) {
            Some(header) => header,
            None => {
                return false;
            },
        };
        let path = slice_subrange(first, ph, ph + pv);
        assert(path@ == item_payload(items[0]));
        if path.len() == 0 || path[0] / 16 > 3 || (path[0] / 16 == 0 && path.len() < 2) {
            return false;
        }
        if path[0] / 16 >= 2 {
            return true;
        }
        let second = slice_subrange(payload, ranges[1].0, ranges[1].1);
        assert(second@ == items[1]);
        check_node(second)
    } else if ranges.len() == 17 {
        let mut i: usize = 0;
        while i < 16
            invariant
                i <= 16,
                ranges@.len() == 17,
                items == node_items(bytes@),
                items.len() == 17,
                forall|k: int|
                    0 <= k < ranges@.len() ==> (#[trigger] ranges@[k]).0 <= ranges@[k].1
                        <= payload@.len() && payload@.subrange(
                        ranges@[k].0 as int,
                        ranges@[k].1 as int,
                    ) == items[k],
                forall|k: int| 0 <= k < items.len() ==> (#[trigger] items[k]).len() < bytes@.len(),
                forall|k: int| 0 <= k < i ==> is_decodable_node(#[trigger] items[k]),
                bytes@.len() > 0,
                bytes@[0] >= 0xc0,
            decreases 16 - i,
        {
            let child = slice_subrange(payload, ranges[i].0, ranges[i].1);
            assert(child@ == items[i as int]);
            if !check_node(child) {
                return false;
            }
            i += 1;
        }
        true
    } else {
        true
    }
}

/// The nodes of a proof that the trie's decoder can be given, in order.
pub fn keep_decodable(proof: &[Vec<u8>]) -> (kept: Vec<Vec<u8>>)
    ensures
        byte_strings(kept@) == decodable_nodes(byte_strings(proof@)),
        forall|i: int| 0 <= i < kept@.len() ==> is_decodable_node((#[trigger] kept@[i])@),
{
    let mut kept: Vec<Vec<u8>> = Vec::new();
    let mut i: usize = 0;
    let ghost all = byte_strings(proof@);
    assert(byte_strings(kept@) =~= decodable_nodes(all.take(0)));
    while i < proof.len()
        invariant
            i <= proof@.len(),
            all == byte_strings(proof@),
            byte_strings(kept@) == decodable_nodes(all.take(i as int)),
            forall|k: int| 0 <= k < kept@.len() ==> is_decodable_node((#[trigger] kept@[k])@),
        decreases proof@.len() - i,
    {
        let ghost before = kept@;
        proof {
            assert(all.take(i + 1).drop_last() =~= all.take(i as int));
            assert(all.take(i + 1).last() == proof@[i as int]@);
        }
        if check_node(proof[i].as_slice()) {
            kept.push(copy_bytes(proof[i].as_slice()));
            assert(byte_strings(kept@) =~= byte_strings(before).push(proof@[i as int]@));
        }
        i += 1;
    }
    assert(all.take(i as int) =~= all);
    kept
}

/// The nodes of a proof that are kept are exactly those that the decoder can be given, in their
/// order: none is added, moved or lost.
pub proof fn undecodable_nodes_are_left_out(proof: Seq<Seq<u8>>)
    ensures
        decodable_nodes(proof) == proof.filter(|node: Seq<u8>| is_decodable_node(node)),
    decreases proof.len(),
{
    reveal(Seq::filter);
    if proof.len() > 0 {
        undecodable_nodes_are_left_out(proof.drop_last());
    }
}

/// A node with a path of its own can be decoded where that path is a hex-prefix path and, unless the
/// node is a leaf, the node below it can be; a branch where all sixteen nodes below it can be. What
/// is no list holds no path.
pub proof fn decodable_node_has_decodable_parts(bytes: Seq<u8>)
    requires
        bytes.len() > 0,
    ensures
        ({
            let items = node_items(bytes);
            let path = item_payload(items[0]);
            &&& bytes[0] < 0xc0 ==> is_decodable_node(bytes)
            &&& bytes[0] >= 0xc0 && items.len() == 2 && is_decodable_node(bytes) ==> {
                &&& path.len() > 0
                &&& path[0] < 0x40
                &&& path[0] < 0x20 ==> is_decodable_node(items[1])
                &&& path[0] < 0x10 ==> path.len() > 1
            }
            &&& bytes[0] >= 0xc0 && items.len() == 17 && is_decodable_node(bytes) ==> forall|i: int|
                0 <= i < 16 ==> is_decodable_node(#[trigger] items[i])
        }),
{
}

} // verus!
