//! Constraints that target a block, identified by their content.

use crate::primitives::bytes::{byte_strings, B256};
use vstd::prelude::*;

verus! {

pub const MAX_CONSTRAINTS_PER_BLOCK: usize = 256;

/// Limit on the length of an encoded transaction
pub const MAX_BYTES_PER_TRANSACTION: usize = 0x4000_0000;

// Could be signed
#[derive(Debug, Clone, PartialEq, Eq)]
pub struct Constraints {
    pub message: ConstraintsMessage,
}

// Could include indices
#[derive(Debug, Clone, PartialEq, Eq)]
pub struct ConstraintsMessage {
    pub block: u64,
    /// At most `MAX_CONSTRAINTS_PER_BLOCK` encoded transactions, each of at most
    /// `MAX_BYTES_PER_TRANSACTION` bytes
    pub transactions: Vec<Vec<u8>>,
}

/// Unique identifier for a constraint, based on its content hash
#[derive(Debug, Clone, Copy, PartialEq, Eq, Hash)]
pub struct ConstraintId(B256);

impl View for ConstraintId {
    type V = B256;

    closed spec fn view(&self) -> B256 {
        self.0
    }
}

/// Four little-endian bytes.
pub open spec fn le4(n: nat) -> Seq<u8> {
    seq![
        (n % 0x100) as u8,
        (n / 0x100 % 0x100) as u8,
        (n / 0x1_0000 % 0x100) as u8,
        (n / 0x100_0000 % 0x100) as u8,
    ]
}

/// Eight little-endian bytes.
pub open spec fn le8(n: nat) -> Seq<u8> {
    le4(n % 0x1_0000_0000) + le4(n / 0x1_0000_0000)
}

/// The total length of the first `k` items.
pub open spec fn length_of_first(items: Seq<Seq<u8>>, k: int) -> nat
    decreases k,
{
    if k <= 0 {
        0
    } else {
        length_of_first(items, k - 1) + items[k - 1].len()
    }
}

/// Where the item at an index starts in the SSZ encoding of a list.
pub open spec fn ssz_offset(items: Seq<Seq<u8>>, k: int) -> nat {
    4 * items.len() + length_of_first(items, k)
}

/// The offsets of the first `k` items, encoded.
pub open spec fn ssz_offsets(items: Seq<Seq<u8>>, k: int) -> Seq<u8>
    decreases k,
{
    if k <= 0 {
        Seq::empty()
    } else {
        ssz_offsets(items, k - 1) + le4(ssz_offset(items, k - 1))
    }
}

/// The first `k` items, one after the other.
pub open spec fn joined(items: Seq<Seq<u8>>, k: int) -> Seq<u8>
    decreases k,
{
    if k <= 0 {
        Seq::empty()
    } else {
        joined(items, k - 1) + items[k - 1]
    }
}

/// The SSZ encoding of a list of byte lists: the offset of each, then each.
pub open spec fn ssz_list(items: Seq<Seq<u8>>) -> Seq<u8> {
    ssz_offsets(items, items.len() as int) + joined(items, items.len() as int)
}

/// The SSZ encoding of constraints: the offset of the message, then its block, the offset of its
/// transactions, and the transactions.
pub open spec fn ssz_constraints(block: u64, transactions: Seq<Seq<u8>>) -> Seq<u8> {
    le4(4) + le8(block as nat) + le4(12) + ssz_list(transactions)
}

/// As many transactions as may constrain a block, none too long, and an encoding whose length fits
/// in 32 bits.
pub open spec fn encodable(transactions: Seq<Seq<u8>>) -> bool {
    &&& transactions.len() <= MAX_CONSTRAINTS_PER_BLOCK
    &&& forall|i: int|
        0 <= i < transactions.len() ==> (#[trigger] transactions[i]).len()
            <= MAX_BYTES_PER_TRANSACTION
    &&& 16 + ssz_offset(transactions, transactions.len() as int) <= u32::MAX
}

/// The Keccak-256 hash of a byte string.
pub uninterp spec fn keccak256_of(bytes: Seq<u8>) -> Seq<u8>;

/// `alloy_primitives::keccak256`: the Keccak-256 hash.
#[verifier::external_body]
pub(crate) fn keccak256(bytes: &[u8]) -> (hash: B256)
    ensures
        hash@ == keccak256_of(bytes@),
{
    alloy_primitives::keccak256(bytes).0
}

fn push_le4(out: &mut Vec<u8>, n: u32)
    ensures
        final(out)@ == old(out)@ + le4(n as nat),
{
    out.push((n % 0x100) as u8);
    out.push((n / 0x100 % 0x100) as u8);
    out.push((n / 0x1_0000 % 0x100) as u8);
    out.push((n / 0x100_0000 % 0x100) as u8);
    assert(out@ =~= old(out)@ + le4(n as nat));
}

proof fn lemma_length_grows(items: Seq<Seq<u8>>, j: int, k: int)
    requires
        0 <= j <= k,
    ensures
        length_of_first(items, j) <= length_of_first(items, k),
    decreases k - j,
{
    if j < k {
        lemma_length_grows(items, j, k - 1);
    }
}

impl Constraints {
    /// What the message's types admit, see `encodable`.
    pub open spec fn wf(&self) -> bool {
        encodable(byte_strings(self.message.transactions@))
    }

    /// The SSZ encoding.
    fn serialize(&self) -> (bytes: Vec<u8>)
        requires
            self.wf(),
        ensures
            bytes@ == ssz_constraints(
                self.message.block,
                byte_strings(self.message.transactions@),
            ),
    {
        let transactions = &self.message.transactions;
        let ghost items = byte_strings(transactions@);
        let ghost count = items.len() as int;
        let mut bytes: Vec<u8> = Vec::new();
        push_le4(&mut bytes, 4);
        let block: u64 = self.message.block;
        push_le4(&mut bytes, (block % 0x1_0000_0000) as u32);
        push_le4(&mut bytes, (block / 0x1_0000_0000) as u32);
        push_le4(&mut bytes, 12);
        let ghost head = le4(4) + le8(block as nat) + le4(12);
        assert(bytes@ =~= head);
        let mut offset: u32 = 4 * transactions.len() as u32;
        let mut i: usize = 0;
        while i < transactions.len()
            invariant
                i <= transactions@.len(),
                items == byte_strings(transactions@),
                count == items.len(),
                ssz_offset(items, count) <= u32::MAX,
                offset == ssz_offset(items, i as int),
                bytes@ == head + ssz_offsets(items, i as int),
            decreases transactions@.len() - i,
        {
            push_le4(&mut bytes, offset);
            proof {
                lemma_length_grows(items, i + 1, count);
                assert(items[i as int] == transactions@[i as int]@);
                assert(bytes@ =~= head + ssz_offsets(items, i + 1));
            }
            offset += transactions[i].len() as u32;
            i += 1;
        }
        let ghost fixed = bytes@;
        i = 0;
        while i < transactions.len()
            invariant
                i <= transactions@.len(),
                items == byte_strings(transactions@),
                bytes@ == fixed + joined(items, i as int),
            decreases transactions@.len() - i,
        {
            let tx = &transactions[i];
            let ghost before = bytes@;
            let mut j: usize = 0;
            while j < tx.len()
                invariant
                    j <= tx@.len(),
                    bytes@ == before + tx@.take(j as int),
                decreases tx@.len() - j,
            {
                bytes.push(tx[j]);
                assert(bytes@ =~= before + tx@.take(j + 1));
                j += 1;
            }
            proof {
                assert(tx@.take(j as int) =~= tx@);
                assert(items[i as int] == tx@);
                assert(bytes@ =~= fixed + joined(items, i + 1));
            }
            i += 1;
        }
        assert(bytes@ =~= ssz_constraints(block, items));
        bytes
    }

    /// Whether the message is what its types admit.
    pub fn is_encodable(&self) -> (encodable: bool)
        ensures
            encodable == self.wf(),
    {
        let ghost items = byte_strings(self.message.transactions@);
        let count: usize = self.message.transactions.len();
        if count > MAX_CONSTRAINTS_PER_BLOCK {
            return false;
        }
        let mut length: u64 = 16 + 4 * (count as u64);
        let mut i: usize = 0;
        while i < count
            invariant
                i <= count == items.len() <= MAX_CONSTRAINTS_PER_BLOCK,
                items == byte_strings(self.message.transactions@),
                count == self.message.transactions@.len(),
                length == 16 + ssz_offset(items, i as int),
                length <= u32::MAX,
                forall|k: int|
                    0 <= k < i ==> (#[trigger] items[k]).len() <= MAX_BYTES_PER_TRANSACTION,
            decreases count - i,
        {
            let len: usize = self.message.transactions[i].len();
            assert(items[i as int].len() == len);
            proof {
                lemma_length_grows(items, i + 1, count as int);
            }
            if len > MAX_BYTES_PER_TRANSACTION || length + len as u64 > 0xffff_ffff {
                return false;
            }
            length = length + len as u64;
            i += 1;
        }
        true
    }

    /// Generate a unique ID for this constraint based on its content
    pub fn id(&self) -> (id: ConstraintId)
        requires
            self.wf(),
        ensures
            id@@ == keccak256_of(
                ssz_constraints(self.message.block, byte_strings(self.message.transactions@)),
            ),
    {
        // Compute hash of the serialized constraint using SSZ encoding
        let bytes = self.serialize();
        ConstraintId(keccak256(bytes.as_slice()))
    }

    /// Get the hash value from the constraint ID
    pub fn hash(&self) -> (hash: B256)
        requires
            self.wf(),
        ensures
            hash@ == keccak256_of(
                ssz_constraints(self.message.block, byte_strings(self.message.transactions@)),
            ),
    {
        self.id().0
    }
}

spec fn le4_value(s: Seq<u8>) -> nat {
    (s[0] + 0x100 * s[1] + 0x1_0000 * s[2] + 0x100_0000 * s[3]) as nat
}

proof fn lemma_le4(n: nat)
    requires
        n <= u32::MAX,
    ensures
        le4_value(le4(n)) == n,
{
}

proof fn lemma_offsets(items: Seq<Seq<u8>>, i: int, k: int)
    requires
        0 <= i < k <= items.len(),
    ensures
        ssz_offsets(items, k).len() == 4 * k,
        ssz_offsets(items, k).subrange(4 * i, 4 * i + 4) == le4(ssz_offset(items, i)),
    decreases k,
{
    lemma_offsets_length(items, k);
    lemma_offsets_length(items, k - 1);
    let all = ssz_offsets(items, k);
    let before = ssz_offsets(items, k - 1);
    if i < k - 1 {
        lemma_offsets(items, i, k - 1);
        assert(all.subrange(4 * i, 4 * i + 4) =~= before.subrange(4 * i, 4 * i + 4));
    } else {
        assert(all.subrange(4 * i, 4 * i + 4) =~= le4(ssz_offset(items, i)));
    }
}

proof fn lemma_offsets_length(items: Seq<Seq<u8>>, k: int)
    requires
        0 <= k,
    ensures
        ssz_offsets(items, k).len() == 4 * k,
    decreases k,
{
    if k > 0 {
        lemma_offsets_length(items, k - 1);
    }
}

proof fn lemma_joined(items: Seq<Seq<u8>>, i: int, k: int)
    requires
        0 <= i < k <= items.len(),
    ensures
        joined(items, k).len() == length_of_first(items, k),
        length_of_first(items, i + 1) <= length_of_first(items, k),
        joined(items, k).subrange(
            length_of_first(items, i) as int,
            length_of_first(items, i + 1) as int,
        ) == items[i],
    decreases k,
{
    lemma_joined_length(items, k);
    lemma_joined_length(items, k - 1);
    lemma_length_grows(items, i + 1, k);
    let all = joined(items, k);
    let before = joined(items, k - 1);
    let start = length_of_first(items, i) as int;
    let end = length_of_first(items, i + 1) as int;
    if i < k - 1 {
        lemma_joined(items, i, k - 1);
        assert(all.subrange(start, end) =~= before.subrange(start, end));
    } else {
        assert(all.subrange(start, end) =~= items[i]);
    }
}

proof fn lemma_joined_length(items: Seq<Seq<u8>>, k: int)
    requires
        0 <= k,
    ensures
        joined(items, k).len() == length_of_first(items, k),
    decreases k,
{
    if k > 0 {
        lemma_joined_length(items, k - 1);
    }
}

/// Offset and end of an item, read off the encoding of its list.
proof fn lemma_item_in_list(items: Seq<Seq<u8>>, i: int)
    requires
        encodable(items),
        0 <= i < items.len(),
    ensures
        ({
            let list = ssz_list(items);
            let start = ssz_offset(items, i) as int;
            let end = ssz_offset(items, i + 1) as int;
            &&& list.len() == ssz_offset(items, items.len() as int)
            &&& 4 * i + 4 <= list.len()
            &&& le4_value(list.subrange(4 * i, 4 * i + 4)) == start
            &&& 0 <= start <= end <= list.len()
            &&& list.subrange(start, end) == items[i]
        }),
{
    let n = items.len() as int;
    let list = ssz_list(items);
    let offsets = ssz_offsets(items, n);
    let data = joined(items, n);
    lemma_offsets(items, i, n);
    lemma_joined(items, i, n);
    lemma_length_grows(items, i, n);
    lemma_length_grows(items, i + 1, n);
    lemma_le4(ssz_offset(items, i));
    assert(list.subrange(4 * i, 4 * i + 4) =~= offsets.subrange(4 * i, 4 * i + 4));
    let start = ssz_offset(items, i) as int;
    let end = ssz_offset(items, i + 1) as int;
    assert(list.subrange(start, end) =~= data.subrange(
        length_of_first(items, i) as int,
        length_of_first(items, i + 1) as int,
    ));
}

proof fn lemma_list_injective(a: Seq<Seq<u8>>, b: Seq<Seq<u8>>)
    requires
        encodable(a),
        encodable(b),
        ssz_list(a) == ssz_list(b),
    ensures
        a == b,
{
    let list = ssz_list(a);
    if a.len() > 0 {
        lemma_item_in_list(a, 0);
    }
    if b.len() > 0 {
        lemma_item_in_list(b, 0);
    }
    assert(a.len() == 0 ==> ssz_list(a).len() == 0);
    assert(b.len() == 0 ==> ssz_list(b).len() == 0);
    assert(a.len() == b.len());
    assert forall|i: int| 0 <= i < a.len() implies a[i] == b[i] by {
        lemma_item_in_list(a, i);
        lemma_item_in_list(b, i);
        if i + 1 < a.len() {
            lemma_item_in_list(a, i + 1);
            lemma_item_in_list(b, i + 1);
        }
    }
    assert(a =~= b);
}

/// An identifier stands for its content: constraints that differ in their block or in their
/// transactions are hashed from different bytes.
pub proof fn content_is_identified(
    block_a: u64,
    transactions_a: Seq<Seq<u8>>,
    block_b: u64,
    transactions_b: Seq<Seq<u8>>,
)
    requires
        encodable(transactions_a),
        encodable(transactions_b),
        ssz_constraints(block_a, transactions_a) == ssz_constraints(block_b, transactions_b),
    ensures
        block_a == block_b,
        transactions_a == transactions_b,
{
    let a = ssz_constraints(block_a, transactions_a);
    let b = ssz_constraints(block_b, transactions_b);
    let na = block_a as nat;
    let nb = block_b as nat;
    assert(a.subrange(4, 8) =~= le4(na % 0x1_0000_0000));
    assert(b.subrange(4, 8) =~= le4(nb % 0x1_0000_0000));
    assert(a.subrange(8, 12) =~= le4(na / 0x1_0000_0000));
    assert(b.subrange(8, 12) =~= le4(nb / 0x1_0000_0000));
    lemma_le4(na % 0x1_0000_0000);
    lemma_le4(nb % 0x1_0000_0000);
    lemma_le4(na / 0x1_0000_0000);
    lemma_le4(nb / 0x1_0000_0000);
    assert(a.skip(16) =~= ssz_list(transactions_a));
    assert(b.skip(16) =~= ssz_list(transactions_b));
    lemma_list_injective(transactions_a, transactions_b);
}

/// An encoding lays its content out at fixed places: the offset of the message, the block number in
/// eight bytes, the offset of the transactions, and the list of the transactions. In the list, the
/// offset of each transaction tells where it starts; it ends where the next one starts or the list
/// ends, and stands there as it is.
pub proof fn encoding_lays_content_out(block: u64, transactions: Seq<Seq<u8>>, i: int)
    requires
        encodable(transactions),
        0 <= i < transactions.len(),
    ensures
        ({
            let bytes = ssz_constraints(block, transactions);
            let list = bytes.skip(16);
            let start = bytes_value(list.subrange(4 * i, 4 * i + 4));
            let end = if i + 1 < transactions.len() {
                bytes_value(list.subrange(4 * i + 4, 4 * i + 8))
            } else {
                list.len() as int
            };
            &&& bytes_value(bytes.subrange(0, 4)) == 4
            &&& bytes_value(bytes.subrange(4, 8)) + 0x1_0000_0000 * bytes_value(
                bytes.subrange(8, 12),
            ) == block
            &&& bytes_value(bytes.subrange(12, 16)) == 12
            &&& 4 * transactions.len() <= start <= end <= list.len()
            &&& list.subrange(start, end) == transactions[i]
        }),
{
    let bytes = ssz_constraints(block, transactions);
    let n = block as nat;
    assert(bytes.subrange(0, 4) =~= le4(4));
    assert(bytes.subrange(4, 8) =~= le4(n % 0x1_0000_0000));
    assert(bytes.subrange(8, 12) =~= le4(n / 0x1_0000_0000));
    assert(bytes.subrange(12, 16) =~= le4(12));
    assert(bytes.skip(16) =~= ssz_list(transactions));
    lemma_le4(4);
    lemma_le4(12);
    lemma_le4(n % 0x1_0000_0000);
    lemma_le4(n / 0x1_0000_0000);
    lemma_item_in_list(transactions, i);
    if i + 1 < transactions.len() {
        lemma_item_in_list(transactions, i + 1);
        let list = ssz_list(transactions);
        assert(list.subrange(4 * (i + 1), 4 * (i + 1) + 4) =~= list.subrange(4 * i + 4, 4 * i + 8));
    }
}

/// The number that four little-endian bytes stand for.
pub open spec fn bytes_value(bytes: Seq<u8>) -> int {
    bytes[0] + 0x100 * bytes[1] + 0x1_0000 * bytes[2] + 0x100_0000 * bytes[3]
}

/// What can be encoded is a message within the limits: at most 256 transactions, none longer than
/// 2^30 bytes, and an encoding shorter than 2^32 bytes.
pub proof fn limits_are_those_of_the_message(block: u64, transactions: Seq<Seq<u8>>)
    ensures
        encodable(transactions) <==> {
            &&& transactions.len() <= 256
            &&& forall|i: int|
                0 <= i < transactions.len() ==> (#[trigger] transactions[i]).len() <= 0x4000_0000
            &&& ssz_constraints(block, transactions).len() < 0x1_0000_0000
        },
{
    let n = transactions.len() as int;
    lemma_offsets_length(transactions, n);
    lemma_joined_length(transactions, n);
}

} // verus!
