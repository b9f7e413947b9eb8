use vstd::prelude::*;

verus! {

/// A 32-byte hash.
pub type B256 = [u8; 32];

/// A 20-byte account address.
pub type Address = [u8; 20];

/// The byte strings that a vector of byte vectors holds.
pub open spec fn byte_strings(v: Seq<Vec<u8>>) -> Seq<Seq<u8>> {
    v.map_values(|b: Vec<u8>| b@)
}

/// Whether two hashes are equal.
pub fn same_hash(a: &B256, b: &B256) -> (same: bool)
    ensures
        same == (a@ == b@),
{
    let mut i: usize = 0;
    while i < 32
        invariant
            i <= 32,
            forall|j: int| 0 <= j < i ==> a@[j] == b@[j],
        decreases 32 - i,
    {
        if a[i] != b[i] {
            assert(a@[i as int] != b@[i as int]);
            return false;
        }
        i += 1;
    }
    assert(a@ =~= b@);
    true
}

/// A copy of a byte string.
pub fn copy_bytes(bytes: &[u8]) -> (copy: Vec<u8>)
    ensures
        copy@ == bytes@,
{
    let mut copy: Vec<u8> = Vec::new();
    let mut i: usize = 0;
    while i < bytes.len()
        invariant
            i <= bytes.len(),
            copy@ == bytes@.take(i as int),
        decreases bytes.len() - i,
    {
        copy.push(bytes[i]);
        assert(copy@ =~= bytes@.take(i + 1));
        i += 1;
    }
    assert(bytes@.take(i as int) =~= bytes@);
    copy
}

/// A copy of a list of byte strings.
pub fn copy_byte_strings(strings: &[Vec<u8>]) -> (copy: Vec<Vec<u8>>)
    ensures
        byte_strings(copy@) == byte_strings(strings@),
        copy@.len() == strings@.len(),
        forall|i: int| 0 <= i < strings@.len() ==> (#[trigger] copy@[i])@ == strings@[i]@,
{
    let mut copy: Vec<Vec<u8>> = Vec::new();
    let mut i: usize = 0;
    while i < strings.len()
        invariant
            i <= strings.len(),
            copy@.len() == i,
            forall|j: int| 0 <= j < i ==> copy@[j]@ == strings@[j]@,
        decreases strings.len() - i,
    {
        copy.push(copy_bytes(strings[i].as_slice()));
        i += 1;
    }
    assert(byte_strings(copy@) =~= byte_strings(strings@));
    copy
}

/// The byte strings of a list are those of its vectors, in their order.
pub proof fn byte_strings_are_those_of_the_list(v: Seq<Vec<u8>>, i: int)
    ensures
        byte_strings(v).len() == v.len(),
        0 <= i < v.len() ==> byte_strings(v)[i] == v[i]@,
{
}

} // verus!
