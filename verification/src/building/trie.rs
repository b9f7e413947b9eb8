//! The Merkle Patricia trie that transactions are proved in, kept by `eth_trie`.

use crate::building::trie_nodes::is_decodable_node;
use crate::primitives::bytes::{byte_strings, B256};
use crate::primitives::constraints::keccak256_of;
use eth_trie::Trie;
use vstd::prelude::*;

verus! {

#[verifier::external_type_specification]
#[verifier::external_body]
pub struct ExTrieError(eth_trie::TrieError);

/// An `EthTrie` over an in-memory database.
#[verifier::external_body]
pub struct PatriciaTrie {
    inner: eth_trie::EthTrie<eth_trie::MemoryDB>,
}

/// The entries of a trie.
pub uninterp spec fn trie_contents(trie: PatriciaTrie) -> Map<Seq<u8>, Seq<u8>>;

/// Whether a trie's nodes have been written to its database since it was last changed.
pub uninterp spec fn trie_committed(trie: PatriciaTrie) -> bool;

/// The root hash of a trie with the given entries.
pub uninterp spec fn trie_root(contents: Map<Seq<u8>, Seq<u8>>) -> Seq<u8>;

/// The nodes that a trie with the given entries hands out as the proof of a key, before or after
/// its nodes have been written to its database.
pub uninterp spec fn trie_proof(
    contents: Map<Seq<u8>, Seq<u8>>,
    committed: bool,
    key: Seq<u8>,
) -> Seq<Seq<u8>>;

/// What a proof says of a key under a root: the key's value, that it has none, or nothing.
pub uninterp spec fn proof_value(root: Seq<u8>, key: Seq<u8>, proof: Seq<Seq<u8>>) -> Option<
    Option<Seq<u8>>,
>;

/// Whether a node of a proof shares its Keccak-256 hash with another byte string that is a node on
/// a key's path in a trie with the given entries, or the encoding of the empty trie.
pub open spec fn proof_collides(
    proof: Seq<Seq<u8>>,
    contents: Map<Seq<u8>, Seq<u8>>,
    key: Seq<u8>,
) -> bool {
    let path = trie_proof(contents, true, key).push(seq![0x80u8]);
    exists|i: int, j: int|
        0 <= i < proof.len() && 0 <= j < path.len() && proof[i] != path[j] && keccak256_of(
            #[trigger] proof[i],
        ) == keccak256_of(#[trigger] path[j])
}

/// `EthTrie::new` over a fresh `MemoryDB`: a trie without entries, not yet written.
#[verifier::external_body]
pub(crate) fn trie_new() -> (trie: PatriciaTrie)
    ensures
        (trie_contents(trie) == Map::<Seq<u8>, Seq<u8>>::empty()),
        !trie_committed(trie),
{
    PatriciaTrie {
        inner: eth_trie::EthTrie::new(std::sync::Arc::new(eth_trie::MemoryDB::new(true))),
    }
}

/// `EthTrie::insert` of a value that is not empty (an empty one would remove the key) into a trie
/// that was never written: the key then has that value. Such a trie holds all its nodes in
/// memory, so none can be missing and the call succeeds.
#[verifier::external_body]
pub(crate) fn trie_insert(trie: &mut PatriciaTrie, key: &[u8], value: &[u8]) -> (result: Result<
    (),
    eth_trie::TrieError,
>)
    requires
        value@.len() > 0,
        !trie_committed(*old(trie)),
    ensures
        result is Ok,
        !trie_committed(*final(trie)),
        (trie_contents(*final(trie)) == trie_contents(*old(trie)).insert(key@, value@)),
{
    trie.inner.insert(key, value)
}

/// `EthTrie::root_hash`: writes the nodes to the database, which is in memory and does not fail,
/// and returns the hash of the root, which the entries determine. The entries stay as they are.
#[verifier::external_body]
pub(crate) fn trie_root_hash(trie: &mut PatriciaTrie) -> (result: Result<B256, eth_trie::TrieError>)
    ensures
        result matches Ok(root) && root@ == trie_root(trie_contents(*old(trie))),
        trie_contents(*final(trie)) == trie_contents(*old(trie)),
        trie_committed(*final(trie)),
{
    trie.inner.root_hash().map(|root| root.to_fixed_bytes())
}

/// `EthTrie::get_proof`: the encoded nodes on the path to a key. The trie stays as it is. After
/// the nodes were written, the proof of a key that is there verifies against the root to the
/// key's value (as far as no two nodes share a Keccak-256 hash). Its nodes can be decoded. A trie
/// that has entries has a root, which every proof holds. Every node that was written is in the
/// database, so the call succeeds.
#[verifier::external_body]
pub(crate) fn trie_get_proof(trie: &mut PatriciaTrie, key: &[u8]) -> (result: Result<
    Vec<Vec<u8>>,
    eth_trie::TrieError,
>)
    ensures
        result is Ok,
        trie_contents(*final(trie)) == trie_contents(*old(trie)),
        trie_committed(*final(trie)) == trie_committed(*old(trie)),
        (result matches Ok(proof) ==> byte_strings(proof@) == trie_proof(
            trie_contents(*old(trie)),
            trie_committed(*old(trie)),
            key@,
        )),
        (result matches Ok(proof) ==> trie_contents(*old(trie)) != Map::<Seq<u8>, Seq<u8>>::empty()
            ==> proof@.len() > 0),
        (result matches Ok(proof) ==> forall|i: int|
            0 <= i < proof@.len() ==> is_decodable_node((#[trigger] proof@[i])@)),
        (result matches Ok(proof) ==> trie_committed(*old(trie)) && trie_contents(
            *old(trie),
        ).contains_key(key@) ==> proof_value(
            trie_root(trie_contents(*old(trie))),
            key@,
            byte_strings(proof@),
        ) == Some(Some(trie_contents(*old(trie))[key@]))),
{
    trie.inner.get_proof(key)
}

/// `EthTrie::verify_proof`: what a proof says of a key under a root hash. The trie that it is
/// called on plays no part. Its decoder panics on a node that is not decodable. Nodes are looked up
/// by their Keccak-256 hashes, from the root's on. So, under the root of a trie and unless a hash
/// is shared, the nodes that it finds are those on the key's path in that trie: what the proof says
/// is then what that trie holds (as far as no two nodes of that trie share a hash). It calls itself
/// once for each node on the way, so the stack bounds how long a chain of nodes can be.
#[verifier::external_body]
pub(crate) fn trie_verify_proof(
    trie: &PatriciaTrie,
    root: &B256,
    key: &[u8],
    proof: Vec<Vec<u8>>,
) -> (result: Result<Option<Vec<u8>>, eth_trie::TrieError>)
    requires
        forall|i: int| 0 <= i < proof@.len() ==> is_decodable_node((#[trigger] proof@[i])@),
    ensures
        proof_value(root@, key@, byte_strings(proof@)) == (match result {
            Ok(Some(value)) => Some(Some(value@)),
            Ok(None) => Some(None),
            Err(_) => None,
        }),
        (forall|contents: Map<Seq<u8>, Seq<u8>>|
            root@ == #[trigger] trie_root(contents) && !proof_collides(
                byte_strings(proof@),
                contents,
                key@,
            ) ==> match result {
                Ok(Some(value)) => contents.contains_key(key@) && contents[key@] == value@,
                Ok(None) => !contents.contains_key(key@),
                Err(_) => true,
            }),
{
    trie.inner.verify_proof(ethereum_types::H256::from_slice(root), key, proof)
}

} // verus!
