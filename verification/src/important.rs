//! The set of the peers that count as important. It is a hash set of
//! `hashbrown`, of which nothing in this file is proved.

use vstd::prelude::*;

verus! {

/// The peers that count as important, by their bytes, in a
/// `hashbrown::HashSet` with the hasher of `fnv`.
#[verifier::external_body]
pub struct ImportantPeers {
    peers: hashbrown::HashSet<Vec<u8>, fnv::FnvBuildHasher>,
}

/// The byte strings that the set holds.
pub uninterp spec fn important_peers(set: ImportantPeers) -> Set<Seq<u8>>;

/// `HashSet::with_capacity_and_hasher`: the new set is empty.
#[verifier::external_body]
pub(crate) fn important_new(capacity: usize) -> (set: ImportantPeers)
    ensures
        important_peers(set) == Set::<Seq<u8>>::empty(),
{
    ImportantPeers { peers: hashbrown::HashSet::with_capacity_and_hasher(capacity, Default::default()) }
}

/// `HashSet::insert`: the set then holds the byte string as well; the answer is
/// whether it did not hold it before.
#[verifier::external_body]
pub(crate) fn important_insert(set: &mut ImportantPeers, peer: Vec<u8>) -> (fresh: bool)
    ensures
        important_peers(*final(set)) == important_peers(*old(set)).insert(peer@),
        fresh == !important_peers(*old(set)).contains(peer@),
{
    set.peers.insert(peer)
}

/// `HashSet::contains`: whether the set holds the byte string.
#[verifier::external_body]
pub(crate) fn important_contains(set: &ImportantPeers, peer: &Vec<u8>) -> (found: bool)
    ensures
        found == important_peers(*set).contains(peer@),
{
    set.peers.contains(peer)
}

} // verus!
