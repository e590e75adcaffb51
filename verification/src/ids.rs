//! The handles that the network state machine gives out for connections and
//! for substreams, and for each kind of handle an index from handles to
//! places: a hash map of `hashbrown` with the hasher of `fnv`. The library
//! carries the handles and looks them up, nothing more. Of the two indexes
//! nothing in this file is proved.

use vstd::prelude::*;
use smoldot::network::service::{ConnectionId, SubstreamId};

verus! {

#[verifier::external_type_specification]
#[verifier::external_body]
pub struct ExConnectionId(ConnectionId);

#[verifier::external_type_specification]
#[verifier::external_body]
pub struct ExSubstreamId(SubstreamId);

/// An index from the handles of connections to places, in a
/// `hashbrown::HashMap`.
#[verifier::external_body]
pub struct ConnectionIndex {
    map: hashbrown::HashMap<ConnectionId, usize, fnv::FnvBuildHasher>,
}

/// An index from the handles of substreams to places, in a
/// `hashbrown::HashMap`.
#[verifier::external_body]
pub struct SubstreamIndex {
    map: hashbrown::HashMap<SubstreamId, usize, fnv::FnvBuildHasher>,
}

/// The place that the index holds for each handle.
pub uninterp spec fn connection_places(index: ConnectionIndex) -> Map<ConnectionId, usize>;

/// The place that the index holds for each handle.
pub uninterp spec fn substream_places(index: SubstreamIndex) -> Map<SubstreamId, usize>;

/// The index that holds no place.
pub open spec fn no_places<K>() -> Map<K, usize> {
    Map::empty()
}

/// `HashMap::with_capacity_and_hasher`: the new map is empty.
#[verifier::external_body]
fn connection_index_new() -> (index: ConnectionIndex)
    ensures
        connection_places(index) == no_places::<ConnectionId>(),
{
    ConnectionIndex { map: hashbrown::HashMap::with_capacity_and_hasher(32, Default::default()) }
}

/// `HashMap::get`: the place held for the handle, if one is.
#[verifier::external_body]
fn connection_index_get(index: &ConnectionIndex, key: &ConnectionId) -> (at: Option<usize>)
    ensures
        at == (if connection_places(*index).contains_key(*key) {
            Some(connection_places(*index)[*key])
        } else {
            None
        }),
{
    index.map.get(key).copied()
}

/// `HashMap::insert`: the map then holds the place for the handle, and for
/// every other handle what it held.
#[verifier::external_body]
fn connection_index_insert(index: &mut ConnectionIndex, key: ConnectionId, at: usize)
    ensures
        connection_places(*final(index)) == connection_places(*old(index)).insert(key, at),
{
    index.map.insert(key, at);
}

/// `HashMap::remove`: the place that was held for the handle, if one was; the
/// map then holds none for it, and for every other handle what it held.
#[verifier::external_body]
fn connection_index_remove(index: &mut ConnectionIndex, key: &ConnectionId) -> (at: Option<usize>)
    ensures
        connection_places(*final(index)) == connection_places(*old(index)).remove(*key),
        at == (if connection_places(*old(index)).contains_key(*key) {
            Some(connection_places(*old(index))[*key])
        } else {
            None
        }),
{
    index.map.remove(key)
}

/// `HashMap::with_capacity_and_hasher`: the new map is empty.
#[verifier::external_body]
fn substream_index_new() -> (index: SubstreamIndex)
    ensures
        substream_places(index) == no_places::<SubstreamId>(),
{
    SubstreamIndex { map: hashbrown::HashMap::with_capacity_and_hasher(8, Default::default()) }
}

/// `HashMap::get`: the place held for the handle, if one is.
#[verifier::external_body]
fn substream_index_get(index: &SubstreamIndex, key: &SubstreamId) -> (at: Option<usize>)
    ensures
        at == (if substream_places(*index).contains_key(*key) {
            Some(substream_places(*index)[*key])
        } else {
            None
        }),
{
    index.map.get(key).copied()
}

/// `HashMap::insert`: the map then holds the place for the handle, and for
/// every other handle what it held.
#[verifier::external_body]
fn substream_index_insert(index: &mut SubstreamIndex, key: SubstreamId, at: usize)
    ensures
        substream_places(*final(index)) == substream_places(*old(index)).insert(key, at),
{
    index.map.insert(key, at);
}

/// `HashMap::remove`: the place that was held for the handle, if one was; the
/// map then holds none for it, and for every other handle what it held.
#[verifier::external_body]
fn substream_index_remove(index: &mut SubstreamIndex, key: &SubstreamId) -> (at: Option<usize>)
    ensures
        substream_places(*final(index)) == substream_places(*old(index)).remove(*key),
        at == (if substream_places(*old(index)).contains_key(*key) {
            Some(substream_places(*old(index))[*key])
        } else {
            None
        }),
{
    index.map.remove(key)
}

/// A handle that can serve as the key of a table: it comes with an index
/// from handles to places.
pub trait Key: Sized {
    /// The index from handles to places.
    type Index;

    /// The place that `index` holds for each handle.
    spec fn places(index: &Self::Index) -> Map<Self, usize>;

    /// An index that holds no place.
    fn new_index() -> (index: Self::Index)
        ensures
            Self::places(&index) == Map::<Self, usize>::empty(),
    ;

    /// The place that `index` holds for `key`, if it holds one.
    fn find(index: &Self::Index, key: &Self) -> (at: Option<usize>)
        ensures
            at == (if Self::places(index).contains_key(*key) {
                Some(Self::places(index)[*key])
            } else {
                None
            }),
    ;

    /// Lets `index` hold `at` for `key`.
    fn put(index: &mut Self::Index, key: Self, at: usize)
        ensures
            Self::places(final(index)) == Self::places(old(index)).insert(key, at),
    ;

    /// Lets `index` hold no place for `key`, and returns the one that it held.
    fn take(index: &mut Self::Index, key: &Self) -> (at: Option<usize>)
        ensures
            Self::places(final(index)) == Self::places(old(index)).remove(*key),
            at == (if Self::places(old(index)).contains_key(*key) {
                Some(Self::places(old(index))[*key])
            } else {
                None
            }),
    ;

    /// A second copy of the handle.
    fn duplicate(&self) -> (copy: Self)
        ensures
            copy == *self,
    ;
}

impl Key for ConnectionId {
    type Index = ConnectionIndex;

    open spec fn places(index: &ConnectionIndex) -> Map<ConnectionId, usize> {
        connection_places(*index)
    }

    fn new_index() -> (index: ConnectionIndex) {
        connection_index_new()
    }

    fn find(index: &ConnectionIndex, key: &ConnectionId) -> (at: Option<usize>) {
        connection_index_get(index, key)
    }

    fn put(index: &mut ConnectionIndex, key: ConnectionId, at: usize) {
        connection_index_insert(index, key, at)
    }

    fn take(index: &mut ConnectionIndex, key: &ConnectionId) -> (at: Option<usize>) {
        connection_index_remove(index, key)
    }

    fn duplicate(&self) -> (copy: Self) {
        *self
    }
}

impl Key for SubstreamId {
    type Index = SubstreamIndex;

    open spec fn places(index: &SubstreamIndex) -> Map<SubstreamId, usize> {
        substream_places(*index)
    }

    fn new_index() -> (index: SubstreamIndex) {
        substream_index_new()
    }

    fn find(index: &SubstreamIndex, key: &SubstreamId) -> (at: Option<usize>) {
        substream_index_get(index, key)
    }

    fn put(index: &mut SubstreamIndex, key: SubstreamId, at: usize) {
        substream_index_insert(index, key, at)
    }

    fn take(index: &mut SubstreamIndex, key: &SubstreamId) -> (at: Option<usize>) {
        substream_index_remove(index, key)
    }

    fn duplicate(&self) -> (copy: Self) {
        *self
    }
}

} // verus!
