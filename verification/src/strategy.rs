//! The peering strategy of `smoldot`, which keeps the address book, and what this
//! library takes for granted about it. Nothing in this file is proved: each
//! contract restates what the source of `smoldot::network::basic_peering_strategy`
//! shows.
//!
//! Chains stand by their index and clock readings by a count of milliseconds.
//! The strategy picks at random where it has a choice; the contracts then say
//! what holds whichever way the choice falls. Identities and addresses go in
//! and come out as bytes.

use vstd::prelude::*;
use smoldot::network::basic_peering_strategy as bps;
use smoldot::network::basic_peering_strategy::BasicPeeringStrategy;
use crate::book_model::{
    addr_to_connected_outcome, ban_outcome, disconnect_addr_outcome, insert_address_outcome,
    option_view, remove_address_outcome, remove_chain_peer_outcome, strategy_insertion_outcome,
    strategy_pick_outcome, BookModel, DisconnectAddrError, InsertAddressResult, Standing,
    StrategyInsertion, StrategyPick,
};
use crate::identity::is_peer_id;

verus! {

#[verifier::external_type_specification]
#[verifier::external_body]
#[verifier::reject_recursive_types(TChainId)]
#[verifier::reject_recursive_types(TInstant)]
pub struct ExBasicPeeringStrategy<TChainId, TInstant>(BasicPeeringStrategy<TChainId, TInstant>);

/// The peers that the strategy holds for each chain, each with its state:
/// assignable, banned until some clock reading, or holding a slot.
pub uninterp spec fn strategy_standings(strategy: BasicPeeringStrategy<usize, u64>) -> Map<
    (usize, Seq<u8>),
    Standing,
>;

/// The addresses that the strategy holds for each peer, each with `true` if it
/// is in the connected state.
pub uninterp spec fn strategy_addresses(strategy: BasicPeeringStrategy<usize, u64>) -> Map<
    (Seq<u8>, Seq<u8>),
    bool,
>;

/// The peers that the strategy has in its list of peers.
pub uninterp spec fn strategy_peers(strategy: BasicPeeringStrategy<usize, u64>) -> Set<Seq<u8>>;

/// Both names together.
pub open spec fn strategy_model(strategy: BasicPeeringStrategy<usize, u64>) -> BookModel {
    BookModel {
        standings: strategy_standings(strategy),
        addresses: strategy_addresses(strategy),
        peers: strategy_peers(strategy),
    }
}

/// `BasicPeeringStrategy::new`: the new strategy holds no peer and no address.
#[verifier::external_body]
pub(crate) fn strategy_new(
    randomness_seed: [u8; 32],
    peers_capacity: usize,
    chains_capacity: usize,
) -> (created: BasicPeeringStrategy<usize, u64>)
    ensures
        strategy_standings(created) == BookModel::empty().standings,
        strategy_addresses(created) == BookModel::empty().addresses,
        strategy_peers(created) == BookModel::empty().peers,
{
    BasicPeeringStrategy::new(bps::Config { randomness_seed, peers_capacity, chains_capacity })
}

/// `BasicPeeringStrategy::insert_chain_peer`: a peer already on the chain changes
/// nothing; a new one enters as assignable, and if the chain held
/// `max_peers_per_chain` peers or more before, one of its peers without a slot,
/// if there is one, is removed, together with its addresses if nothing else
/// keeps it.
#[verifier::external_body]
pub(crate) fn strategy_insert_chain_peer(
    strategy: &mut BasicPeeringStrategy<usize, u64>,
    chain: usize,
    peer: &Vec<u8>,
    max_peers_per_chain: usize,
) -> (result: StrategyInsertion)
    requires
        is_peer_id(peer@),
    ensures
        strategy_insertion_outcome(
            strategy_model(*old(strategy)),
            chain,
            peer@,
            max_peers_per_chain,
            result@,
            strategy_model(*final(strategy)),
        ),
{
    let id = smoldot::libp2p::PeerId::from_bytes(peer.clone()).unwrap();
    match strategy.insert_chain_peer(chain, id, max_peers_per_chain) {
        bps::InsertChainPeerResult::Inserted { peer_removed } => StrategyInsertion::Inserted {
            peer_removed: peer_removed.map(|p| p.into_bytes()),
        },
        bps::InsertChainPeerResult::Duplicate => StrategyInsertion::Duplicate,
    }
}

/// `BasicPeeringStrategy::unassign_slot_and_remove_chain_peer`: the peer leaves
/// the chain, and loses its addresses if nothing else keeps it.
#[verifier::external_body]
pub(crate) fn strategy_remove_chain_peer(
    strategy: &mut BasicPeeringStrategy<usize, u64>,
    chain: usize,
    peer: &Vec<u8>,
)
    requires
        is_peer_id(peer@),
    ensures
        strategy_model(*final(strategy)) == remove_chain_peer_outcome(
            strategy_model(*old(strategy)),
            chain,
            peer@,
        ),
{
    let id = smoldot::libp2p::PeerId::from_bytes(peer.clone()).unwrap();
    strategy.unassign_slot_and_remove_chain_peer(&chain, &id)
}

/// `BasicPeeringStrategy::chain_peers_unordered`: every peer of the chain once,
/// in an order that is not determined.
#[verifier::external_body]
pub(crate) fn strategy_chain_peers(strategy: &BasicPeeringStrategy<usize, u64>, chain: usize) -> (peers:
    Vec<Vec<u8>>)
    ensures
        forall|i: int| 0 <= i < peers.len() ==> strategy_standings(*strategy).contains_key(
            (chain, #[trigger] peers[i]@),
        ),
        forall|peer: Seq<u8>| #[trigger]
            strategy_standings(*strategy).contains_key((chain, peer)) ==> exists|i: int|
                0 <= i < peers.len() && #[trigger] peers[i]@ == peer,
        forall|i: int, j: int| 0 <= i < j < peers.len() ==> peers[i]@ != peers[j]@,
{
    strategy.chain_peers_unordered(&chain).map(|p| p.as_bytes().to_vec()).collect()
}

/// `BasicPeeringStrategy::insert_address`: nothing is recorded for a peer that
/// the strategy does not keep; an address already recorded stays as it is; a
/// new one is recorded as not connected, and if the peer then has
/// `max_addresses` or more, another of its addresses that is not connected, if
/// there is one, is removed.
///
/// The strategy counts and picks over a range of keys that ends at, and
/// includes, the empty address of the peer that stands next in its list of
/// peers. So the limit can be reached one address early, and that empty
/// address can be picked: it is then handed back, and what is removed is the
/// empty address of the peer itself, whatever its state, if it has one.
#[verifier::external_body]
pub(crate) fn strategy_insert_address(
    strategy: &mut BasicPeeringStrategy<usize, u64>,
    peer: &Vec<u8>,
    address: Vec<u8>,
    max_addresses: usize,
) -> (result: InsertAddressResult)
    requires
        is_peer_id(peer@),
    ensures
        insert_address_outcome(
            strategy_model(*old(strategy)),
            peer@,
            address@,
            max_addresses,
            false,
            result,
            strategy_model(*final(strategy)),
        ),
{
    let id = smoldot::libp2p::PeerId::from_bytes(peer.clone()).unwrap();
    match strategy.insert_address(&id, address, max_addresses) {
        bps::InsertAddressResult::Inserted { address_removed } => {
            InsertAddressResult::Inserted { address_removed }
        },
        bps::InsertAddressResult::Duplicate => InsertAddressResult::Duplicate,
        bps::InsertAddressResult::UnknownPeer => InsertAddressResult::UnknownPeer,
    }
}

/// `BasicPeeringStrategy::insert_or_set_connected_address`: as
/// `insert_address`, but a new address is recorded as connected, and one already
/// recorded becomes connected.
#[verifier::external_body]
pub(crate) fn strategy_insert_or_set_connected_address(
    strategy: &mut BasicPeeringStrategy<usize, u64>,
    peer: &Vec<u8>,
    address: Vec<u8>,
    max_addresses: usize,
) -> (result: InsertAddressResult)
    requires
        is_peer_id(peer@),
    ensures
        insert_address_outcome(
            strategy_model(*old(strategy)),
            peer@,
            address@,
            max_addresses,
            true,
            result,
            strategy_model(*final(strategy)),
        ),
{
    let id = smoldot::libp2p::PeerId::from_bytes(peer.clone()).unwrap();
    match strategy.insert_or_set_connected_address(&id, address, max_addresses) {
        bps::InsertAddressResult::Inserted { address_removed } => {
            InsertAddressResult::Inserted { address_removed }
        },
        bps::InsertAddressResult::Duplicate => InsertAddressResult::Duplicate,
        bps::InsertAddressResult::UnknownPeer => InsertAddressResult::UnknownPeer,
    }
}

/// `BasicPeeringStrategy::remove_address`: returns whether the address was
/// recorded; if so it is removed, and the peer loses its other addresses too if
/// nothing else keeps it.
#[verifier::external_body]
pub(crate) fn strategy_remove_address(
    strategy: &mut BasicPeeringStrategy<usize, u64>,
    peer: &Vec<u8>,
    address: &Vec<u8>,
) -> (was_present: bool)
    requires
        is_peer_id(peer@),
    ensures
        was_present == strategy_addresses(*old(strategy)).contains_key((peer@, address@)),
        strategy_model(*final(strategy)) == remove_address_outcome(
            strategy_model(*old(strategy)),
            peer@,
            address@,
        ),
{
    let id = smoldot::libp2p::PeerId::from_bytes(peer.clone()).unwrap();
    strategy.remove_address(&id, address)
}

/// `BasicPeeringStrategy::peer_addresses`: every address recorded for the peer
/// once.
#[verifier::external_body]
pub(crate) fn strategy_peer_addresses(strategy: &BasicPeeringStrategy<usize, u64>, peer: &Vec<u8>) -> (addresses:
    Vec<Vec<u8>>)
    requires
        is_peer_id(peer@),
    ensures
        forall|i: int| 0 <= i < addresses.len() ==> strategy_addresses(*strategy).contains_key(
            (peer@, #[trigger] addresses[i]@),
        ),
        forall|address: Seq<u8>| #[trigger]
            strategy_addresses(*strategy).contains_key((peer@, address)) ==> exists|i: int|
                0 <= i < addresses.len() && #[trigger] addresses[i]@ == address,
        forall|i: int, j: int| 0 <= i < j < addresses.len() ==> addresses[i]@ != addresses[j]@,
{
    let id = smoldot::libp2p::PeerId::from_bytes(peer.clone()).unwrap();
    strategy.peer_addresses(&id).map(|a| a.to_vec()).collect()
}

/// `BasicPeeringStrategy::pick_assignable_peer`: one of the chain's peers that are
/// assignable or whose ban ended at `now` or before, if there is one; else the
/// earliest end of a ban, if a peer is banned; else nothing. What the strategy
/// holds does not change.
#[verifier::external_body]
pub(crate) fn strategy_pick_assignable_peer(
    strategy: &mut BasicPeeringStrategy<usize, u64>,
    chain: usize,
    now: u64,
) -> (result: StrategyPick)
    ensures
        strategy_pick_outcome(strategy_model(*old(strategy)), chain, now, result@),
        strategy_model(*final(strategy)) == strategy_model(*old(strategy)),
{
    match strategy.pick_assignable_peer(&chain, &now) {
        bps::AssignablePeer::Assignable(p) => StrategyPick::Assignable(p.as_bytes().to_vec()),
        bps::AssignablePeer::AllPeersBanned { next_unban } => {
            StrategyPick::AllPeersBanned { next_unban: *next_unban }
        },
        bps::AssignablePeer::NoPeer => StrategyPick::NoPeer,
    }
}

/// `BasicPeeringStrategy::assign_slot`: the peer holds a slot on the chain,
/// whatever its state was, and belongs to the chain if it did not.
#[verifier::external_body]
pub(crate) fn strategy_assign_slot(
    strategy: &mut BasicPeeringStrategy<usize, u64>,
    chain: usize,
    peer: &Vec<u8>,
)
    requires
        is_peer_id(peer@),
    ensures
        strategy_model(*final(strategy)) == strategy_model(*old(strategy)).with_standing(
            chain,
            peer@,
            Standing::Slot,
        ),
{
    let id = smoldot::libp2p::PeerId::from_bytes(peer.clone()).unwrap();
    strategy.assign_slot(&chain, &id)
}

/// `BasicPeeringStrategy::unassign_slot_and_ban`: a peer of the chain becomes
/// banned until `when_unban`, unless it is banned until then or later already.
#[verifier::external_body]
pub(crate) fn strategy_unassign_slot_and_ban(
    strategy: &mut BasicPeeringStrategy<usize, u64>,
    chain: usize,
    peer: &Vec<u8>,
    when_unban: u64,
)
    requires
        is_peer_id(peer@),
    ensures
        strategy_model(*final(strategy)) == ban_outcome(
            strategy_model(*old(strategy)),
            chain,
            peer@,
            when_unban,
        ),
{
    let id = smoldot::libp2p::PeerId::from_bytes(peer.clone()).unwrap();
    strategy.unassign_slot_and_ban(&chain, &id, when_unban)
}

/// `BasicPeeringStrategy::unassign_slots_and_ban`: the same on every chain that
/// the peer belongs to.
#[verifier::external_body]
pub(crate) fn strategy_unassign_slots_and_ban(
    strategy: &mut BasicPeeringStrategy<usize, u64>,
    peer: &Vec<u8>,
    when_unban: u64,
)
    requires
        is_peer_id(peer@),
    ensures
        strategy_model(*final(strategy)) == strategy_model(*old(strategy)).with_bans(
            peer@,
            when_unban,
        ),
{
    let id = smoldot::libp2p::PeerId::from_bytes(peer.clone()).unwrap();
    strategy.unassign_slots_and_ban(&id, when_unban)
}

/// `BasicPeeringStrategy::addr_to_connected`: one of the peer's addresses that
/// are not connected, if there is one; it becomes connected.
#[verifier::external_body]
pub(crate) fn strategy_addr_to_connected(
    strategy: &mut BasicPeeringStrategy<usize, u64>,
    peer: &Vec<u8>,
) -> (result: Option<Vec<u8>>)
    requires
        is_peer_id(peer@),
    ensures
        addr_to_connected_outcome(
            strategy_model(*old(strategy)),
            peer@,
            option_view(result),
            strategy_model(*final(strategy)),
        ),
{
    let id = smoldot::libp2p::PeerId::from_bytes(peer.clone()).unwrap();
    strategy.addr_to_connected(&id).map(|a| a.to_vec())
}

/// `BasicPeeringStrategy::disconnect_addr`: an address in the connected state
/// leaves it, and the peer loses its addresses if nothing keeps it any more; an
/// address that is not recorded, or not connected, is an error and changes
/// nothing.
#[verifier::external_body]
pub(crate) fn strategy_disconnect_addr(
    strategy: &mut BasicPeeringStrategy<usize, u64>,
    peer: &Vec<u8>,
    address: &Vec<u8>,
) -> (result: Result<(), DisconnectAddrError>)
    requires
        is_peer_id(peer@),
    ensures
        disconnect_addr_outcome(
            strategy_model(*old(strategy)),
            peer@,
            address@,
            result,
            strategy_model(*final(strategy)),
        ),
{
    let id = smoldot::libp2p::PeerId::from_bytes(peer.clone()).unwrap();
    match strategy.disconnect_addr(&id, address) {
        Ok(()) => Ok(()),
        Err(bps::DisconnectAddrError::UnknownAddress) => Err(DisconnectAddrError::UnknownAddress),
        Err(bps::DisconnectAddrError::NotConnected) => Err(DisconnectAddrError::NotConnected),
    }
}

} // verus!
