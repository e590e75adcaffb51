//! The address book: which peers belong to which chain, where each stands
//! (assignable, banned, holding a slot), and through which addresses each can
//! be reached.

use vstd::prelude::*;
use smoldot::network::basic_peering_strategy::BasicPeeringStrategy;
use crate::book_model::{
    addr_to_connected_outcome, all_hold_slots, ban_outcome, disconnect_addr_outcome,
    insert_address_outcome, insert_chain_peer_outcome, option_view, pick_assignable_outcome,
    remove_address_outcome, remove_chain_peer_outcome, set_aside, strategy_pick_outcome,
    AssignablePeer, BookModel,
    DisconnectAddrError, InsertAddressResult, InsertChainPeerResult, Standing, StrategyInsertion,
    StrategyPick,
};
use crate::book_proofs::{
    lemma_addr_to_connected_wf, lemma_ban_wf, lemma_disconnect_addr_wf, lemma_insert_address_wf,
    lemma_forget_unused_wf, lemma_remove_address_wf, lemma_remove_chain_peer_wf,
    lemma_strategy_insertion_wf,
    lemma_with_bans_wf, lemma_with_standing_wf,
};
use crate::identity::{copy_bytes, is_address, is_peer_id, Multiaddr, PeerId};
use crate::schedule::NO_ADDRESS_BAN_MS;
use crate::strategy::{
    strategy_addr_to_connected, strategy_assign_slot, strategy_chain_peers,
    strategy_disconnect_addr, strategy_insert_address, strategy_insert_chain_peer,
    strategy_insert_or_set_connected_address, strategy_model, strategy_new,
    strategy_peer_addresses, strategy_pick_assignable_peer, strategy_remove_address,
    strategy_remove_chain_peer, strategy_unassign_slot_and_ban, strategy_unassign_slots_and_ban,
};

verus! {

/// The address book. Chains stand by their index, clock readings by a count
/// of milliseconds.
pub struct AddressBook {
    strategy: BasicPeeringStrategy<usize, u64>,
}

impl View for AddressBook {
    type V = BookModel;

    closed spec fn view(&self) -> BookModel {
        strategy_model(self.strategy)
    }
}

/// The peers of `chain` that are free when the clock reads `now`, each with
/// the chain.
pub open spec fn free_peers(book: BookModel, chain: usize, now: u64) -> Set<(usize, Seq<u8>)> {
    Set::new(
        |key: (usize, Seq<u8>)|
            book.standings.contains_key(key) && key.0 == chain && book.standings[key].free_at(now),
    )
}

/// Setting a free peer aside leaves one free peer less on its chain.
proof fn lemma_one_free_peer_less(book: BookModel, chain: usize, now: u64, peer: Seq<u8>)
    requires
        book.wf(),
        book.on_chain(chain, peer),
        book.standings[(chain, peer)].free_at(now),
        now + NO_ADDRESS_BAN_MS <= u64::MAX,
    ensures
        free_peers(book, chain, now).finite(),
        free_peers(
            ban_outcome(book, chain, peer, (now + NO_ADDRESS_BAN_MS) as u64),
            chain,
            now,
        ).len() < free_peers(book, chain, now).len(),
{
    let before = free_peers(book, chain, now);
    let after = free_peers(
        ban_outcome(book, chain, peer, (now + NO_ADDRESS_BAN_MS) as u64),
        chain,
        now,
    );
    vstd::set_lib::lemma_len_subset(before, book.standings.dom());
    assert(before.contains((chain, peer)));
    assert(after =~= before.remove((chain, peer)));
}

/// A book from which peers were set aside stays what it is when one more
/// free peer without address is set aside on the same chain.
proof fn lemma_set_aside_once_more(
    pre: BookModel,
    mid: BookModel,
    chain: usize,
    now: u64,
    peer: Seq<u8>,
)
    requires
        set_aside(pre, set![chain], now, mid),
        mid.on_chain(chain, peer),
        mid.standings[(chain, peer)].free_at(now),
        !mid.has_some_address(peer),
        now + NO_ADDRESS_BAN_MS <= u64::MAX,
    ensures
        set_aside(
            pre,
            set![chain],
            now,
            ban_outcome(mid, chain, peer, (now + NO_ADDRESS_BAN_MS) as u64),
        ),
{
    let post = ban_outcome(mid, chain, peer, (now + NO_ADDRESS_BAN_MS) as u64);
    assert(pre.standings.contains_key((chain, peer)));
    assert forall|key: (usize, Seq<u8>)| #[trigger]
        pre.standings.contains_key(key) implies post.standings[key] == pre.standings[key] || (
    set![chain].contains(key.0) && pre.standings[key].free_at(now) && !pre.has_some_address(key.1)
        && post.standings[key] == (Standing::Banned {
        expires: (now + NO_ADDRESS_BAN_MS) as u64,
    })) by {
        if key == (chain, peer) {
            assert(mid.standings[key] == pre.standings[key]);
            if pre.has_some_address(peer) {
                let a = choose|a: Seq<u8>| #[trigger] pre.has_address(peer, a);
                assert(mid.has_address(peer, a));
            }
        }
    }
}

/// Inserting a peer into a chain and taking it off again leaves a
/// well-formed book as it was, but that the peer was looked at and is dropped
/// if nothing keeps it.
proof fn lemma_insertion_undone(pre: BookModel, chain: usize, peer: Seq<u8>)
    requires
        pre.wf(),
        !pre.on_chain(chain, peer),
    ensures
        remove_chain_peer_outcome(
            pre.with_standing(chain, peer, Standing::Assignable),
            chain,
            peer,
        ) == pre.forget_unused(peer),
{
    let entered = pre.with_standing(chain, peer, Standing::Assignable);
    let left = entered.without_standing(chain, peer);
    assert(left.standings =~= pre.standings);
    assert(left.has_chain(peer) == pre.has_chain(peer)) by {
        if left.has_chain(peer) {
            let c = choose|c: usize| #[trigger] left.on_chain(c, peer);
            assert(pre.on_chain(c, peer));
        }
        if pre.has_chain(peer) {
            let c = choose|c: usize| #[trigger] pre.on_chain(c, peer);
            assert(left.on_chain(c, peer));
        }
    }
    assert(left.has_connected(peer) == pre.has_connected(peer)) by {
        if left.has_connected(peer) {
            let a = choose|a: Seq<u8>| #[trigger]
                left.has_address(peer, a) && left.addresses[(peer, a)];
            assert(pre.has_address(peer, a) && pre.addresses[(peer, a)]);
        }
        if pre.has_connected(peer) {
            let a = choose|a: Seq<u8>| #[trigger]
                pre.has_address(peer, a) && pre.addresses[(peer, a)];
            assert(left.has_address(peer, a) && left.addresses[(peer, a)]);
        }
    }
    if pre.in_use(peer) {
        if pre.has_chain(peer) {
            let c = choose|c: usize| #[trigger] pre.on_chain(c, peer);
            assert(pre.knows(peer));
        } else {
            let a = choose|a: Seq<u8>| #[trigger]
                pre.has_address(peer, a) && pre.addresses[(peer, a)];
            assert(pre.knows(peer));
        }
        assert(left.peers =~= pre.peers);
    } else {
        assert(left.forget_unused(peer).peers =~= pre.forget_unused(peer).peers);
    }
}

impl AddressBook {
    /// Whether the book is well formed. Every book that `new` returns is, and
    /// every operation keeps it so.
    pub open spec fn wf(&self) -> bool {
        self@.wf()
    }

    /// An empty book. The seed feeds the choices that the book makes where it
    /// has one; the capacities only reserve memory.
    pub fn new(randomness_seed: [u8; 32], peers_capacity: usize, chains_capacity: usize) -> (book:
        AddressBook)
        ensures
            book@ == BookModel::empty(),
            book.wf(),
    {
        let strategy = strategy_new(randomness_seed, peers_capacity, chains_capacity);
        assert(strategy_model(strategy).standings.dom() =~= Set::empty());
        AddressBook { strategy }
    }

    /// Records that `peer` belongs to `chain`, which may hold `max_peers_per_chain`
    /// peers. Where the chain is full and every one of its peers holds a slot,
    /// the peer does not enter. See `insert_chain_peer_outcome`.
    pub fn insert_chain_peer(&mut self, chain: usize, peer: &PeerId, max_peers_per_chain: usize) -> (result:
        InsertChainPeerResult)
        requires
            old(self).wf(),
        ensures
            insert_chain_peer_outcome(
                old(self)@,
                chain,
                peer@,
                max_peers_per_chain,
                result@,
                final(self)@,
            ),
            final(self).wf(),
            !(result is Full) ==> final(self)@.on_chain(chain, peer@),
    {
        let ghost pre = self@;
        let raw = strategy_insert_chain_peer(
            &mut self.strategy,
            chain,
            peer.as_bytes(),
            max_peers_per_chain,
        );
        proof {
            lemma_strategy_insertion_wf(pre, chain, peer@, max_peers_per_chain, raw@, self@);
        }
        match raw {
            StrategyInsertion::Duplicate => InsertChainPeerResult::Duplicate,
            StrategyInsertion::Inserted { peer_removed: Some(bytes) } => {
                match PeerId::from_bytes(bytes) {
                    Ok(removed) => InsertChainPeerResult::Inserted { peer_removed: Some(removed) },
                    Err(_) => {
                        assert(false);
                        InsertChainPeerResult::Duplicate
                    },
                }
            },
            StrategyInsertion::Inserted { peer_removed: None } => {
                // The strategy lets a peer into a full chain where it finds
                // none to remove. The members are counted to see whether it did.
                let members = strategy_chain_peers(&self.strategy, chain);
                proof {
                    let listed = members@.map_values(|bytes: Vec<u8>| bytes@);
                    assert forall|i: int, j: int|
                        0 <= i < listed.len() && 0 <= j < listed.len() && i != j implies listed[i]
                        != listed[j] by {
                        if i < j {
                            assert(members[i]@ != members[j]@);
                        } else {
                            assert(members[j]@ != members[i]@);
                        }
                    }
                    listed.unique_seq_to_set();
                    assert forall|other: Seq<u8>|
                        listed.to_set().contains(other) == self@.chain_peers(chain).contains(
                            other,
                        ) by {
                        if listed.to_set().contains(other) {
                            let k = choose|k: int| 0 <= k < listed.len() && listed[k] == other;
                            assert(self@.on_chain(chain, members[k]@));
                        }
                        if self@.on_chain(chain, other) {
                            let k = choose|k: int|
                                0 <= k < members.len() && #[trigger] members[k]@ == other;
                            assert(listed[k] == other);
                        }
                    }
                    assert(listed.to_set() =~= self@.chain_peers(chain));
                    assert(pre.chain_peers(chain) =~= self@.chain_peers(chain).remove(peer@));
                    assert(self@.chain_peers(chain).contains(peer@));
                    assert(pre.chain_peers(chain).len() + 1 == members.len());
                }
                if members.len() > max_peers_per_chain {
                    strategy_remove_chain_peer(&mut self.strategy, chain, peer.as_bytes());
                    proof {
                        lemma_forget_unused_wf(pre, peer@);
                        lemma_insertion_undone(pre, chain, peer@);
                    }
                    InsertChainPeerResult::Full
                } else {
                    InsertChainPeerResult::Inserted { peer_removed: None }
                }
            },
        }
    }

    /// Takes `peer` off `chain`, with its slot or ban. If nothing else keeps
    /// the peer, its addresses go too.
    pub fn unassign_slot_and_remove_chain_peer(&mut self, chain: usize, peer: &PeerId)
        requires
            old(self).wf(),
        ensures
            final(self)@ == remove_chain_peer_outcome(old(self)@, chain, peer@),
            final(self).wf(),
            !final(self)@.on_chain(chain, peer@),
    {
        proof {
            lemma_remove_chain_peer_wf(self@, chain, peer@);
        }
        strategy_remove_chain_peer(&mut self.strategy, chain, peer.as_bytes());
    }

    /// The peers that belong to `chain`, each once, in no particular order.
    pub fn chain_peers_unordered(&self, chain: usize) -> (peers: Vec<PeerId>)
        requires
            self.wf(),
        ensures
            forall|i: int| 0 <= i < peers.len() ==> self@.on_chain(chain, #[trigger] peers[i]@),
            forall|peer: Seq<u8>| #[trigger]
                self@.on_chain(chain, peer) ==> exists|i: int|
                    0 <= i < peers.len() && #[trigger] peers[i]@ == peer,
            forall|i: int, j: int| 0 <= i < j < peers.len() ==> peers[i]@ != peers[j]@,
    {
        let mut raw = strategy_chain_peers(&self.strategy, chain);
        let ghost listed = raw@.map_values(|bytes: Vec<u8>| bytes@);
        let mut peers: Vec<PeerId> = Vec::new();
        let total = raw.len();
        let mut i: usize = total;
        proof {
            assert forall|peer: Seq<u8>| #[trigger] self@.on_chain(chain, peer) implies exists|
                j: int,
            |
                0 <= j < total && #[trigger] listed[j] == peer by {
                let j = choose|j: int| 0 <= j < raw.len() && #[trigger] raw[j]@ == peer;
                assert(listed[j] == peer);
            }
            assert forall|a: int, b: int| 0 <= a < b < total implies listed[a] != listed[b] by {
                assert(raw[a]@ != raw[b]@);
            }
        }
        // The raw list is taken apart from its end, so that nothing is copied.
        while i > 0
            invariant
                i <= total,
                raw.len() == i,
                listed.len() == total,
                forall|k: int| 0 <= k < i ==> raw[k]@ == listed[k],
                peers.len() == total - i,
                forall|k: int|
                    0 <= k < peers.len() ==> (#[trigger] peers[k])@ == listed[total - 1 - k],
                forall|k: int| 0 <= k < total ==> self@.on_chain(chain, #[trigger] listed[k]),
                self@.wf(),
            decreases i,
        {
            let bytes = raw.pop().unwrap();
            i -= 1;
            assert(self@.on_chain(chain, listed[i as int]));
            match PeerId::from_bytes(bytes) {
                Ok(peer) => {
                    peers.push(peer);
                },
                Err(_) => {
                    assert(false);
                },
            }
        }
        proof {
            assert forall|peer: Seq<u8>| #[trigger] self@.on_chain(chain, peer) implies exists|
                k: int,
            |
                0 <= k < peers.len() && #[trigger] peers[k]@ == peer by {
                let j = choose|j: int| 0 <= j < total && #[trigger] listed[j] == peer;
                assert(peers[total - 1 - j]@ == listed[j]);
            }
            assert forall|a: int, b: int| 0 <= a < b < peers.len() implies peers[a]@
                != peers[b]@ by {
                assert(listed[total - 1 - b] != listed[total - 1 - a]);
            }
        }
        peers
    }

    /// Records `address` for `peer`, who may have `max_addresses` addresses, as
    /// not connected. See `insert_address_outcome`.
    pub fn insert_address(&mut self, peer: &PeerId, address: &Multiaddr, max_addresses: usize) -> (result:
        InsertAddressResult)
        requires
            old(self).wf(),
        ensures
            insert_address_outcome(
                old(self)@,
                peer@,
                address@,
                max_addresses,
                false,
                result,
                final(self)@,
            ),
            final(self).wf(),
    {
        let ghost pre = self@;
        let bytes = copy_bytes(address.as_bytes());
        let result = strategy_insert_address(
            &mut self.strategy,
            peer.as_bytes(),
            bytes,
            max_addresses,
        );
        proof {
            lemma_insert_address_wf(pre, peer@, address@, max_addresses, false, result, self@);
        }
        result
    }

    /// Records `address` for `peer` as connected, also where it was recorded
    /// already. See `insert_address_outcome`.
    pub fn insert_or_set_connected_address(
        &mut self,
        peer: &PeerId,
        address: &Multiaddr,
        max_addresses: usize,
    ) -> (result: InsertAddressResult)
        requires
            old(self).wf(),
        ensures
            insert_address_outcome(
                old(self)@,
                peer@,
                address@,
                max_addresses,
                true,
                result,
                final(self)@,
            ),
            final(self).wf(),
    {
        let ghost pre = self@;
        let bytes = copy_bytes(address.as_bytes());
        let result = strategy_insert_or_set_connected_address(
            &mut self.strategy,
            peer.as_bytes(),
            bytes,
            max_addresses,
        );
        proof {
            lemma_insert_address_wf(pre, peer@, address@, max_addresses, true, result, self@);
        }
        result
    }

    /// Removes `address` from `peer` and returns whether it was recorded. If
    /// nothing keeps the peer any more, its other addresses go too.
    pub fn remove_address(&mut self, peer: &PeerId, address: &Vec<u8>) -> (was_present: bool)
        requires
            old(self).wf(),
        ensures
            was_present == old(self)@.has_address(peer@, address@),
            final(self)@ == remove_address_outcome(old(self)@, peer@, address@),
            final(self).wf(),
            !final(self)@.has_address(peer@, address@),
    {
        proof {
            lemma_remove_address_wf(self@, peer@, address@);
        }
        strategy_remove_address(&mut self.strategy, peer.as_bytes(), address)
    }

    /// The addresses recorded for `peer`, each once.
    pub fn peer_addresses(&self, peer: &PeerId) -> (addresses: Vec<Multiaddr>)
        requires
            self.wf(),
        ensures
            forall|i: int|
                0 <= i < addresses.len() ==> self@.has_address(peer@, #[trigger] addresses[i]@),
            forall|address: Seq<u8>| #[trigger]
                self@.has_address(peer@, address) ==> exists|i: int|
                    0 <= i < addresses.len() && #[trigger] addresses[i]@ == address,
            forall|i: int, j: int| 0 <= i < j < addresses.len() ==> addresses[i]@ != addresses[j]@,
    {
        let mut raw = strategy_peer_addresses(&self.strategy, peer.as_bytes());
        let ghost listed = raw@.map_values(|a: Vec<u8>| a@);
        let mut addresses: Vec<Multiaddr> = Vec::new();
        let total = raw.len();
        let mut i: usize = total;
        proof {
            assert forall|address: Seq<u8>| #[trigger]
                self@.has_address(peer@, address) implies exists|j: int|
                0 <= j < total && #[trigger] listed[j] == address by {
                let j = choose|j: int| 0 <= j < raw.len() && #[trigger] raw[j]@ == address;
                assert(listed[j] == address);
            }
            assert forall|a: int, b: int| 0 <= a < b < total implies listed[a] != listed[b] by {}
        }
        // The raw list is taken apart from its end, so that nothing is copied.
        while i > 0
            invariant
                i <= total,
                raw.len() == i,
                listed.len() == total,
                forall|k: int| 0 <= k < i ==> raw[k]@ == listed[k],
                addresses.len() == total - i,
                forall|k: int|
                    0 <= k < addresses.len() ==> (#[trigger] addresses[k])@ == listed[total - 1
                        - k],
                forall|k: int| 0 <= k < total ==> self@.has_address(peer@, #[trigger] listed[k]),
                self@.wf(),
            decreases i,
        {
            let bytes = raw.pop().unwrap();
            i -= 1;
            assert(self@.has_address(peer@, listed[i as int]));
            match Multiaddr::from_bytes(bytes) {
                Ok(address) => {
                    addresses.push(address);
                },
                Err(_) => {
                    assert(false);
                },
            }
        }
        proof {
            assert forall|address: Seq<u8>| #[trigger]
                self@.has_address(peer@, address) implies exists|k: int|
                0 <= k < addresses.len() && #[trigger] addresses[k]@ == address by {
                let j = choose|j: int| 0 <= j < total && #[trigger] listed[j] == address;
                assert(addresses[total - 1 - j]@ == listed[j]);
            }
            assert forall|a: int, b: int| 0 <= a < b < addresses.len() implies addresses[a]@
                != addresses[b]@ by {}
        }
        addresses
    }

    /// Whether some address is recorded for `peer`.
    pub fn has_address(&self, peer: &PeerId) -> (has: bool)
        requires
            self.wf(),
        ensures
            has == self@.has_some_address(peer@),
    {
        let addresses = strategy_peer_addresses(&self.strategy, peer.as_bytes());
        proof {
            if addresses.len() > 0 {
                assert(self@.has_address(peer@, addresses[0]@));
            }
        }
        addresses.len() > 0
    }

    /// Looks on `chain` for a peer that can be given a slot when the clock reads
    /// `now`. Only a peer with an address is named. A free peer without any
    /// address that is come upon is set aside: it is banned on the chain for
    /// `NO_ADDRESS_BAN_MS`. See `pick_assignable_outcome`.
    pub fn pick_assignable_peer(&mut self, chain: usize, now: u64) -> (result: AssignablePeer)
        requires
            old(self).wf(),
            now + NO_ADDRESS_BAN_MS <= u64::MAX,
        ensures
            pick_assignable_outcome(old(self)@, chain, now, result@, final(self)@),
            final(self).wf(),
    {
        let ghost pre = self@;
        proof {
            vstd::set_lib::lemma_len_subset(free_peers(pre, chain, now), pre.standings.dom());
        }
        loop
            invariant
                pre == old(self)@,
                self.wf(),
                now + NO_ADDRESS_BAN_MS <= u64::MAX,
                set_aside(pre, set![chain], now, self@),
                free_peers(self@, chain, now).finite(),
            decreases free_peers(self@, chain, now).len(),
        {
            let ghost mid = self@;
            let raw = strategy_pick_assignable_peer(&mut self.strategy, chain, now);
            assert(self@ == mid);
            assert(strategy_pick_outcome(self@, chain, now, raw@));
            match raw {
                StrategyPick::Assignable(bytes) => {
                    assert(mid.on_chain(chain, bytes@));
                    match PeerId::from_bytes(bytes) {
                        Ok(peer) => {
                            if self.has_address(&peer) {
                                return AssignablePeer::Assignable(peer);
                            }
                            proof {
                                lemma_one_free_peer_less(mid, chain, now, peer@);
                                lemma_set_aside_once_more(pre, mid, chain, now, peer@);
                                lemma_ban_wf(mid, chain, peer@, (now + NO_ADDRESS_BAN_MS) as u64);
                            }
                            strategy_unassign_slot_and_ban(
                                &mut self.strategy,
                                chain,
                                peer.as_bytes(),
                                now + NO_ADDRESS_BAN_MS,
                            );
                            proof {
                                vstd::set_lib::lemma_len_subset(
                                    free_peers(self@, chain, now),
                                    self@.standings.dom(),
                                );
                            }
                        },
                        Err(_) => {
                            assert(false);
                            return AssignablePeer::NoPeer;
                        },
                    }
                },
                StrategyPick::AllPeersBanned { next_unban } => {
                    return AssignablePeer::AllPeersBanned { next_unban };
                },
                StrategyPick::NoPeer => {
                    return AssignablePeer::NoPeer;
                },
            }
        }
    }

    /// Gives `peer` a slot on `chain`, whatever its standing was.
    pub fn assign_slot(&mut self, chain: usize, peer: &PeerId)
        requires
            old(self).wf(),
        ensures
            final(self)@ == old(self)@.with_standing(chain, peer@, Standing::Slot),
            final(self).wf(),
    {
        let bytes = peer.as_bytes();
        proof {
            lemma_with_standing_wf(self@, chain, peer@, Standing::Slot);
        }
        strategy_assign_slot(&mut self.strategy, chain, bytes);
    }

    /// Takes the slot of `peer` on `chain` away and bans it until the clock reads
    /// `when_unban`. A longer ban stays; a peer that is not on the chain stays
    /// off it.
    pub fn unassign_slot_and_ban(&mut self, chain: usize, peer: &PeerId, when_unban: u64)
        requires
            old(self).wf(),
        ensures
            final(self)@ == ban_outcome(old(self)@, chain, peer@, when_unban),
            final(self).wf(),
    {
        proof {
            lemma_ban_wf(self@, chain, peer@, when_unban);
        }
        strategy_unassign_slot_and_ban(&mut self.strategy, chain, peer.as_bytes(), when_unban);
    }

    /// Does the same on every chain that `peer` belongs to.
    pub fn unassign_slots_and_ban(&mut self, peer: &PeerId, when_unban: u64)
        requires
            old(self).wf(),
        ensures
            final(self)@ == old(self)@.with_bans(peer@, when_unban),
            final(self).wf(),
    {
        proof {
            lemma_with_bans_wf(self@, peer@, when_unban);
        }
        strategy_unassign_slots_and_ban(&mut self.strategy, peer.as_bytes(), when_unban);
    }

    /// Picks an address of `peer` that is not connected and records it as
    /// connected. See `addr_to_connected_outcome`.
    pub fn addr_to_connected(&mut self, peer: &PeerId) -> (picked: Option<Multiaddr>)
        requires
            old(self).wf(),
        ensures
            addr_to_connected_outcome(
                old(self)@,
                peer@,
                match picked {
                    Some(address) => Some(address@),
                    None => None,
                },
                final(self)@,
            ),
            final(self).wf(),
    {
        let ghost pre = self@;
        let result = strategy_addr_to_connected(&mut self.strategy, peer.as_bytes());
        proof {
            lemma_addr_to_connected_wf(pre, peer@, option_view(result), self@);
        }
        match result {
            Some(bytes) => {
                match Multiaddr::from_bytes(bytes) {
                    Ok(address) => Some(address),
                    Err(_) => {
                        assert(false);
                        None
                    },
                }
            },
            None => None,
        }
    }

    /// Records that the connection through `address` of `peer` has ended. See
    /// `disconnect_addr_outcome`.
    pub fn disconnect_addr(&mut self, peer: &PeerId, address: &Vec<u8>) -> (result: Result<
        (),
        DisconnectAddrError,
    >)
        requires
            old(self).wf(),
        ensures
            disconnect_addr_outcome(old(self)@, peer@, address@, result, final(self)@),
            final(self).wf(),
    {
        let ghost pre = self@;
        let result = strategy_disconnect_addr(&mut self.strategy, peer.as_bytes(), address);
        proof {
            lemma_disconnect_addr_wf(pre, peer@, address@, result, self@);
        }
        result
    }
}

} // verus!
