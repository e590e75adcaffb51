//! What the address book holds, as mathematical maps, and what each of its
//! operations may do to them.

use vstd::prelude::*;
use crate::identity::{is_address, is_peer_id, PeerId};
use crate::schedule::NO_ADDRESS_BAN_MS;

verus! {

/// Where a peer stands on one chain.
#[derive(Clone, Copy, Debug, PartialEq, Eq, Structural)]
pub enum Standing {
    /// The peer can be given a slot.
    Assignable,
    /// The peer cannot be given a slot before the clock reads `expires`.
    Banned { expires: u64 },
    /// The peer holds a slot.
    Slot,
}

impl Standing {
    /// Whether a peer that stands so can be given a slot when the clock reads `now`.
    pub open spec fn free_at(self, now: u64) -> bool {
        match self {
            Standing::Assignable => true,
            Standing::Banned { expires } => expires <= now,
            Standing::Slot => false,
        }
    }

    /// Whether this is a ban that lasts at least until `until`.
    pub open spec fn banned_through(self, until: u64) -> bool {
        match self {
            Standing::Banned { expires } => expires >= until,
            _ => false,
        }
    }

    /// The standing after a ban until `until` was asked for: the longer of the
    /// two bans.
    pub open spec fn after_ban(self, until: u64) -> Standing {
        if self.banned_through(until) {
            self
        } else {
            Standing::Banned { expires: until }
        }
    }
}

/// The contents of an address book. Peers and addresses stand by their bytes.
pub struct BookModel {
    /// For each chain and each peer known to belong to it, where the peer stands.
    pub standings: Map<(usize, Seq<u8>), Standing>,
    /// For each peer and each address known for it, whether a connection
    /// through that address is under way.
    pub addresses: Map<(Seq<u8>, Seq<u8>), bool>,
    /// The peers that the book keeps. A peer enters when it is first put on a
    /// chain, and leaves, with its addresses, when it is looked at and found
    /// on no chain and with no connected address.
    pub peers: Set<Seq<u8>>,
}

impl BookModel {
    /// The book without any peer.
    pub open spec fn empty() -> BookModel {
        BookModel { standings: Map::empty(), addresses: Map::empty(), peers: Set::empty() }
    }

    /// Whether `peer` is known to belong to `chain`.
    pub open spec fn on_chain(self, chain: usize, peer: Seq<u8>) -> bool {
        self.standings.contains_key((chain, peer))
    }

    /// Whether `address` is known for `peer`.
    pub open spec fn has_address(self, peer: Seq<u8>, address: Seq<u8>) -> bool {
        self.addresses.contains_key((peer, address))
    }

    /// Whether `peer` belongs to some chain.
    pub open spec fn has_chain(self, peer: Seq<u8>) -> bool {
        exists|chain: usize| #[trigger] self.on_chain(chain, peer)
    }

    /// Whether a connection to `peer` is under way through one of its addresses.
    pub open spec fn has_connected(self, peer: Seq<u8>) -> bool {
        exists|address: Seq<u8>| #[trigger]
            self.has_address(peer, address) && self.addresses[(peer, address)]
    }

    /// Whether something keeps `peer` in the book: it belongs to a chain or is
    /// being connected to.
    pub open spec fn in_use(self, peer: Seq<u8>) -> bool {
        self.has_chain(peer) || self.has_connected(peer)
    }

    /// Whether the book keeps `peer`.
    pub open spec fn knows(self, peer: Seq<u8>) -> bool {
        self.peers.contains(peer)
    }

    /// The peers known to belong to `chain`.
    pub open spec fn chain_peers(self, chain: usize) -> Set<Seq<u8>> {
        Set::new(|peer: Seq<u8>| self.on_chain(chain, peer))
    }

    /// The addresses known for `peer`.
    pub open spec fn peer_addresses(self, peer: Seq<u8>) -> Set<Seq<u8>> {
        Set::new(|address: Seq<u8>| self.has_address(peer, address))
    }

    /// The book with `peer`, which it keeps, standing as `standing` on `chain`.
    pub open spec fn with_state(self, chain: usize, peer: Seq<u8>, standing: Standing)
        -> BookModel {
        BookModel { standings: self.standings.insert((chain, peer), standing), ..self }
    }

    /// The book with `peer` standing as `standing` on `chain`, and kept from
    /// now on if it was not.
    pub open spec fn with_standing(self, chain: usize, peer: Seq<u8>, standing: Standing)
        -> BookModel {
        BookModel {
            standings: self.standings.insert((chain, peer), standing),
            peers: self.peers.insert(peer),
            ..self
        }
    }

    /// The book with `peer` no longer on `chain`.
    pub open spec fn without_standing(self, chain: usize, peer: Seq<u8>) -> BookModel {
        BookModel { standings: self.standings.remove((chain, peer)), ..self }
    }

    /// The book with `address` recorded for `peer`.
    pub open spec fn with_address(self, peer: Seq<u8>, address: Seq<u8>, connected: bool)
        -> BookModel {
        BookModel { addresses: self.addresses.insert((peer, address), connected), ..self }
    }

    /// The book with `address` no longer recorded for `peer`.
    pub open spec fn without_address(self, peer: Seq<u8>, address: Seq<u8>) -> BookModel {
        BookModel { addresses: self.addresses.remove((peer, address)), ..self }
    }

    /// The book after `peer` was looked at and dropped if nothing keeps it: a
    /// peer that is on no chain and is not being connected to is no longer
    /// kept, and loses all its addresses.
    pub open spec fn forget_unused(self, peer: Seq<u8>) -> BookModel {
        if self.in_use(peer) {
            self
        } else {
            BookModel {
                addresses: self.addresses.remove_keys(
                    Set::new(|key: (Seq<u8>, Seq<u8>)| key.0 == peer),
                ),
                peers: self.peers.remove(peer),
                ..self
            }
        }
    }

    /// The book after a ban until `until` was asked for `peer` on every chain
    /// it belongs to.
    pub open spec fn with_bans(self, peer: Seq<u8>, until: u64) -> BookModel {
        BookModel {
            standings: Map::new(
                |key: (usize, Seq<u8>)| self.standings.contains_key(key),
                |key: (usize, Seq<u8>)|
                    if key.1 == peer {
                        self.standings[key].after_ban(until)
                    } else {
                        self.standings[key]
                    },
            ),
            ..self
        }
    }

    /// Whether some address is known for `peer`.
    pub open spec fn has_some_address(self, peer: Seq<u8>) -> bool {
        exists|address: Seq<u8>| #[trigger] self.has_address(peer, address)
    }

    /// Whether some peer other than `peer` has the address without any
    /// protocol, the empty byte string, among its addresses.
    pub open spec fn other_has_empty_address(self, peer: Seq<u8>) -> bool {
        exists|other: Seq<u8>| other != peer && #[trigger] self.has_address(other, Seq::empty())
    }

    /// Whether some peer other than `peer` has the address without any
    /// protocol among its addresses, and not connected.
    pub open spec fn other_has_idle_empty_address(self, peer: Seq<u8>) -> bool {
        exists|other: Seq<u8>|
            other != peer && #[trigger] self.has_address(other, Seq::empty()) && !self.addresses[(
                other,
                Seq::empty(),
            )]
    }

    /// What holds of every book that the library builds: it has a finite
    /// number of peers on its chains, the peers that it keeps are identities,
    /// addresses are addresses, and every peer on a chain and every peer with
    /// an address is kept.
    pub open spec fn wf(self) -> bool {
        &&& self.standings.dom().finite()
        &&& forall|peer: Seq<u8>| #[trigger] self.knows(peer) ==> is_peer_id(peer)
        &&& forall|chain: usize, peer: Seq<u8>| #[trigger]
            self.on_chain(chain, peer) ==> self.knows(peer)
        &&& forall|peer: Seq<u8>, address: Seq<u8>| #[trigger]
            self.has_address(peer, address) ==> is_address(address) && self.knows(peer)
    }
}

/// What inserting a peer into a chain did.
#[derive(Debug)]
pub enum InsertChainPeerResult {
    /// The peer now belongs to the chain.
    Inserted {
        /// The peer that had to leave the chain to make room, if one had to.
        peer_removed: Option<PeerId>,
    },
    /// The peer belonged to the chain already.
    Duplicate,
    /// The chain is full and every one of its peers holds a slot, so that
    /// none could make room: the peer did not enter the chain.
    Full,
}

/// What inserting a peer into a chain did, with the peer that left by its
/// bytes.
pub enum InsertionModel {
    Inserted { peer_removed: Option<Seq<u8>> },
    Duplicate,
    Full,
}

impl View for InsertChainPeerResult {
    type V = InsertionModel;

    open spec fn view(&self) -> InsertionModel {
        match *self {
            InsertChainPeerResult::Inserted { peer_removed: Some(peer) } => {
                InsertionModel::Inserted { peer_removed: Some(peer@) }
            },
            InsertChainPeerResult::Inserted { peer_removed: None } => {
                InsertionModel::Inserted { peer_removed: None }
            },
            InsertChainPeerResult::Duplicate => InsertionModel::Duplicate,
            InsertChainPeerResult::Full => InsertionModel::Full,
        }
    }
}

/// What the peering strategy answers when a peer is inserted into a chain,
/// with the peer that left by its bytes.
#[derive(Debug)]
pub enum StrategyInsertion {
    Inserted { peer_removed: Option<Vec<u8>> },
    Duplicate,
}

impl View for StrategyInsertion {
    type V = InsertionModel;

    open spec fn view(&self) -> InsertionModel {
        match *self {
            StrategyInsertion::Inserted { peer_removed: Some(peer) } => {
                InsertionModel::Inserted { peer_removed: Some(peer@) }
            },
            StrategyInsertion::Inserted { peer_removed: None } => {
                InsertionModel::Inserted { peer_removed: None }
            },
            StrategyInsertion::Duplicate => InsertionModel::Duplicate,
        }
    }
}

/// What inserting an address for a peer did.
#[derive(Debug)]
pub enum InsertAddressResult {
    /// The address is now recorded.
    Inserted {
        /// The address that had to go to make room, if one had to.
        address_removed: Option<Vec<u8>>,
    },
    /// The address was recorded already.
    Duplicate,
    /// The book does not keep the peer, and the address was not recorded.
    UnknownPeer,
}

/// What a search for a peer to give a slot to found.
#[derive(Debug)]
pub enum AssignablePeer {
    /// This peer can be given a slot. It has not been given one yet.
    Assignable(PeerId),
    /// Every peer without a slot is banned.
    AllPeersBanned {
        /// Clock reading at which the first of the bans ends.
        next_unban: u64,
    },
    /// The chain has no peer without a slot.
    NoPeer,
}

/// What a search for a peer to give a slot to found, with the peer by its
/// bytes.
pub enum PickModel {
    Assignable(Seq<u8>),
    AllPeersBanned { next_unban: u64 },
    NoPeer,
}

impl View for AssignablePeer {
    type V = PickModel;

    open spec fn view(&self) -> PickModel {
        match *self {
            AssignablePeer::Assignable(peer) => PickModel::Assignable(peer@),
            AssignablePeer::AllPeersBanned { next_unban } => PickModel::AllPeersBanned {
                next_unban,
            },
            AssignablePeer::NoPeer => PickModel::NoPeer,
        }
    }
}

/// What the peering strategy answers to a search, with the peer by its bytes.
#[derive(Debug)]
pub enum StrategyPick {
    Assignable(Vec<u8>),
    AllPeersBanned { next_unban: u64 },
    NoPeer,
}

impl View for StrategyPick {
    type V = PickModel;

    open spec fn view(&self) -> PickModel {
        match *self {
            StrategyPick::Assignable(peer) => PickModel::Assignable(peer@),
            StrategyPick::AllPeersBanned { next_unban } => PickModel::AllPeersBanned {
                next_unban,
            },
            StrategyPick::NoPeer => PickModel::NoPeer,
        }
    }
}

/// Why an address could not be marked as no longer connected.
#[derive(Clone, Copy, Debug, PartialEq, Eq, Structural)]
pub enum DisconnectAddrError {
    /// The address is not recorded for the peer.
    UnknownAddress,
    /// No connection through the address was under way.
    NotConnected,
}

/// Whether every peer of `chain` holds a slot.
pub open spec fn all_hold_slots(book: BookModel, chain: usize) -> bool {
    forall|other: Seq<u8>| #[trigger]
        book.on_chain(chain, other) ==> book.standings[(chain, other)] is Slot
}

/// What the peering strategy does when `peer` is inserted into `chain`, which
/// may hold `max` peers: what can come back, and the book that is left, given
/// the book before.
///
/// A peer that is new to the chain enters as assignable, also where the chain
/// is full. If the chain held `max` peers or more before, and one of them has
/// no slot, one such peer leaves the chain; which one is not determined.
pub open spec fn strategy_insertion_outcome(
    pre: BookModel,
    chain: usize,
    peer: Seq<u8>,
    max: usize,
    result: InsertionModel,
    post: BookModel,
) -> bool {
    let entered = pre.with_standing(chain, peer, Standing::Assignable);
    match result {
        InsertionModel::Duplicate => pre.on_chain(chain, peer) && post == pre,
        InsertionModel::Inserted { peer_removed: None } => {
            &&& !pre.on_chain(chain, peer)
            &&& post == entered
            &&& (pre.chain_peers(chain).len() < max || all_hold_slots(pre, chain))
        },
        InsertionModel::Inserted { peer_removed: Some(victim) } => {
            &&& !pre.on_chain(chain, peer)
            &&& pre.chain_peers(chain).len() >= max
            &&& pre.on_chain(chain, victim)
            &&& !(pre.standings[(chain, victim)] is Slot)
            &&& post == entered.without_standing(chain, victim).forget_unused(victim)
        },
        InsertionModel::Full => false,
    }
}

/// Inserting `peer` into `chain`, which may hold `max` peers: what can come
/// back, and the book that is left, given the book before.
///
/// A peer that is new to the chain enters as assignable. If the chain held
/// `max` peers or more before, one of its peers without a slot leaves the
/// chain; which one is not determined. If every one of them holds a slot,
/// the peer does not enter, and the book stays as it is but for this: the
/// peer was looked at, and is dropped if nothing keeps it.
pub open spec fn insert_chain_peer_outcome(
    pre: BookModel,
    chain: usize,
    peer: Seq<u8>,
    max: usize,
    result: InsertionModel,
    post: BookModel,
) -> bool {
    let entered = pre.with_standing(chain, peer, Standing::Assignable);
    match result {
        InsertionModel::Duplicate => pre.on_chain(chain, peer) && post == pre,
        InsertionModel::Inserted { peer_removed: None } => {
            &&& !pre.on_chain(chain, peer)
            &&& pre.chain_peers(chain).len() < max
            &&& post == entered
        },
        InsertionModel::Inserted { peer_removed: Some(victim) } => {
            &&& !pre.on_chain(chain, peer)
            &&& pre.chain_peers(chain).len() >= max
            &&& pre.on_chain(chain, victim)
            &&& !(pre.standings[(chain, victim)] is Slot)
            &&& post == entered.without_standing(chain, victim).forget_unused(victim)
        },
        InsertionModel::Full => {
            &&& !pre.on_chain(chain, peer)
            &&& pre.chain_peers(chain).len() >= max
            &&& all_hold_slots(pre, chain)
            &&& post == pre.forget_unused(peer)
        },
    }
}

/// Taking `peer` off `chain`: the book that is left.
pub open spec fn remove_chain_peer_outcome(pre: BookModel, chain: usize, peer: Seq<u8>)
    -> BookModel {
    if pre.on_chain(chain, peer) {
        pre.without_standing(chain, peer).forget_unused(peer)
    } else {
        pre
    }
}

/// Recording `address` for `peer`, who may have `max` addresses: what can come
/// back, and the book that is left, given the book before. `connected` says
/// whether the address is recorded as connected, and set to connected if it
/// was recorded already.
///
/// If the peer has `max` addresses or more once the new one is recorded, and
/// another of them is not connected, one such address goes; which one is not
/// determined.
///
/// The book counts the addresses of a peer together with the empty address of
/// one other peer, where that peer has it, and picks among them too. So while
/// another peer has the empty address, room may be made one address early.
/// And while another peer has it and it is not connected, it may come back as
/// the address that went, in which case what goes is the empty address of
/// `peer` itself, connected or not, if it has it, and else nothing.
pub open spec fn insert_address_outcome(
    pre: BookModel,
    peer: Seq<u8>,
    address: Seq<u8>,
    max: usize,
    connected: bool,
    result: InsertAddressResult,
    post: BookModel,
) -> bool {
    let recorded = pre.with_address(peer, address, connected);
    let counted = pre.peer_addresses(peer).len() + 1;
    match result {
        InsertAddressResult::UnknownPeer => !pre.knows(peer) && post == pre,
        InsertAddressResult::Duplicate => {
            &&& pre.knows(peer)
            &&& pre.has_address(peer, address)
            &&& post == if connected { recorded } else { pre }
        },
        InsertAddressResult::Inserted { address_removed: None } => {
            &&& pre.knows(peer)
            &&& !pre.has_address(peer, address)
            &&& post == recorded
            &&& (counted < max || forall|other: Seq<u8>| #[trigger]
                pre.has_address(peer, other) ==> pre.addresses[(peer, other)])
        },
        InsertAddressResult::Inserted { address_removed: Some(victim) } => {
            &&& pre.knows(peer)
            &&& !pre.has_address(peer, address)
            &&& victim@ != address
            &&& post == recorded.without_address(peer, victim@)
            &&& {
                ||| {
                    &&& pre.has_address(peer, victim@)
                    &&& !pre.addresses[(peer, victim@)]
                    &&& (counted >= max || (pre.other_has_empty_address(peer) && counted + 1
                        >= max))
                }
                ||| {
                    &&& victim@.len() == 0
                    &&& pre.other_has_idle_empty_address(peer)
                    &&& counted + 1 >= max
                }
            }
        },
    }
}

/// Removing `address` from `peer`: the book that is left.
pub open spec fn remove_address_outcome(pre: BookModel, peer: Seq<u8>, address: Seq<u8>)
    -> BookModel {
    if pre.has_address(peer, address) {
        pre.without_address(peer, address).forget_unused(peer)
    } else {
        pre
    }
}

/// What the peering strategy answers when `chain` is searched for a peer to
/// give a slot to when the clock reads `now`, given the book.
///
/// A peer comes back whenever one is free, that is assignable or banned until
/// `now` or earlier; which of the free peers is not determined. Whether the
/// peer has an address plays no part.
pub open spec fn strategy_pick_outcome(
    book: BookModel,
    chain: usize,
    now: u64,
    result: PickModel,
) -> bool {
    match result {
        PickModel::Assignable(peer) => {
            &&& book.on_chain(chain, peer)
            &&& book.standings[(chain, peer)].free_at(now)
        },
        PickModel::AllPeersBanned { next_unban } => {
            &&& next_unban > now
            &&& forall|peer: Seq<u8>| #[trigger]
                book.on_chain(chain, peer) ==> !book.standings[(chain, peer)].free_at(now)
            &&& exists|peer: Seq<u8>| #[trigger]
                book.on_chain(chain, peer) && book.standings[(chain, peer)]
                    == (Standing::Banned { expires: next_unban })
            &&& forall|peer: Seq<u8>| #[trigger]
                book.on_chain(chain, peer) && book.standings[(chain, peer)] is Banned
                    ==> book.standings[(chain, peer)]->expires >= next_unban
        },
        PickModel::NoPeer => all_hold_slots(book, chain),
    }
}

/// Whether `post` is `pre` but for peers that were set aside when `room` was
/// searched at `now`: peers of a chain with room that were free and had no
/// address, and are now banned on that chain for `NO_ADDRESS_BAN_MS`. Nothing
/// else differs, and no peer with an address and no peer that was not free is
/// touched.
pub open spec fn set_aside(pre: BookModel, room: Set<usize>, now: u64, post: BookModel) -> bool {
    &&& post.addresses == pre.addresses
    &&& post.peers == pre.peers
    &&& forall|key: (usize, Seq<u8>)| #[trigger]
        post.standings.contains_key(key) == pre.standings.contains_key(key)
    &&& forall|key: (usize, Seq<u8>)| #[trigger]
        pre.standings.contains_key(key) ==> post.standings[key] == pre.standings[key] || {
            &&& room.contains(key.0)
            &&& pre.standings[key].free_at(now)
            &&& !pre.has_some_address(key.1)
            &&& post.standings[key] == (Standing::Banned {
                expires: (now + NO_ADDRESS_BAN_MS) as u64,
            })
        }
}

/// Searching `chain` for a peer to give a slot to when the clock reads `now`:
/// what can come back, and the book that is left, given the book before.
///
/// Only a peer with an address comes back. A free peer without any address is
/// set aside, that is banned on the chain for `NO_ADDRESS_BAN_MS`; which of
/// them are found and set aside before a peer with an address is found is not
/// determined. Where no peer comes back, every free peer was without address
/// and is set aside.
pub open spec fn pick_assignable_outcome(
    pre: BookModel,
    chain: usize,
    now: u64,
    result: PickModel,
    post: BookModel,
) -> bool {
    &&& set_aside(pre, set![chain], now, post)
    &&& strategy_pick_outcome(post, chain, now, result)
    &&& result is Assignable ==> post.has_some_address(result->Assignable_0)
}

/// Taking the slot of `peer` on `chain` away and banning it until `until`: the
/// book that is left. A peer that is not on the chain stays off it, and a ban
/// that lasts longer stays.
pub open spec fn ban_outcome(pre: BookModel, chain: usize, peer: Seq<u8>, until: u64)
    -> BookModel {
    if pre.on_chain(chain, peer) {
        pre.with_state(chain, peer, pre.standings[(chain, peer)].after_ban(until))
    } else {
        pre
    }
}

/// Picking an address of `peer` to connect through: what can come back, and
/// the book that is left, given the book before.
///
/// An address comes back whenever one is not connected; which of them is not
/// determined. It is then recorded as connected.
pub open spec fn addr_to_connected_outcome(
    pre: BookModel,
    peer: Seq<u8>,
    picked: Option<Seq<u8>>,
    post: BookModel,
) -> bool {
    match picked {
        Some(address) => {
            &&& pre.has_address(peer, address)
            &&& !pre.addresses[(peer, address)]
            &&& post == pre.with_address(peer, address, true)
        },
        None => {
            &&& post == pre
            &&& forall|address: Seq<u8>| #[trigger]
                pre.has_address(peer, address) ==> pre.addresses[(peer, address)]
        },
    }
}

/// A byte string that may be missing, by its bytes.
pub open spec fn option_view(bytes: Option<Vec<u8>>) -> Option<Seq<u8>> {
    match bytes {
        Some(b) => Some(b@),
        None => None,
    }
}

/// Marking `address` of `peer` as no longer connected: what comes back, and
/// the book that is left, given the book before.
pub open spec fn disconnect_addr_outcome(
    pre: BookModel,
    peer: Seq<u8>,
    address: Seq<u8>,
    result: Result<(), DisconnectAddrError>,
    post: BookModel,
) -> bool {
    if !pre.has_address(peer, address) {
        result == Err::<(), DisconnectAddrError>(DisconnectAddrError::UnknownAddress)
            && post == pre
    } else if !pre.addresses[(peer, address)] {
        result == Err::<(), DisconnectAddrError>(DisconnectAddrError::NotConnected)
            && post == pre
    } else {
        result is Ok && post == pre.with_address(peer, address, false).forget_unused(peer)
    }
}

} // verus!
