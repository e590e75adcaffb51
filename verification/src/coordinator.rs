//! The coordinator: the one owner of the address book, of the requests that
//! wait for an answer, of the table of connections and of the event that waits
//! for the subscribers. Each of its operations is what the service does when
//! one thing happens: a command arrives, the network state machine reports an
//! event, or something can be done to bring the network closer to what is
//! wanted. What has to be asked of the network state machine in turn comes
//! back as a `NetworkCommand`.

use vstd::prelude::*;
use rand_chacha::ChaCha20Rng;
use smoldot::network::service::{ConnectionId, SubstreamId};
use crate::address_book::AddressBook;
use crate::book_model::{
    addr_to_connected_outcome, ban_outcome, disconnect_addr_outcome, insert_address_outcome,
    remove_address_outcome, remove_chain_peer_outcome, set_aside, AssignablePeer, BookModel,
    DisconnectAddrError, InsertAddressResult, Standing,
};
use crate::discovery::{
    absorb_find_node_response, discovered_nodes, is_listing_of, listing_view,
    peers_discovered, report_view, response_absorbed, MAX_ADDRESSES_PER_PEER,
};
use crate::events::{CommandModel, Event, NetworkCommand};
use crate::errors::{
    BlocksRequestError, CallProofRequestError, StartRequestError, StartRequestMaybeTooLargeError,
    StorageProofRequestError, WarpSyncRequestError,
};
use crate::identity::{copy_bytes, Multiaddr, PeerId};
use crate::important::{important_contains, important_insert, important_new, important_peers, ImportantPeers};
use crate::randomness::{draw_key, ed25519_peer_id, generator_from_seed, identity_of_key};
use crate::requests::{RegistryModel, RequestRegistry};
use crate::schedule::{
    ban_end, BOOK_PEERS_CAPACITY, FIND_NODE_TIMEOUT_SECS, GOSSIP_CLOSED_BAN_MS,
    IMPORTANT_PEERS_CAPACITY,
    GOSSIP_OPEN_FAILED_BAN_MS, NO_ADDRESS_BAN_MS,
};
use crate::table::Table;

verus! {

/// What the coordinator keeps about one chain.
pub struct Chain {
    /// Name of the chain in diagnostics.
    pub log_name: String,
    /// Number of peers with which a gossip link is kept open at the same time.
    pub num_out_slots: usize,
}

/// The sources from which the coordinator takes what it does next when no
/// command waits, in the order in which it looks at them.
#[derive(Clone, Copy, Debug, PartialEq, Eq, Structural)]
pub enum Probe {
    /// An event of the network state machine.
    NetworkEvent,
    /// A peer with which a gossip link is wanted and to which no connection
    /// leads.
    StartConnect,
    /// A peer with which a gossip link is wanted, to which a connection leads,
    /// and with which no gossip link is open.
    OpenGossip,
    /// A message of the network state machine for one of the connections.
    MessageToConnection,
    /// A chain with a free slot and a peer to give it to.
    AssignSlot,
}

/// The source that comes first: events of the network state machine, unless
/// an event waits for the subscribers, in which case none is taken.
pub open spec fn first_probe(event_waits: bool) -> Probe {
    if event_waits {
        Probe::StartConnect
    } else {
        Probe::NetworkEvent
    }
}

/// The source that comes after `probe`, if one does.
pub open spec fn probe_after(probe: Probe) -> Option<Probe> {
    match probe {
        Probe::NetworkEvent => Some(Probe::StartConnect),
        Probe::StartConnect => Some(Probe::OpenGossip),
        Probe::OpenGossip => Some(Probe::MessageToConnection),
        Probe::MessageToConnection => Some(Probe::AssignSlot),
        Probe::AssignSlot => None,
    }
}

/// What a look at the chains for a slot to assign found.
#[derive(Debug)]
pub enum SlotSearch {
    /// The peer can be given a slot on the chain.
    CanAssignSlot { peer_id: PeerId, chain_id: usize },
    /// No peer can be given a slot before the clock reads `clock`, when the
    /// first ban ends.
    WaitUntil { clock: u64 },
    /// No peer can be given a slot, and no ban will change that.
    Idle,
}

/// Whether `chain` has a slot to give: fewer gossip links are wanted on it
/// than it has slots.
pub open spec fn has_room(slots: Seq<usize>, desired: Seq<usize>, chain: usize) -> bool {
    chain < slots.len() && chain < desired.len() && desired[chain as int] < slots[chain as int]
}

/// Whether no peer of `chain` can be given a slot when the clock reads `now`.
pub open spec fn no_free_peer(book: BookModel, chain: usize, now: u64) -> bool {
    forall|peer: Seq<u8>| #[trigger]
        book.on_chain(chain, peer) ==> !book.standings[(chain, peer)].free_at(now)
}

/// The chains that have a slot to give.
pub open spec fn chains_with_room(slots: Seq<usize>, desired: Seq<usize>) -> Set<usize> {
    Set::new(|chain: usize| has_room(slots, desired, chain))
}

/// Looking at the chains, in their order, for a slot to assign: what can come
/// back, and the book that is left, given the book before, the slots of each
/// chain, and the number of gossip links wanted on each.
///
/// The first chain with room and a free peer that has an address gives the
/// answer; which of its free peers with an address comes back is not
/// determined. Free peers without any address that are come upon on a chain
/// with room are set aside, that is banned on that chain for
/// `NO_ADDRESS_BAN_MS`. If no chain with room has a free peer left, the
/// earliest end of a ban on a chain with room comes back, if there is one.
pub open spec fn slot_search_outcome(
    pre: BookModel,
    slots: Seq<usize>,
    desired: Seq<usize>,
    now: u64,
    result: SlotSearch,
    post: BookModel,
) -> bool {
    &&& set_aside(pre, chains_with_room(slots, desired), now, post)
    &&& match result {
        SlotSearch::CanAssignSlot { peer_id, chain_id } => {
            &&& has_room(slots, desired, chain_id)
            &&& post.on_chain(chain_id, peer_id@)
            &&& post.standings[(chain_id, peer_id@)].free_at(now)
            &&& post.has_some_address(peer_id@)
            &&& forall|chain: usize| #[trigger]
                has_room(slots, desired, chain) && chain < chain_id ==> no_free_peer(
                    post,
                    chain,
                    now,
                )
        },
        SlotSearch::WaitUntil { clock } => {
            &&& clock > now
            &&& forall|chain: usize| #[trigger]
                has_room(slots, desired, chain) ==> no_free_peer(post, chain, now)
            &&& exists|chain: usize, peer: Seq<u8>|
                has_room(slots, desired, chain) && #[trigger] post.on_chain(chain, peer)
                    && post.standings[(chain, peer)] == (Standing::Banned { expires: clock })
            &&& forall|chain: usize, peer: Seq<u8>|
                has_room(slots, desired, chain) && #[trigger] post.on_chain(chain, peer)
                    && post.standings[(chain, peer)] is Banned ==> post.standings[(
                    chain,
                    peer,
                )]->expires >= clock
        },
        SlotSearch::Idle => forall|chain: usize, peer: Seq<u8>|
            has_room(slots, desired, chain) && #[trigger] post.on_chain(chain, peer)
                ==> post.standings[(chain, peer)] is Slot,
    }
}

/// Where peers were set aside on one chain, the peers of the other chains
/// stand as they stood.
proof fn lemma_other_chains_untouched(mid: BookModel, chain: usize, now: u64, post: BookModel)
    requires
        set_aside(mid, set![chain], now, post),
    ensures
        forall|c: usize, p: Seq<u8>| #[trigger]
            post.on_chain(c, p) == mid.on_chain(c, p),
        forall|c: usize, p: Seq<u8>|
            c != chain && #[trigger] mid.on_chain(c, p) ==> post.standings[(c, p)]
                == mid.standings[(c, p)],
{
    assert forall|c: usize, p: Seq<u8>| #[trigger] post.on_chain(c, p) == mid.on_chain(c, p) by {
        assert(post.standings.contains_key((c, p)) == mid.standings.contains_key((c, p)));
    }
    assert forall|c: usize, p: Seq<u8>| c != chain && #[trigger] mid.on_chain(c, p) implies
        post.standings[(c, p)] == mid.standings[(c, p)] by {
        assert(mid.standings.contains_key((c, p)));
    }
}

/// Setting peers aside on a chain with room, after peers were set aside on
/// chains with room, is setting peers aside on chains with room.
proof fn lemma_set_aside_on_one_more_chain(
    pre: BookModel,
    mid: BookModel,
    room: Set<usize>,
    chain: usize,
    now: u64,
    post: BookModel,
)
    requires
        set_aside(pre, room, now, mid),
        set_aside(mid, set![chain], now, post),
        room.contains(chain),
        now + NO_ADDRESS_BAN_MS <= u64::MAX,
    ensures
        set_aside(pre, room, now, post),
{
    assert forall|key: (usize, Seq<u8>)| #[trigger]
        post.standings.contains_key(key) == pre.standings.contains_key(key) by {
        assert(post.standings.contains_key(key) == mid.standings.contains_key(key));
    }
    assert forall|key: (usize, Seq<u8>)| #[trigger] pre.standings.contains_key(key) implies
        post.standings[key] == pre.standings[key] || (room.contains(key.0)
        && pre.standings[key].free_at(now) && !pre.has_some_address(key.1) && post.standings[key]
        == (Standing::Banned { expires: (now + NO_ADDRESS_BAN_MS) as u64 })) by {
        assert(mid.standings.contains_key(key));
        if post.standings[key] != mid.standings[key] {
            assert(mid.standings[key].free_at(now));
            assert(mid.standings[key] == pre.standings[key]);
            if pre.has_some_address(key.1) {
                let a = choose|a: Seq<u8>| #[trigger] pre.has_address(key.1, a);
                assert(mid.has_address(key.1, a));
            }
        }
    }
}

/// What is done about a peer that is to be connected to.
#[derive(Debug)]
pub enum ConnectStep {
    /// A connection is to be opened through this address of the peer, which
    /// the book now counts as connected.
    Dial { address: Multiaddr },
    /// The book has no address left to try. The peer was banned on all its
    /// chains for a while, and the network state machine is to be told that no
    /// gossip link with it is wanted any more.
    NoAddress { command: NetworkCommand },
}

/// A request to find the nodes near an identity.
#[derive(Debug)]
pub struct FindNodeQuery {
    /// The chain that is explored.
    pub chain_id: usize,
    /// The peer that is asked.
    pub target: PeerId,
    /// The bytes of the identity near which nodes are looked for.
    pub near: Vec<u8>,
    /// How long the answer may take, in seconds.
    pub timeout_secs: u64,
}

/// The request with which `chain_id` is explored when `target` is a peer with
/// an open gossip link on it, if there is one, and `key` is the key that was
/// drawn: nodes near the identity of the key are looked for. Nothing is asked
/// where no peer has an open gossip link.
pub fn find_node_query(chain_id: usize, target: Option<PeerId>, key: &[u8; 32]) -> (query: Option<
    FindNodeQuery,
>)
    ensures
        target is None ==> query is None,
        target is Some ==> query is Some && query->Some_0.chain_id == chain_id
            && query->Some_0.target == target->Some_0 && query->Some_0.near@ == ed25519_peer_id(
            key@,
        ) && query->Some_0.timeout_secs == FIND_NODE_TIMEOUT_SECS,
{
    match target {
        Some(target) => Some(
            FindNodeQuery {
                chain_id,
                target,
                near: identity_of_key(key),
                timeout_secs: FIND_NODE_TIMEOUT_SECS,
            },
        ),
        None => None,
    }
}

/// The chains, in their order, on which a peer has an open gossip link, where
/// `targets` names such a peer for each chain that has one.
pub open spec fn chains_with_target(targets: Seq<Option<PeerId>>) -> Seq<usize>
    decreases targets.len(),
{
    if targets.len() == 0 {
        Seq::empty()
    } else if targets.last() is Some {
        chains_with_target(targets.drop_last()).push((targets.len() - 1) as usize)
    } else {
        chains_with_target(targets.drop_last())
    }
}

/// The peers of a list of discovered peers.
pub open spec fn listed_peers(list: Seq<(PeerId, Vec<Multiaddr>)>) -> Seq<Seq<u8>> {
    list.map_values(|entry: (PeerId, Vec<Multiaddr>)| entry.0@)
}

/// What the coordinator holds.
pub struct CoordinatorModel<B, W, S, C, T> {
    /// The text that is sent to a peer that asks which software it talks to.
    pub agent_version: Seq<char>,
    /// The name of each chain in diagnostics.
    pub names: Seq<Seq<char>>,
    /// The number of slots of each chain.
    pub slots: Seq<usize>,
    /// The address book.
    pub book: BookModel,
    /// The peers that were discovered as important.
    pub important: Set<Seq<u8>>,
    /// The event that waits for the subscribers, if one does.
    pub staged: Option<Event>,
    /// The requests that wait for an answer.
    pub requests: RegistryModel<B, W, S, C>,
    /// The connections, each with what its messages are handed to.
    pub connections: Map<ConnectionId, T>,
}

/// The state of the coordinator. `B`, `W`, `S` and `C` are the slots for the
/// answers to the four kinds of requests, and `T` is what a message for a
/// connection is handed to.
pub struct Coordinator<B, W, S, C, T> {
    identify_agent_version: String,
    chains: Vec<Chain>,
    book: AddressBook,
    generator: ChaCha20Rng,
    important_nodes: ImportantPeers,
    staged: Option<Event>,
    requests: RequestRegistry<B, W, S, C>,
    connections: Table<ConnectionId, T>,
}

impl<B, W, S, C, T> View for Coordinator<B, W, S, C, T> {
    type V = CoordinatorModel<B, W, S, C, T>;

    closed spec fn view(&self) -> CoordinatorModel<B, W, S, C, T> {
        CoordinatorModel {
            agent_version: self.identify_agent_version@,
            names: self.chains@.map_values(|chain: Chain| chain.log_name@),
            slots: self.chains@.map_values(|chain: Chain| chain.num_out_slots),
            book: self.book@,
            important: important_peers(self.important_nodes),
            staged: self.staged,
            requests: self.requests@,
            connections: self.connections@,
        }
    }
}

impl<B, W, S, C, T> Coordinator<B, W, S, C, T> {
    /// Whether the coordinator is well formed. Every coordinator that `new`
    /// returns is, and every operation keeps it so.
    pub closed spec fn wf(&self) -> bool {
        &&& self.book.wf()
        &&& self.requests.wf()
        &&& self.connections.wf()
    }

    /// A well-formed coordinator has a well-formed book.
    pub proof fn lemma_wf(&self)
        requires
            self.wf(),
        ensures
            self@.book.wf(),
    {
    }

    /// A coordinator for `chains` that knows no peer, has no request waiting,
    /// no connection and no event for the subscribers. The seeds feed the
    /// choices of the address book and the identities that discovery looks
    /// for.
    pub fn new(
        identify_agent_version: String,
        chains: Vec<Chain>,
        book_seed: [u8; 32],
        discovery_seed: [u8; 32],
    ) -> (coordinator: Self)
        ensures
            coordinator.wf(),
            coordinator@.agent_version == identify_agent_version@,
            coordinator@.names == chains@.map_values(|chain: Chain| chain.log_name@),
            coordinator@.slots == chains@.map_values(|chain: Chain| chain.num_out_slots),
            coordinator@.book == BookModel::empty(),
            coordinator@.important == Set::<Seq<u8>>::empty(),
            coordinator@.staged is None,
            coordinator@.requests.blocks == Map::<SubstreamId, B>::empty(),
            coordinator@.requests.warp_sync == Map::<SubstreamId, W>::empty(),
            coordinator@.requests.storage_proof == Map::<SubstreamId, S>::empty(),
            coordinator@.requests.call_proof == Map::<SubstreamId, C>::empty(),
            coordinator@.requests.find_node == Map::<SubstreamId, usize>::empty(),
            coordinator@.connections == Map::<ConnectionId, T>::empty(),
    {
        let book = AddressBook::new(book_seed, BOOK_PEERS_CAPACITY, chains.len());
        let coordinator = Coordinator {
            identify_agent_version,
            chains,
            book,
            generator: generator_from_seed(discovery_seed),
            important_nodes: important_new(IMPORTANT_PEERS_CAPACITY),
            staged: None,
            requests: RequestRegistry::new(),
            connections: Table::new(),
        };
        coordinator
    }

    /// The text to answer with when a peer asks which software it talks to.
    pub fn identify_agent_version(&self) -> (version: &String)
        ensures
            version@ == self@.agent_version,
    {
        &self.identify_agent_version
    }

    /// The number of chains.
    pub fn num_chains(&self) -> (n: usize)
        ensures
            n == self@.slots.len(),
            n == self@.names.len(),
    {
        self.chains.len()
    }

    /// What is kept about chain `chain_id`, if there is such a chain.
    pub fn chain(&self, chain_id: usize) -> (chain: Option<&Chain>)
        ensures
            chain_id < self@.slots.len() ==> chain is Some && chain->Some_0.num_out_slots
                == self@.slots[chain_id as int] && chain->Some_0.log_name@
                == self@.names[chain_id as int],
            chain_id >= self@.slots.len() ==> chain is None,
    {
        if chain_id < self.chains.len() {
            Some(&self.chains[chain_id])
        } else {
            None
        }
    }

    /// The source to look at first when no command waits.
    pub fn first_probe(&self) -> (probe: Probe)
        ensures
            probe == first_probe(self@.staged is Some),
    {
        if self.staged.is_some() {
            Probe::StartConnect
        } else {
            Probe::NetworkEvent
        }
    }

    /// The source to look at when `probe` had nothing to offer. After the
    /// last one, the coordinator can only wait.
    pub fn probe_after(probe: Probe) -> (next: Option<Probe>)
        ensures
            next == probe_after(probe),
    {
        match probe {
            Probe::NetworkEvent => Some(Probe::StartConnect),
            Probe::StartConnect => Some(Probe::OpenGossip),
            Probe::OpenGossip => Some(Probe::MessageToConnection),
            Probe::MessageToConnection => Some(Probe::AssignSlot),
            Probe::AssignSlot => None,
        }
    }

    /// Whether an event of the network state machine may be taken: not while
    /// an event waits for the subscribers.
    pub fn may_pull_network_event(&self) -> (may: bool)
        ensures
            may == (self@.staged is None),
    {
        self.staged.is_none()
    }

    /// Takes the event that waits for the subscribers, to hand it to them.
    pub fn take_staged_event(&mut self) -> (event: Option<Event>)
        requires
            old(self).wf(),
        ensures
            final(self).wf(),
            event == old(self)@.staged,
            final(self)@ == (CoordinatorModel { staged: None, ..old(self)@ }),
    {
        self.staged.take()
    }

    /// Lets `event` wait for the subscribers. No other event may be waiting.
    fn stage(&mut self, event: Event)
        requires
            old(self).wf(),
            old(self)@.staged is None,
        ensures
            final(self).wf(),
            final(self)@ == (CoordinatorModel { staged: Some(event), ..old(self)@ }),
    {
        self.staged = Some(event);
    }

    /// Whether `peer` counts as important, which calls for more to be said
    /// about it in diagnostics.
    pub fn is_important(&self, peer: &PeerId) -> (found: bool)
        ensures
            found == self@.important.contains(peer@),
    {
        important_contains(&self.important_nodes, peer.as_bytes())
    }

    /// Discovers the peers of `list` on `chain_id`, one by one: each is
    /// inserted into the chain, which may hold `MAX_PEERS_PER_CHAIN` peers,
    /// and its addresses are recorded, of which it may have
    /// `MAX_ADDRESSES_PER_PEER`. A peer does not enter a chain that is full
    /// of peers with a slot. With `important_nodes`, the peers also count as
    /// important from now on.
    pub fn discover(&mut self, chain_id: usize, list: &Vec<(PeerId, Vec<Multiaddr>)>, important_nodes: bool)
        requires
            old(self).wf(),
        ensures
            final(self).wf(),
            peers_discovered(old(self)@.book, chain_id, listing_view(list@), final(self)@.book),
            final(self)@ == (CoordinatorModel {
                book: final(self)@.book,
                important: if important_nodes {
                    old(self)@.important.union(listed_peers(list@).to_set())
                } else {
                    old(self)@.important
                },
                ..old(self)@
            }),
    {
        crate::discovery::discover(&mut self.book, chain_id, list);
        if important_nodes {
            let ghost before = self@.important;
            let ghost named = listed_peers(list@);
            let mut i: usize = 0;
            assert(before.union(named.take(0).to_set()) =~= before);
            while i < list.len()
                invariant
                    i <= list.len(),
                    named == listed_peers(list@),
                    self.wf(),
                    self@ == (CoordinatorModel {
                        book: self@.book,
                        important: self@.important,
                        ..old(self)@
                    }),
                    self@.book == self.book@,
                    peers_discovered(old(self)@.book, chain_id, listing_view(list@), self.book@),
                    self@.important == before.union(named.take(i as int).to_set()),
                decreases list.len() - i,
            {
                proof {
                    let next = named.take(i + 1);
                    assert(next =~= named.take(i as int).push(list[i as int].0@));
                    assert(next.to_set() =~= named.take(i as int).to_set().insert(
                        list[i as int].0@,
                    )) by {
                        assert forall|p: Seq<u8>| next.to_set().contains(p) == named.take(
                            i as int,
                        ).to_set().insert(list[i as int].0@).contains(p) by {
                            if next.contains(p) {
                                let k = choose|k: int| 0 <= k < next.len() && next[k] == p;
                                if k < i {
                                    assert(named.take(i as int)[k] == p);
                                }
                            }
                            if named.take(i as int).contains(p) {
                                let k = choose|k: int|
                                    0 <= k < i && named.take(i as int)[k] == p;
                                assert(next[k] == p);
                            }
                            if p == list[i as int].0@ {
                                assert(next[i as int] == p);
                            }
                        }
                    }
                    assert(before.union(next.to_set()) =~= before.union(
                        named.take(i as int).to_set(),
                    ).insert(list[i as int].0@));
                }
                important_insert(&mut self.important_nodes, copy_bytes(list[i].0.as_bytes()));
                i += 1;
            }
            assert(named.take(list.len() as int) =~= named);
        }
    }

    /// Lists the peers of `chain_id`, each with its addresses.
    pub fn discovered_nodes(&self, chain_id: usize) -> (nodes: Vec<(PeerId, Vec<Multiaddr>)>)
        requires
            self.wf(),
        ensures
            is_listing_of(self@.book, chain_id, listing_view(nodes@)),
    {
        discovered_nodes(&self.book, chain_id)
    }

    /// Looks at the chains, in their order, for a slot to assign when the
    /// clock reads `now`. `desired` gives, for each chain, the number of peers
    /// with which a gossip link is wanted. Only a peer with an address is
    /// named; free peers without any address that are come upon are set
    /// aside. See `slot_search_outcome`.
    pub fn search_slot(&mut self, desired: &Vec<usize>, now: u64) -> (found: SlotSearch)
        requires
            old(self).wf(),
            desired.len() == old(self)@.slots.len(),
            now + NO_ADDRESS_BAN_MS <= u64::MAX,
        ensures
            final(self).wf(),
            final(self)@ == (CoordinatorModel { book: final(self)@.book, ..old(self)@ }),
            slot_search_outcome(
                old(self)@.book,
                old(self)@.slots,
                desired@,
                now,
                found,
                final(self)@.book,
            ),
    {
        let ghost pre = self@.book;
        let ghost slots = self@.slots;
        let ghost room = chains_with_room(slots, desired@);
        let mut earliest: Option<u64> = None;
        let mut chain: usize = 0;
        while chain < self.chains.len()
            invariant
                self.wf(),
                self@ == (CoordinatorModel { book: self@.book, ..old(self)@ }),
                pre == old(self)@.book,
                self@.book == self.book@,
                slots == self@.slots,
                room == chains_with_room(slots, desired@),
                slots.len() == self.chains.len(),
                forall|c: int| 0 <= c < slots.len() ==> slots[c] == self.chains[c].num_out_slots,
                desired.len() == slots.len(),
                chain <= self.chains.len(),
                now + NO_ADDRESS_BAN_MS <= u64::MAX,
                set_aside(pre, room, now, self.book@),
                forall|c: usize| #[trigger]
                    has_room(slots, desired@, c) && c < chain ==> no_free_peer(
                        self.book@,
                        c,
                        now,
                    ),
                match earliest {
                    None => forall|c: usize, p: Seq<u8>|
                        has_room(slots, desired@, c) && c < chain && #[trigger] self.book@.on_chain(
                            c,
                            p,
                        ) ==> self.book@.standings[(c, p)] is Slot,
                    Some(t) => {
                        &&& t > now
                        &&& exists|c: usize, p: Seq<u8>|
                            has_room(slots, desired@, c) && c < chain
                                && #[trigger] self.book@.on_chain(c, p) && self.book@.standings[(
                                c,
                                p,
                            )] == (Standing::Banned { expires: t })
                        &&& forall|c: usize, p: Seq<u8>|
                            has_room(slots, desired@, c) && c < chain
                                && #[trigger] self.book@.on_chain(c, p) && self.book@.standings[(
                                c,
                                p,
                            )] is Banned ==> self.book@.standings[(c, p)]->expires >= t
                    },
                },
            decreases self.chains.len() - chain,
        {
            if desired[chain] < self.chains[chain].num_out_slots {
                assert(has_room(slots, desired@, chain));
                let ghost mid = self.book@;
                let ghost before: (usize, Seq<u8>) = match earliest {
                    Some(t) => choose|c: usize, p: Seq<u8>|
                        has_room(slots, desired@, c) && c < chain && #[trigger] mid.on_chain(c, p)
                            && mid.standings[(c, p)] == (Standing::Banned { expires: t }),
                    None => (0, Seq::empty()),
                };
                let picked = self.book.pick_assignable_peer(chain, now);
                proof {
                    lemma_other_chains_untouched(mid, chain, now, self.book@);
                    lemma_set_aside_on_one_more_chain(pre, mid, room, chain, now, self.book@);
                    assert forall|c: usize| #[trigger]
                        has_room(slots, desired@, c) && c < chain implies no_free_peer(
                        self.book@,
                        c,
                        now,
                    ) by {
                        assert(no_free_peer(mid, c, now));
                        assert forall|p: Seq<u8>| #[trigger]
                            self.book@.on_chain(c, p) implies !self.book@.standings[(
                            c,
                            p,
                        )].free_at(now) by {
                            assert(mid.on_chain(c, p));
                        }
                    }
                    if earliest is Some {
                        assert(mid.on_chain(before.0, before.1));
                        assert(self.book@.on_chain(before.0, before.1));
                    }
                    assert forall|c: usize, p: Seq<u8>|
                        c < chain && #[trigger] self.book@.on_chain(c, p) implies mid.on_chain(c, p)
                        && self.book@.standings[(c, p)] == mid.standings[(c, p)] by {}
                }
                match picked {
                    AssignablePeer::Assignable(peer_id) => {
                        return SlotSearch::CanAssignSlot { peer_id, chain_id: chain };
                    },
                    AssignablePeer::AllPeersBanned { next_unban } => {
                        let ghost witness = choose|p: Seq<u8>| #[trigger]
                            self.book@.on_chain(chain, p) && self.book@.standings[(chain, p)] == (
                            Standing::Banned { expires: next_unban });
                        let sooner = match earliest {
                            Some(t) => next_unban < t,
                            None => true,
                        };
                        if sooner {
                            earliest = Some(next_unban);
                            assert(has_room(slots, desired@, chain) && self.book@.on_chain(
                                chain,
                                witness,
                            ));
                        }
                    },
                    AssignablePeer::NoPeer => {},
                }
            } else {
                assert(!has_room(slots, desired@, chain));
            }
            chain += 1;
        }
        match earliest {
            Some(clock) => SlotSearch::WaitUntil { clock },
            None => SlotSearch::Idle,
        }
    }

    /// Gives `peer_id` a slot on `chain_id`. The network state machine is to
    /// be told that a gossip link with the peer is wanted.
    pub fn on_can_assign_slot(&mut self, chain_id: usize, peer_id: PeerId) -> (command: NetworkCommand)
        requires
            old(self).wf(),
        ensures
            final(self).wf(),
            final(self)@ == (CoordinatorModel {
                book: old(self)@.book.with_standing(chain_id, peer_id@, Standing::Slot),
                ..old(self)@
            }),
            command@ == (CommandModel::GossipInsertDesired { chain_id, peer: peer_id@ }),
    {
        self.book.assign_slot(chain_id, &peer_id);
        NetworkCommand::GossipInsertDesired { chain_id, peer_id }
    }

    /// Picks an address through which to connect to `peer_id`, with which a
    /// gossip link is wanted and to which no connection leads. If the book
    /// has none that is not tried already, the peer loses its slots and is
    /// banned on all its chains for `NO_ADDRESS_BAN_MS`.
    pub fn on_can_start_connect(&mut self, peer_id: PeerId, now: u64) -> (step: ConnectStep)
        requires
            old(self).wf(),
            now + NO_ADDRESS_BAN_MS <= u64::MAX,
        ensures
            final(self).wf(),
            final(self)@ == (CoordinatorModel { book: final(self)@.book, ..old(self)@ }),
            match step {
                ConnectStep::Dial { address } => addr_to_connected_outcome(
                    old(self)@.book,
                    peer_id@,
                    Some(address@),
                    final(self)@.book,
                ),
                ConnectStep::NoAddress { command } => {
                    &&& addr_to_connected_outcome(
                        old(self)@.book,
                        peer_id@,
                        None,
                        old(self)@.book,
                    )
                    &&& final(self)@.book == old(self)@.book.with_bans(
                        peer_id@,
                        (now + NO_ADDRESS_BAN_MS) as u64,
                    )
                    &&& command@ == (CommandModel::GossipRemoveDesiredAll { peer: peer_id@ })
                },
            },
    {
        match self.book.addr_to_connected(&peer_id) {
            Some(address) => ConnectStep::Dial { address },
            None => {
                self.book.unassign_slots_and_ban(&peer_id, ban_end(now, NO_ADDRESS_BAN_MS));
                ConnectStep::NoAddress {
                    command: NetworkCommand::GossipRemoveDesiredAll { peer_id },
                }
            },
        }
    }

    /// Strikes `address` from the addresses of `peer_id`, because it cannot
    /// be dialled. Returns whether the book had it.
    pub fn on_address_unusable(&mut self, peer_id: &PeerId, address: &Multiaddr) -> (was_present: bool)
        requires
            old(self).wf(),
        ensures
            final(self).wf(),
            was_present == old(self)@.book.has_address(peer_id@, address@),
            final(self)@ == (CoordinatorModel {
                book: remove_address_outcome(old(self)@.book, peer_id@, address@),
                ..old(self)@
            }),
    {
        self.book.remove_address(peer_id, address.as_bytes())
    }

    /// Enters a connection that was handed to the network state machine, with
    /// what its messages are to be handed to. Returns what stood under the
    /// handle before, if something did.
    pub fn on_connection_started(&mut self, id: ConnectionId, handle: T) -> (previous: Option<T>)
        requires
            old(self).wf(),
        ensures
            final(self).wf(),
            final(self)@ == (CoordinatorModel {
                connections: old(self)@.connections.insert(id, handle),
                ..old(self)@
            }),
            match previous {
                Some(p) => old(self)@.connections.contains_key(id) && p
                    == old(self)@.connections[id],
                None => !old(self)@.connections.contains_key(id),
            },
    {
        self.connections.insert(id, handle)
    }

    /// What the messages for connection `id` are to be handed to, if the
    /// connection is in the table.
    pub fn connection(&self, id: &ConnectionId) -> (handle: Option<&T>)
        requires
            self.wf(),
        ensures
            match handle {
                Some(h) => self@.connections.contains_key(*id) && *h == self@.connections[*id],
                None => !self@.connections.contains_key(*id),
            },
    {
        self.connections.get(id)
    }

    /// Takes note that the handshake of a connection is over and that the
    /// remote is `peer_id`. If another peer, `expected_peer_id`, was expected
    /// at `remote_addr`, the address is struck from that peer and recorded as
    /// a connected address of the peer that answered. Returns whether that
    /// was so.
    pub fn on_handshake_finished(
        &mut self,
        peer_id: &PeerId,
        expected_peer_id: Option<&PeerId>,
        remote_addr: &Multiaddr,
    ) -> (mismatch: bool)
        requires
            old(self).wf(),
        ensures
            final(self).wf(),
            mismatch == (expected_peer_id is Some && expected_peer_id->Some_0@ != peer_id@),
            final(self)@ == (CoordinatorModel { book: final(self)@.book, ..old(self)@ }),
            !mismatch ==> final(self)@.book == old(self)@.book,
            mismatch ==> exists|result: InsertAddressResult| #[trigger]
                insert_address_outcome(
                    remove_address_outcome(
                        old(self)@.book,
                        expected_peer_id->Some_0@,
                        remote_addr@,
                    ),
                    peer_id@,
                    remote_addr@,
                    MAX_ADDRESSES_PER_PEER,
                    true,
                    result,
                    final(self)@.book,
                ),
    {
        match expected_peer_id {
            Some(expected) => {
                if expected.same_as(peer_id) {
                    false
                } else {
                    self.book.remove_address(expected, remote_addr.as_bytes());
                    let ghost mid = self.book@;
                    assert(mid == remove_address_outcome(
                        old(self)@.book,
                        expected@,
                        remote_addr@,
                    ));
                    let result = self.book.insert_or_set_connected_address(
                        peer_id,
                        remote_addr,
                        MAX_ADDRESSES_PER_PEER,
                    );
                    assert(insert_address_outcome(
                        remove_address_outcome(
                            old(self)@.book,
                            expected_peer_id->Some_0@,
                            remote_addr@,
                        ),
                        peer_id@,
                        remote_addr@,
                        MAX_ADDRESSES_PER_PEER,
                        true,
                        result,
                        self@.book,
                    ));
                    true
                }
            },
            None => false,
        }
    }

    /// Takes note that connection `id`, which led through `address`, has
    /// ended: the connection leaves the table, and if `peer_id` says whose
    /// address it was, the book counts the address as no longer connected.
    /// Returns what the messages of the connection were handed to, if the
    /// table had it, and what the book answered.
    pub fn on_disconnected(&mut self, id: &ConnectionId, address: &Vec<u8>, peer_id: Option<&PeerId>) -> (outcome:
        (Option<T>, Result<(), DisconnectAddrError>))
        requires
            old(self).wf(),
        ensures
            final(self).wf(),
            final(self)@ == (CoordinatorModel {
                book: final(self)@.book,
                connections: old(self)@.connections.remove(*id),
                ..old(self)@
            }),
            match outcome.0 {
                Some(h) => old(self)@.connections.contains_key(*id) && h
                    == old(self)@.connections[*id],
                None => !old(self)@.connections.contains_key(*id),
            },
            match peer_id {
                Some(peer) => disconnect_addr_outcome(
                    old(self)@.book,
                    peer@,
                    address@,
                    outcome.1,
                    final(self)@.book,
                ),
                None => outcome.1 is Ok && final(self)@.book == old(self)@.book,
            },
    {
        let handle = self.connections.remove(id);
        let answer = match peer_id {
            Some(peer) => self.book.disconnect_addr(peer, address),
            None => Ok(()),
        };
        (handle, answer)
    }

    /// Takes note that a gossip link is open: the subscribers are to learn of
    /// it. No event may be waiting for them.
    pub fn on_gossip_connected(
        &mut self,
        peer_id: PeerId,
        chain_id: usize,
        role: crate::events::Role,
        best_number: u64,
        best_hash: [u8; 32],
    )
        requires
            old(self).wf(),
            old(self)@.staged is None,
        ensures
            final(self).wf(),
            final(self)@ == (CoordinatorModel {
                staged: Some(
                    Event::Connected {
                        peer_id,
                        chain_id,
                        role,
                        best_block_number: best_number,
                        best_block_hash: best_hash,
                    },
                ),
                ..old(self)@
            }),
    {
        self.stage(
            Event::Connected {
                peer_id,
                chain_id,
                role,
                best_block_number: best_number,
                best_block_hash: best_hash,
            },
        );
    }

    /// Takes note that a peer announced a block: the subscribers are to learn
    /// of it. No event may be waiting for them.
    pub fn on_block_announce(
        &mut self,
        peer_id: PeerId,
        chain_id: usize,
        announce: smoldot::network::service::EncodedBlockAnnounce,
    )
        requires
            old(self).wf(),
            old(self)@.staged is None,
        ensures
            final(self).wf(),
            final(self)@ == (CoordinatorModel {
                staged: Some(Event::BlockAnnounce { peer_id, chain_id, announce }),
                ..old(self)@
            }),
    {
        self.stage(Event::BlockAnnounce { peer_id, chain_id, announce });
    }

    /// Takes note that a peer told how far it has finalized: the subscribers
    /// are to learn of the height. No event may be waiting for them.
    pub fn on_grandpa_neighbor_packet(
        &mut self,
        peer_id: PeerId,
        chain_id: usize,
        commit_finalized_height: u64,
    )
        requires
            old(self).wf(),
            old(self)@.staged is None,
        ensures
            final(self).wf(),
            final(self)@ == (CoordinatorModel {
                staged: Some(
                    Event::GrandpaNeighborPacket {
                        peer_id,
                        chain_id,
                        finalized_block_height: commit_finalized_height,
                    },
                ),
                ..old(self)@
            }),
    {
        self.stage(
            Event::GrandpaNeighborPacket {
                peer_id,
                chain_id,
                finalized_block_height: commit_finalized_height,
            },
        );
    }

    /// Takes note of a commit message: the subscribers are to learn of it. No
    /// event may be waiting for them.
    pub fn on_grandpa_commit_message(
        &mut self,
        peer_id: PeerId,
        chain_id: usize,
        message: smoldot::network::service::EncodedGrandpaCommitMessage,
    )
        requires
            old(self).wf(),
            old(self)@.staged is None,
        ensures
            final(self).wf(),
            final(self)@ == (CoordinatorModel {
                staged: Some(Event::GrandpaCommitMessage { peer_id, chain_id, message }),
                ..old(self)@
            }),
    {
        self.stage(Event::GrandpaCommitMessage { peer_id, chain_id, message });
    }

    /// Takes note that opening a gossip link with `peer_id` on `chain_id`
    /// failed. If it failed because the chain of the peer starts from another
    /// block, the peer leaves the chain for good; else it loses its slot and
    /// is banned on the chain for `GOSSIP_OPEN_FAILED_BAN_MS`. Either way the
    /// network state machine is to be told that no gossip link with the peer
    /// is wanted any more.
    pub fn on_gossip_open_failed(
        &mut self,
        peer_id: PeerId,
        chain_id: usize,
        genesis_mismatch: bool,
        now: u64,
    ) -> (command: NetworkCommand)
        requires
            old(self).wf(),
            !genesis_mismatch ==> now + GOSSIP_OPEN_FAILED_BAN_MS <= u64::MAX,
        ensures
            final(self).wf(),
            final(self)@ == (CoordinatorModel {
                book: if genesis_mismatch {
                    remove_chain_peer_outcome(old(self)@.book, chain_id, peer_id@)
                } else {
                    ban_outcome(
                        old(self)@.book,
                        chain_id,
                        peer_id@,
                        (now + GOSSIP_OPEN_FAILED_BAN_MS) as u64,
                    )
                },
                ..old(self)@
            }),
            genesis_mismatch ==> !final(self)@.book.on_chain(chain_id, peer_id@),
            command@ == (CommandModel::GossipRemoveDesired { chain_id, peer: peer_id@ }),
    {
        if genesis_mismatch {
            self.book.unassign_slot_and_remove_chain_peer(chain_id, &peer_id);
        } else {
            self.book.unassign_slot_and_ban(
                chain_id,
                &peer_id,
                ban_end(now, GOSSIP_OPEN_FAILED_BAN_MS),
            );
        }
        NetworkCommand::GossipRemoveDesired { chain_id, peer_id }
    }

    /// Takes note that the gossip link with `peer_id` on `chain_id` closed:
    /// the peer loses its slot and is banned on the chain for
    /// `GOSSIP_CLOSED_BAN_MS`, the subscribers are to learn of it, and the
    /// network state machine is to be told that no gossip link with the peer
    /// is wanted any more. No event may be waiting for the subscribers.
    pub fn on_gossip_disconnected(&mut self, peer_id: PeerId, chain_id: usize, now: u64) -> (command:
        NetworkCommand)
        requires
            old(self).wf(),
            old(self)@.staged is None,
            now + GOSSIP_CLOSED_BAN_MS <= u64::MAX,
        ensures
            final(self).wf(),
            final(self)@ == (CoordinatorModel {
                book: ban_outcome(
                    old(self)@.book,
                    chain_id,
                    peer_id@,
                    (now + GOSSIP_CLOSED_BAN_MS) as u64,
                ),
                staged: Some(Event::Disconnected { peer_id, chain_id }),
                ..old(self)@
            }),
            command@ == (CommandModel::GossipRemoveDesired { chain_id, peer: peer_id@ }),
    {
        self.book.unassign_slot_and_ban(chain_id, &peer_id, ban_end(now, GOSSIP_CLOSED_BAN_MS));
        let for_command = peer_id.duplicate();
        self.stage(Event::Disconnected { peer_id, chain_id });
        NetworkCommand::GossipRemoveDesired { chain_id, peer_id: for_command }
    }

    /// Takes note of what became of a request for blocks that was handed to the network
    /// state machine. If it was started, `slot` waits for the answer under
    /// the handle of the substream. If it was refused, because no connection
    /// leads to the target, `slot` comes back at once with the error
    /// to put into it.
    pub fn begin_blocks_request(&mut self, started: Result<SubstreamId, StartRequestError>, slot: B) -> (refused:
        Option<(B, BlocksRequestError)>)
        requires
            old(self).wf(),
        ensures
            final(self).wf(),
            match started {
                Ok(id) => refused is None && final(self)@ == (CoordinatorModel {
                    requests: RegistryModel {
                        blocks: old(self)@.requests.blocks.insert(id, slot),
                        ..old(self)@.requests
                    },
                    ..old(self)@
                }),
                Err(StartRequestError::NoConnection) => refused == Some(
                    (slot, BlocksRequestError::NoConnection),
                ) && final(self)@ == old(self)@,
            },
    {
        self.requests.begin_blocks_request(started, slot)
    }

    /// Takes out the slot of a request for blocks that was answered on substream `id`, so
    /// that the answer can be put into it. The entry goes whether or not
    /// anyone still waits at the slot.
    pub fn finish_blocks_request(&mut self, id: &SubstreamId) -> (slot: Option<B>)
        requires
            old(self).wf(),
        ensures
            final(self).wf(),
            final(self)@ == (CoordinatorModel {
                requests: RegistryModel {
                    blocks: old(self)@.requests.blocks.remove(*id),
                    ..old(self)@.requests
                },
                ..old(self)@
            }),
            match slot {
                Some(s) => old(self)@.requests.blocks.contains_key(*id) && s
                    == old(self)@.requests.blocks[*id],
                None => !old(self)@.requests.blocks.contains_key(*id),
            },
    {
        self.requests.finish_blocks_request(id)
    }

    /// Takes note of what became of a warp sync request that was handed to the network
    /// state machine. If it was started, `slot` waits for the answer under
    /// the handle of the substream. If it was refused, because no connection
    /// leads to the target, `slot` comes back at once with the error
    /// to put into it.
    pub fn begin_warp_sync_request(&mut self, started: Result<SubstreamId, StartRequestError>, slot: W) -> (refused:
        Option<(W, WarpSyncRequestError)>)
        requires
            old(self).wf(),
        ensures
            final(self).wf(),
            match started {
                Ok(id) => refused is None && final(self)@ == (CoordinatorModel {
                    requests: RegistryModel {
                        warp_sync: old(self)@.requests.warp_sync.insert(id, slot),
                        ..old(self)@.requests
                    },
                    ..old(self)@
                }),
                Err(StartRequestError::NoConnection) => refused == Some(
                    (slot, WarpSyncRequestError::NoConnection),
                ) && final(self)@ == old(self)@,
            },
    {
        self.requests.begin_warp_sync_request(started, slot)
    }

    /// Takes out the slot of a warp sync request that was answered on substream `id`, so
    /// that the answer can be put into it. The entry goes whether or not
    /// anyone still waits at the slot.
    pub fn finish_warp_sync_request(&mut self, id: &SubstreamId) -> (slot: Option<W>)
        requires
            old(self).wf(),
        ensures
            final(self).wf(),
            final(self)@ == (CoordinatorModel {
                requests: RegistryModel {
                    warp_sync: old(self)@.requests.warp_sync.remove(*id),
                    ..old(self)@.requests
                },
                ..old(self)@
            }),
            match slot {
                Some(s) => old(self)@.requests.warp_sync.contains_key(*id) && s
                    == old(self)@.requests.warp_sync[*id],
                None => !old(self)@.requests.warp_sync.contains_key(*id),
            },
    {
        self.requests.finish_warp_sync_request(id)
    }

    /// Takes note of what became of a request for a storage proof that was handed to the network
    /// state machine. If it was started, `slot` waits for the answer under
    /// the handle of the substream. If it was refused, because no connection
    /// leads to the target or because it is too large, `slot` comes back at once with the error
    /// to put into it.
    pub fn begin_storage_proof_request(&mut self, started: Result<SubstreamId, StartRequestMaybeTooLargeError>, slot: S) -> (refused:
        Option<(S, StorageProofRequestError)>)
        requires
            old(self).wf(),
        ensures
            final(self).wf(),
            match started {
                Ok(id) => refused is None && final(self)@ == (CoordinatorModel {
                    requests: RegistryModel {
                        storage_proof: old(self)@.requests.storage_proof.insert(id, slot),
                        ..old(self)@.requests
                    },
                    ..old(self)@
                }),
                Err(StartRequestMaybeTooLargeError::NoConnection) => refused == Some(
                    (slot, StorageProofRequestError::NoConnection),
                ) && final(self)@ == old(self)@,
                Err(StartRequestMaybeTooLargeError::RequestTooLarge) => refused == Some(
                    (slot, StorageProofRequestError::RequestTooLarge),
                ) && final(self)@ == old(self)@,
            },
    {
        self.requests.begin_storage_proof_request(started, slot)
    }

    /// Takes out the slot of a request for a storage proof that was answered on substream `id`, so
    /// that the answer can be put into it. The entry goes whether or not
    /// anyone still waits at the slot.
    pub fn finish_storage_proof_request(&mut self, id: &SubstreamId) -> (slot: Option<S>)
        requires
            old(self).wf(),
        ensures
            final(self).wf(),
            final(self)@ == (CoordinatorModel {
                requests: RegistryModel {
                    storage_proof: old(self)@.requests.storage_proof.remove(*id),
                    ..old(self)@.requests
                },
                ..old(self)@
            }),
            match slot {
                Some(s) => old(self)@.requests.storage_proof.contains_key(*id) && s
                    == old(self)@.requests.storage_proof[*id],
                None => !old(self)@.requests.storage_proof.contains_key(*id),
            },
    {
        self.requests.finish_storage_proof_request(id)
    }

    /// Takes note of what became of a request for a call proof that was handed to the network
    /// state machine. If it was started, `slot` waits for the answer under
    /// the handle of the substream. If it was refused, because no connection
    /// leads to the target or because it is too large, `slot` comes back at once with the error
    /// to put into it.
    pub fn begin_call_proof_request(&mut self, started: Result<SubstreamId, StartRequestMaybeTooLargeError>, slot: C) -> (refused:
        Option<(C, CallProofRequestError)>)
        requires
            old(self).wf(),
        ensures
            final(self).wf(),
            match started {
                Ok(id) => refused is None && final(self)@ == (CoordinatorModel {
                    requests: RegistryModel {
                        call_proof: old(self)@.requests.call_proof.insert(id, slot),
                        ..old(self)@.requests
                    },
                    ..old(self)@
                }),
                Err(StartRequestMaybeTooLargeError::NoConnection) => refused == Some(
                    (slot, CallProofRequestError::NoConnection),
                ) && final(self)@ == old(self)@,
                Err(StartRequestMaybeTooLargeError::RequestTooLarge) => refused == Some(
                    (slot, CallProofRequestError::RequestTooLarge),
                ) && final(self)@ == old(self)@,
            },
    {
        self.requests.begin_call_proof_request(started, slot)
    }

    /// Takes out the slot of a request for a call proof that was answered on substream `id`, so
    /// that the answer can be put into it. The entry goes whether or not
    /// anyone still waits at the slot.
    pub fn finish_call_proof_request(&mut self, id: &SubstreamId) -> (slot: Option<C>)
        requires
            old(self).wf(),
        ensures
            final(self).wf(),
            final(self)@ == (CoordinatorModel {
                requests: RegistryModel {
                    call_proof: old(self)@.requests.call_proof.remove(*id),
                    ..old(self)@.requests
                },
                ..old(self)@
            }),
            match slot {
                Some(s) => old(self)@.requests.call_proof.contains_key(*id) && s
                    == old(self)@.requests.call_proof[*id],
                None => !old(self)@.requests.call_proof.contains_key(*id),
            },
    {
        self.requests.finish_call_proof_request(id)
    }

    /// Takes note that a request to find nodes was started for `chain_id` on
    /// substream `id`. Returns the chain that stood under the handle before, if
    /// one did.
    pub fn on_find_node_started(&mut self, id: SubstreamId, chain_id: usize) -> (previous: Option<usize>)
        requires
            old(self).wf(),
        ensures
            final(self).wf(),
            final(self)@ == (CoordinatorModel {
                requests: RegistryModel {
                    find_node: old(self)@.requests.find_node.insert(id, chain_id),
                    ..old(self)@.requests
                },
                ..old(self)@
            }),
            match previous {
                Some(c) => old(self)@.requests.find_node.contains_key(id) && c
                    == old(self)@.requests.find_node[id],
                None => !old(self)@.requests.find_node.contains_key(id),
            },
    {
        self.requests.begin_find_node_request(id, chain_id)
    }

    /// Draws a key and prepares the request with which `chain_id` is explored
    /// once more: the request that `find_node_query` gives for the key that
    /// was drawn.
    pub fn plan_find_node(&mut self, chain_id: usize, target: Option<PeerId>) -> (query: Option<
        FindNodeQuery,
    >)
        requires
            old(self).wf(),
        ensures
            final(self).wf(),
            final(self)@ == old(self)@,
            target is None ==> query is None,
            target is Some ==> query is Some && query->Some_0.chain_id == chain_id
                && query->Some_0.target == target->Some_0 && query->Some_0.timeout_secs
                == FIND_NODE_TIMEOUT_SECS,
            target is Some ==> exists|key: Seq<u8>|
                key.len() == 32 && query->Some_0.near@ == #[trigger] ed25519_peer_id(key),
    {
        let key = draw_key(&mut self.generator);
        let query = find_node_query(chain_id, target, &key);
        assert(target is Some ==> query->Some_0.near@ == ed25519_peer_id(key@));
        query
    }

    /// Prepares a round of discovery: for each chain, in their order, a key is
    /// drawn, and the chain is explored through `targets[chain]`, a peer with
    /// an open gossip link on it, if there is one. A chain without such a peer
    /// is passed over.
    pub fn plan_discovery_round(&mut self, targets: &Vec<Option<PeerId>>) -> (queries: Vec<FindNodeQuery>)
        requires
            old(self).wf(),
        ensures
            final(self).wf(),
            final(self)@ == old(self)@,
            queries@.map_values(|query: FindNodeQuery| query.chain_id) == chains_with_target(
                targets@,
            ),
            forall|i: int|
                0 <= i < queries.len() ==> {
                    let query = #[trigger] queries[i];
                    &&& query.chain_id < targets.len()
                    &&& targets[query.chain_id as int] is Some
                    &&& targets[query.chain_id as int]->Some_0@ == query.target@
                    &&& query.timeout_secs == FIND_NODE_TIMEOUT_SECS
                    &&& exists|key: Seq<u8>|
                        key.len() == 32 && query.near@ == #[trigger] ed25519_peer_id(key)
                },
    {
        let mut queries: Vec<FindNodeQuery> = Vec::new();
        let mut chain: usize = 0;
        proof {
            assert(queries@.map_values(|query: FindNodeQuery| query.chain_id) =~= Seq::<
                usize,
            >::empty());
        }
        while chain < targets.len()
            invariant
                chain <= targets.len(),
                self.wf(),
                self@ == old(self)@,
                queries@.map_values(|query: FindNodeQuery| query.chain_id) == chains_with_target(
                    targets@.take(chain as int),
                ),
                forall|i: int|
                    0 <= i < queries.len() ==> {
                        let query = #[trigger] queries[i];
                        &&& query.chain_id < chain
                        &&& targets[query.chain_id as int] is Some
                        &&& targets[query.chain_id as int]->Some_0@ == query.target@
                        &&& query.timeout_secs == FIND_NODE_TIMEOUT_SECS
                        &&& exists|key: Seq<u8>|
                            key.len() == 32 && query.near@ == #[trigger] ed25519_peer_id(key)
                    },
            decreases targets.len() - chain,
        {
            let ghost before = queries@.map_values(|query: FindNodeQuery| query.chain_id);
            proof {
                let next = targets@.take(chain + 1);
                assert(next.drop_last() =~= targets@.take(chain as int));
            }
            let target = match &targets[chain] {
                Some(peer) => Some(peer.duplicate()),
                None => None,
            };
            match self.plan_find_node(chain, target) {
                Some(query) => {
                    queries.push(query);
                    assert(queries@.map_values(|query: FindNodeQuery| query.chain_id)
                        =~= before.push(chain));
                },
                None => {},
            }
            chain += 1;
        }
        assert(targets@.take(targets.len() as int) =~= targets@);
        queries
    }

    /// Takes in the answer to the request to find nodes that ran on substream
    /// `id`: the request leaves the registry, and what the answer reports, if
    /// it reports anything, enters the book for the chain that the request
    /// was made for. Returns that chain, if the registry had the request.
    pub fn on_find_node_result(&mut self, id: &SubstreamId, nodes: Option<&Vec<(PeerId, Vec<Vec<u8>>)>>) -> (chain:
        Option<usize>)
        requires
            old(self).wf(),
        ensures
            final(self).wf(),
            final(self)@ == (CoordinatorModel {
                book: final(self)@.book,
                requests: RegistryModel {
                    find_node: old(self)@.requests.find_node.remove(*id),
                    ..old(self)@.requests
                },
                ..old(self)@
            }),
            match chain {
                Some(c) => old(self)@.requests.find_node.contains_key(*id) && c
                    == old(self)@.requests.find_node[*id],
                None => !old(self)@.requests.find_node.contains_key(*id),
            },
            match (chain, nodes) {
                (Some(c), Some(reported)) => response_absorbed(
                    old(self)@.book,
                    c,
                    report_view(reported@),
                    final(self)@.book,
                ),
                _ => final(self)@.book == old(self)@.book,
            },
    {
        let chain = self.requests.finish_find_node_request(id);
        match (chain, nodes) {
            (Some(c), Some(reported)) => {
                absorb_find_node_response(&mut self.book, c, reported);
            },
            _ => {},
        }
        chain
    }
}

} // verus!
