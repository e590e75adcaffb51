//! What the operations of the library guarantee when they are taken together.

use vstd::prelude::*;
use smoldot::network::service::SubstreamId;
use crate::book_model::{
    addr_to_connected_outcome, all_hold_slots, ban_outcome, disconnect_addr_outcome,
    insert_address_outcome, insert_chain_peer_outcome, pick_assignable_outcome,
    remove_address_outcome, remove_chain_peer_outcome, BookModel, DisconnectAddrError,
    InsertAddressResult, InsertionModel, PickModel, Standing,
};
use crate::coordinator::{has_room, slot_search_outcome, SlotSearch};
use crate::discovery::{accepted_addresses, node_absorbed, reported_addresses, response_absorbed};
use crate::events::CommandModel;
use crate::book_proofs::lemma_insert_chain_peer_wf;
use crate::discovery::{
    addresses_added, is_listing_of, peer_discovered, peers_discovered, MAX_ADDRESSES_PER_PEER,
    MAX_PEERS_PER_CHAIN,
};
use crate::identity::{is_address, is_peer_id};

verus! {

/// What holds of the addresses of a peer while addresses from `given` are
/// recorded for it and it had none before: each is one of `given` and is not
/// connected, and there are fewer of them than the book keeps at most.
pub open spec fn fresh_addresses(book: BookModel, peer: Seq<u8>, given: Seq<Seq<u8>>) -> bool {
    &&& forall|address: Seq<u8>| #[trigger]
        book.has_address(peer, address) ==> given.contains(address) && !book.addresses[(
            peer,
            address,
        )]
    &&& book.peer_addresses(peer).finite()
    &&& book.peer_addresses(peer).len() < MAX_ADDRESSES_PER_PEER
    &&& !book.other_has_empty_address(peer)
}

/// Recording one more address keeps `fresh_addresses`, and the peers on the
/// chains stay.
proof fn lemma_fresh_step(
    pre: BookModel,
    peer: Seq<u8>,
    given: Seq<Seq<u8>>,
    address: Seq<u8>,
    result: InsertAddressResult,
    post: BookModel,
)
    requires
        fresh_addresses(pre, peer, given),
        given.contains(address),
        insert_address_outcome(pre, peer, address, MAX_ADDRESSES_PER_PEER, false, result, post),
    ensures
        fresh_addresses(post, peer, given),
        post.standings == pre.standings,
{
    let before = pre.peer_addresses(peer);
    let after = post.peer_addresses(peer);
    if post.other_has_empty_address(peer) {
        let other = choose|other: Seq<u8>|
            other != peer && #[trigger] post.has_address(other, Seq::empty());
        assert(pre.has_address(other, Seq::empty()));
    }
    match result {
        InsertAddressResult::UnknownPeer => {},
        InsertAddressResult::Duplicate => {},
        InsertAddressResult::Inserted { address_removed: None } => {
            assert(after =~= before.insert(address));
            assert(!before.contains(address));
            assert forall|a: Seq<u8>| #[trigger] post.has_address(peer, a) implies given.contains(a)
                && !post.addresses[(peer, a)] by {
                if a != address {
                    assert(pre.has_address(peer, a));
                }
            }
            if !(before.len() + 1 < MAX_ADDRESSES_PER_PEER) {
                if before.len() > 0 {
                    let other = before.choose();
                    vstd::set::axiom_set_choose_len(before);
                    assert(before.contains(other));
                    assert(pre.has_address(peer, other));
                    assert(false);
                }
            }
        },
        InsertAddressResult::Inserted { address_removed: Some(victim) } => {
            if pre.other_has_idle_empty_address(peer) {
                let other = choose|other: Seq<u8>|
                    other != peer && #[trigger] pre.has_address(other, Seq::empty())
                        && !pre.addresses[(other, Seq::empty())];
                assert(pre.other_has_empty_address(peer));
            }
            assert(after =~= before.insert(address).remove(victim@));
            assert(!before.contains(address));
            assert(before.contains(victim@));
            assert forall|a: Seq<u8>| #[trigger] post.has_address(peer, a) implies given.contains(a)
                && !post.addresses[(peer, a)] by {
                if a != address {
                    assert(pre.has_address(peer, a));
                }
            }
        },
    }
}

/// Recording addresses from `given` for a peer that had none keeps
/// `fresh_addresses`, and the peers on the chains stay.
proof fn lemma_fresh_addresses_added(
    pre: BookModel,
    peer: Seq<u8>,
    given: Seq<Seq<u8>>,
    addresses: Seq<Seq<u8>>,
    post: BookModel,
)
    requires
        fresh_addresses(pre, peer, given),
        forall|i: int| 0 <= i < addresses.len() ==> given.contains(#[trigger] addresses[i]),
        addresses_added(pre, peer, addresses, post),
    ensures
        fresh_addresses(post, peer, given),
        post.standings == pre.standings,
    decreases addresses.len(),
{
    if addresses.len() > 0 {
        let (mid, result) = choose|mid: BookModel, result: InsertAddressResult|
            addresses_added(pre, peer, addresses.drop_last(), mid) && #[trigger] insert_address_outcome(
                mid,
                peer,
                addresses.last(),
                MAX_ADDRESSES_PER_PEER,
                false,
                result,
                post,
            );
        assert forall|i: int| 0 <= i < addresses.drop_last().len() implies given.contains(
            #[trigger] addresses.drop_last()[i],
        ) by {
            assert(addresses.drop_last()[i] == addresses[i]);
        }
        lemma_fresh_addresses_added(pre, peer, given, addresses.drop_last(), mid);
        assert(given.contains(addresses[addresses.len() - 1]));
        lemma_fresh_step(mid, peer, given, addresses.last(), result, post);
    }
}

/// After `discover` was called for one chain with one peer of which the book
/// had no address, a listing of the chain holds that peer, with addresses that
/// are all among those given, and with at most `MAX_ADDRESSES_PER_PEER` of
/// them. This is so while no other peer has the address without any protocol
/// among its addresses, and unless the chain is full of peers that all hold a slot,
/// where the peer does not enter.
pub proof fn discovered_peer_is_listed(
    pre: BookModel,
    chain: usize,
    peer: Seq<u8>,
    addresses: Seq<Seq<u8>>,
    post: BookModel,
    nodes: Seq<(Seq<u8>, Seq<Seq<u8>>)>,
)
    requires
        pre.wf(),
        is_peer_id(peer),
        forall|address: Seq<u8>| !pre.has_address(peer, address),
        !pre.other_has_empty_address(peer),
        pre.chain_peers(chain).len() < MAX_PEERS_PER_CHAIN || !all_hold_slots(pre, chain),
        peers_discovered(pre, chain, seq![(peer, addresses)], post),
        is_listing_of(post, chain, nodes),
    ensures
        exists|i: int|
            0 <= i < nodes.len() && (#[trigger] nodes[i]).0 == peer && nodes[i].1.len()
                <= MAX_ADDRESSES_PER_PEER && forall|k: int|
                0 <= k < nodes[i].1.len() ==> addresses.contains(#[trigger] nodes[i].1[k]),
{
    let list = seq![(peer, addresses)];
    assert(list.len() == 1);
    assert(list.last() == (peer, addresses));
    assert(list.drop_last().len() == 0);
    let start = choose|start: BookModel|
        peers_discovered(pre, chain, list.drop_last(), start) && #[trigger] peer_discovered(
            start,
            chain,
            list.last().0,
            list.last().1,
            post,
        );
    assert(start == pre);
    let (mid, result) = choose|mid: BookModel, result: InsertionModel|
        addresses_added(mid, peer, addresses, post) && #[trigger] insert_chain_peer_outcome(
            pre,
            chain,
            peer,
            MAX_PEERS_PER_CHAIN,
            result,
            mid,
        );
    lemma_insert_chain_peer_wf(pre, chain, peer, MAX_PEERS_PER_CHAIN, result, mid);
    assert forall|address: Seq<u8>| !mid.has_address(peer, address) by {
        if mid.has_address(peer, address) {
            assert(pre.has_address(peer, address));
        }
    }
    assert(mid.peer_addresses(peer) =~= Set::<Seq<u8>>::empty());
    if mid.other_has_empty_address(peer) {
        let other = choose|other: Seq<u8>|
            other != peer && #[trigger] mid.has_address(other, Seq::empty());
        assert(pre.has_address(other, Seq::empty()));
    }
    assert(fresh_addresses(mid, peer, addresses));
    assert forall|i: int| 0 <= i < addresses.len() implies addresses.contains(
        #[trigger] addresses[i],
    ) by {}
    lemma_fresh_addresses_added(mid, peer, addresses, addresses, post);
    assert(post.on_chain(chain, peer));
    let i = choose|i: int| 0 <= i < nodes.len() && (#[trigger] nodes[i]).0 == peer;
    nodes[i].1.unique_seq_to_set();
    assert forall|k: int| 0 <= k < nodes[i].1.len() implies addresses.contains(
        #[trigger] nodes[i].1[k],
    ) by {
        assert(nodes[i].1.to_set().contains(nodes[i].1[k]));
        assert(post.has_address(peer, nodes[i].1[k]));
    }
}

/// After a peer was taken off a chain, as it is when opening a gossip link to
/// it fails because its chain starts from another block, no listing of the
/// chain holds it.
pub proof fn purged_peer_is_not_listed(
    pre: BookModel,
    chain: usize,
    peer: Seq<u8>,
    nodes: Seq<(Seq<u8>, Seq<Seq<u8>>)>,
)
    requires
        is_listing_of(remove_chain_peer_outcome(pre, chain, peer), chain, nodes),
    ensures
        forall|i: int| 0 <= i < nodes.len() ==> (#[trigger] nodes[i]).0 != peer,
{
    let post = remove_chain_peer_outcome(pre, chain, peer);
    assert(!post.on_chain(chain, peer));
}

/// A request that was entered under the handle of its substream and then
/// answered leaves no entry behind: the requests that wait are those that
/// waited before, without any under that handle. Whether anyone still waits
/// at the slot plays no part, for nothing looks at the slot.
pub proof fn answered_request_leaves_no_entry<V>(
    waiting: Map<SubstreamId, V>,
    id: SubstreamId,
    slot: V,
)
    ensures
        !waiting.insert(id, slot).remove(id).contains_key(id),
        waiting.insert(id, slot).remove(id) == waiting.remove(id),
        !waiting.contains_key(id) ==> waiting.insert(id, slot).remove(id) == waiting,
{
    assert(waiting.insert(id, slot).remove(id) =~= waiting.remove(id));
    if !waiting.contains_key(id) {
        assert(waiting.remove(id) =~= waiting);
    }
}

/// A peer that was banned on a chain until `until` stays a member of the
/// chain and is not picked for a slot on that chain while the clock reads less
/// than `until`. Once the clock reads `until` or more, and unless a longer ban
/// stood already, a search of the chain picks a peer if the banned peer has an
/// address, which is that peer if the chain has no other. The peer stands on
/// its other chains as it stood, and so does every other peer.
pub proof fn banned_peer_returns_when_the_ban_ends(
    pre: BookModel,
    chain: usize,
    peer: Seq<u8>,
    until: u64,
    now: u64,
    result: PickModel,
    post: BookModel,
)
    requires
        pre.on_chain(chain, peer),
        pick_assignable_outcome(ban_outcome(pre, chain, peer, until), chain, now, result, post),
    ensures
        ban_outcome(pre, chain, peer, until).on_chain(chain, peer),
        ban_outcome(pre, chain, peer, until).addresses == pre.addresses,
        forall|key: (usize, Seq<u8>)|
            key != (chain, peer) ==> ban_outcome(pre, chain, peer, until).standings.contains_key(
                key,
            ) == #[trigger] pre.standings.contains_key(key) && (pre.standings.contains_key(key)
                ==> ban_outcome(pre, chain, peer, until).standings[key] == pre.standings[key]),
        now < until ==> result != PickModel::Assignable(peer),
        now >= until && !pre.standings[(chain, peer)].banned_through(until)
            && pre.has_some_address(peer) ==> result is Assignable,
        now >= until && !pre.standings[(chain, peer)].banned_through(until)
            && pre.has_some_address(peer) && (forall|other: Seq<u8>| #[trigger]
            pre.on_chain(chain, other) ==> other == peer) ==> result == PickModel::Assignable(
            peer,
        ),
{
    let banned = ban_outcome(pre, chain, peer, until);
    assert(banned.on_chain(chain, peer));
    assert(banned.standings.contains_key((chain, peer)));
    assert(banned.standings[(chain, peer)].banned_through(until));
    assert(post.on_chain(chain, peer));
    if now < until {
        assert(post.standings[(chain, peer)] == banned.standings[(chain, peer)]);
    }
    if now >= until && !pre.standings[(chain, peer)].banned_through(until)
        && pre.has_some_address(peer) {
        let a = choose|a: Seq<u8>| #[trigger] pre.has_address(peer, a);
        assert(banned.has_address(peer, a));
        assert(post.standings[(chain, peer)] == banned.standings[(chain, peer)]);
        if result is Assignable {
            let picked = result->Assignable_0;
            assert(post.standings.contains_key((chain, picked)));
            assert(banned.standings.contains_key((chain, picked)));
            assert(pre.on_chain(chain, picked));
        }
    }
}

/// A search for a slot to assign only ever names a chain on which fewer
/// gossip links are wanted than the chain has slots, and a peer of that chain
/// that holds no slot on it and has an address.
pub proof fn slot_is_assigned_only_where_there_is_room(
    pre: BookModel,
    slots: Seq<usize>,
    desired: Seq<usize>,
    now: u64,
    result: SlotSearch,
    post: BookModel,
)
    requires
        slot_search_outcome(pre, slots, desired, now, result, post),
        result is CanAssignSlot,
    ensures
        result->chain_id < slots.len(),
        desired[result->chain_id as int] < slots[result->chain_id as int],
        post.on_chain(result->chain_id, result->peer_id@),
        !(post.standings[(result->chain_id, result->peer_id@)] is Slot),
        exists|address: Seq<u8>| #[trigger] post.has_address(result->peer_id@, address),
        pre.on_chain(result->chain_id, result->peer_id@),
        pre.standings[(result->chain_id, result->peer_id@)] == post.standings[(
            result->chain_id,
            result->peer_id@,
        )],
        exists|address: Seq<u8>| #[trigger] pre.has_address(result->peer_id@, address),
{
    let key = (result->chain_id, result->peer_id@);
    assert(post.standings.contains_key(key));
    assert(pre.standings.contains_key(key));
    let a = choose|a: Seq<u8>| #[trigger] post.has_address(result->peer_id@, a);
    assert(pre.has_address(result->peer_id@, a));
}

/// The peers that hold a slot, each with its chain.
pub open spec fn slot_holders(book: BookModel) -> Set<(usize, Seq<u8>)> {
    Set::new(
        |key: (usize, Seq<u8>)| book.standings.contains_key(key) && book.standings[key] is Slot,
    )
}

/// The peers with which a gossip link is wanted, each with its chain, after
/// the network state machine did what `command` asks, when they were `wanted`
/// before.
pub open spec fn after_command(wanted: Set<(usize, Seq<u8>)>, command: CommandModel) -> Set<
    (usize, Seq<u8>),
> {
    match command {
        CommandModel::GossipInsertDesired { chain_id, peer } => wanted.insert((chain_id, peer)),
        CommandModel::GossipRemoveDesired { chain_id, peer } => wanted.remove((chain_id, peer)),
        CommandModel::GossipRemoveDesiredAll { peer } => Set::new(
            |key: (usize, Seq<u8>)| wanted.contains(key) && key.1 != peer,
        ),
        CommandModel::GossipOpen { .. } => wanted,
        CommandModel::GossipClose { .. } => wanted,
    }
}

/// When a peer is given a slot and the network state machine is told that a
/// gossip link with it is wanted, the peers with which a gossip link is
/// wanted are still the peers that hold a slot.
pub proof fn assigning_a_slot_keeps_links_and_slots_in_step(
    book: BookModel,
    chain: usize,
    peer: Seq<u8>,
)
    ensures
        slot_holders(book.with_standing(chain, peer, Standing::Slot)) == after_command(
            slot_holders(book),
            CommandModel::GossipInsertDesired { chain_id: chain, peer },
        ),
{
    assert(slot_holders(book.with_standing(chain, peer, Standing::Slot)) =~= after_command(
        slot_holders(book),
        CommandModel::GossipInsertDesired { chain_id: chain, peer },
    ));
}

/// The same holds when a peer is banned on a chain, or taken off it, and the
/// network state machine is told that no gossip link with it is wanted on
/// that chain.
pub proof fn banning_keeps_links_and_slots_in_step(
    book: BookModel,
    chain: usize,
    peer: Seq<u8>,
    until: u64,
)
    ensures
        slot_holders(ban_outcome(book, chain, peer, until)) == after_command(
            slot_holders(book),
            CommandModel::GossipRemoveDesired { chain_id: chain, peer },
        ),
        slot_holders(remove_chain_peer_outcome(book, chain, peer)) == after_command(
            slot_holders(book),
            CommandModel::GossipRemoveDesired { chain_id: chain, peer },
        ),
{
    assert(slot_holders(ban_outcome(book, chain, peer, until)) =~= after_command(
        slot_holders(book),
        CommandModel::GossipRemoveDesired { chain_id: chain, peer },
    ));
    assert(slot_holders(remove_chain_peer_outcome(book, chain, peer)) =~= after_command(
        slot_holders(book),
        CommandModel::GossipRemoveDesired { chain_id: chain, peer },
    ));
}

/// The same holds when a peer is banned on all its chains and the network
/// state machine is told that no gossip link with it is wanted on any chain.
pub proof fn banning_everywhere_keeps_links_and_slots_in_step(
    book: BookModel,
    peer: Seq<u8>,
    until: u64,
)
    ensures
        slot_holders(book.with_bans(peer, until)) == after_command(
            slot_holders(book),
            CommandModel::GossipRemoveDesiredAll { peer },
        ),
{
    assert(slot_holders(book.with_bans(peer, until)) =~= after_command(
        slot_holders(book),
        CommandModel::GossipRemoveDesiredAll { peer },
    ));
}

/// Inserting a peer into a chain takes no slot away and gives none.
pub proof fn inserting_a_peer_leaves_the_slots(
    pre: BookModel,
    chain: usize,
    peer: Seq<u8>,
    max: usize,
    result: InsertionModel,
    post: BookModel,
)
    requires
        insert_chain_peer_outcome(pre, chain, peer, max, result, post),
    ensures
        slot_holders(post) == slot_holders(pre),
{
    assert(slot_holders(post) =~= slot_holders(pre));
}

/// Recording addresses for a peer leaves every peer standing as it stood.
pub proof fn adding_addresses_leaves_the_standings(
    pre: BookModel,
    peer: Seq<u8>,
    addresses: Seq<Seq<u8>>,
    post: BookModel,
)
    requires
        addresses_added(pre, peer, addresses, post),
    ensures
        post.standings == pre.standings,
    decreases addresses.len(),
{
    if addresses.len() > 0 {
        let (mid, result) = choose|mid: BookModel, result: InsertAddressResult|
            addresses_added(pre, peer, addresses.drop_last(), mid) && #[trigger] insert_address_outcome(
                mid,
                peer,
                addresses.last(),
                MAX_ADDRESSES_PER_PEER,
                false,
                result,
                post,
            );
        adding_addresses_leaves_the_standings(pre, peer, addresses.drop_last(), mid);
    }
}

/// Discovering a peer takes no slot away and gives none.
pub proof fn discovering_a_peer_leaves_the_slots(
    pre: BookModel,
    chain: usize,
    peer: Seq<u8>,
    addresses: Seq<Seq<u8>>,
    post: BookModel,
)
    requires
        peer_discovered(pre, chain, peer, addresses, post),
    ensures
        slot_holders(post) == slot_holders(pre),
{
    let (mid, result) = choose|mid: BookModel, result: InsertionModel|
        addresses_added(mid, peer, addresses, post) && #[trigger] insert_chain_peer_outcome(
            pre,
            chain,
            peer,
            MAX_PEERS_PER_CHAIN,
            result,
            mid,
        );
    inserting_a_peer_leaves_the_slots(pre, chain, peer, MAX_PEERS_PER_CHAIN, result, mid);
    adding_addresses_leaves_the_standings(mid, peer, addresses, post);
}

/// Discovering peers, whether they were named by the user or reported by
/// another node, takes no slot away and gives none: the peers with which a
/// gossip link is wanted stay the peers that hold a slot without anything
/// being asked of the network state machine.
pub proof fn discovery_leaves_the_slots(
    pre: BookModel,
    chain: usize,
    list: Seq<(Seq<u8>, Seq<Seq<u8>>)>,
    post: BookModel,
)
    requires
        peers_discovered(pre, chain, list, post) || response_absorbed(pre, chain, list, post),
    ensures
        slot_holders(post) == slot_holders(pre),
    decreases list.len(),
{
    if list.len() > 0 {
        if peers_discovered(pre, chain, list, post) {
            let mid = choose|mid: BookModel|
                peers_discovered(pre, chain, list.drop_last(), mid) && #[trigger] peer_discovered(
                    mid,
                    chain,
                    list.last().0,
                    list.last().1,
                    post,
                );
            discovery_leaves_the_slots(pre, chain, list.drop_last(), mid);
            discovering_a_peer_leaves_the_slots(mid, chain, list.last().0, list.last().1, post);
        } else {
            let mid = choose|mid: BookModel|
                response_absorbed(pre, chain, list.drop_last(), mid) && #[trigger] node_absorbed(
                    mid,
                    chain,
                    list.last().0,
                    list.last().1,
                    post,
                );
            discovery_leaves_the_slots(pre, chain, list.drop_last(), mid);
            if crate::discovery::reported_addresses(list.last().1).len() > 0 {
                discovering_a_peer_leaves_the_slots(
                    mid,
                    chain,
                    list.last().0,
                    crate::discovery::reported_addresses(list.last().1),
                    post,
                );
            }
        }
    }
}

/// What is done about the addresses of a peer when a connection to it is
/// started, when its handshake ends, or when it ends, leaves every peer
/// standing as it stood.
pub proof fn connections_leave_the_standings(
    pre: BookModel,
    peer: Seq<u8>,
    address: Seq<u8>,
    picked: Option<Seq<u8>>,
    inserted: InsertAddressResult,
    max: usize,
    connected: bool,
    disconnected: Result<(), DisconnectAddrError>,
    post: BookModel,
)
    requires
        addr_to_connected_outcome(pre, peer, picked, post) || post == remove_address_outcome(
            pre,
            peer,
            address,
        ) || insert_address_outcome(pre, peer, address, max, connected, inserted, post)
            || disconnect_addr_outcome(pre, peer, address, disconnected, post),
    ensures
        post.standings == pre.standings,
{
}

/// A search for a slot to assign takes no slot away and gives none.
pub proof fn searching_leaves_the_slots(
    pre: BookModel,
    slots: Seq<usize>,
    desired: Seq<usize>,
    now: u64,
    result: SlotSearch,
    post: BookModel,
)
    requires
        slot_search_outcome(pre, slots, desired, now, result, post),
    ensures
        slot_holders(post) == slot_holders(pre),
{
    assert forall|key: (usize, Seq<u8>)|
        slot_holders(post).contains(key) == slot_holders(pre).contains(key) by {
        assert(post.standings.contains_key(key) == pre.standings.contains_key(key));
    }
    assert(slot_holders(post) =~= slot_holders(pre));
}

/// When a chain has as many peers with a slot as gossip links are wanted on
/// it, and a search finds a slot to assign on it, then after the slot is
/// assigned the chain still has no more peers with a slot than it has slots.
pub proof fn assigning_a_found_slot_keeps_the_limit(
    pre: BookModel,
    slots: Seq<usize>,
    desired: Seq<usize>,
    now: u64,
    found: SlotSearch,
    post: BookModel,
)
    requires
        slot_search_outcome(pre, slots, desired, now, found, post),
        found is CanAssignSlot,
        slot_holders(pre).filter(|key: (usize, Seq<u8>)| key.0 == found->chain_id).finite(),
        slot_holders(pre).filter(|key: (usize, Seq<u8>)| key.0 == found->chain_id).len()
            == desired[found->chain_id as int],
    ensures
        slot_holders(
            post.with_standing(found->chain_id, found->peer_id@, Standing::Slot),
        ).filter(|key: (usize, Seq<u8>)| key.0 == found->chain_id).len()
            <= slots[found->chain_id as int],
{
    let chain = found->chain_id;
    let peer = found->peer_id@;
    searching_leaves_the_slots(pre, slots, desired, now, found, post);
    let before = slot_holders(post).filter(|key: (usize, Seq<u8>)| key.0 == chain);
    let after = slot_holders(post.with_standing(chain, peer, Standing::Slot)).filter(
        |key: (usize, Seq<u8>)| key.0 == chain,
    );
    assert(after =~= before.insert((chain, peer)));
    assert(!before.contains((chain, peer)));
}

/// A search for a slot to assign names no peer on a chain that the peer does
/// not belong to, as after it was taken off the chain, and none that is banned
/// on the chain beyond the reading of the clock.
pub proof fn absent_and_banned_peers_are_not_named(
    pre: BookModel,
    slots: Seq<usize>,
    desired: Seq<usize>,
    now: u64,
    found: SlotSearch,
    post: BookModel,
    chain: usize,
    peer: Seq<u8>,
)
    requires
        slot_search_outcome(pre, slots, desired, now, found, post),
        !pre.on_chain(chain, peer) || !pre.standings[(chain, peer)].free_at(now),
    ensures
        !(found is CanAssignSlot && found->chain_id == chain && found->peer_id@ == peer),
{
    if found is CanAssignSlot && found->chain_id == chain && found->peer_id@ == peer {
        slot_is_assigned_only_where_there_is_room(pre, slots, desired, now, found, post);
    }
}

/// Where a chain has room and one of its peers is free and has an address,
/// and no other peer of a chain with room is free, a search for a slot to
/// assign names that peer on that chain.
pub proof fn the_only_free_peer_is_named(
    pre: BookModel,
    slots: Seq<usize>,
    desired: Seq<usize>,
    now: u64,
    found: SlotSearch,
    post: BookModel,
    chain: usize,
    peer: Seq<u8>,
)
    requires
        slot_search_outcome(pre, slots, desired, now, found, post),
        has_room(slots, desired, chain),
        pre.on_chain(chain, peer),
        pre.standings[(chain, peer)].free_at(now),
        pre.has_some_address(peer),
        forall|c: usize, q: Seq<u8>|
            has_room(slots, desired, c) && #[trigger] pre.on_chain(c, q) && (c, q) != (chain, peer)
                ==> !pre.standings[(c, q)].free_at(now),
    ensures
        found is CanAssignSlot,
        found->chain_id == chain,
        found->peer_id@ == peer,
{
    assert(pre.standings.contains_key((chain, peer)));
    assert(post.standings.contains_key((chain, peer)));
    assert(post.standings[(chain, peer)] == pre.standings[(chain, peer)]);
    assert(post.on_chain(chain, peer));
    if found is CanAssignSlot {
        slot_is_assigned_only_where_there_is_room(pre, slots, desired, now, found, post);
    }
}

/// Giving a found slot to a peer leaves every other peer a member of its
/// chains, standing as it stood before the search if it has an address, and
/// with the addresses that it had.
pub proof fn other_peers_stand_as_before_when_a_slot_is_given(
    pre: BookModel,
    slots: Seq<usize>,
    desired: Seq<usize>,
    now: u64,
    found: SlotSearch,
    post: BookModel,
    chain: usize,
    peer: Seq<u8>,
)
    requires
        slot_search_outcome(pre, slots, desired, now, found, post),
        found is CanAssignSlot,
        pre.on_chain(chain, peer),
        (chain, peer) != (found->chain_id, found->peer_id@),
    ensures
        ({
            let given = post.with_standing(found->chain_id, found->peer_id@, Standing::Slot);
            &&& given.on_chain(chain, peer)
            &&& given.addresses == pre.addresses
            &&& pre.has_some_address(peer) ==> given.standings[(chain, peer)] == pre.standings[(
                chain,
                peer,
            )]
            &&& !pre.on_chain(found->chain_id, found->peer_id@) || !(pre.standings[(
                found->chain_id,
                found->peer_id@,
            )] is Slot)
        }),
{
    assert(pre.standings.contains_key((chain, peer)));
    assert(post.standings.contains_key((chain, peer)));
    slot_is_assigned_only_where_there_is_room(pre, slots, desired, now, found, post);
}

/// Taking a peer off a chain leaves it without any standing on that chain,
/// so that no ban is left either, and touches nothing else: every other peer
/// of the chain and every peer of another chain stands as it stood, and every
/// other peer has the addresses that it had.
pub proof fn purge_touches_only_the_peer(pre: BookModel, chain: usize, peer: Seq<u8>)
    ensures
        ({
            let post = remove_chain_peer_outcome(pre, chain, peer);
            &&& !post.standings.contains_key((chain, peer))
            &&& forall|key: (usize, Seq<u8>)|
                key != (chain, peer) ==> post.standings.contains_key(key)
                    == #[trigger] pre.standings.contains_key(key) && (pre.standings.contains_key(
                    key,
                ) ==> post.standings[key] == pre.standings[key])
            &&& forall|other: Seq<u8>, address: Seq<u8>|
                other != peer ==> post.has_address(other, address) == #[trigger] pre.has_address(
                    other,
                    address,
                ) && (pre.has_address(other, address) ==> post.addresses[(other, address)]
                    == pre.addresses[(other, address)])
        }),
{
}

/// A peer without any address is not dialled: no address comes back for it,
/// and the book stays as it is.
pub proof fn peer_without_address_is_not_dialled(
    pre: BookModel,
    peer: Seq<u8>,
    picked: Option<Seq<u8>>,
    post: BookModel,
)
    requires
        !pre.has_some_address(peer),
        addr_to_connected_outcome(pre, peer, picked, post),
    ensures
        picked is None,
        post == pre,
{
    if let Some(address) = picked {
        assert(pre.has_address(peer, address));
    }
}

/// A peer whose single address is not connected is dialled through that
/// address, which the book then counts as connected.
pub proof fn the_single_address_is_dialled(
    pre: BookModel,
    peer: Seq<u8>,
    address: Seq<u8>,
    picked: Option<Seq<u8>>,
    post: BookModel,
)
    requires
        pre.has_address(peer, address),
        !pre.addresses[(peer, address)],
        forall|other: Seq<u8>| #[trigger] pre.has_address(peer, other) ==> other == address,
        addr_to_connected_outcome(pre, peer, picked, post),
    ensures
        picked == Some(address),
        post.has_address(peer, address),
        post.addresses[(peer, address)],
        post.standings == pre.standings,
{
}

/// A peer without any address is never named for a slot, on whatever chain
/// and at whatever reading of the clock.
pub proof fn peer_without_address_is_not_named(
    pre: BookModel,
    slots: Seq<usize>,
    desired: Seq<usize>,
    now: u64,
    found: SlotSearch,
    post: BookModel,
    peer: Seq<u8>,
)
    requires
        slot_search_outcome(pre, slots, desired, now, found, post),
        !pre.has_some_address(peer),
    ensures
        !(found is CanAssignSlot && found->peer_id@ == peer),
{
    if found is CanAssignSlot && found->peer_id@ == peer {
        slot_is_assigned_only_where_there_is_room(pre, slots, desired, now, found, post);
    }
}

/// A list of byte strings of which one is an address has an address among
/// those that are accepted, and one of which none is has none.
proof fn lemma_accepted_addresses(raw: Seq<Seq<u8>>)
    ensures
        (exists|i: int| 0 <= i < raw.len() && is_address(#[trigger] raw[i])) <==> accepted_addresses(
            raw,
        ).len() > 0,
    decreases raw.len(),
{
    if raw.len() > 0 {
        lemma_accepted_addresses(raw.drop_last());
        if exists|i: int| 0 <= i < raw.len() && is_address(#[trigger] raw[i]) {
            let i = choose|i: int| 0 <= i < raw.len() && is_address(#[trigger] raw[i]);
            if i < raw.len() - 1 {
                assert(is_address(raw.drop_last()[i]));
            }
        }
        if accepted_addresses(raw).len() > 0 && !is_address(raw.last()) {
            let i = choose|i: int|
                0 <= i < raw.drop_last().len() && is_address(#[trigger] raw.drop_last()[i]);
            assert(is_address(raw[i]));
        }
        if is_address(raw.last()) {
            assert(is_address(raw[raw.len() - 1]));
        }
    }
}

/// A peer that another node reports enters the chain that is explored if one
/// of the first `MAX_ADDRESSES_PER_PEER` byte strings reported for it is an
/// address, be it the address without any protocol, unless the chain is full
/// of peers that all hold a slot. If none of them is an address, the book
/// stays as it is.
pub proof fn reported_peer_enters_if_it_has_an_address(
    pre: BookModel,
    chain: usize,
    peer: Seq<u8>,
    raw: Seq<Seq<u8>>,
    post: BookModel,
)
    requires
        pre.wf(),
        is_peer_id(peer),
        node_absorbed(pre, chain, peer, raw, post),
    ensures
        (exists|i: int|
            0 <= i < raw.len() && i < MAX_ADDRESSES_PER_PEER && is_address(#[trigger] raw[i])) && (
        pre.chain_peers(chain).len() < MAX_PEERS_PER_CHAIN || !all_hold_slots(pre, chain))
            ==> post.on_chain(chain, peer),
        (forall|i: int|
            0 <= i < raw.len() && i < MAX_ADDRESSES_PER_PEER ==> !is_address(#[trigger] raw[i]))
            ==> post == pre,
{
    let looked_at = if raw.len() >= MAX_ADDRESSES_PER_PEER {
        raw.take(MAX_ADDRESSES_PER_PEER as int)
    } else {
        raw
    };
    lemma_accepted_addresses(looked_at);
    if exists|i: int|
        0 <= i < raw.len() && i < MAX_ADDRESSES_PER_PEER && is_address(#[trigger] raw[i]) {
        let i = choose|i: int|
            0 <= i < raw.len() && i < MAX_ADDRESSES_PER_PEER && is_address(#[trigger] raw[i]);
        assert(is_address(looked_at[i]));
        assert(reported_addresses(raw).len() > 0);
        if pre.chain_peers(chain).len() < MAX_PEERS_PER_CHAIN || !all_hold_slots(pre, chain) {
            let (mid, result) = choose|mid: BookModel, result: InsertionModel|
                addresses_added(mid, peer, reported_addresses(raw), post) && #[trigger] insert_chain_peer_outcome(
                    pre,
                    chain,
                    peer,
                    MAX_PEERS_PER_CHAIN,
                    result,
                    mid,
                );
            lemma_insert_chain_peer_wf(pre, chain, peer, MAX_PEERS_PER_CHAIN, result, mid);
            adding_addresses_leaves_the_standings(mid, peer, reported_addresses(raw), post);
        }
    }
    if forall|i: int|
        0 <= i < raw.len() && i < MAX_ADDRESSES_PER_PEER ==> !is_address(#[trigger] raw[i]) {
        if accepted_addresses(looked_at).len() > 0 {
            let i = choose|i: int| 0 <= i < looked_at.len() && is_address(#[trigger] looked_at[i]);
            assert(looked_at[i] == raw[i]);
        }
    }
}

} // verus!
