//! How newly learnt peers and addresses enter the address book, and how the
//! book is listed.

use vstd::prelude::*;
use crate::address_book::AddressBook;
use crate::book_model::{
    insert_address_outcome, insert_chain_peer_outcome, BookModel, InsertAddressResult,
    InsertionModel,
};
use crate::book_proofs::{lemma_insert_address_wf, lemma_insert_chain_peer_wf};
use crate::identity::{copy_bytes, is_address, Multiaddr, PeerId};

verus! {

/// Number of peers that the book keeps for one chain before it makes room.
pub const MAX_PEERS_PER_CHAIN: usize = 30;

/// Number of addresses that the book keeps for one peer before it makes room.
/// Of the addresses that another node reports for a peer, only this many are
/// looked at.
pub const MAX_ADDRESSES_PER_PEER: usize = 10;

/// The addresses of a list, each by its bytes.
pub open spec fn addresses_view(addresses: Seq<Multiaddr>) -> Seq<Seq<u8>> {
    addresses.map_values(|address: Multiaddr| address@)
}

/// A list of peers with their addresses, each by its bytes.
pub open spec fn listing_view(list: Seq<(PeerId, Vec<Multiaddr>)>) -> Seq<
    (Seq<u8>, Seq<Seq<u8>>),
> {
    list.map_values(|entry: (PeerId, Vec<Multiaddr>)| (entry.0@, addresses_view(entry.1@)))
}

/// Whether `post` can be the book after the addresses of `addresses` were
/// recorded for `peer` one by one, in their order, starting from `pre`.
pub open spec fn addresses_added(
    pre: BookModel,
    peer: Seq<u8>,
    addresses: Seq<Seq<u8>>,
    post: BookModel,
) -> bool
    decreases addresses.len(),
{
    if addresses.len() == 0 {
        post == pre
    } else {
        exists|mid: BookModel, result: InsertAddressResult|
            addresses_added(pre, peer, addresses.drop_last(), mid) && #[trigger] insert_address_outcome(
                mid,
                peer,
                addresses.last(),
                MAX_ADDRESSES_PER_PEER,
                false,
                result,
                post,
            )
    }
}

/// Whether `post` can be the book after `peer` was inserted into `chain` and
/// its addresses were then recorded, starting from `pre`.
pub open spec fn peer_discovered(
    pre: BookModel,
    chain: usize,
    peer: Seq<u8>,
    addresses: Seq<Seq<u8>>,
    post: BookModel,
) -> bool {
    exists|mid: BookModel, result: InsertionModel|
        addresses_added(mid, peer, addresses, post) && #[trigger] insert_chain_peer_outcome(
            pre,
            chain,
            peer,
            MAX_PEERS_PER_CHAIN,
            result,
            mid,
        )
}

/// Whether `post` can be the book after the peers of `list` were discovered on
/// `chain` one by one, in their order, starting from `pre`.
pub open spec fn peers_discovered(
    pre: BookModel,
    chain: usize,
    list: Seq<(Seq<u8>, Seq<Seq<u8>>)>,
    post: BookModel,
) -> bool
    decreases list.len(),
{
    if list.len() == 0 {
        post == pre
    } else {
        exists|mid: BookModel|
            peers_discovered(pre, chain, list.drop_last(), mid) && #[trigger] peer_discovered(
                mid,
                chain,
                list.last().0,
                list.last().1,
                post,
            )
    }
}

/// Whether `nodes` lists `chain` as the book has it: every peer of the chain
/// once, each with every one of its addresses once.
pub open spec fn is_listing_of(
    book: BookModel,
    chain: usize,
    nodes: Seq<(Seq<u8>, Seq<Seq<u8>>)>,
) -> bool {
    &&& forall|i: int| 0 <= i < nodes.len() ==> book.on_chain(chain, (#[trigger] nodes[i]).0)
    &&& forall|peer: Seq<u8>| #[trigger]
        book.on_chain(chain, peer) ==> exists|i: int|
            0 <= i < nodes.len() && (#[trigger] nodes[i]).0 == peer
    &&& forall|i: int, j: int| 0 <= i < j < nodes.len() ==> nodes[i].0 != nodes[j].0
    &&& forall|i: int|
        0 <= i < nodes.len() ==> (#[trigger] nodes[i]).1.no_duplicates() && nodes[i].1.to_set()
            == book.peer_addresses(nodes[i].0)
}

/// Discovering the last peer of a list after the others is discovering the list.
proof fn lemma_one_more_discovered(
    pre: BookModel,
    chain: usize,
    list: Seq<(Seq<u8>, Seq<Seq<u8>>)>,
    mid: BookModel,
    post: BookModel,
)
    requires
        list.len() > 0,
        peers_discovered(pre, chain, list.drop_last(), mid),
        peer_discovered(mid, chain, list.last().0, list.last().1, post),
    ensures
        peers_discovered(pre, chain, list, post),
{
}

/// Records `addresses` for `peer`, one by one.
pub fn add_addresses(book: &mut AddressBook, peer: &PeerId, addresses: &Vec<Multiaddr>)
    requires
        old(book).wf(),
    ensures
        final(book).wf(),
        addresses_added(old(book)@, peer@, addresses_view(addresses@), final(book)@),
{
    let ghost pre = book@;
    let ghost all = addresses_view(addresses@);
    let mut i: usize = 0;
    while i < addresses.len()
        invariant
            i <= addresses.len(),
            all == addresses_view(addresses@),
            book.wf(),
            addresses_added(pre, peer@, all.take(i as int), book@),
        decreases addresses.len() - i,
    {
        let ghost mid = book@;
        let result = book.insert_address(peer, &addresses[i], MAX_ADDRESSES_PER_PEER);
        proof {
            let next = all.take(i + 1);
            assert(next.drop_last() =~= all.take(i as int));
            assert(insert_address_outcome(
                mid,
                peer@,
                next.last(),
                MAX_ADDRESSES_PER_PEER,
                false,
                result,
                book@,
            ));
        }
        i += 1;
    }
    assert(all.take(addresses.len() as int) =~= all);
}

/// Inserts `peer` into `chain` and then records `addresses` for it. The peer
/// goes first, because the book records no address for a peer that it does
/// not keep.
pub fn discover_peer(book: &mut AddressBook, chain: usize, peer: &PeerId, addresses: &Vec<Multiaddr>)
    requires
        old(book).wf(),
    ensures
        final(book).wf(),
        peer_discovered(old(book)@, chain, peer@, addresses_view(addresses@), final(book)@),
{
    book.insert_chain_peer(chain, peer, MAX_PEERS_PER_CHAIN);
    add_addresses(book, peer, addresses);
}

/// Discovers the peers of `list` on `chain`, one by one.
pub fn discover(book: &mut AddressBook, chain: usize, list: &Vec<(PeerId, Vec<Multiaddr>)>)
    requires
        old(book).wf(),
    ensures
        final(book).wf(),
        peers_discovered(old(book)@, chain, listing_view(list@), final(book)@),
{
    let ghost pre = book@;
    let ghost all = listing_view(list@);
    let mut i: usize = 0;
    while i < list.len()
        invariant
            i <= list.len(),
            all == listing_view(list@),
            book.wf(),
            peers_discovered(pre, chain, all.take(i as int), book@),
        decreases list.len() - i,
    {
        let ghost mid = book@;
        discover_peer(book, chain, &list[i].0, &list[i].1);
        proof {
            let next = all.take(i + 1);
            assert(next.drop_last() =~= all.take(i as int));
            lemma_one_more_discovered(pre, chain, next, mid, book@);
        }
        i += 1;
    }
    assert(all.take(list.len() as int) =~= all);
}

/// Lists the peers of `chain`, each with its addresses.
pub fn discovered_nodes(book: &AddressBook, chain: usize) -> (nodes: Vec<(PeerId, Vec<Multiaddr>)>)
    requires
        book.wf(),
    ensures
        is_listing_of(book@, chain, listing_view(nodes@)),
{
    let mut peers = book.chain_peers_unordered(chain);
    let ghost listed = peers@.map_values(|p: PeerId| p@);
    let total = peers.len();
    let mut nodes: Vec<(PeerId, Vec<Multiaddr>)> = Vec::new();
    let mut i: usize = total;
    proof {
        assert forall|peer: Seq<u8>| #[trigger] book@.on_chain(chain, peer) implies exists|j: int|
            0 <= j < total && #[trigger] listed[j] == peer by {
            let j = choose|j: int| 0 <= j < peers.len() && #[trigger] peers[j]@ == peer;
            assert(listed[j] == peer);
        }
        assert forall|a: int, b: int| 0 <= a < b < total implies listed[a] != listed[b] by {}
    }
    while i > 0
        invariant
            book.wf(),
            i <= total,
            peers.len() == i,
            listed.len() == total,
            forall|k: int| 0 <= k < i ==> (#[trigger] peers[k])@ == listed[k],
            forall|k: int| 0 <= k < total ==> book@.on_chain(chain, #[trigger] listed[k]),
            nodes.len() == total - i,
            forall|k: int|
                0 <= k < nodes.len() ==> (#[trigger] nodes[k]).0@ == listed[total - 1 - k],
            forall|k: int|
                0 <= k < nodes.len() ==> addresses_view((#[trigger] nodes[k]).1@).no_duplicates()
                    && addresses_view(nodes[k].1@).to_set() == book@.peer_addresses(nodes[k].0@),
        decreases i,
    {
        let peer = peers.pop().unwrap();
        i -= 1;
        let addresses = book.peer_addresses(&peer);
        proof {
            let av = addresses_view(addresses@);
            assert forall|a: int, b: int| 0 <= a < av.len() && 0 <= b < av.len() && a != b implies av[a]
                != av[b] by {}
            assert forall|address: Seq<u8>|
                av.to_set().contains(address) == book@.peer_addresses(peer@).contains(
                    address,
                ) by {
                if book@.has_address(peer@, address) {
                    let k = choose|k: int|
                        0 <= k < addresses.len() && #[trigger] addresses[k]@ == address;
                    assert(av[k] == address);
                }
            }
        }
        nodes.push((peer, addresses));
    }
    proof {
        let view = listing_view(nodes@);
        assert forall|k: int| 0 <= k < view.len() implies (#[trigger] view[k]).0 == listed[total - 1
            - k] && view[k].1 == addresses_view(nodes[k].1@) by {}
        assert forall|peer: Seq<u8>| #[trigger] book@.on_chain(chain, peer) implies exists|k: int|
            0 <= k < view.len() && (#[trigger] view[k]).0 == peer by {
            let j = choose|j: int| 0 <= j < total && #[trigger] listed[j] == peer;
            assert(view[total - 1 - j].0 == listed[j]);
        }
        assert forall|a: int, b: int| 0 <= a < b < view.len() implies view[a].0 != view[b].0 by {}
    }
    nodes
}

/// Of the byte strings of `raw`, those that are addresses, in their order.
pub open spec fn accepted_addresses(raw: Seq<Seq<u8>>) -> Seq<Seq<u8>>
    decreases raw.len(),
{
    if raw.len() == 0 {
        Seq::empty()
    } else if is_address(raw.last()) {
        accepted_addresses(raw.drop_last()).push(raw.last())
    } else {
        accepted_addresses(raw.drop_last())
    }
}

/// The addresses that are taken from what another node reports for a peer: of
/// the first `MAX_ADDRESSES_PER_PEER` byte strings, those that are addresses.
pub open spec fn reported_addresses(raw: Seq<Seq<u8>>) -> Seq<Seq<u8>> {
    if raw.len() >= MAX_ADDRESSES_PER_PEER {
        accepted_addresses(raw.take(MAX_ADDRESSES_PER_PEER as int))
    } else {
        accepted_addresses(raw)
    }
}

/// The byte strings of a list of byte strings.
pub open spec fn raw_view(raw: Seq<Vec<u8>>) -> Seq<Seq<u8>> {
    raw.map_values(|bytes: Vec<u8>| bytes@)
}

/// The peers that another node reports, each with the byte strings that it
/// gives as their addresses.
pub open spec fn report_view(nodes: Seq<(PeerId, Vec<Vec<u8>>)>) -> Seq<(Seq<u8>, Seq<Seq<u8>>)> {
    nodes.map_values(|entry: (PeerId, Vec<Vec<u8>>)| (entry.0@, raw_view(entry.1@)))
}

/// Whether `post` can be the book after one reported peer was taken in,
/// starting from `pre`: a peer of which no address is taken leaves the book
/// as it is; another is discovered with the addresses taken.
pub open spec fn node_absorbed(
    pre: BookModel,
    chain: usize,
    peer: Seq<u8>,
    raw: Seq<Seq<u8>>,
    post: BookModel,
) -> bool {
    if reported_addresses(raw).len() == 0 {
        post == pre
    } else {
        peer_discovered(pre, chain, peer, reported_addresses(raw), post)
    }
}

/// Whether `post` can be the book after the reported peers were taken in one
/// by one, in their order, starting from `pre`.
pub open spec fn response_absorbed(
    pre: BookModel,
    chain: usize,
    nodes: Seq<(Seq<u8>, Seq<Seq<u8>>)>,
    post: BookModel,
) -> bool
    decreases nodes.len(),
{
    if nodes.len() == 0 {
        post == pre
    } else {
        exists|mid: BookModel|
            response_absorbed(pre, chain, nodes.drop_last(), mid) && #[trigger] node_absorbed(
                mid,
                chain,
                nodes.last().0,
                nodes.last().1,
                post,
            )
    }
}

/// Takes from `raw` the addresses that are kept of a peer's reported byte
/// strings.
pub fn accept_addresses(raw: &Vec<Vec<u8>>) -> (accepted: Vec<Multiaddr>)
    ensures
        addresses_view(accepted@) == reported_addresses(raw_view(raw@)),
{
    let limit = if raw.len() >= MAX_ADDRESSES_PER_PEER {
        MAX_ADDRESSES_PER_PEER
    } else {
        raw.len()
    };
    let ghost looked_at = raw_view(raw@).take(limit as int);
    let mut accepted: Vec<Multiaddr> = Vec::new();
    let mut i: usize = 0;
    proof {
        if raw.len() < MAX_ADDRESSES_PER_PEER {
            assert(looked_at =~= raw_view(raw@));
        }
    }
    while i < limit
        invariant
            i <= limit <= raw.len(),
            looked_at == raw_view(raw@).take(limit as int),
            addresses_view(accepted@) == accepted_addresses(looked_at.take(i as int)),
        decreases limit - i,
    {
        proof {
            let next = looked_at.take(i + 1);
            assert(next.drop_last() =~= looked_at.take(i as int));
        }
        match Multiaddr::from_bytes(copy_bytes(&raw[i])) {
            Ok(address) => {
                accepted.push(address);
            },
            Err(_) => {},
        }
        i += 1;
    }
    assert(looked_at.take(limit as int) =~= looked_at);
    accepted
}

/// Takes in what another node reported about the peers near some identity:
/// each reported peer of which an address is taken is discovered on `chain`
/// with the addresses taken.
pub fn absorb_find_node_response(
    book: &mut AddressBook,
    chain: usize,
    nodes: &Vec<(PeerId, Vec<Vec<u8>>)>,
)
    requires
        old(book).wf(),
    ensures
        final(book).wf(),
        response_absorbed(old(book)@, chain, report_view(nodes@), final(book)@),
{
    let ghost pre = book@;
    let ghost all = report_view(nodes@);
    let mut i: usize = 0;
    while i < nodes.len()
        invariant
            i <= nodes.len(),
            all == report_view(nodes@),
            book.wf(),
            response_absorbed(pre, chain, all.take(i as int), book@),
        decreases nodes.len() - i,
    {
        let ghost mid = book@;
        let accepted = accept_addresses(&nodes[i].1);
        if accepted.len() > 0 {
            discover_peer(book, chain, &nodes[i].0, &accepted);
        }
        proof {
            let next = all.take(i + 1);
            assert(next.drop_last() =~= all.take(i as int));
            assert(node_absorbed(mid, chain, next.last().0, next.last().1, book@));
        }
        i += 1;
    }
    assert(all.take(nodes.len() as int) =~= all);
}

} // verus!
