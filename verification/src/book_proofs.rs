//! Every operation of the address book keeps the book well formed.

use vstd::prelude::*;
use crate::book_model::{
    addr_to_connected_outcome, ban_outcome, disconnect_addr_outcome, insert_address_outcome,
    insert_chain_peer_outcome, remove_address_outcome, remove_chain_peer_outcome,
    strategy_insertion_outcome, BookModel, DisconnectAddrError, InsertAddressResult,
    InsertionModel, Standing,
};
use crate::identity::{is_address, is_peer_id};

verus! {

/// Looking at a peer and dropping it if nothing keeps it leaves a
/// well-formed book.
pub proof fn lemma_forget_unused_wf(book: BookModel, peer: Seq<u8>)
    requires
        book.wf(),
    ensures
        book.forget_unused(peer).wf(),
{
    let post = book.forget_unused(peer);
    if !book.in_use(peer) {
        assert forall|chain: usize, other: Seq<u8>| #[trigger]
            post.on_chain(chain, other) implies post.knows(other) by {
            assert(book.on_chain(chain, other));
            if other == peer {
                assert(book.has_chain(peer));
            }
        }
        assert forall|other: Seq<u8>, address: Seq<u8>| #[trigger]
            post.has_address(other, address) implies is_address(address) && post.knows(other) by {
            assert(book.has_address(other, address));
        }
        assert forall|other: Seq<u8>| #[trigger] post.knows(other) implies is_peer_id(other) by {
            assert(book.knows(other));
        }
    }
}

/// What the peering strategy does when a peer is inserted into a chain keeps
/// the book well formed, and the peer is then on the chain.
pub proof fn lemma_strategy_insertion_wf(
    pre: BookModel,
    chain: usize,
    peer: Seq<u8>,
    max: usize,
    result: InsertionModel,
    post: BookModel,
)
    requires
        pre.wf(),
        is_peer_id(peer),
        strategy_insertion_outcome(pre, chain, peer, max, result, post),
    ensures
        post.wf(),
        post.on_chain(chain, peer),
        result matches InsertionModel::Inserted { peer_removed: Some(victim) } ==> is_peer_id(
            victim,
        ),
{
    let entered = pre.with_standing(chain, peer, Standing::Assignable);
    lemma_with_standing_wf(pre, chain, peer, Standing::Assignable);
    match result {
        InsertionModel::Duplicate => {},
        InsertionModel::Full => {},
        InsertionModel::Inserted { peer_removed: None } => {},
        InsertionModel::Inserted { peer_removed: Some(v) } => {
            let mid = entered.without_standing(chain, v);
            assert(v != peer);
            assert(pre.knows(v));
            lemma_without_standing_wf(entered, chain, v);
            lemma_forget_unused_wf(mid, v);
            assert(mid.on_chain(chain, peer));
        },
    }
}

/// Inserting a peer into a chain keeps the book well formed, and the peer is
/// then on the chain unless the chain was full of peers with a slot.
pub proof fn lemma_insert_chain_peer_wf(
    pre: BookModel,
    chain: usize,
    peer: Seq<u8>,
    max: usize,
    result: InsertionModel,
    post: BookModel,
)
    requires
        pre.wf(),
        is_peer_id(peer),
        insert_chain_peer_outcome(pre, chain, peer, max, result, post),
    ensures
        post.wf(),
        !(result is Full) ==> post.on_chain(chain, peer),
{
    if result is Full {
        lemma_forget_unused_wf(pre, peer);
    } else {
        lemma_strategy_insertion_wf(pre, chain, peer, max, result, post);
    }
}

/// Taking a peer off a chain, without looking whether anything still keeps
/// it, leaves a well-formed book.
pub proof fn lemma_without_standing_wf(pre: BookModel, chain: usize, peer: Seq<u8>)
    requires
        pre.wf(),
    ensures
        pre.without_standing(chain, peer).wf(),
{
    let post = pre.without_standing(chain, peer);
    assert forall|other: Seq<u8>| #[trigger] post.knows(other) implies is_peer_id(other) by {
        assert(pre.knows(other));
    }
    assert forall|c: usize, other: Seq<u8>| #[trigger]
        post.on_chain(c, other) implies post.knows(other) by {
        assert(pre.on_chain(c, other));
    }
    assert forall|other: Seq<u8>, address: Seq<u8>| #[trigger]
        post.has_address(other, address) implies is_address(address) && post.knows(other) by {
        assert(pre.has_address(other, address));
    }
}

/// Taking a peer off a chain keeps the book well formed, and the peer is then
/// off the chain.
pub proof fn lemma_remove_chain_peer_wf(pre: BookModel, chain: usize, peer: Seq<u8>)
    requires
        pre.wf(),
    ensures
        remove_chain_peer_outcome(pre, chain, peer).wf(),
        !remove_chain_peer_outcome(pre, chain, peer).on_chain(chain, peer),
{
    if pre.on_chain(chain, peer) {
        lemma_without_standing_wf(pre, chain, peer);
        lemma_forget_unused_wf(pre.without_standing(chain, peer), peer);
    }
}

/// Recording an address keeps the book well formed.
pub proof fn lemma_insert_address_wf(
    pre: BookModel,
    peer: Seq<u8>,
    address: Seq<u8>,
    max: usize,
    connected: bool,
    result: InsertAddressResult,
    post: BookModel,
)
    requires
        pre.wf(),
        is_address(address),
        insert_address_outcome(pre, peer, address, max, connected, result, post),
    ensures
        post.wf(),
{
    assert forall|other: Seq<u8>| #[trigger] post.knows(other) implies is_peer_id(other) by {
        assert(pre.knows(other));
    }
    assert forall|c: usize, other: Seq<u8>| #[trigger]
        post.on_chain(c, other) implies post.knows(other) by {
        assert(pre.on_chain(c, other));
    }
    assert forall|other: Seq<u8>, a: Seq<u8>| #[trigger]
        post.has_address(other, a) implies is_address(a) && post.knows(other) by {
        if !(other == peer && a == address) {
            assert(pre.has_address(other, a));
        }
    }
}

/// Removing an address keeps the book well formed, and the address is then gone.
pub proof fn lemma_remove_address_wf(pre: BookModel, peer: Seq<u8>, address: Seq<u8>)
    requires
        pre.wf(),
    ensures
        remove_address_outcome(pre, peer, address).wf(),
        !remove_address_outcome(pre, peer, address).has_address(peer, address),
{
    if pre.has_address(peer, address) {
        let mid = pre.without_address(peer, address);
        assert forall|other: Seq<u8>| #[trigger] mid.knows(other) implies is_peer_id(other) by {
            assert(pre.knows(other));
        }
        assert forall|c: usize, other: Seq<u8>| #[trigger]
            mid.on_chain(c, other) implies mid.knows(other) by {
            assert(pre.on_chain(c, other));
        }
        assert forall|other: Seq<u8>, a: Seq<u8>| #[trigger]
            mid.has_address(other, a) implies is_address(a) && mid.knows(other) by {
            assert(pre.has_address(other, a));
        }
        lemma_forget_unused_wf(mid, peer);
    }
}

/// Giving a peer some standing on a chain keeps the book well formed.
pub proof fn lemma_with_standing_wf(pre: BookModel, chain: usize, peer: Seq<u8>, standing: Standing)
    requires
        pre.wf(),
        is_peer_id(peer),
    ensures
        pre.with_standing(chain, peer, standing).wf(),
{
    let post = pre.with_standing(chain, peer, standing);
    assert forall|other: Seq<u8>, a: Seq<u8>| #[trigger]
        post.has_address(other, a) implies is_address(a) && post.knows(other) by {
        assert(pre.has_address(other, a));
    }
    assert forall|c: usize, other: Seq<u8>| #[trigger]
        post.on_chain(c, other) implies post.knows(other) by {
        if !(c == chain && other == peer) {
            assert(pre.on_chain(c, other));
        }
    }
    assert forall|other: Seq<u8>| #[trigger] post.knows(other) implies is_peer_id(other) by {
        if other != peer {
            assert(pre.knows(other));
        }
    }
}

/// Banning a peer on one chain keeps the book well formed.
pub proof fn lemma_ban_wf(pre: BookModel, chain: usize, peer: Seq<u8>, until: u64)
    requires
        pre.wf(),
    ensures
        ban_outcome(pre, chain, peer, until).wf(),
{
    let post = ban_outcome(pre, chain, peer, until);
    if pre.on_chain(chain, peer) {
        assert forall|other: Seq<u8>| #[trigger] post.knows(other) implies is_peer_id(other) by {
            assert(pre.knows(other));
        }
        assert forall|other: Seq<u8>, a: Seq<u8>| #[trigger]
            post.has_address(other, a) implies is_address(a) && post.knows(other) by {
            assert(pre.has_address(other, a));
        }
        assert forall|c: usize, other: Seq<u8>| #[trigger]
            post.on_chain(c, other) implies post.knows(other) by {
            if !(c == chain && other == peer) {
                assert(pre.on_chain(c, other));
            }
        }
    }
}

/// Banning a peer on all its chains keeps the book well formed.
pub proof fn lemma_with_bans_wf(pre: BookModel, peer: Seq<u8>, until: u64)
    requires
        pre.wf(),
    ensures
        pre.with_bans(peer, until).wf(),
{
    let post = pre.with_bans(peer, until);
    assert(post.standings.dom() =~= pre.standings.dom());
    assert forall|other: Seq<u8>| #[trigger] post.knows(other) implies is_peer_id(other) by {
        assert(pre.knows(other));
    }
    assert forall|other: Seq<u8>, a: Seq<u8>| #[trigger]
        post.has_address(other, a) implies is_address(a) && post.knows(other) by {
        assert(pre.has_address(other, a));
    }
    assert forall|c: usize, other: Seq<u8>| #[trigger]
        post.on_chain(c, other) implies post.knows(other) by {
        assert(pre.on_chain(c, other));
    }
}

/// Picking an address to connect through keeps the book well formed, and what
/// is picked is an address.
pub proof fn lemma_addr_to_connected_wf(
    pre: BookModel,
    peer: Seq<u8>,
    picked: Option<Seq<u8>>,
    post: BookModel,
)
    requires
        pre.wf(),
        addr_to_connected_outcome(pre, peer, picked, post),
    ensures
        post.wf(),
        picked is Some ==> is_address(picked->Some_0),
{
    if let Some(address) = picked {
        assert forall|other: Seq<u8>| #[trigger] post.knows(other) implies is_peer_id(other) by {
            assert(pre.knows(other));
        }
        assert forall|other: Seq<u8>, a: Seq<u8>| #[trigger]
            post.has_address(other, a) implies is_address(a) && post.knows(other) by {
            assert(pre.has_address(other, a));
        }
        assert forall|c: usize, other: Seq<u8>| #[trigger]
            post.on_chain(c, other) implies post.knows(other) by {
            assert(pre.on_chain(c, other));
        }
    }
}

/// Marking an address as no longer connected keeps the book well formed.
pub proof fn lemma_disconnect_addr_wf(
    pre: BookModel,
    peer: Seq<u8>,
    address: Seq<u8>,
    result: Result<(), DisconnectAddrError>,
    post: BookModel,
)
    requires
        pre.wf(),
        disconnect_addr_outcome(pre, peer, address, result, post),
    ensures
        post.wf(),
{
    if pre.has_address(peer, address) && pre.addresses[(peer, address)] {
        let mid = pre.with_address(peer, address, false);
        assert forall|other: Seq<u8>| #[trigger] mid.knows(other) implies is_peer_id(other) by {
            assert(pre.knows(other));
        }
        assert forall|c: usize, other: Seq<u8>| #[trigger]
            mid.on_chain(c, other) implies mid.knows(other) by {
            assert(pre.on_chain(c, other));
        }
        assert forall|other: Seq<u8>, a: Seq<u8>| #[trigger]
            mid.has_address(other, a) implies is_address(a) && mid.knows(other) by {
            assert(pre.has_address(other, a));
        }
        lemma_forget_unused_wf(mid, peer);
    }
}

} // verus!
