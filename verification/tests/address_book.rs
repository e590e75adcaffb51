use light_network::address_book::AddressBook;
use light_network::book_model::{
    AssignablePeer, DisconnectAddrError, InsertAddressResult, InsertChainPeerResult,
};
use light_network::identity::{Multiaddr, PeerId};

fn peer(n: u8) -> PeerId {
    PeerId::from_bytes(
        smoldot::libp2p::PeerId::from_public_key(&smoldot::libp2p::peer_id::PublicKey::Ed25519(
            [n; 32],
        ))
        .into_bytes(),
    )
    .unwrap()
}

fn address(port: u16) -> Multiaddr {
    Multiaddr::from_bytes(
        format!("/ip4/10.0.0.1/tcp/{}", port)
            .parse::<smoldot::libp2p::multiaddr::Multiaddr>()
            .unwrap()
            .into_vec(),
    )
    .unwrap()
}

fn book() -> AddressBook {
    AddressBook::new([3; 32], 0, 0)
}

fn holds(list: &[PeerId], wanted: &PeerId) -> bool {
    list.iter().any(|p| p.same_as(wanted))
}

#[test]
fn new_book_is_empty() {
    let mut book = book();
    assert!(book.chain_peers_unordered(0).is_empty());
    assert!(book.peer_addresses(&peer(1)).is_empty());
    assert!(matches!(book.pick_assignable_peer(0, 0), AssignablePeer::NoPeer));
}

#[test]
fn inserted_peer_belongs_to_its_chain_only() {
    let mut book = book();
    assert!(matches!(
        book.insert_chain_peer(0, &peer(1), 30),
        InsertChainPeerResult::Inserted { peer_removed: None }
    ));
    assert!(holds(&book.chain_peers_unordered(0), &peer(1)));
    assert!(book.chain_peers_unordered(1).is_empty());
}

#[test]
fn inserting_a_peer_twice_is_a_duplicate() {
    let mut book = book();
    book.insert_chain_peer(0, &peer(1), 30);
    assert!(matches!(
        book.insert_chain_peer(0, &peer(1), 30),
        InsertChainPeerResult::Duplicate
    ));
    assert_eq!(book.chain_peers_unordered(0).len(), 1);
}

#[test]
fn a_full_chain_makes_room_for_a_new_peer() {
    let mut book = book();
    for n in 0..30 {
        assert!(matches!(
            book.insert_chain_peer(0, &peer(n), 30),
            InsertChainPeerResult::Inserted { peer_removed: None }
        ));
    }
    let removed = match book.insert_chain_peer(0, &peer(30), 30) {
        InsertChainPeerResult::Inserted { peer_removed: Some(removed) } => removed,
        other => panic!("{:?}", other),
    };
    assert!(!removed.same_as(&peer(30)));
    let peers = book.chain_peers_unordered(0);
    assert_eq!(peers.len(), 30);
    assert!(holds(&peers, &peer(30)));
    assert!(!holds(&peers, &removed));
}

#[test]
fn a_peer_with_a_slot_is_never_removed_to_make_room() {
    let mut book = book();
    book.insert_chain_peer(0, &peer(1), 1);
    book.assign_slot(0, &peer(1));
    assert!(matches!(book.insert_chain_peer(0, &peer(2), 1), InsertChainPeerResult::Full));
    let peers = book.chain_peers_unordered(0);
    assert_eq!(peers.len(), 1);
    assert!(holds(&peers, &peer(1)));
}

#[test]
fn a_peer_that_finds_the_chain_full_keeps_what_else_it_has() {
    let mut book = book();
    book.insert_chain_peer(1, &peer(2), 30);
    book.insert_address(&peer(2), &address(7), 10);
    book.insert_chain_peer(0, &peer(1), 1);
    book.assign_slot(0, &peer(1));
    assert!(matches!(book.insert_chain_peer(0, &peer(2), 1), InsertChainPeerResult::Full));
    assert!(holds(&book.chain_peers_unordered(1), &peer(2)));
    assert_eq!(book.peer_addresses(&peer(2)).len(), 1);
    // With room for two, the same peer enters.
    assert!(matches!(
        book.insert_chain_peer(0, &peer(2), 2),
        InsertChainPeerResult::Inserted { peer_removed: None }
    ));
    assert_eq!(book.chain_peers_unordered(0).len(), 2);
}

#[test]
fn address_of_an_unknown_peer_is_not_recorded() {
    let mut book = book();
    assert!(matches!(
        book.insert_address(&peer(1), &address(1), 10),
        InsertAddressResult::UnknownPeer
    ));
    assert!(book.peer_addresses(&peer(1)).is_empty());
}

#[test]
fn recorded_address_is_listed_once() {
    let mut book = book();
    book.insert_chain_peer(0, &peer(1), 30);
    assert!(matches!(
        book.insert_address(&peer(1), &address(1), 10),
        InsertAddressResult::Inserted { address_removed: None }
    ));
    assert!(matches!(
        book.insert_address(&peer(1), &address(1), 10),
        InsertAddressResult::Duplicate
    ));
    let listed = book.peer_addresses(&peer(1));
    assert_eq!(listed.len(), 1);
    assert_eq!(listed[0].as_bytes(), address(1).as_bytes());
}

#[test]
fn the_tenth_address_pushes_another_one_out() {
    let mut book = book();
    book.insert_chain_peer(0, &peer(1), 30);
    for port in 1..=9 {
        assert!(matches!(
            book.insert_address(&peer(1), &address(port), 10),
            InsertAddressResult::Inserted { address_removed: None }
        ));
    }
    let removed = match book.insert_address(&peer(1), &address(10), 10) {
        InsertAddressResult::Inserted { address_removed: Some(removed) } => removed,
        other => panic!("{:?}", other),
    };
    assert_ne!(&removed, address(10).as_bytes());
    let listed = book.peer_addresses(&peer(1));
    assert_eq!(listed.len(), 9);
    assert!(listed.iter().any(|a| a.as_bytes() == address(10).as_bytes()));
    assert!(!listed.iter().any(|a| a.as_bytes() == &removed));
}

#[test]
fn connected_addresses_are_not_pushed_out() {
    let mut book = book();
    book.insert_chain_peer(0, &peer(1), 30);
    book.insert_or_set_connected_address(&peer(1), &address(1), 2);
    assert!(matches!(
        book.insert_address(&peer(1), &address(2), 2),
        InsertAddressResult::Inserted { address_removed: None }
    ));
    assert_eq!(book.peer_addresses(&peer(1)).len(), 2);
}

#[test]
fn addr_to_connected_picks_each_address_once() {
    let mut book = book();
    book.insert_chain_peer(0, &peer(1), 30);
    book.insert_address(&peer(1), &address(1), 10);
    book.insert_address(&peer(1), &address(2), 10);
    let first = book.addr_to_connected(&peer(1)).unwrap();
    let second = book.addr_to_connected(&peer(1)).unwrap();
    assert_ne!(first.as_bytes(), second.as_bytes());
    assert!(book.addr_to_connected(&peer(1)).is_none());
    assert!(book.addr_to_connected(&peer(2)).is_none());
}

#[test]
fn disconnect_addr_tells_the_three_cases_apart() {
    let mut book = book();
    book.insert_chain_peer(0, &peer(1), 30);
    book.insert_address(&peer(1), &address(1), 10);
    assert_eq!(
        book.disconnect_addr(&peer(1), address(2).as_bytes()),
        Err(DisconnectAddrError::UnknownAddress)
    );
    assert_eq!(
        book.disconnect_addr(&peer(2), address(1).as_bytes()),
        Err(DisconnectAddrError::UnknownAddress)
    );
    assert_eq!(
        book.disconnect_addr(&peer(1), address(1).as_bytes()),
        Err(DisconnectAddrError::NotConnected)
    );
    let picked = book.addr_to_connected(&peer(1)).unwrap();
    assert_eq!(book.disconnect_addr(&peer(1), picked.as_bytes()), Ok(()));
    assert!(book.addr_to_connected(&peer(1)).is_some());
}

#[test]
fn remove_address_says_whether_it_was_there() {
    let mut book = book();
    book.insert_chain_peer(0, &peer(1), 30);
    book.insert_address(&peer(1), &address(1), 10);
    assert!(!book.remove_address(&peer(1), address(2).as_bytes()));
    assert!(book.remove_address(&peer(1), address(1).as_bytes()));
    assert!(!book.remove_address(&peer(1), address(1).as_bytes()));
    assert!(book.peer_addresses(&peer(1)).is_empty());
    assert!(holds(&book.chain_peers_unordered(0), &peer(1)));
}

#[test]
fn addresses_removed_when_peer_has_no_chain_association() {
    let mut book = book();
    book.insert_chain_peer(0, &peer(1), usize::MAX);
    book.insert_address(&peer(1), &address(1), usize::MAX);
    assert_eq!(book.peer_addresses(&peer(1)).len(), 1);
    book.unassign_slot_and_remove_chain_peer(0, &peer(1));
    assert_eq!(book.peer_addresses(&peer(1)).len(), 0);
    assert!(book.chain_peers_unordered(0).is_empty());
}

#[test]
fn addresses_not_removed_if_connected_when_peer_has_no_chain_association() {
    let mut book = book();
    book.insert_chain_peer(0, &peer(1), usize::MAX);
    book.insert_or_set_connected_address(&peer(1), &address(1), usize::MAX);
    book.insert_address(&peer(1), &address(2), usize::MAX);
    assert_eq!(book.peer_addresses(&peer(1)).len(), 2);
    book.unassign_slot_and_remove_chain_peer(0, &peer(1));
    assert_eq!(book.peer_addresses(&peer(1)).len(), 2);
    book.disconnect_addr(&peer(1), address(1).as_bytes()).unwrap();
    assert_eq!(book.peer_addresses(&peer(1)).len(), 0);
}

#[test]
fn a_peer_without_address_is_set_aside_and_not_picked() {
    let mut book = book();
    book.insert_chain_peer(0, &peer(1), 30);
    assert!(!book.has_address(&peer(1)));
    match book.pick_assignable_peer(0, 5) {
        AssignablePeer::AllPeersBanned { next_unban } => assert_eq!(next_unban, 10_005),
        other => panic!("{:?}", other),
    }
    // Once it has an address and the ban is over, it is picked.
    book.insert_address(&peer(1), &address(1), 10);
    assert!(book.has_address(&peer(1)));
    match book.pick_assignable_peer(0, 10_004) {
        AssignablePeer::AllPeersBanned { next_unban } => assert_eq!(next_unban, 10_005),
        other => panic!("{:?}", other),
    }
    match book.pick_assignable_peer(0, 10_005) {
        AssignablePeer::Assignable(picked) => assert!(picked.same_as(&peer(1))),
        other => panic!("{:?}", other),
    }
}

#[test]
fn of_two_free_peers_the_one_with_an_address_is_picked() {
    for seed in 0..20u8 {
        let mut book = AddressBook::new([seed; 32], 0, 0);
        book.insert_chain_peer(0, &peer(1), 30);
        book.insert_chain_peer(0, &peer(2), 30);
        book.insert_address(&peer(2), &address(1), 10);
        match book.pick_assignable_peer(0, 0) {
            AssignablePeer::Assignable(picked) => assert!(picked.same_as(&peer(2))),
            other => panic!("{:?}", other),
        }
        assert_eq!(book.chain_peers_unordered(0).len(), 2);
    }
}

#[test]
fn a_peer_with_a_slot_is_not_picked_again() {
    let mut book = book();
    book.insert_chain_peer(0, &peer(1), 30);
    book.assign_slot(0, &peer(1));
    assert!(matches!(book.pick_assignable_peer(0, 0), AssignablePeer::NoPeer));
    assert!(holds(&book.chain_peers_unordered(0), &peer(1)));
}

#[test]
fn assign_slot_enters_the_peer_into_the_chain() {
    let mut book = book();
    book.assign_slot(4, &peer(1));
    assert!(holds(&book.chain_peers_unordered(4), &peer(1)));
    assert!(matches!(book.pick_assignable_peer(4, 0), AssignablePeer::NoPeer));
}

#[test]
fn a_banned_peer_comes_back_when_the_ban_ends() {
    let mut book = book();
    book.insert_chain_peer(0, &peer(1), 30);
    book.insert_address(&peer(1), &address(1), 10);
    book.assign_slot(0, &peer(1));
    book.unassign_slot_and_ban(0, &peer(1), 10_000);
    match book.pick_assignable_peer(0, 9_999) {
        AssignablePeer::AllPeersBanned { next_unban } => assert_eq!(next_unban, 10_000),
        other => panic!("{:?}", other),
    }
    match book.pick_assignable_peer(0, 10_000) {
        AssignablePeer::Assignable(picked) => assert!(picked.same_as(&peer(1))),
        other => panic!("{:?}", other),
    }
    match book.pick_assignable_peer(0, 10_001) {
        AssignablePeer::Assignable(picked) => assert!(picked.same_as(&peer(1))),
        other => panic!("{:?}", other),
    }
}

#[test]
fn the_longer_ban_stays() {
    let mut book = book();
    book.insert_chain_peer(0, &peer(1), 30);
    book.unassign_slot_and_ban(0, &peer(1), 500);
    book.unassign_slot_and_ban(0, &peer(1), 200);
    match book.pick_assignable_peer(0, 300) {
        AssignablePeer::AllPeersBanned { next_unban } => assert_eq!(next_unban, 500),
        other => panic!("{:?}", other),
    }
    book.unassign_slot_and_ban(0, &peer(1), 900);
    match book.pick_assignable_peer(0, 600) {
        AssignablePeer::AllPeersBanned { next_unban } => assert_eq!(next_unban, 900),
        other => panic!("{:?}", other),
    }
}

#[test]
fn the_earliest_ban_is_reported() {
    let mut book = book();
    book.insert_chain_peer(0, &peer(1), 30);
    book.insert_chain_peer(0, &peer(2), 30);
    book.insert_address(&peer(1), &address(1), 10);
    book.insert_address(&peer(2), &address(2), 10);
    book.unassign_slot_and_ban(0, &peer(1), 700);
    book.unassign_slot_and_ban(0, &peer(2), 400);
    match book.pick_assignable_peer(0, 100) {
        AssignablePeer::AllPeersBanned { next_unban } => assert_eq!(next_unban, 400),
        other => panic!("{:?}", other),
    }
    match book.pick_assignable_peer(0, 450) {
        AssignablePeer::Assignable(picked) => assert!(picked.same_as(&peer(2))),
        other => panic!("{:?}", other),
    }
}

#[test]
fn banning_a_peer_that_is_not_on_the_chain_does_nothing() {
    let mut book = book();
    book.unassign_slot_and_ban(0, &peer(1), 500);
    assert!(book.chain_peers_unordered(0).is_empty());
    assert!(matches!(book.pick_assignable_peer(0, 0), AssignablePeer::NoPeer));
}

#[test]
fn unassign_slots_and_ban_reaches_every_chain_of_the_peer() {
    let mut book = book();
    book.insert_chain_peer(0, &peer(1), 30);
    book.insert_chain_peer(1, &peer(1), 30);
    book.insert_chain_peer(1, &peer(2), 30);
    book.insert_address(&peer(2), &address(2), 10);
    book.assign_slot(0, &peer(1));
    book.unassign_slots_and_ban(&peer(1), 800);
    match book.pick_assignable_peer(0, 100) {
        AssignablePeer::AllPeersBanned { next_unban } => assert_eq!(next_unban, 800),
        other => panic!("{:?}", other),
    }
    match book.pick_assignable_peer(1, 100) {
        AssignablePeer::Assignable(picked) => assert!(picked.same_as(&peer(2))),
        other => panic!("{:?}", other),
    }
}
