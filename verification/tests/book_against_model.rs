use light_network::address_book::AddressBook;
use light_network::book_model::{
    AssignablePeer, DisconnectAddrError, InsertAddressResult, InsertChainPeerResult,
};
use light_network::identity::{Multiaddr, PeerId};
use std::collections::{BTreeMap, BTreeSet};

#[derive(Clone, Copy, Debug, PartialEq, Eq)]
enum Standing {
    Assignable,
    Banned(u64),
    Slot,
}

/// What the book is expected to hold, kept beside it.
struct Model {
    standings: BTreeMap<(usize, Vec<u8>), Standing>,
    addresses: BTreeMap<(Vec<u8>, Vec<u8>), bool>,
    peers: BTreeSet<Vec<u8>>,
}

impl Model {
    fn in_use(&self, peer: &Vec<u8>) -> bool {
        self.standings.keys().any(|(_, p)| p == peer)
            || self.addresses.iter().any(|((p, _), connected)| p == peer && *connected)
    }

    fn forget_unused(&mut self, peer: &Vec<u8>) {
        if !self.in_use(peer) {
            self.peers.remove(peer);
            self.addresses.retain(|(p, _), _| p != peer);
        }
    }

    fn chain_peers(&self, chain: usize) -> Vec<Vec<u8>> {
        self.standings
            .keys()
            .filter(|(c, _)| *c == chain)
            .map(|(_, p)| p.clone())
            .collect()
    }

    fn peer_addresses(&self, peer: &Vec<u8>) -> Vec<Vec<u8>> {
        self.addresses
            .keys()
            .filter(|(p, _)| p == peer)
            .map(|(_, a)| a.clone())
            .collect()
    }

    /// Whether another peer has the empty address, and whether it has it
    /// without being connected through it.
    fn empty_address_elsewhere(&self, peer: &Vec<u8>) -> (bool, bool) {
        let mut any = false;
        let mut idle = false;
        for ((p, a), connected) in &self.addresses {
            if p != peer && a.is_empty() {
                any = true;
                idle = idle || !*connected;
            }
        }
        (any, idle)
    }

    fn ban(&mut self, chain: usize, peer: &Vec<u8>, until: u64) {
        if let Some(standing) = self.standings.get_mut(&(chain, peer.clone())) {
            match *standing {
                Standing::Banned(expires) if expires >= until => {}
                _ => *standing = Standing::Banned(until),
            }
        }
    }
}

fn peer(n: u64) -> PeerId {
    PeerId::from_bytes(
        smoldot::libp2p::PeerId::from_public_key(&smoldot::libp2p::peer_id::PublicKey::Ed25519(
            [n as u8; 32],
        ))
        .into_bytes(),
    )
    .unwrap()
}

/// One of seven addresses with a port, or the address without any protocol.
fn address(n: u64) -> Multiaddr {
    if n == 7 {
        return Multiaddr::from_bytes(Vec::new()).unwrap();
    }
    Multiaddr::from_bytes(
        format!("/ip4/10.0.0.1/tcp/{}", n + 1)
            .parse::<smoldot::libp2p::multiaddr::Multiaddr>()
            .unwrap()
            .into_vec(),
    )
    .unwrap()
}

/// A small generator of numbers, the same on every run.
struct Numbers(u64);

impl Numbers {
    fn below(&mut self, limit: u64) -> u64 {
        self.0 = self
            .0
            .wrapping_mul(6364136223846793005)
            .wrapping_add(1442695040888963407);
        (self.0 >> 33) % limit
    }
}

fn insert_address(
    book: &mut AddressBook,
    model: &mut Model,
    peer_id: &PeerId,
    address: &Multiaddr,
    max: usize,
    connected: bool,
) {
    let p = peer_id.as_bytes().clone();
    let a = address.as_bytes().clone();
    let result = if connected {
        book.insert_or_set_connected_address(peer_id, address, max)
    } else {
        book.insert_address(peer_id, address, max)
    };
    if !model.peers.contains(&p) {
        assert!(matches!(result, InsertAddressResult::UnknownPeer));
    } else if model.addresses.contains_key(&(p.clone(), a.clone())) {
        assert!(matches!(result, InsertAddressResult::Duplicate));
        if connected {
            model.addresses.insert((p, a), true);
        }
    } else {
        let counted = model.peer_addresses(&p).len() + 1;
        let others_connected = model
            .addresses
            .iter()
            .filter(|((q, _), _)| *q == p)
            .all(|(_, connected)| *connected);
        let (elsewhere, idle_elsewhere) = model.empty_address_elsewhere(&p);
        model.addresses.insert((p.clone(), a.clone()), connected);
        match result {
            InsertAddressResult::Inserted { address_removed: None } => {
                assert!(counted < max || others_connected);
            }
            InsertAddressResult::Inserted { address_removed: Some(removed) } => {
                assert_ne!(removed, a);
                let own = model.addresses.get(&(p.clone(), removed.clone())) == Some(&false)
                    && (counted >= max || (elsewhere && counted + 1 >= max));
                let of_another = removed.is_empty() && idle_elsewhere && counted + 1 >= max;
                assert!(own || of_another);
                model.addresses.remove(&(p, removed));
            }
            other => panic!("{:?}", other),
        }
    }
}

fn run(seed: u64, steps: usize, addresses: u64) {
    let mut numbers = Numbers(seed);
    let mut book = AddressBook::new([seed as u8; 32], 0, 0);
    let mut model = Model {
        standings: BTreeMap::new(),
        addresses: BTreeMap::new(),
        peers: BTreeSet::new(),
    };
    let mut now: u64 = 0;

    for _ in 0..steps {
        let chain = numbers.below(3) as usize;
        let peer_id = peer(numbers.below(6));
        let p = peer_id.as_bytes().clone();
        let addr = address(numbers.below(addresses));
        let a = addr.as_bytes().clone();
        let max = 1 + numbers.below(4) as usize;
        now += numbers.below(50);
        let until = now + numbers.below(200);

        match numbers.below(12) {
            0 | 1 => {
                let on_chain = model.standings.contains_key(&(chain, p.clone()));
                let before = model.chain_peers(chain).len();
                let all_slots = model
                    .standings
                    .iter()
                    .filter(|((c, _), _)| *c == chain)
                    .all(|(_, s)| *s == Standing::Slot);
                match book.insert_chain_peer(chain, &peer_id, max) {
                    InsertChainPeerResult::Duplicate => assert!(on_chain),
                    InsertChainPeerResult::Full => {
                        assert!(!on_chain);
                        assert!(before >= max && all_slots);
                        model.forget_unused(&p);
                    }
                    InsertChainPeerResult::Inserted { peer_removed } => {
                        assert!(!on_chain);
                        model.standings.insert((chain, p.clone()), Standing::Assignable);
                        model.peers.insert(p.clone());
                        match peer_removed {
                            None => assert!(before < max),
                            Some(removed) => {
                                assert!(before >= max);
                                let v = removed.as_bytes().clone();
                                let standing = model.standings.remove(&(chain, v.clone()));
                                assert!(matches!(
                                    standing,
                                    Some(Standing::Assignable) | Some(Standing::Banned(_))
                                ));
                                assert_ne!(v, p);
                                model.forget_unused(&v);
                            }
                        }
                    }
                }
            }
            2 => {
                book.unassign_slot_and_remove_chain_peer(chain, &peer_id);
                if model.standings.remove(&(chain, p.clone())).is_some() {
                    model.forget_unused(&p);
                }
            }
            3 | 4 => insert_address(&mut book, &mut model, &peer_id, &addr, max + 1, false),
            5 => insert_address(&mut book, &mut model, &peer_id, &addr, max + 1, true),
            6 => {
                let expected = model.addresses.remove(&(p.clone(), a.clone())).is_some();
                assert_eq!(book.remove_address(&peer_id, &a), expected);
                if expected {
                    model.forget_unused(&p);
                }
            }
            7 => {
                book.assign_slot(chain, &peer_id);
                model.standings.insert((chain, p.clone()), Standing::Slot);
                model.peers.insert(p.clone());
            }
            8 => {
                book.unassign_slot_and_ban(chain, &peer_id, until);
                model.ban(chain, &p, until);
            }
            9 => {
                book.unassign_slots_and_ban(&peer_id, until);
                for c in 0..3 {
                    model.ban(c, &p, until);
                }
            }
            10 => {
                let open: Vec<Vec<u8>> = model
                    .addresses
                    .iter()
                    .filter(|((q, _), connected)| *q == p && !**connected)
                    .map(|((_, a), _)| a.clone())
                    .collect();
                match book.addr_to_connected(&peer_id) {
                    Some(picked) => {
                        assert!(open.contains(picked.as_bytes()));
                        model.addresses.insert((p.clone(), picked.into_bytes()), true);
                    }
                    None => assert!(open.is_empty()),
                }
            }
            _ => {
                let expected = match model.addresses.get(&(p.clone(), a.clone())) {
                    None => Err(DisconnectAddrError::UnknownAddress),
                    Some(false) => Err(DisconnectAddrError::NotConnected),
                    Some(true) => Ok(()),
                };
                assert_eq!(book.disconnect_addr(&peer_id, &a), expected);
                if expected.is_ok() {
                    model.addresses.insert((p.clone(), a.clone()), false);
                    model.forget_unused(&p);
                }
            }
        }

        // A search of each chain answers as the model says it must. Where
        // free peers with and without an address stand side by side, which of
        // those without are set aside is not determined: such a chain is not
        // searched.
        for c in 0..3 {
            let free: Vec<Vec<u8>> = model
                .standings
                .iter()
                .filter(|((chain, _), standing)| {
                    *chain == c
                        && match standing {
                            Standing::Assignable => true,
                            Standing::Banned(expires) => *expires <= now,
                            Standing::Slot => false,
                        }
                })
                .map(|((_, p), _)| p.clone())
                .collect();
            let with_address: Vec<Vec<u8>> = free
                .iter()
                .filter(|p| !model.peer_addresses(p).is_empty())
                .cloned()
                .collect();
            if with_address.is_empty() || with_address.len() == free.len() {
                for p in &free {
                    if with_address.is_empty() {
                        model.standings.insert((c, p.clone()), Standing::Banned(now + 10_000));
                    }
                }
                let first_unban = model
                    .standings
                    .iter()
                    .filter_map(|((chain, _), standing)| match standing {
                        Standing::Banned(expires) if *chain == c && *expires > now => {
                            Some(*expires)
                        }
                        _ => None,
                    })
                    .min();
                match book.pick_assignable_peer(c, now) {
                    AssignablePeer::Assignable(picked) => {
                        assert!(with_address.contains(picked.as_bytes()))
                    }
                    AssignablePeer::AllPeersBanned { next_unban } => {
                        assert!(with_address.is_empty());
                        assert_eq!(Some(next_unban), first_unban);
                    }
                    AssignablePeer::NoPeer => {
                        assert!(with_address.is_empty());
                        assert_eq!(first_unban, None);
                    }
                }
            }

            let mut listed: Vec<Vec<u8>> = book
                .chain_peers_unordered(c)
                .iter()
                .map(|p| p.as_bytes().clone())
                .collect();
            listed.sort();
            assert_eq!(listed, model.chain_peers(c));
        }
        for n in 0..6 {
            let mut listed: Vec<Vec<u8>> = book
                .peer_addresses(&peer(n))
                .iter()
                .map(|a| a.as_bytes().clone())
                .collect();
            listed.sort();
            assert_eq!(listed, model.peer_addresses(peer(n).as_bytes()));
        }
    }
}

#[test]
fn the_book_does_what_its_contracts_say_first_run() {
    run(1, 3000, 7);
}

#[test]
fn the_book_does_what_its_contracts_say_second_run() {
    run(977, 3000, 7);
}

#[test]
fn the_book_does_what_its_contracts_say_third_run() {
    run(31337, 3000, 7);
}

#[test]
fn the_book_does_what_its_contracts_say_with_the_empty_address_first_run() {
    run(2, 4000, 8);
}

#[test]
fn the_book_does_what_its_contracts_say_with_the_empty_address_second_run() {
    run(4242, 4000, 8);
}

#[test]
fn the_book_does_what_its_contracts_say_with_the_empty_address_third_run() {
    run(90210, 4000, 8);
}

#[test]
fn the_book_does_what_its_contracts_say_with_few_addresses() {
    // Two addresses with a port and the empty one: the empty address of
    // another peer is counted and picked often.
    for seed in 0..6 {
        let mut numbers = Numbers(seed);
        let mut book = AddressBook::new([seed as u8; 32], 0, 0);
        let mut model = Model {
            standings: BTreeMap::new(),
            addresses: BTreeMap::new(),
            peers: BTreeSet::new(),
        };
        for n in 0..6 {
            book.insert_chain_peer(0, &peer(n), 30);
            model.standings.insert((0, peer(n).as_bytes().clone()), Standing::Assignable);
            model.peers.insert(peer(n).as_bytes().clone());
        }
        for _ in 0..2000 {
            let peer_id = peer(numbers.below(6));
            let choice = numbers.below(4);
            let addr = if choice == 3 { address(7) } else { address(choice) };
            let max = 1 + numbers.below(4) as usize;
            match numbers.below(4) {
                0 | 1 => insert_address(&mut book, &mut model, &peer_id, &addr, max, false),
                2 => insert_address(&mut book, &mut model, &peer_id, &addr, max, true),
                _ => {
                    let key = (peer_id.as_bytes().clone(), addr.as_bytes().clone());
                    assert_eq!(
                        book.remove_address(&peer_id, addr.as_bytes()),
                        model.addresses.remove(&key).is_some()
                    );
                }
            }
            for n in 0..6 {
                let mut listed: Vec<Vec<u8>> = book
                    .peer_addresses(&peer(n))
                    .iter()
                    .map(|a| a.as_bytes().clone())
                    .collect();
                listed.sort();
                assert_eq!(listed, model.peer_addresses(peer(n).as_bytes()));
            }
        }
    }
}
