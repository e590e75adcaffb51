use core::num::NonZeroU32;
use core::time::Duration;
use light_network::book_model::DisconnectAddrError;
use light_network::coordinator::{
    find_node_query, Chain, ConnectStep, Coordinator, Probe, SlotSearch,
};
use light_network::errors::{BlocksRequestError, StartRequestError};
use light_network::events::{Event, NetworkCommand, Role};
use light_network::identity::{Multiaddr, PeerId};
use smoldot::network::service::{ConnectionId, SubstreamId};

type Service = Coordinator<u32, u32, u32, u32, &'static str>;

fn peer(n: u8) -> PeerId {
    PeerId::from_bytes(
        smoldot::libp2p::PeerId::from_public_key(&smoldot::libp2p::peer_id::PublicKey::Ed25519(
            [n; 32],
        ))
        .into_bytes(),
    )
    .unwrap()
}

fn address(port: u16) -> Multiaddr {
    Multiaddr::from_bytes(
        format!("/ip4/10.0.0.1/tcp/{}", port)
            .parse::<smoldot::libp2p::multiaddr::Multiaddr>()
            .unwrap()
            .into_vec(),
    )
    .unwrap()
}

fn service(slots: &[usize]) -> Service {
    let chains = slots
        .iter()
        .map(|n| Chain { log_name: format!("chain-{}", n), num_out_slots: *n })
        .collect();
    Coordinator::new("agent/1.0".to_string(), chains, [1; 32], [2; 32])
}

fn listed<'a>(nodes: &'a [(PeerId, Vec<Multiaddr>)], wanted: &PeerId) -> Option<&'a Vec<Multiaddr>> {
    nodes.iter().find(|(p, _)| p.same_as(wanted)).map(|(_, a)| a)
}

#[test]
fn fresh_service_knows_nobody_and_refuses_requests() {
    let mut service = service(&[4]);
    assert_eq!(service.num_chains(), 1);
    assert_eq!(service.chain(0).unwrap().num_out_slots, 4);
    assert!(service.chain(1).is_none());
    assert_eq!(service.identify_agent_version(), "agent/1.0");
    assert!(service.discovered_nodes(0).is_empty());

    // The network state machine, with the same single chain and no peer.
    let mut network = smoldot::network::service::ChainNetwork::<(), (), Duration>::new(
        smoldot::network::service::Config {
            chains_capacity: 1,
            connections_capacity: 32,
            handshake_timeout: Duration::from_secs(8),
            randomness_seed: [0; 32],
        },
    );
    let chain_id = network
        .add_chain(smoldot::network::service::ChainConfig {
            user_data: (),
            genesis_hash: [1; 32],
            fork_id: None,
            block_number_bytes: 4,
            grandpa_protocol_config: None,
            allow_inbound_block_requests: false,
            best_hash: [1; 32],
            best_number: 0,
            role: smoldot::network::service::Role::Light,
        })
        .unwrap();
    assert_eq!(
        network
            .gossip_connected_peers(
                chain_id,
                smoldot::network::service::GossipKind::ConsensusTransactions
            )
            .count(),
        0
    );
    let unknown = smoldot::libp2p::PeerId::from_bytes(peer(9).as_bytes().clone()).unwrap();
    let started = network
        .start_blocks_request(
            &unknown,
            chain_id,
            smoldot::network::codec::BlocksRequestConfig {
                start: smoldot::network::codec::BlocksRequestConfigStart::Number(1),
                desired_count: NonZeroU32::new(1).unwrap(),
                direction: smoldot::network::codec::BlocksRequestDirection::Ascending,
                fields: smoldot::network::codec::BlocksRequestFields {
                    header: true,
                    body: false,
                    justifications: false,
                },
            },
            Duration::from_secs(10),
        )
        .map_err(|err| match err {
            smoldot::network::service::StartRequestError::NoConnection => {
                StartRequestError::NoConnection
            }
        });
    match service.begin_blocks_request(started, 5) {
        Some((slot, BlocksRequestError::NoConnection)) => assert_eq!(slot, 5),
        other => panic!("{:?}", other),
    }
    assert!(service.finish_blocks_request(&SubstreamId::min_value()).is_none());
}

#[test]
fn discovered_peer_is_listed_with_its_addresses() {
    let mut service = service(&[4]);
    service.discover(0, &vec![(peer(1), vec![address(1), address(2)])], false);
    let nodes = service.discovered_nodes(0);
    assert_eq!(nodes.len(), 1);
    let addresses = listed(&nodes, &peer(1)).unwrap();
    assert_eq!(addresses.len(), 2);
    assert!(addresses.iter().any(|a| a.as_bytes() == address(1).as_bytes()));
    assert!(addresses.iter().any(|a| a.as_bytes() == address(2).as_bytes()));
    assert!(service.discovered_nodes(1).is_empty());
}

#[test]
fn discovered_peer_keeps_fewer_than_ten_of_many_addresses() {
    let mut service = service(&[4]);
    let given: Vec<Multiaddr> = (1..=25).map(address).collect();
    service.discover(0, &vec![(peer(1), given)], true);
    let nodes = service.discovered_nodes(0);
    let addresses = listed(&nodes, &peer(1)).unwrap();
    assert_eq!(addresses.len(), 9);
    for kept in addresses {
        assert!((1..=25).any(|port| address(port).as_bytes() == kept.as_bytes()));
    }
}

#[test]
fn discovering_many_peers_keeps_thirty_per_chain() {
    let mut service = service(&[4]);
    let list: Vec<(PeerId, Vec<Multiaddr>)> =
        (0..40).map(|n| (peer(n), vec![address(n as u16 + 1)])).collect();
    service.discover(0, &list, false);
    let nodes = service.discovered_nodes(0);
    assert_eq!(nodes.len(), 30);
    assert!(listed(&nodes, &peer(39)).is_some());
}

#[test]
fn slots_are_assigned_up_to_the_limit() {
    let mut service = service(&[2]);
    let list: Vec<(PeerId, Vec<Multiaddr>)> =
        (0..5).map(|n| (peer(n), vec![address(n as u16 + 1)])).collect();
    service.discover(0, &list, false);

    // The number of gossip links wanted grows with each slot assigned, as the
    // network state machine would report it.
    let mut assigned: Vec<PeerId> = Vec::new();
    loop {
        match service.search_slot(&vec![assigned.len()], 0) {
            SlotSearch::CanAssignSlot { peer_id, chain_id } => {
                assert_eq!(chain_id, 0);
                assert!(!assigned.iter().any(|p| p.same_as(&peer_id)));
                match service.on_can_assign_slot(chain_id, peer_id.duplicate()) {
                    NetworkCommand::GossipInsertDesired { chain_id, peer_id: wanted } => {
                        assert_eq!(chain_id, 0);
                        assert!(wanted.same_as(&peer_id));
                    }
                    other => panic!("{:?}", other),
                }
                assigned.push(peer_id);
            }
            SlotSearch::Idle => break,
            other => panic!("{:?}", other),
        }
    }
    assert_eq!(assigned.len(), 2);

    // The other three are still there to be assigned, were there room.
    let mut others: Vec<PeerId> = Vec::new();
    for _ in 0..3 {
        match service.search_slot(&vec![0], 0) {
            SlotSearch::CanAssignSlot { peer_id, .. } => {
                assert!(!assigned.iter().any(|p| p.same_as(&peer_id)));
                assert!(!others.iter().any(|p| p.same_as(&peer_id)));
                service.on_can_assign_slot(0, peer_id.duplicate());
                others.push(peer_id);
            }
            other => panic!("{:?}", other),
        }
    }
    assert!(matches!(service.search_slot(&vec![0], 0), SlotSearch::Idle));
    assert_eq!(service.discovered_nodes(0).len(), 5);
}

#[test]
fn search_waits_for_the_earliest_ban_among_chains_with_room() {
    let mut service = service(&[1, 1, 1]);
    service.discover(0, &vec![(peer(1), vec![address(1)])], false);
    service.discover(1, &vec![(peer(2), vec![address(2)])], false);
    service.discover(2, &vec![(peer(3), vec![address(3)])], false);
    service.on_gossip_open_failed(peer(1), 0, false, 1_000);
    service.on_gossip_open_failed(peer(2), 1, false, 500);
    service.on_gossip_open_failed(peer(3), 2, false, 100);
    // Chain 2 has no room: its ban does not count.
    match service.search_slot(&vec![0, 0, 1], 2_000) {
        SlotSearch::WaitUntil { clock } => assert_eq!(clock, 15_500),
        other => panic!("{:?}", other),
    }
    match service.search_slot(&vec![0, 0, 0], 2_000) {
        SlotSearch::WaitUntil { clock } => assert_eq!(clock, 15_100),
        other => panic!("{:?}", other),
    }
    match service.search_slot(&vec![0, 0, 1], 15_500) {
        SlotSearch::CanAssignSlot { peer_id, chain_id } => {
            assert_eq!(chain_id, 1);
            assert!(peer_id.same_as(&peer(2)));
        }
        other => panic!("{:?}", other),
    }
    match service.search_slot(&vec![0, 0, 1], 16_000) {
        SlotSearch::CanAssignSlot { peer_id, chain_id } => {
            assert_eq!(chain_id, 0);
            assert!(peer_id.same_as(&peer(1)));
        }
        other => panic!("{:?}", other),
    }
    assert!(matches!(service.search_slot(&vec![1, 1, 1], 16_000), SlotSearch::Idle));
}

#[test]
fn genesis_mismatch_purges_the_peer() {
    let mut service = service(&[4]);
    service.discover(0, &vec![(peer(1), vec![address(1)]), (peer(2), vec![address(2)])], false);
    match service.on_gossip_open_failed(peer(1), 0, true, 1_000) {
        NetworkCommand::GossipRemoveDesired { chain_id, peer_id } => {
            assert_eq!(chain_id, 0);
            assert!(peer_id.same_as(&peer(1)));
        }
        other => panic!("{:?}", other),
    }
    let nodes = service.discovered_nodes(0);
    assert_eq!(nodes.len(), 1);
    assert!(listed(&nodes, &peer(1)).is_none());
    assert!(listed(&nodes, &peer(2)).is_some());
    // No ban is left behind: the only peer that can be picked is the other.
    match service.search_slot(&vec![0], 1_000) {
        SlotSearch::CanAssignSlot { peer_id, .. } => assert!(peer_id.same_as(&peer(2))),
        other => panic!("{:?}", other),
    }
    service.on_can_assign_slot(0, peer(2));
    assert!(matches!(service.search_slot(&vec![0], 1_000_000), SlotSearch::Idle));
}

#[test]
fn failed_gossip_open_bans_for_fifteen_seconds() {
    let mut service = service(&[4]);
    service.discover(0, &vec![(peer(1), vec![address(1)])], false);
    service.on_can_assign_slot(0, peer(1));
    service.on_gossip_open_failed(peer(1), 0, false, 1_000);
    match service.search_slot(&vec![0], 15_999) {
        SlotSearch::WaitUntil { clock } => assert_eq!(clock, 16_000),
        other => panic!("{:?}", other),
    }
    assert!(matches!(
        service.search_slot(&vec![0], 16_000),
        SlotSearch::CanAssignSlot { .. }
    ));
    assert_eq!(service.discovered_nodes(0).len(), 1);
}

#[test]
fn closed_gossip_link_bans_for_ten_seconds_and_is_reported() {
    let mut service = service(&[4]);
    service.discover(0, &vec![(peer(1), vec![address(1)])], false);
    service.on_can_assign_slot(0, peer(1));
    match service.on_gossip_disconnected(peer(1), 0, 5_000) {
        NetworkCommand::GossipRemoveDesired { chain_id, peer_id } => {
            assert_eq!(chain_id, 0);
            assert!(peer_id.same_as(&peer(1)));
        }
        other => panic!("{:?}", other),
    }
    match service.take_staged_event() {
        Some(Event::Disconnected { peer_id, chain_id }) => {
            assert_eq!(chain_id, 0);
            assert!(peer_id.same_as(&peer(1)));
        }
        other => panic!("{:?}", other),
    }
    match service.search_slot(&vec![0], 14_999) {
        SlotSearch::WaitUntil { clock } => assert_eq!(clock, 15_000),
        other => panic!("{:?}", other),
    }
    match service.search_slot(&vec![0], 15_001) {
        SlotSearch::CanAssignSlot { peer_id, chain_id } => {
            assert_eq!(chain_id, 0);
            assert!(peer_id.same_as(&peer(1)));
        }
        other => panic!("{:?}", other),
    }
}

#[test]
fn opened_gossip_link_is_reported_once() {
    let mut service = service(&[4]);
    service.discover(0, &vec![(peer(1), vec![address(1)])], false);
    assert!(service.may_pull_network_event());
    service.on_gossip_connected(peer(1), 0, Role::Full, 42, [7; 32]);
    assert!(!service.may_pull_network_event());
    match service.take_staged_event() {
        Some(Event::Connected { peer_id, chain_id, role, best_block_number, best_block_hash }) => {
            assert!(peer_id.same_as(&peer(1)));
            assert_eq!(chain_id, 0);
            assert_eq!(role, Role::Full);
            assert_eq!(best_block_number, 42);
            assert_eq!(best_block_hash, [7; 32]);
        }
        other => panic!("{:?}", other),
    }
    assert!(service.take_staged_event().is_none());
    assert!(service.may_pull_network_event());
}

#[test]
fn neighbor_packet_reports_the_finalized_height() {
    let mut service = service(&[4]);
    service.on_grandpa_neighbor_packet(peer(1), 0, 1234);
    match service.take_staged_event() {
        Some(Event::GrandpaNeighborPacket { peer_id, chain_id, finalized_block_height }) => {
            assert!(peer_id.same_as(&peer(1)));
            assert_eq!(chain_id, 0);
            assert_eq!(finalized_block_height, 1234);
        }
        other => panic!("{:?}", other),
    }
}

#[test]
fn while_an_event_waits_only_network_events_are_held_back() {
    let mut service = service(&[4]);
    assert_eq!(service.first_probe(), Probe::NetworkEvent);
    service.on_gossip_connected(peer(1), 0, Role::Light, 1, [0; 32]);
    assert_eq!(service.first_probe(), Probe::StartConnect);
    // Commands are still served.
    service.discover(0, &vec![(peer(2), vec![address(2)])], false);
    assert_eq!(service.discovered_nodes(0).len(), 1);
    assert!(service
        .begin_blocks_request(Ok(SubstreamId::min_value()), 1)
        .is_none());
    assert!(matches!(
        service.search_slot(&vec![0], 0),
        SlotSearch::CanAssignSlot { .. }
    ));
    assert!(service.take_staged_event().is_some());
    assert_eq!(service.first_probe(), Probe::NetworkEvent);
}

#[test]
fn sources_are_looked_at_in_order() {
    assert_eq!(Service::probe_after(Probe::NetworkEvent), Some(Probe::StartConnect));
    assert_eq!(Service::probe_after(Probe::StartConnect), Some(Probe::OpenGossip));
    assert_eq!(Service::probe_after(Probe::OpenGossip), Some(Probe::MessageToConnection));
    assert_eq!(Service::probe_after(Probe::MessageToConnection), Some(Probe::AssignSlot));
    assert_eq!(Service::probe_after(Probe::AssignSlot), None);
}

#[test]
fn connecting_dials_an_address_of_the_peer() {
    let mut service = service(&[4]);
    service.discover(0, &vec![(peer(1), vec![address(1)])], false);
    match service.on_can_start_connect(peer(1), 0) {
        ConnectStep::Dial { address: dialled } => {
            assert_eq!(dialled.as_bytes(), address(1).as_bytes())
        }
        other => panic!("{:?}", other),
    }
    assert!(service
        .on_connection_started(ConnectionId::min_value(), "first")
        .is_none());
    assert_eq!(service.connection(&ConnectionId::min_value()), Some(&"first"));
    assert_eq!(service.connection(&ConnectionId::max_value()), None);
}

#[test]
fn connecting_without_an_address_bans_the_peer_everywhere() {
    let mut service = service(&[4, 4]);
    service.discover(0, &vec![(peer(1), vec![])], false);
    service.discover(1, &vec![(peer(1), vec![])], false);
    service.on_can_assign_slot(0, peer(1));
    match service.on_can_start_connect(peer(1), 2_000) {
        ConnectStep::NoAddress { command: NetworkCommand::GossipRemoveDesiredAll { peer_id } } => {
            assert!(peer_id.same_as(&peer(1)))
        }
        other => panic!("{:?}", other),
    }
    match service.search_slot(&vec![0, 0], 11_999) {
        SlotSearch::WaitUntil { clock } => assert_eq!(clock, 12_000),
        other => panic!("{:?}", other),
    }
    // When the ban is over the peer still has no address: it is set aside
    // again, on both chains, and not named.
    match service.search_slot(&vec![0, 0], 12_000) {
        SlotSearch::WaitUntil { clock } => assert_eq!(clock, 22_000),
        other => panic!("{:?}", other),
    }
    assert_eq!(service.discovered_nodes(0).len(), 1);
    assert_eq!(service.discovered_nodes(1).len(), 1);
}

#[test]
fn a_peer_without_address_is_never_named_for_a_slot() {
    let mut service = service(&[4]);
    service.discover(0, &vec![(peer(1), vec![])], false);
    match service.search_slot(&vec![0], 100) {
        SlotSearch::WaitUntil { clock } => assert_eq!(clock, 10_100),
        other => panic!("{:?}", other),
    }
    match service.search_slot(&vec![0], 10_100) {
        SlotSearch::WaitUntil { clock } => assert_eq!(clock, 20_100),
        other => panic!("{:?}", other),
    }
    // With an address, the peer is named once its ban is over.
    service.discover(0, &vec![(peer(1), vec![address(1)])], false);
    match service.search_slot(&vec![0], 20_099) {
        SlotSearch::WaitUntil { clock } => assert_eq!(clock, 20_100),
        other => panic!("{:?}", other),
    }
    match service.search_slot(&vec![0], 20_100) {
        SlotSearch::CanAssignSlot { peer_id, chain_id } => {
            assert_eq!(chain_id, 0);
            assert!(peer_id.same_as(&peer(1)));
        }
        other => panic!("{:?}", other),
    }
}

#[test]
fn a_chain_full_of_peers_with_slots_takes_no_new_peer() {
    let mut service = service(&[40]);
    let list: Vec<(PeerId, Vec<Multiaddr>)> =
        (0..30).map(|n| (peer(n), vec![address(n as u16 + 1)])).collect();
    service.discover(0, &list, false);
    for n in 0..30 {
        service.on_can_assign_slot(0, peer(n));
    }
    service.discover(0, &vec![(peer(30), vec![address(31)])], false);
    let nodes = service.discovered_nodes(0);
    assert_eq!(nodes.len(), 30);
    assert!(listed(&nodes, &peer(30)).is_none());
}

#[test]
fn the_service_knows_its_chains_by_name() {
    let service = service(&[4, 2]);
    assert_eq!(service.chain(0).unwrap().log_name, "chain-4");
    assert_eq!(service.chain(1).unwrap().log_name, "chain-2");
}

#[test]
fn a_genesis_mismatch_is_taken_at_any_clock_reading() {
    let mut service = service(&[4]);
    service.discover(0, &vec![(peer(1), vec![address(1)])], false);
    service.on_gossip_open_failed(peer(1), 0, true, u64::MAX);
    assert!(service.discovered_nodes(0).is_empty());
}

#[test]
fn an_address_that_cannot_be_dialled_is_struck() {
    let mut service = service(&[4]);
    service.discover(0, &vec![(peer(1), vec![address(1)])], false);
    let dialled = match service.on_can_start_connect(peer(1), 0) {
        ConnectStep::Dial { address } => address,
        other => panic!("{:?}", other),
    };
    assert!(service.on_address_unusable(&peer(1), &dialled));
    assert!(!service.on_address_unusable(&peer(1), &dialled));
    let nodes = service.discovered_nodes(0);
    assert!(listed(&nodes, &peer(1)).unwrap().is_empty());
    assert!(matches!(
        service.on_can_start_connect(peer(1), 0),
        ConnectStep::NoAddress { .. }
    ));
}

#[test]
fn handshake_with_the_expected_peer_changes_nothing() {
    let mut service = service(&[4]);
    service.discover(0, &vec![(peer(1), vec![address(1)])], false);
    assert!(!service.on_handshake_finished(&peer(1), Some(&peer(1)), &address(1)));
    assert!(!service.on_handshake_finished(&peer(2), None, &address(1)));
    let nodes = service.discovered_nodes(0);
    assert_eq!(listed(&nodes, &peer(1)).unwrap().len(), 1);
}

#[test]
fn handshake_with_another_peer_moves_the_address() {
    let mut service = service(&[4]);
    service.discover(
        0,
        &vec![(peer(1), vec![address(1)]), (peer(2), vec![address(2)])],
        false,
    );
    match service.on_can_start_connect(peer(1), 0) {
        ConnectStep::Dial { .. } => {}
        other => panic!("{:?}", other),
    }
    assert!(service.on_handshake_finished(&peer(2), Some(&peer(1)), &address(1)));
    let nodes = service.discovered_nodes(0);
    assert!(listed(&nodes, &peer(1)).unwrap().is_empty());
    let moved = listed(&nodes, &peer(2)).unwrap();
    assert_eq!(moved.len(), 2);
    assert!(moved.iter().any(|a| a.as_bytes() == address(1).as_bytes()));
    // The address counts as connected for the peer that answered.
    let outcome = service.on_disconnected(
        &ConnectionId::min_value(),
        address(1).as_bytes(),
        Some(&peer(2)),
    );
    assert_eq!(outcome.1, Ok(()));
}

#[test]
fn end_of_a_connection_frees_its_entry_and_its_address() {
    let mut service = service(&[4]);
    service.discover(0, &vec![(peer(1), vec![address(1)])], false);
    let dialled = match service.on_can_start_connect(peer(1), 0) {
        ConnectStep::Dial { address } => address,
        other => panic!("{:?}", other),
    };
    service.on_connection_started(ConnectionId::min_value(), "first");
    let (handle, answer) =
        service.on_disconnected(&ConnectionId::min_value(), dialled.as_bytes(), Some(&peer(1)));
    assert_eq!(handle, Some("first"));
    assert_eq!(answer, Ok(()));
    assert_eq!(service.connection(&ConnectionId::min_value()), None);
    // The address can be tried again.
    assert!(matches!(
        service.on_can_start_connect(peer(1), 0),
        ConnectStep::Dial { .. }
    ));
    // A second end of the same connection finds nothing.
    let (handle, answer) =
        service.on_disconnected(&ConnectionId::min_value(), address(9).as_bytes(), Some(&peer(1)));
    assert_eq!(handle, None);
    assert_eq!(answer, Err(DisconnectAddrError::UnknownAddress));
    let (_, answer) = service.on_disconnected(&ConnectionId::min_value(), address(1).as_bytes(), None);
    assert_eq!(answer, Ok(()));
}

#[test]
fn find_node_answer_enters_the_book() {
    let mut service = service(&[4, 4]);
    assert_eq!(service.on_find_node_started(SubstreamId::min_value(), 1), None);
    let reported = vec![
        (peer(1), vec![address(1).into_bytes(), vec![0xff, 0xff]]),
        (peer(2), vec![vec![0xff, 0xff], vec![0xff]]),
        (peer(3), vec![address(3).into_bytes(), address(4).into_bytes()]),
    ];
    assert_eq!(
        service.on_find_node_result(&SubstreamId::min_value(), Some(&reported)),
        Some(1)
    );
    assert!(service.discovered_nodes(0).is_empty());
    let nodes = service.discovered_nodes(1);
    assert_eq!(nodes.len(), 2);
    assert_eq!(listed(&nodes, &peer(1)).unwrap().len(), 1);
    assert!(listed(&nodes, &peer(2)).is_none());
    assert_eq!(listed(&nodes, &peer(3)).unwrap().len(), 2);
}

#[test]
fn find_node_answer_is_read_up_to_the_tenth_address() {
    let mut service = service(&[4]);
    service.on_find_node_started(SubstreamId::min_value(), 0);
    let mut many: Vec<Vec<u8>> = (1..=12).map(|port| address(port).into_bytes()).collect();
    many[0] = vec![0xff, 0xff, 0xff];
    let reported = vec![(peer(3), many)];
    service.on_find_node_result(&SubstreamId::min_value(), Some(&reported));
    let nodes = service.discovered_nodes(0);
    let kept = listed(&nodes, &peer(3)).unwrap();
    // Of the first ten byte strings nine are addresses; the last two are not
    // looked at.
    assert_eq!(kept.len(), 9);
    assert!(!kept.iter().any(|a| a.as_bytes() == address(11).as_bytes()));
    assert!(!kept.iter().any(|a| a.as_bytes() == address(12).as_bytes()));
}

#[test]
fn find_node_answer_with_the_empty_address_enters_the_book() {
    let mut service = service(&[4]);
    service.on_find_node_started(SubstreamId::min_value(), 0);
    let reported = vec![
        (peer(1), vec![Vec::new()]),
        (peer(2), vec![vec![0xff, 0xff], Vec::new(), address(2).into_bytes()]),
    ];
    service.on_find_node_result(&SubstreamId::min_value(), Some(&reported));
    let nodes = service.discovered_nodes(0);
    assert_eq!(nodes.len(), 2);
    let first = listed(&nodes, &peer(1)).unwrap();
    assert_eq!(first.len(), 1);
    assert!(first[0].as_bytes().is_empty());
    let second = listed(&nodes, &peer(2)).unwrap();
    assert_eq!(second.len(), 2);
    assert!(second.iter().any(|a| a.as_bytes().is_empty()));
    assert!(second.iter().any(|a| a.as_bytes() == address(2).as_bytes()));
}

#[test]
fn the_empty_address_is_discovered_dialled_and_struck() {
    let mut service = service(&[4]);
    let empty = Multiaddr::from_bytes(Vec::new()).unwrap();
    service.discover(0, &vec![(peer(1), vec![empty.duplicate()])], false);
    let nodes = service.discovered_nodes(0);
    assert_eq!(listed(&nodes, &peer(1)).unwrap().len(), 1);
    // A peer with the empty address has an address, and is named for a slot.
    assert!(matches!(
        service.search_slot(&vec![0], 0),
        SlotSearch::CanAssignSlot { .. }
    ));
    let dialled = match service.on_can_start_connect(peer(1), 0) {
        ConnectStep::Dial { address } => address,
        other => panic!("{:?}", other),
    };
    assert!(dialled.as_bytes().is_empty());
    assert!(service.on_address_unusable(&peer(1), &dialled));
    assert!(listed(&service.discovered_nodes(0), &peer(1)).unwrap().is_empty());
}

#[test]
fn find_node_answer_for_an_unknown_request_is_not_taken_in() {
    let mut service = service(&[4]);
    let reported = vec![(peer(1), vec![address(1).into_bytes()])];
    assert_eq!(service.on_find_node_result(&SubstreamId::min_value(), Some(&reported)), None);
    assert!(service.discovered_nodes(0).is_empty());
    service.on_find_node_started(SubstreamId::min_value(), 0);
    assert_eq!(service.on_find_node_result(&SubstreamId::min_value(), None), Some(0));
    assert_eq!(service.on_find_node_result(&SubstreamId::min_value(), None), None);
}

#[test]
fn find_node_query_looks_for_the_identity_of_the_key() {
    let query = find_node_query(3, Some(peer(1)), &[5; 32]).unwrap();
    assert_eq!(query.chain_id, 3);
    assert!(query.target.same_as(&peer(1)));
    assert_eq!(&query.near, peer(5).as_bytes());
    assert_ne!(query.near, vec![5u8; 32]);
    assert_eq!(query.timeout_secs, 20);
    assert!(find_node_query(3, None, &[5; 32]).is_none());
}

#[test]
fn discovery_round_passes_over_chains_without_a_peer() {
    let mut service = service(&[4, 4, 4]);
    let queries = service.plan_discovery_round(&vec![Some(peer(1)), None, Some(peer(3))]);
    assert_eq!(queries.len(), 2);
    assert_eq!(queries[0].chain_id, 0);
    assert!(queries[0].target.same_as(&peer(1)));
    assert_eq!(queries[1].chain_id, 2);
    assert!(queries[1].target.same_as(&peer(3)));
    assert_eq!(queries[0].timeout_secs, 20);
    // Each round looks near another identity.
    assert_ne!(queries[0].near, queries[1].near);
    assert!(service.plan_find_node(1, None).is_none());
    let again = service.plan_find_node(1, Some(peer(2))).unwrap();
    assert_ne!(again.near, queries[0].near);
    assert!(PeerId::from_bytes(again.near).is_ok());
    assert!(service.plan_discovery_round(&Vec::new()).is_empty());
}

#[test]
fn peers_discovered_as_important_count_as_important() {
    let mut service = service(&[4]);
    service.discover(0, &vec![(peer(1), vec![address(1)])], false);
    assert!(!service.is_important(&peer(1)));
    service.discover(
        0,
        &vec![(peer(2), vec![address(2)]), (peer(3), vec![]), (peer(2), vec![address(4)])],
        true,
    );
    assert!(service.is_important(&peer(2)));
    assert!(service.is_important(&peer(3)));
    assert!(!service.is_important(&peer(1)));
    service.discover(0, &vec![(peer(1), vec![])], true);
    assert!(service.is_important(&peer(1)));
    // Being important does not keep a peer on its chain.
    service.on_gossip_open_failed(peer(2), 0, true, 0);
    assert!(service.is_important(&peer(2)));
    assert_eq!(service.discovered_nodes(0).len(), 2);
}

#[test]
fn a_peer_discovered_twice_keeps_its_standing() {
    let mut service = service(&[4]);
    service.discover(0, &vec![(peer(1), vec![address(1)])], false);
    service.on_can_assign_slot(0, peer(1));
    service.discover(0, &vec![(peer(1), vec![address(2)])], false);
    assert!(matches!(service.search_slot(&vec![0], 0), SlotSearch::Idle));
    let nodes = service.discovered_nodes(0);
    assert_eq!(listed(&nodes, &peer(1)).unwrap().len(), 2);
}
