use light_network::errors::{
    BlocksRequestError, CallProofRequestError, StartRequestError, StartRequestMaybeTooLargeError,
    StorageProofRequestError, WarpSyncRequestError,
};
use light_network::requests::RequestRegistry;
use smoldot::network::service::SubstreamId;

fn registry() -> RequestRegistry<u32, u32, u32, u32> {
    RequestRegistry::new()
}

#[test]
fn started_request_waits_until_it_is_answered() {
    let mut registry = registry();
    assert!(registry
        .begin_blocks_request(Ok(SubstreamId::min_value()), 11)
        .is_none());
    assert_eq!(registry.finish_blocks_request(&SubstreamId::max_value()), None);
    assert_eq!(registry.finish_blocks_request(&SubstreamId::min_value()), Some(11));
    assert_eq!(registry.finish_blocks_request(&SubstreamId::min_value()), None);
}

#[test]
fn the_four_kinds_of_requests_are_kept_apart() {
    let mut registry = registry();
    let id = SubstreamId::min_value();
    registry.begin_blocks_request(Ok(id), 1);
    registry.begin_warp_sync_request(Ok(id), 2);
    registry.begin_storage_proof_request(Ok(id), 3);
    registry.begin_call_proof_request(Ok(id), 4);
    registry.begin_find_node_request(id, 5);
    assert_eq!(registry.finish_call_proof_request(&id), Some(4));
    assert_eq!(registry.finish_storage_proof_request(&id), Some(3));
    assert_eq!(registry.finish_warp_sync_request(&id), Some(2));
    assert_eq!(registry.finish_blocks_request(&id), Some(1));
    assert_eq!(registry.finish_find_node_request(&id), Some(5));
    assert_eq!(registry.finish_find_node_request(&id), None);
}

#[test]
fn refused_blocks_request_hands_the_slot_back() {
    let mut registry = registry();
    match registry.begin_blocks_request(Err(StartRequestError::NoConnection), 11) {
        Some((slot, BlocksRequestError::NoConnection)) => assert_eq!(slot, 11),
        other => panic!("{:?}", other),
    }
    assert_eq!(registry.finish_blocks_request(&SubstreamId::min_value()), None);
}

#[test]
fn refused_warp_sync_request_hands_the_slot_back() {
    let mut registry = registry();
    match registry.begin_warp_sync_request(Err(StartRequestError::NoConnection), 12) {
        Some((slot, WarpSyncRequestError::NoConnection)) => assert_eq!(slot, 12),
        other => panic!("{:?}", other),
    }
}

#[test]
fn refused_storage_proof_request_says_why() {
    let mut registry = registry();
    match registry
        .begin_storage_proof_request(Err(StartRequestMaybeTooLargeError::NoConnection), 13)
    {
        Some((slot, StorageProofRequestError::NoConnection)) => assert_eq!(slot, 13),
        other => panic!("{:?}", other),
    }
    match registry
        .begin_storage_proof_request(Err(StartRequestMaybeTooLargeError::RequestTooLarge), 14)
    {
        Some((slot, StorageProofRequestError::RequestTooLarge)) => assert_eq!(slot, 14),
        other => panic!("{:?}", other),
    }
}

#[test]
fn refused_call_proof_request_says_why() {
    let mut registry = registry();
    match registry.begin_call_proof_request(Err(StartRequestMaybeTooLargeError::NoConnection), 15)
    {
        Some((slot, CallProofRequestError::NoConnection)) => assert_eq!(slot, 15),
        other => panic!("{:?}", other),
    }
    match registry
        .begin_call_proof_request(Err(StartRequestMaybeTooLargeError::RequestTooLarge), 16)
    {
        Some((slot, CallProofRequestError::RequestTooLarge)) => assert_eq!(slot, 16),
        other => panic!("{:?}", other),
    }
}

#[test]
fn a_slot_that_nobody_waits_at_is_freed_like_any_other() {
    // The slot is the sending half of a channel whose receiving half is gone.
    let mut registry: RequestRegistry<std::sync::mpsc::Sender<u8>, u32, u32, u32> =
        RequestRegistry::new();
    let (slot, waiting) = std::sync::mpsc::channel::<u8>();
    registry.begin_blocks_request(Ok(SubstreamId::min_value()), slot);
    drop(waiting);
    let slot = registry
        .finish_blocks_request(&SubstreamId::min_value())
        .unwrap();
    assert!(slot.send(1).is_err());
    assert!(registry
        .finish_blocks_request(&SubstreamId::min_value())
        .is_none());
}

#[test]
fn find_node_request_remembers_its_chain() {
    let mut registry = registry();
    assert_eq!(registry.begin_find_node_request(SubstreamId::min_value(), 3), None);
    assert_eq!(registry.begin_find_node_request(SubstreamId::min_value(), 4), Some(3));
    assert_eq!(registry.finish_find_node_request(&SubstreamId::min_value()), Some(4));
}
