use light_network::identity::{bytes_equal, copy_bytes, Multiaddr, PeerId};

fn key_identity(n: u8) -> Vec<u8> {
    smoldot::libp2p::PeerId::from_public_key(&smoldot::libp2p::peer_id::PublicKey::Ed25519(
        [n; 32],
    ))
    .into_bytes()
}

fn address_bytes(text: &str) -> Vec<u8> {
    text.parse::<smoldot::libp2p::multiaddr::Multiaddr>()
        .unwrap()
        .into_vec()
}

#[test]
fn peer_id_keeps_the_bytes_it_was_made_from() {
    let bytes = key_identity(7);
    let peer = PeerId::from_bytes(bytes.clone()).unwrap();
    assert_eq!(peer.as_bytes(), &bytes);
}

#[test]
fn peer_id_refuses_bytes_that_are_no_identity() {
    let refused = PeerId::from_bytes(vec![0xff, 0xff, 0xff]);
    assert_eq!(refused.unwrap_err(), vec![0xff, 0xff, 0xff]);
    assert!(PeerId::from_bytes(Vec::new()).is_err());
}

#[test]
fn peer_id_accepts_a_sha256_multihash() {
    let mut bytes = vec![0x12, 32];
    bytes.extend_from_slice(&[9u8; 32]);
    assert!(PeerId::from_bytes(bytes).is_ok());
}

#[test]
fn peer_ids_are_the_same_exactly_when_their_bytes_are() {
    let a = PeerId::from_bytes(key_identity(1)).unwrap();
    let b = PeerId::from_bytes(key_identity(1)).unwrap();
    let c = PeerId::from_bytes(key_identity(2)).unwrap();
    assert!(a.same_as(&b));
    assert!(!a.same_as(&c));
    assert!(a.duplicate().same_as(&a));
}

#[test]
fn multiaddr_keeps_the_bytes_it_was_made_from() {
    let bytes = address_bytes("/ip4/1.2.3.4/tcp/30333");
    let address = Multiaddr::from_bytes(bytes.clone()).unwrap();
    assert_eq!(address.as_bytes(), &bytes);
    assert_eq!(address.duplicate().into_bytes(), bytes);
}

#[test]
fn multiaddr_takes_the_address_without_any_protocol() {
    let empty = Multiaddr::from_bytes(Vec::new()).unwrap();
    assert!(empty.as_bytes().is_empty());
    assert!(Multiaddr::empty().as_bytes().is_empty());
    assert_eq!(
        empty.into_bytes(),
        smoldot::libp2p::multiaddr::Multiaddr::empty().into_vec()
    );
}

#[test]
fn multiaddr_refuses_bytes_that_are_no_address() {
    let refused = Multiaddr::from_bytes(vec![0xff, 0xff, 0xff, 0xff]);
    assert_eq!(refused.unwrap_err(), vec![0xff, 0xff, 0xff, 0xff]);
}

#[test]
fn copy_and_compare_bytes() {
    let bytes = vec![1u8, 2, 3];
    assert_eq!(copy_bytes(&bytes), bytes);
    assert!(bytes_equal(&bytes, &vec![1, 2, 3]));
    assert!(!bytes_equal(&bytes, &vec![1, 2]));
    assert!(!bytes_equal(&bytes, &vec![1, 2, 4]));
    assert!(bytes_equal(&Vec::new(), &Vec::new()));
}
