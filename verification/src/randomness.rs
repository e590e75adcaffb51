//! The generator from which the service draws the identities that it looks
//! for when it explores the network. Nothing in this file is proved.

use vstd::prelude::*;
use rand_chacha::rand_core::{RngCore, SeedableRng};
use rand_chacha::ChaCha20Rng;

verus! {

#[verifier::external_type_specification]
#[verifier::external_body]
pub struct ExChaCha20Rng(ChaCha20Rng);

/// The bytes of the identity of the Ed25519 public key `key`: a multihash
/// with the code 0 for "as it is" and the length 36, and in it the key as a
/// message of two fields, the kind of key (field 1, value 1) and its 32 bytes
/// (field 2).
pub open spec fn ed25519_peer_id(key: Seq<u8>) -> Seq<u8> {
    seq![0u8, 36u8, 8u8, 1u8, 18u8, 32u8] + key
}

/// `from_seed` of `rand_chacha::ChaCha20Rng`. Nothing is claimed of the
/// generator.
#[verifier::external_body]
pub(crate) fn generator_from_seed(seed: [u8; 32]) -> ChaCha20Rng {
    ChaCha20Rng::from_seed(seed)
}

/// `fill_bytes` of `rand_chacha::ChaCha20Rng`, on 32 bytes. Nothing is claimed
/// of the bytes.
#[verifier::external_body]
pub(crate) fn draw_key(generator: &mut ChaCha20Rng) -> [u8; 32] {
    let mut key = [0u8; 32];
    generator.fill_bytes(&mut key);
    key
}

/// `smoldot::libp2p::PeerId::from_public_key` on an Ed25519 key, and then
/// `into_bytes`: six bytes of framing, then the key.
#[verifier::external_body]
pub(crate) fn identity_of_key(key: &[u8; 32]) -> (bytes: Vec<u8>)
    ensures
        bytes@ == ed25519_peer_id(key@),
{
    smoldot::libp2p::PeerId::from_public_key(
        &smoldot::libp2p::peer_id::PublicKey::Ed25519(*key),
    ).into_bytes()
}

} // verus!
