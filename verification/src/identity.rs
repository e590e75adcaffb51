//! Network identities and addresses, held as the bytes that travel on the wire.

use vstd::prelude::*;

verus! {

/// Whether `bytes` is the binary form of a network identity: a multihash that
/// `smoldot::libp2p::PeerId::from_bytes` accepts.
pub uninterp spec fn is_peer_id(bytes: Seq<u8>) -> bool;

/// Whether `bytes` is the binary form of a multiaddress: a list of protocols
/// that `smoldot::libp2p::multiaddr::Multiaddr::try_from` accepts.
pub uninterp spec fn is_multiaddr(bytes: Seq<u8>) -> bool;

/// Calls `smoldot::libp2p::PeerId::from_bytes` on a copy of `bytes` and reports
/// whether it accepted them. The outcome depends on the bytes alone.
#[verifier::external_body]
fn peer_id_bytes_accepted(bytes: &Vec<u8>) -> (accepted: bool)
    ensures
        accepted == is_peer_id(bytes@),
{
    smoldot::libp2p::PeerId::from_bytes(bytes.clone()).is_ok()
}

/// Calls `Multiaddr::try_from` of `smoldot::libp2p::multiaddr` on a copy of
/// `bytes` and reports whether it accepted them. The outcome depends on the
/// bytes alone. A list of no protocols, the empty byte string, is accepted.
#[verifier::external_body]
fn multiaddr_bytes_accepted(bytes: &Vec<u8>) -> (accepted: bool)
    ensures
        accepted == is_multiaddr(bytes@),
        bytes@.len() == 0 ==> accepted,
{
    smoldot::libp2p::multiaddr::Multiaddr::try_from(bytes.clone()).is_ok()
}

/// Identity of a node of the network. Two identities are the same node exactly
/// when their bytes are equal.
#[derive(Debug)]
pub struct PeerId {
    bytes: Vec<u8>,
}

impl View for PeerId {
    type V = Seq<u8>;

    closed spec fn view(&self) -> Seq<u8> {
        self.bytes@
    }
}

impl PeerId {
    #[verifier::type_invariant]
    spec fn well_formed(self) -> bool {
        is_peer_id(self.bytes@)
    }

    /// Checks `bytes` and, if they are the binary form of an identity, wraps them.
    /// Otherwise hands them back.
    pub fn from_bytes(bytes: Vec<u8>) -> (out: Result<PeerId, Vec<u8>>)
        ensures
            is_peer_id(bytes@) ==> out is Ok && out->Ok_0@ == bytes@,
            !is_peer_id(bytes@) ==> out is Err && out->Err_0@ == bytes@,
    {
        if peer_id_bytes_accepted(&bytes) {
            Ok(PeerId { bytes })
        } else {
            Err(bytes)
        }
    }

    /// The binary form of the identity.
    pub fn as_bytes(&self) -> (bytes: &Vec<u8>)
        ensures
            bytes@ == self@,
            is_peer_id(bytes@),
    {
        proof {
            use_type_invariant(self);
        }
        &self.bytes
    }

    /// A second copy of the identity.
    pub fn duplicate(&self) -> (copy: PeerId)
        ensures
            copy@ == self@,
    {
        proof {
            use_type_invariant(self);
        }
        PeerId { bytes: copy_bytes(&self.bytes) }
    }

    /// Whether both identities designate the same node.
    pub fn same_as(&self, other: &PeerId) -> (same: bool)
        ensures
            same == (self@ == other@),
    {
        bytes_equal(&self.bytes, &other.bytes)
    }
}

/// Address at which a node can be reached: a list of protocols.
#[derive(Debug)]
pub struct Multiaddr {
    bytes: Vec<u8>,
}

impl View for Multiaddr {
    type V = Seq<u8>;

    closed spec fn view(&self) -> Seq<u8> {
        self.bytes@
    }
}

/// Whether `bytes` can be stored as an address: they are the binary form of
/// a multiaddress, which can be one without any protocol, the empty byte
/// string.
pub open spec fn is_address(bytes: Seq<u8>) -> bool {
    is_multiaddr(bytes)
}

impl Multiaddr {
    #[verifier::type_invariant]
    spec fn well_formed(self) -> bool {
        is_address(self.bytes@)
    }

    /// The address without any protocol.
    pub fn empty() -> (address: Multiaddr)
        ensures
            address@ == Seq::<u8>::empty(),
            is_address(Seq::<u8>::empty()),
    {
        let bytes: Vec<u8> = Vec::new();
        assert(bytes@ =~= Seq::<u8>::empty());
        match Multiaddr::from_bytes(bytes) {
            Ok(address) => address,
            Err(_) => {
                assert(false);
                Multiaddr { bytes: Vec::new() }
            },
        }
    }

    /// Checks `bytes` and, if they are the binary form of an address, wraps
    /// them. Otherwise hands them back. The empty byte string is the address
    /// without any protocol.
    pub fn from_bytes(bytes: Vec<u8>) -> (out: Result<Multiaddr, Vec<u8>>)
        ensures
            is_address(bytes@) ==> out is Ok && out->Ok_0@ == bytes@,
            !is_address(bytes@) ==> out is Err && out->Err_0@ == bytes@,
            bytes@.len() == 0 ==> out is Ok,
    {
        if multiaddr_bytes_accepted(&bytes) {
            Ok(Multiaddr { bytes })
        } else {
            Err(bytes)
        }
    }

    /// The binary form of the address.
    pub fn as_bytes(&self) -> (bytes: &Vec<u8>)
        ensures
            bytes@ == self@,
            is_address(bytes@),
    {
        proof {
            use_type_invariant(self);
        }
        &self.bytes
    }

    /// The binary form of the address, leaving the wrapper behind.
    pub fn into_bytes(self) -> (bytes: Vec<u8>)
        ensures
            bytes@ == self@,
            is_address(bytes@),
    {
        proof {
            use_type_invariant(&self);
        }
        self.bytes
    }

    /// A second copy of the address.
    pub fn duplicate(&self) -> (copy: Multiaddr)
        ensures
            copy@ == self@,
    {
        proof {
            use_type_invariant(self);
        }
        Multiaddr { bytes: copy_bytes(&self.bytes) }
    }
}

/// Copies a byte string.
pub fn copy_bytes(bytes: &Vec<u8>) -> (copy: Vec<u8>)
    ensures
        copy@ == bytes@,
{
    let mut copy: Vec<u8> = Vec::with_capacity(bytes.len());
    let mut i: usize = 0;
    while i < bytes.len()
        invariant
            i <= bytes.len(),
            copy@ == bytes@.take(i as int),
        decreases bytes.len() - i,
    {
        copy.push(bytes[i]);
        i += 1;
    }
    copy
}

/// Whether two byte strings hold the same bytes in the same order.
pub fn bytes_equal(a: &Vec<u8>, b: &Vec<u8>) -> (same: bool)
    ensures
        same == (a@ == b@),
{
    if a.len() != b.len() {
        return false;
    }
    let mut i: usize = 0;
    while i < a.len()
        invariant
            i <= a.len(),
            a.len() == b.len(),
            a@.take(i as int) == b@.take(i as int),
        decreases a.len() - i,
    {
        if a[i] != b[i] {
            return false;
        }
        i += 1;
    }
    assert(a@.take(a.len() as int) == a@);
    assert(b@.take(b.len() as int) == b@);
    true
}

} // verus!
