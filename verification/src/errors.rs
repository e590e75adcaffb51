//! What a request that the service makes for its user can fail with.

use vstd::prelude::*;

verus! {

#[verifier::external_type_specification]
#[verifier::external_body]
pub struct ExRequestError(smoldot::network::service::RequestError);

#[verifier::external_type_specification]
#[verifier::external_body]
pub struct ExDecodeBlockResponseError(smoldot::network::codec::DecodeBlockResponseError);

#[verifier::external_type_specification]
#[verifier::external_body]
pub struct ExDecodeGrandpaWarpSyncResponseError(
    smoldot::network::codec::DecodeGrandpaWarpSyncResponseError,
);

#[verifier::external_type_specification]
#[verifier::external_body]
pub struct ExDecodeStorageCallProofResponseError(
    smoldot::network::codec::DecodeStorageCallProofResponseError,
);

/// Why the network state machine did not start a request.
#[derive(Clone, Copy, Debug, PartialEq, Eq, Structural)]
pub enum StartRequestError {
    /// No connection leads to the target.
    NoConnection,
}

/// Why the network state machine did not start a request whose size counts.
#[derive(Clone, Copy, Debug, PartialEq, Eq, Structural)]
pub enum StartRequestMaybeTooLargeError {
    /// No connection leads to the target.
    NoConnection,
    /// The request is larger than the protocol allows.
    RequestTooLarge,
}

/// Why a notification was not queued.
#[derive(Clone, Copy, Debug, PartialEq, Eq, Structural)]
pub enum QueueNotificationError {
    /// No gossip link leads to the target.
    NoConnection,
    /// The queue of notifications towards the target is full.
    QueueFull,
}

/// How a request for blocks that was sent failed.
#[derive(Debug)]
pub enum BlocksRequestFailure {
    /// No usable answer arrived.
    Request(smoldot::network::service::RequestError),
    /// The answer could not be decoded.
    Decode(smoldot::network::codec::DecodeBlockResponseError),
}

/// Why a request for blocks failed.
#[derive(Debug)]
pub enum BlocksRequestError {
    /// No established connection with the target.
    NoConnection,
    /// Error during the request.
    Request(BlocksRequestFailure),
}

/// How a warp sync request that was sent failed.
#[derive(Debug)]
pub enum WarpSyncRequestFailure {
    /// No usable answer arrived.
    Request(smoldot::network::service::RequestError),
    /// The answer could not be decoded.
    Decode(smoldot::network::codec::DecodeGrandpaWarpSyncResponseError),
}

/// Why a warp sync request failed.
#[derive(Debug)]
pub enum WarpSyncRequestError {
    /// No established connection with the target.
    NoConnection,
    /// Error during the request.
    Request(WarpSyncRequestFailure),
}

/// How a request for a storage proof that was sent failed.
#[derive(Debug)]
pub enum StorageProofFailure {
    /// No usable answer arrived.
    Request(smoldot::network::service::RequestError),
    /// The answer could not be decoded.
    Decode(smoldot::network::codec::DecodeStorageCallProofResponseError),
    /// The remote cannot answer this request.
    RemoteCouldntAnswer,
}

/// Why a request for a storage proof failed.
#[derive(Debug)]
pub enum StorageProofRequestError {
    /// No established connection with the target.
    NoConnection,
    /// The request is too large and cannot be sent.
    RequestTooLarge,
    /// Error during the request.
    Request(StorageProofFailure),
}

/// How a call proof request that was sent failed.
#[derive(Debug)]
pub enum CallProofFailure {
    /// No usable answer arrived.
    Request(smoldot::network::service::RequestError),
    /// The answer could not be decoded.
    Decode(smoldot::network::codec::DecodeStorageCallProofResponseError),
    /// The remote cannot answer this request.
    RemoteCouldntAnswer,
}

impl CallProofFailure {
    /// Whether the failure is one of networking.
    pub open spec fn spec_is_network_problem(self) -> bool {
        !(self is Decode)
    }

    /// Returns `true` if the failure is one of networking, as opposed to one
    /// of what the answer says.
    pub fn is_network_problem(&self) -> (network: bool)
        ensures
            network == self.spec_is_network_problem(),
    {
        match self {
            CallProofFailure::Request(_) => true,
            CallProofFailure::Decode(_) => false,
            CallProofFailure::RemoteCouldntAnswer => true,
        }
    }
}

/// Why a request for a call proof failed.
#[derive(Debug)]
pub enum CallProofRequestError {
    /// No established connection with the target.
    NoConnection,
    /// The request is too large and cannot be sent.
    RequestTooLarge,
    /// Error during the request.
    Request(CallProofFailure),
}

impl CallProofRequestError {
    /// Whether the error is one of networking.
    pub open spec fn spec_is_network_problem(self) -> bool {
        match self {
            CallProofRequestError::Request(failure) => failure.spec_is_network_problem(),
            CallProofRequestError::RequestTooLarge => false,
            CallProofRequestError::NoConnection => true,
        }
    }

    /// Returns `true` if this is caused by networking issues, as opposed to a
    /// consensus-related issue.
    pub fn is_network_problem(&self) -> (network: bool)
        ensures
            network == self.spec_is_network_problem(),
    {
        match self {
            CallProofRequestError::Request(failure) => failure.is_network_problem(),
            CallProofRequestError::RequestTooLarge => false,
            CallProofRequestError::NoConnection => true,
        }
    }
}

} // verus!
