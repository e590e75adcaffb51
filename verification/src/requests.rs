//! The requests that wait for an answer: for each, under the handle of its
//! substream, the slot through which the answer reaches whoever asked.

use vstd::prelude::*;
use smoldot::network::service::SubstreamId;
use crate::errors::{
    BlocksRequestError, CallProofRequestError, StartRequestError, StartRequestMaybeTooLargeError,
    StorageProofRequestError, WarpSyncRequestError,
};
use crate::table::Table;

verus! {

/// What the registry holds: one map per kind of request. `B`, `W`, `S` and `C`
/// are the slots for the answers to requests for blocks, for a warp sync, for
/// a storage proof and for a call proof. A request to find nodes is made for
/// the service itself, and stands with the chain that it was made for.
pub struct RegistryModel<B, W, S, C> {
    pub blocks: Map<SubstreamId, B>,
    pub warp_sync: Map<SubstreamId, W>,
    pub storage_proof: Map<SubstreamId, S>,
    pub call_proof: Map<SubstreamId, C>,
    pub find_node: Map<SubstreamId, usize>,
}

/// The registry of requests that wait for an answer.
pub struct RequestRegistry<B, W, S, C> {
    blocks: Table<SubstreamId, B>,
    warp_sync: Table<SubstreamId, W>,
    storage_proof: Table<SubstreamId, S>,
    call_proof: Table<SubstreamId, C>,
    find_node: Table<SubstreamId, usize>,
}

impl<B, W, S, C> View for RequestRegistry<B, W, S, C> {
    type V = RegistryModel<B, W, S, C>;

    closed spec fn view(&self) -> RegistryModel<B, W, S, C> {
        RegistryModel {
            blocks: self.blocks@,
            warp_sync: self.warp_sync@,
            storage_proof: self.storage_proof@,
            call_proof: self.call_proof@,
            find_node: self.find_node@,
        }
    }
}

impl<B, W, S, C> RequestRegistry<B, W, S, C> {
    /// Whether the registry is well formed. Every registry that `new` returns
    /// is, and every operation keeps it so.
    pub closed spec fn wf(&self) -> bool {
        &&& self.blocks.wf()
        &&& self.warp_sync.wf()
        &&& self.storage_proof.wf()
        &&& self.call_proof.wf()
        &&& self.find_node.wf()
    }

    /// A registry without any request.
    pub fn new() -> (registry: Self)
        ensures
            registry.wf(),
            registry@.blocks == Map::<SubstreamId, B>::empty(),
            registry@.warp_sync == Map::<SubstreamId, W>::empty(),
            registry@.storage_proof == Map::<SubstreamId, S>::empty(),
            registry@.call_proof == Map::<SubstreamId, C>::empty(),
            registry@.find_node == Map::<SubstreamId, usize>::empty(),
    {
        RequestRegistry {
            blocks: Table::new(),
            warp_sync: Table::new(),
            storage_proof: Table::new(),
            call_proof: Table::new(),
            find_node: Table::new(),
        }
    }

    /// Records what became of a request for blocks that was handed to the
    /// network state machine. If it was started, `slot` waits under the
    /// handle of its substream. If not, `slot` comes back with the error to
    /// put into it.
    pub fn begin_blocks_request(&mut self, started: Result<SubstreamId, StartRequestError>, slot: B) -> (refused:
        Option<(B, BlocksRequestError)>)
        requires
            old(self).wf(),
        ensures
            final(self).wf(),
            match started {
                Ok(id) => refused is None && final(self)@ == (RegistryModel {
                    blocks: old(self)@.blocks.insert(id, slot),
                    ..old(self)@
                }),
                Err(StartRequestError::NoConnection) => refused == Some(
                    (slot, BlocksRequestError::NoConnection),
                ) && final(self)@ == old(self)@,
            },
    {
        match started {
            Ok(id) => {
                self.blocks.insert(id, slot);
                None
            },
            Err(StartRequestError::NoConnection) => Some((slot, BlocksRequestError::NoConnection)),
        }
    }

    /// As `begin_blocks_request`, for a warp sync request.
    pub fn begin_warp_sync_request(
        &mut self,
        started: Result<SubstreamId, StartRequestError>,
        slot: W,
    ) -> (refused: Option<(W, WarpSyncRequestError)>)
        requires
            old(self).wf(),
        ensures
            final(self).wf(),
            match started {
                Ok(id) => refused is None && final(self)@ == (RegistryModel {
                    warp_sync: old(self)@.warp_sync.insert(id, slot),
                    ..old(self)@
                }),
                Err(StartRequestError::NoConnection) => refused == Some(
                    (slot, WarpSyncRequestError::NoConnection),
                ) && final(self)@ == old(self)@,
            },
    {
        match started {
            Ok(id) => {
                self.warp_sync.insert(id, slot);
                None
            },
            Err(StartRequestError::NoConnection) => Some((slot, WarpSyncRequestError::NoConnection)),
        }
    }

    /// As `begin_blocks_request`, for a request for a storage proof, which
    /// can also be refused for its size.
    pub fn begin_storage_proof_request(
        &mut self,
        started: Result<SubstreamId, StartRequestMaybeTooLargeError>,
        slot: S,
    ) -> (refused: Option<(S, StorageProofRequestError)>)
        requires
            old(self).wf(),
        ensures
            final(self).wf(),
            match started {
                Ok(id) => refused is None && final(self)@ == (RegistryModel {
                    storage_proof: old(self)@.storage_proof.insert(id, slot),
                    ..old(self)@
                }),
                Err(StartRequestMaybeTooLargeError::NoConnection) => refused == Some(
                    (slot, StorageProofRequestError::NoConnection),
                ) && final(self)@ == old(self)@,
                Err(StartRequestMaybeTooLargeError::RequestTooLarge) => refused == Some(
                    (slot, StorageProofRequestError::RequestTooLarge),
                ) && final(self)@ == old(self)@,
            },
    {
        match started {
            Ok(id) => {
                self.storage_proof.insert(id, slot);
                None
            },
            Err(StartRequestMaybeTooLargeError::NoConnection) => Some(
                (slot, StorageProofRequestError::NoConnection),
            ),
            Err(StartRequestMaybeTooLargeError::RequestTooLarge) => Some(
                (slot, StorageProofRequestError::RequestTooLarge),
            ),
        }
    }

    /// As `begin_storage_proof_request`, for a request for a call proof.
    pub fn begin_call_proof_request(
        &mut self,
        started: Result<SubstreamId, StartRequestMaybeTooLargeError>,
        slot: C,
    ) -> (refused: Option<(C, CallProofRequestError)>)
        requires
            old(self).wf(),
        ensures
            final(self).wf(),
            match started {
                Ok(id) => refused is None && final(self)@ == (RegistryModel {
                    call_proof: old(self)@.call_proof.insert(id, slot),
                    ..old(self)@
                }),
                Err(StartRequestMaybeTooLargeError::NoConnection) => refused == Some(
                    (slot, CallProofRequestError::NoConnection),
                ) && final(self)@ == old(self)@,
                Err(StartRequestMaybeTooLargeError::RequestTooLarge) => refused == Some(
                    (slot, CallProofRequestError::RequestTooLarge),
                ) && final(self)@ == old(self)@,
            },
    {
        match started {
            Ok(id) => {
                self.call_proof.insert(id, slot);
                None
            },
            Err(StartRequestMaybeTooLargeError::NoConnection) => Some(
                (slot, CallProofRequestError::NoConnection),
            ),
            Err(StartRequestMaybeTooLargeError::RequestTooLarge) => Some(
                (slot, CallProofRequestError::RequestTooLarge),
            ),
        }
    }

    /// Records that a request to find nodes was started for `chain`. Returns
    /// the chain that stood under the handle before, if one did.
    pub fn begin_find_node_request(&mut self, id: SubstreamId, chain: usize) -> (previous: Option<usize>)
        requires
            old(self).wf(),
        ensures
            final(self).wf(),
            final(self)@ == (RegistryModel {
                find_node: old(self)@.find_node.insert(id, chain),
                ..old(self)@
            }),
            match previous {
                Some(c) => old(self)@.find_node.contains_key(id) && c == old(self)@.find_node[id],
                None => !old(self)@.find_node.contains_key(id),
            },
    {
        self.find_node.insert(id, chain)
    }

    /// Takes out the slot of the request for blocks that was answered on
    /// substream `id`. Whether anyone still waits at the slot plays no part.
    pub fn finish_blocks_request(&mut self, id: &SubstreamId) -> (slot: Option<B>)
        requires
            old(self).wf(),
        ensures
            final(self).wf(),
            final(self)@ == (RegistryModel {
                blocks: old(self)@.blocks.remove(*id),
                ..old(self)@
            }),
            match slot {
                Some(s) => old(self)@.blocks.contains_key(*id) && s == old(self)@.blocks[*id],
                None => !old(self)@.blocks.contains_key(*id),
            },
    {
        self.blocks.remove(id)
    }

    /// As `finish_blocks_request`, for a warp sync request.
    pub fn finish_warp_sync_request(&mut self, id: &SubstreamId) -> (slot: Option<W>)
        requires
            old(self).wf(),
        ensures
            final(self).wf(),
            final(self)@ == (RegistryModel {
                warp_sync: old(self)@.warp_sync.remove(*id),
                ..old(self)@
            }),
            match slot {
                Some(s) => old(self)@.warp_sync.contains_key(*id) && s == old(self)@.warp_sync[*id],
                None => !old(self)@.warp_sync.contains_key(*id),
            },
    {
        self.warp_sync.remove(id)
    }

    /// As `finish_blocks_request`, for a request for a storage proof.
    pub fn finish_storage_proof_request(&mut self, id: &SubstreamId) -> (slot: Option<S>)
        requires
            old(self).wf(),
        ensures
            final(self).wf(),
            final(self)@ == (RegistryModel {
                storage_proof: old(self)@.storage_proof.remove(*id),
                ..old(self)@
            }),
            match slot {
                Some(s) => old(self)@.storage_proof.contains_key(*id) && s
                    == old(self)@.storage_proof[*id],
                None => !old(self)@.storage_proof.contains_key(*id),
            },
    {
        self.storage_proof.remove(id)
    }

    /// As `finish_blocks_request`, for a request for a call proof.
    pub fn finish_call_proof_request(&mut self, id: &SubstreamId) -> (slot: Option<C>)
        requires
            old(self).wf(),
        ensures
            final(self).wf(),
            final(self)@ == (RegistryModel {
                call_proof: old(self)@.call_proof.remove(*id),
                ..old(self)@
            }),
            match slot {
                Some(s) => old(self)@.call_proof.contains_key(*id) && s == old(self)@.call_proof[*id],
                None => !old(self)@.call_proof.contains_key(*id),
            },
    {
        self.call_proof.remove(id)
    }

    /// Takes out the request to find nodes that was answered on substream
    /// `id`, and returns the chain that it was made for.
    pub fn finish_find_node_request(&mut self, id: &SubstreamId) -> (chain: Option<usize>)
        requires
            old(self).wf(),
        ensures
            final(self).wf(),
            final(self)@ == (RegistryModel {
                find_node: old(self)@.find_node.remove(*id),
                ..old(self)@
            }),
            match chain {
                Some(c) => old(self)@.find_node.contains_key(*id) && c == old(self)@.find_node[*id],
                None => !old(self)@.find_node.contains_key(*id),
            },
    {
        self.find_node.remove(id)
    }
}

} // verus!
