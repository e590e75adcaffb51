//! What the service reports to its subscribers, and what it asks of the
//! network state machine.

use vstd::prelude::*;
use smoldot::network::service::{EncodedBlockAnnounce, EncodedGrandpaCommitMessage};
use crate::errors::QueueNotificationError;
use crate::identity::PeerId;

verus! {

#[verifier::external_type_specification]
#[verifier::external_body]
pub struct ExEncodedBlockAnnounce(EncodedBlockAnnounce);

#[verifier::external_type_specification]
#[verifier::external_body]
pub struct ExEncodedGrandpaCommitMessage(EncodedGrandpaCommitMessage);

/// What a node says it does on a chain.
#[derive(Clone, Copy, Debug, PartialEq, Eq, Structural)]
pub enum Role {
    /// The node stores the state of the chain.
    Full,
    /// The node follows the chain without storing its state.
    Light,
    /// The node authors blocks.
    Authority,
}

/// Event that can happen on the network service.
#[derive(Debug)]
pub enum Event {
    /// A gossip link to the peer is open.
    Connected {
        peer_id: PeerId,
        chain_id: usize,
        role: Role,
        best_block_number: u64,
        best_block_hash: [u8; 32],
    },
    /// The gossip link to the peer is closed.
    Disconnected { peer_id: PeerId, chain_id: usize },
    /// The peer announced a block.
    BlockAnnounce { peer_id: PeerId, chain_id: usize, announce: EncodedBlockAnnounce },
    /// The peer told how far it has finalized.
    GrandpaNeighborPacket { peer_id: PeerId, chain_id: usize, finalized_block_height: u64 },
    /// Received a GrandPa commit message from the network.
    GrandpaCommitMessage { peer_id: PeerId, chain_id: usize, message: EncodedGrandpaCommitMessage },
}

/// What the coordinator asks of the network state machine about one peer.
#[derive(Debug)]
pub enum NetworkCommand {
    /// Count the peer among those with which a gossip link is wanted.
    GossipInsertDesired { chain_id: usize, peer_id: PeerId },
    /// Count the peer no longer among those with which a gossip link is wanted.
    GossipRemoveDesired { chain_id: usize, peer_id: PeerId },
    /// As `GossipRemoveDesired`, on every chain.
    GossipRemoveDesiredAll { peer_id: PeerId },
    /// Open a gossip link with the peer, or accept the one it asks for.
    GossipOpen { chain_id: usize, peer_id: PeerId },
    /// Close the gossip link with the peer, or refuse the one it asks for.
    GossipClose { chain_id: usize, peer_id: PeerId },
}

/// A `NetworkCommand`, with the peer by its bytes.
pub enum CommandModel {
    GossipInsertDesired { chain_id: usize, peer: Seq<u8> },
    GossipRemoveDesired { chain_id: usize, peer: Seq<u8> },
    GossipRemoveDesiredAll { peer: Seq<u8> },
    GossipOpen { chain_id: usize, peer: Seq<u8> },
    GossipClose { chain_id: usize, peer: Seq<u8> },
}

impl View for NetworkCommand {
    type V = CommandModel;

    open spec fn view(&self) -> CommandModel {
        match *self {
            NetworkCommand::GossipInsertDesired { chain_id, peer_id } => {
                CommandModel::GossipInsertDesired { chain_id, peer: peer_id@ }
            },
            NetworkCommand::GossipRemoveDesired { chain_id, peer_id } => {
                CommandModel::GossipRemoveDesired { chain_id, peer: peer_id@ }
            },
            NetworkCommand::GossipRemoveDesiredAll { peer_id } => {
                CommandModel::GossipRemoveDesiredAll { peer: peer_id@ }
            },
            NetworkCommand::GossipOpen { chain_id, peer_id } => {
                CommandModel::GossipOpen { chain_id, peer: peer_id@ }
            },
            NetworkCommand::GossipClose { chain_id, peer_id } => {
                CommandModel::GossipClose { chain_id, peer: peer_id@ }
            },
        }
    }
}

/// Number of gossip links that peers opened without being wanted, per chain,
/// from which on another one is refused.
pub const MAX_UNDESIRED_GOSSIP_LINKS: usize = 4;

/// What is answered to a peer that asks for a gossip link on `chain_id`, when
/// `open_undesired` links that peers asked for are open on that chain: the
/// link is accepted while there are fewer than `MAX_UNDESIRED_GOSSIP_LINKS`.
pub fn answer_inbound_gossip(chain_id: usize, peer_id: PeerId, open_undesired: usize) -> (command:
    NetworkCommand)
    ensures
        open_undesired < MAX_UNDESIRED_GOSSIP_LINKS ==> command@ == (CommandModel::GossipOpen {
            chain_id,
            peer: peer_id@,
        }),
        open_undesired >= MAX_UNDESIRED_GOSSIP_LINKS ==> command@ == (CommandModel::GossipClose {
            chain_id,
            peer: peer_id@,
        }),
{
    if open_undesired < MAX_UNDESIRED_GOSSIP_LINKS {
        NetworkCommand::GossipOpen { chain_id, peer_id }
    } else {
        NetworkCommand::GossipClose { chain_id, peer_id }
    }
}

/// What became of the announcement of a transaction.
#[derive(Debug)]
pub struct AnnounceReport {
    /// What the one who asked for the announcement is told: the peers that
    /// the transaction was announced to.
    pub reply: Vec<PeerId>,
    /// The peers for which the announcement was queued.
    pub queued: Vec<PeerId>,
    /// The peers for which it was not, because their queue was full.
    pub queue_full: Vec<PeerId>,
}

/// The peers of a list, each by its bytes.
pub open spec fn peers_view(peers: Seq<PeerId>) -> Seq<Seq<u8>> {
    peers.map_values(|peer: PeerId| peer@)
}

/// Whether `outcome` says that an announcement was queued, if `queued`, or
/// that it was not because the queue was full, if not.
pub open spec fn outcome_is(outcome: Result<(), QueueNotificationError>, queued: bool) -> bool {
    if queued {
        outcome is Ok
    } else {
        outcome is Err && outcome->Err_0 == QueueNotificationError::QueueFull
    }
}

/// Of `peers`, in their order, those for which the announcement was queued,
/// if `queued`, or those for which it was not because their queue was full,
/// if not.
pub open spec fn peers_with_outcome(
    peers: Seq<Seq<u8>>,
    outcomes: Seq<Result<(), QueueNotificationError>>,
    queued: bool,
) -> Seq<Seq<u8>>
    decreases peers.len(),
{
    if peers.len() == 0 || outcomes.len() != peers.len() {
        Seq::empty()
    } else if outcome_is(outcomes.last(), queued) {
        peers_with_outcome(peers.drop_last(), outcomes.drop_last(), queued).push(peers.last())
    } else {
        peers_with_outcome(peers.drop_last(), outcomes.drop_last(), queued)
    }
}

/// Sums up the announcement of a transaction to `connected`, the peers with
/// an open gossip link on the chain when the announcement was asked for, of
/// which `outcomes` tells, peer by peer, whether the announcement was queued.
/// The reply is all of `connected`, whatever the outcomes. No outcome can be
/// that no gossip link leads to the peer, as one did when the announcement was
/// asked for.
pub fn transaction_announced(connected: Vec<PeerId>, outcomes: &Vec<Result<(), QueueNotificationError>>) -> (report:
    AnnounceReport)
    requires
        outcomes.len() == connected.len(),
        forall|i: int|
            0 <= i < outcomes.len() ==> (#[trigger] outcomes[i]) is Ok || outcomes[i]->Err_0
                == QueueNotificationError::QueueFull,
    ensures
        report.reply == connected,
        peers_view(report.queued@) == peers_with_outcome(
            peers_view(connected@),
            outcomes@,
            true,
        ),
        peers_view(report.queue_full@) == peers_with_outcome(
            peers_view(connected@),
            outcomes@,
            false,
        ),
{
    let ghost all = peers_view(connected@);
    let mut queued: Vec<PeerId> = Vec::new();
    let mut queue_full: Vec<PeerId> = Vec::new();
    let mut i: usize = 0;
    while i < connected.len()
        invariant
            i <= connected.len(),
            outcomes.len() == connected.len(),
            forall|k: int|
                0 <= k < outcomes.len() ==> (#[trigger] outcomes[k]) is Ok || outcomes[k]->Err_0
                    == QueueNotificationError::QueueFull,
            all == peers_view(connected@),
            peers_view(queued@) == peers_with_outcome(
                all.take(i as int),
                outcomes@.take(i as int),
                true,
            ),
            peers_view(queue_full@) == peers_with_outcome(
                all.take(i as int),
                outcomes@.take(i as int),
                false,
            ),
        decreases connected.len() - i,
    {
        proof {
            assert(all.take(i + 1).drop_last() =~= all.take(i as int));
            assert(outcomes@.take(i + 1).drop_last() =~= outcomes@.take(i as int));
        }
        match outcomes[i] {
            Ok(()) => {
                queued.push(connected[i].duplicate());
            },
            Err(QueueNotificationError::QueueFull) => {
                queue_full.push(connected[i].duplicate());
            },
            Err(QueueNotificationError::NoConnection) => {
                assert(false);
            },
        }
        i += 1;
    }
    proof {
        assert(all.take(connected.len() as int) =~= all);
        assert(outcomes@.take(connected.len() as int) =~= outcomes@);
    }
    AnnounceReport { reply: connected, queued, queue_full }
}

} // verus!
