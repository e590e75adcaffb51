//! The settings with which the service is started.

use vstd::prelude::*;
use crate::coordinator::Chain;

verus! {

/// Configuration of the service. `TPlat` gives access to the clock, to
/// randomness, and to the means of opening connections and running tasks.
pub struct Config<TPlat> {
    /// Access to the platform's capabilities.
    pub platform: TPlat,
    /// Value sent back for the agent version when receiving an identification
    /// request.
    pub identify_agent_version: String,
    /// Number of subscribers, each of which receives every event.
    pub num_events_receivers: usize,
    /// List of chains to connect to. Chains are later referred to by their
    /// index in this list.
    pub chains: Vec<ConfigChain>,
}

/// Configuration of one chain. The nodes from which the chain is first
/// explored are not part of it: they are discovered afterwards.
pub struct ConfigChain {
    /// Name of the chain, for logging purposes.
    pub log_name: String,
    /// Number of "out slots" of this chain: gossip links are kept open with up
    /// to this number of peers at the same time.
    pub num_out_slots: usize,
    /// Hash of the genesis block of the chain. Sent to other nodes in order
    /// to determine whether the chains match.
    pub genesis_block_hash: [u8; 32],
    /// Number and hash of the current best block.
    pub best_block: (u64, [u8; 32]),
    /// Optional identifier to insert into the networking protocol names. Used
    /// to differentiate between chains with the same genesis hash.
    pub fork_id: Option<String>,
    /// Number of bytes of the block number in the networking protocol.
    pub block_number_bytes: usize,
    /// Must be `Some` if and only if the chain uses the GrandPa networking
    /// protocol. Contains the number of the finalized block at the time of
    /// the initialization.
    pub grandpa_protocol_finalized_block_height: Option<u64>,
}

/// Where a node stands in the GrandPa protocol.
#[derive(Clone, Copy, Debug, PartialEq, Eq, Structural)]
pub struct GrandpaState {
    /// The round of voting.
    pub round_number: u64,
    /// The set of authorities that votes.
    pub set_id: u64,
    /// The height of the highest block that is known to be finalized.
    pub commit_finalized_height: u64,
}

impl ConfigChain {
    /// Where the service says it stands in the GrandPa protocol when it
    /// starts: nowhere if the chain does not use the protocol, else in the
    /// first round of the first set, at the finalized height given.
    pub fn initial_grandpa_state(&self) -> (state: Option<GrandpaState>)
        ensures
            state == match self.grandpa_protocol_finalized_block_height {
                Some(height) => Some(
                    GrandpaState { round_number: 1, set_id: 0, commit_finalized_height: height },
                ),
                None => None,
            },
    {
        match self.grandpa_protocol_finalized_block_height {
            Some(height) => Some(
                GrandpaState { round_number: 1, set_id: 0, commit_finalized_height: height },
            ),
            None => None,
        }
    }
}

/// The number of slots of each configured chain.
pub open spec fn configured_slots(chains: Seq<ConfigChain>) -> Seq<usize> {
    chains.map_values(|chain: ConfigChain| chain.num_out_slots)
}

/// What the coordinator keeps of the configured chains: for each, in the same
/// order, its name and its number of slots.
pub fn coordinator_chains(chains: &Vec<ConfigChain>) -> (kept: Vec<Chain>)
    ensures
        kept.len() == chains.len(),
        forall|i: int|
            0 <= i < kept.len() ==> (#[trigger] kept[i]).num_out_slots == chains[i].num_out_slots
                && kept[i].log_name@ == chains[i].log_name@,
        kept@.map_values(|chain: Chain| chain.num_out_slots) == configured_slots(chains@),
{
    let mut kept: Vec<Chain> = Vec::with_capacity(chains.len());
    let mut i: usize = 0;
    while i < chains.len()
        invariant
            i <= chains.len(),
            kept.len() == i,
            forall|k: int|
                0 <= k < i ==> (#[trigger] kept[k]).num_out_slots == chains[k].num_out_slots
                    && kept[k].log_name@ == chains[k].log_name@,
        decreases chains.len() - i,
    {
        kept.push(
            Chain { log_name: chains[i].log_name.clone(), num_out_slots: chains[i].num_out_slots },
        );
        i += 1;
    }
    kept
}

} // verus!
