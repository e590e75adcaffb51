//! The service's durations and capacities, and the rhythm of its discovery
//! rounds. Clock readings and bans count milliseconds.

use vstd::prelude::*;

verus! {

/// How long a peer is banned on a chain after opening a gossip link to it
/// failed, in milliseconds.
pub const GOSSIP_OPEN_FAILED_BAN_MS: u64 = 15_000;

/// How long a peer is banned on a chain after its gossip link closed, in
/// milliseconds.
pub const GOSSIP_CLOSED_BAN_MS: u64 = 10_000;

/// How long a peer is banned after no address of it was found to try, in
/// milliseconds: on the chain that was searched for a slot, or on all its
/// chains when it was to be connected to.
pub const NO_ADDRESS_BAN_MS: u64 = 10_000;

/// How long a request to find nodes may take, in seconds.
pub const FIND_NODE_TIMEOUT_SECS: u64 = 20;

/// How long a handshake may take, in seconds.
pub const HANDSHAKE_TIMEOUT_SECS: u64 = 8;

/// Number of connections for which room is reserved at the start.
pub const CONNECTIONS_CAPACITY: usize = 32;

/// Number of peers for which the address book reserves room at the start.
pub const BOOK_PEERS_CAPACITY: usize = 50;

/// Number of important peers for which room is reserved at the start.
pub const IMPORTANT_PEERS_CAPACITY: usize = 16;

/// Number of commands that can wait for the coordinator.
pub const COMMANDS_CAPACITY: usize = 32;

/// Number of messages that can wait for one connection.
pub const CONNECTION_MESSAGES_CAPACITY: usize = 8;

/// Number of events that can wait for one subscriber.
pub const SUBSCRIBER_EVENTS_CAPACITY: usize = 16;

/// Pause before the first discovery round, in seconds.
pub const FIRST_DISCOVERY_INTERVAL_SECS: u64 = 5;

/// Longest pause between two discovery rounds, in seconds.
pub const MAX_DISCOVERY_INTERVAL_SECS: u64 = 120;

/// The pause that follows a pause of `current` seconds: twice as long, but
/// not longer than `MAX_DISCOVERY_INTERVAL_SECS`.
pub open spec fn spec_next_discovery_interval(current: u64) -> u64 {
    if 2 * current <= MAX_DISCOVERY_INTERVAL_SECS {
        (2 * current) as u64
    } else {
        MAX_DISCOVERY_INTERVAL_SECS
    }
}

/// The pause before discovery round `round`, counted from 0: the first pause
/// doubled `round` times, but not longer than `MAX_DISCOVERY_INTERVAL_SECS`.
pub open spec fn discovery_interval(round: nat) -> u64
    decreases round,
{
    if round == 0 {
        FIRST_DISCOVERY_INTERVAL_SECS
    } else {
        spec_next_discovery_interval(discovery_interval((round - 1) as nat))
    }
}

/// Computes the pause that follows a pause of `current` seconds.
pub fn next_discovery_interval(current: u64) -> (next: u64)
    ensures
        next == spec_next_discovery_interval(current),
{
    if current <= MAX_DISCOVERY_INTERVAL_SECS / 2 {
        2 * current
    } else {
        MAX_DISCOVERY_INTERVAL_SECS
    }
}

/// The pauses never shrink and never exceed the longest pause, and from the
/// sixth round on they are the longest pause.
pub proof fn discovery_intervals_grow_to_the_limit(round: nat)
    ensures
        discovery_interval(round) <= discovery_interval(round + 1),
        FIRST_DISCOVERY_INTERVAL_SECS <= discovery_interval(round) <= MAX_DISCOVERY_INTERVAL_SECS,
        round >= 5 ==> discovery_interval(round) == MAX_DISCOVERY_INTERVAL_SECS,
    decreases round,
{
    reveal_with_fuel(discovery_interval, 7);
    if round > 5 {
        discovery_intervals_grow_to_the_limit((round - 1) as nat);
    }
}

/// The clock reading at which a ban of `duration` milliseconds that starts at
/// `now` ends.
pub fn ban_end(now: u64, duration: u64) -> (end: u64)
    requires
        now + duration <= u64::MAX,
    ensures
        end == now + duration,
{
    now + duration
}

/// How many copies of an event have to be made to hand it to `subscribers`
/// subscribers: a single subscriber gets the event itself, and of several
/// each gets a copy.
pub fn copies_for(subscribers: usize) -> (copies: usize)
    ensures
        copies == if subscribers == 1 { 0 } else { subscribers as int },
{
    if subscribers == 1 {
        0
    } else {
        subscribers
    }
}

/// The two bytes that stand before the SHA-256 digest of a certificate where
/// the WebRTC handshake takes it: a code for the hash, and the length of the
/// digest.
pub open spec fn certificate_hash_prefix() -> Seq<u8> {
    seq![12u8, 32u8]
}

/// Frames the SHA-256 digest of a certificate for the WebRTC handshake.
pub fn certificate_multihash(digest: &[u8; 32]) -> (multihash: Vec<u8>)
    ensures
        multihash@ == certificate_hash_prefix() + digest@,
{
    let mut multihash: Vec<u8> = Vec::with_capacity(34);
    multihash.push(12u8);
    multihash.push(32u8);
    let mut i: usize = 0;
    while i < 32
        invariant
            i <= 32,
            multihash@ == certificate_hash_prefix() + digest@.take(i as int),
        decreases 32 - i,
    {
        multihash.push(digest[i]);
        i += 1;
    }
    multihash
}

} // verus!
