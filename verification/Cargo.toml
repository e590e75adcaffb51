[package]
name = "light_network"
version = "0.1.0"
edition = "2021"
publish = false

[dependencies]
smoldot = { version = "=0.14.0", default-features = false }
# smoldot verifies signatures in batches, which ed25519-zebra offers only with
# `alloc`. smoldot does not switch that feature on itself, so it is named here.
ed25519-zebra = { version = "=4.2.0", default-features = false, features = ["alloc"] }
async-channel = { version = "=2.5.0", default-features = false }
blake2-rfc = { version = "=0.2.18", default-features = false }
derive_more = "=0.99.20"
either = { version = "=1.19.0", default-features = false }
event-listener = { version = "=4.0.3", default-features = false }
fnv = { version = "=1.0.7", default-features = false }
futures-channel = { version = "=0.3.34", default-features = false, features = ["alloc"] }
futures-lite = { version = "=2.6.1", default-features = false, features = ["alloc"] }
futures-util = { version = "=0.3.34", default-features = false, features = ["alloc", "sink"] }
hashbrown = { version = "=0.14.5", default-features = false }
hex = { version = "=0.4.3", default-features = false, features = ["alloc"] }
itertools = { version = "=0.12.1", default-features = false, features = ["use_alloc"] }
log = { version = "=0.4.34", default-features = false }
rand_chacha = { version = "=0.3.1", default-features = false }
zeroize = { version = "=1.9.1", default-features = false, features = ["alloc"] }
