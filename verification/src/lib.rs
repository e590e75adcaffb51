//! The coordinator of a light client's network service: the address book with
//! its slots and bans, the requests that wait for an answer, the connections,
//! the one event that waits for the subscribers, and the decisions that tie
//! them together.

pub mod address_book;
pub mod book_model;
pub mod book_proofs;
pub mod config;
pub mod coordinator;
pub mod discovery;
pub mod errors;
pub mod events;
pub mod guarantees;
pub mod identity;
pub mod important;
pub mod ids;
pub mod randomness;
pub mod requests;
pub mod schedule;
pub mod strategy;
pub mod table;

pub use config::{Config, ConfigChain};
