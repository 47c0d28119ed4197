//! The core of a peer-to-peer store: versioned identifiers, 256-bit keys
//! and addresses, Ed25519 keys and signed entries, subfield topics, Chord
//! finger tables, a Kademlia-style routing table, a channel registry and the
//! decisions of a client's bootstrap, each verified against its contract.

pub mod keyspace;
pub mod hash;
pub mod random;
pub mod u256;
pub mod arrays;
pub mod buffer;
pub mod versioned;
pub mod address;
pub mod address_order;
pub mod topic;
pub mod chord;
pub mod kad;
pub mod channel;
pub mod command;
pub mod keys;
pub mod author;
pub mod entry;
pub mod events;
pub mod proto;
pub mod ham_dht;
pub mod bootstrap;
pub mod fieldplex;
pub mod swarm_events;
