//! Nodes of the Hamming-distance table: each remote node carries its
//! Hamming distance to the local node's public key.
use vstd::prelude::*;
use crate::keys::{Keypair, PublicKey};
use crate::kad::Node;
use crate::u256::{bytes_bit_count, xor_bytes};

verus! {

/// A node known to the table.
#[derive(Debug, Clone, Copy)]
pub struct RemoteNode {
    pub node: Node,
    pub public_key: PublicKey,
    /// The number of bits in which `public_key` differs from the local key.
    pub dist_to_self: u32,
    pub ping_ms: u32,
}

/// The local node: its location and key pair.
#[derive(Debug, Clone, Copy)]
pub struct LocalNode {
    pub node: Node,
    pub key_pair: Keypair,
}

impl LocalNode {
    pub fn new(node: Node, key_pair: Keypair) -> (r: LocalNode)
        ensures
            r.node == node,
            r.key_pair@ == key_pair@,
    {
        LocalNode { node, key_pair }
    }
}

impl RemoteNode {
    /// A remote node, with its Hamming distance to `self_node`'s public key.
    pub fn new(node: Node, public_key: PublicKey, ping_ms: u32, self_node: &LocalNode) -> (r:
        RemoteNode)
        ensures
            r.node == node,
            r.public_key@ == public_key@,
            r.ping_ms == ping_ms,
            r.dist_to_self == bytes_bit_count(xor_bytes(public_key@, self_node.key_pair@.1)),
    {
        let local = self_node.key_pair.public_key();
        let dist_to_self = public_key.u256().hamming(local.u256());
        RemoteNode { node, public_key, dist_to_self, ping_ms }
    }
}

} // verus!
