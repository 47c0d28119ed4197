use heapswap::kad::{KadDHT, LocalNode, MemoryStore, Node, RemoteNode, ALPHA, D, K};
use heapswap::u256::U256;
use heapswap::ham_dht;
use heapswap::keys::{Keypair, PrivateKey};

fn node() -> Node {
    Node { ipv4: [10, 0, 0, 1], ipv4_port: 4000, ipv6: None, ipv6_port: None }
}

/// A key whose first byte is `first` and last byte `last`.
fn key(first: u8, last: u8) -> U256 {
    let mut bytes = [0u8; 32];
    bytes[0] = first;
    bytes[31] = last;
    U256::new(bytes)
}

fn dht() -> KadDHT {
    KadDHT::new(LocalNode::new(node(), U256::zero()))
}

#[test]
fn new_table_lists_only_itself() {
    let dht = dht();
    let counts = dht.bucket_counts();
    assert_eq!(counts.len(), D);
    assert_eq!(counts[D - 1], 1);
    assert_eq!(counts.iter().sum::<usize>(), 1);
    assert!(dht.remote_nodes().is_empty());
    let me = &dht.buckets()[D - 1].remote_nodes()[0];
    assert!(me.public_key == U256::zero());
    assert_eq!(me.node.ipv4, [127, 0, 0, 1]);
    assert_eq!(me.node.ipv4_port, 1234);
    assert_eq!(me.ping_ms, 0);
    assert_eq!(*dht.buckets()[0].k(), K);
    assert!(dht.local_node().public_key == U256::zero());
}

#[test]
fn add_update_remove() {
    let mut dht = dht();
    let n = RemoteNode::new(node(), key(0x80, 1), 40);
    assert!(dht.add_node(n).is_none());
    // The first bit differs from the local key: bucket 0.
    assert_eq!(dht.bucket_counts()[0], 1);
    assert_eq!(dht.remote_nodes().len(), 1);

    let faster = RemoteNode::new(node(), key(0x80, 1), 5);
    assert!(dht.update_node(faster));
    assert_eq!(dht.bucket_counts()[0], 1);
    assert_eq!(dht.buckets()[0].remote_nodes()[0].ping_ms, 5);

    assert!(dht.remove_node(n));
    assert_eq!(dht.bucket_counts()[0], 0);
    assert!(dht.remote_nodes().is_empty());
    assert!(!dht.remove_node(n));
    assert!(!dht.update_node(n));
}

#[test]
fn add_then_remove_restores_the_table() {
    let mut dht = dht();
    dht.add_node(RemoteNode::new(node(), key(0x40, 9), 7));
    let before = dht.bucket_counts();
    let n = RemoteNode::new(node(), key(0x41, 3), 12);
    dht.add_node(n);
    assert!(dht.remove_node(n));
    assert_eq!(dht.bucket_counts(), before);
    assert_eq!(dht.remote_nodes().len(), 1);
}

#[test]
fn buckets_have_capacity_k() {
    let dht = dht();
    assert!(dht.buckets().iter().all(|b| *b.k() == K));
    assert!(dht.buckets().iter().all(|b| b.remote_nodes().len() <= K));
}

#[test]
fn full_bucket_evicts_the_lowest_ping_for_a_lower_one() {
    let mut dht = dht();
    for i in 0..K {
        let n = RemoteNode::new(node(), key(0x80, i as u8), 100 + i as u32);
        assert!(dht.add_node(n).is_none());
    }
    assert_eq!(dht.bucket_counts()[0], K);

    // Not faster than the fastest: nothing changes.
    let slow = RemoteNode::new(node(), key(0x81, 0), 100);
    assert!(dht.add_node(slow).is_none());
    assert_eq!(dht.bucket_counts()[0], K);
    assert_eq!(dht.remote_nodes().len(), K);

    // Faster: the node with ping 100 leaves and is handed back.
    let fast = RemoteNode::new(node(), key(0x81, 1), 50);
    let evicted = dht.add_node(fast).unwrap();
    assert_eq!(evicted.ping_ms, 100);
    assert!(evicted.public_key == key(0x80, 0));
    assert_eq!(dht.bucket_counts()[0], K);
    let bucket = dht.buckets()[0].remote_nodes();
    assert_eq!(bucket[K - 1].ping_ms, 50);
    assert!(!bucket.iter().any(|n| n.public_key == key(0x80, 0)));
}

#[test]
fn nearest_nodes_search_upwards() {
    let mut dht = dht();
    dht.add_node(RemoteNode::new(node(), key(0x80, 0), 1));
    dht.add_node(RemoteNode::new(node(), key(0xc0, 0), 1));
    dht.add_node(RemoteNode::new(node(), key(0x20, 0), 1));
    // A key in bucket 0: the two nodes there, then one from bucket 2.
    let found = dht.nearest_nodes(key(0x90, 0));
    assert_eq!(found.len(), ALPHA);
    // Within bucket 0 the node sharing the most leading bits with the key
    // comes first: 0x80 shares three bits with 0x90, 0xc0 shares one.
    assert!(found[0].remote_node().public_key == key(0x80, 0));
    assert_eq!(*found[0].distance(), 3);
    assert!(found[1].remote_node().public_key == key(0xc0, 0));
    assert_eq!(*found[1].distance(), 1);
    assert!(found[2].remote_node().public_key == key(0x20, 0));
    assert_eq!(*found[2].distance(), 0);
}

#[test]
fn nearest_nodes_prefer_the_most_shared_bits() {
    let mut dht = dht();
    // Four nodes in bucket 0 sharing 2, 3, 4 and 1 leading bits with 0xf8.
    for first in [0xc0u8, 0xe0, 0xf0, 0x88] {
        dht.add_node(RemoteNode::new(node(), key(first, 0), 1));
    }
    let found = dht.nearest_nodes(key(0xf8, 0));
    let firsts: Vec<u8> = found.iter().map(|n| n.remote_node().public_key.unpacked()[0]).collect();
    assert_eq!(firsts, vec![0xf0, 0xe0, 0xc0]);
    assert_eq!(found.iter().map(|n| *n.distance()).collect::<Vec<usize>>(), vec![4, 3, 2]);
}

#[test]
fn records_are_found_through_the_local_node() {
    let mut dht = dht();
    let near = key(0, 1);
    // The search for `near` starts at the last bucket, where the local node is.
    dht.store_set(near, vec![1, 2, 3]);
    assert_eq!(dht.store_get(near), Some(vec![1, 2, 3]));
    assert_eq!(dht.get(near), Some(vec![1, 2, 3]));
    assert_eq!(dht.store().get(near), Some(vec![1, 2, 3]));

    // A key in bucket 0: while that bucket is empty the search goes on up
    // to the last bucket and finds the local node; once bucket 0 holds
    // three nodes the search stops there.
    let far = key(0x80, 0);
    dht.store_set(far, vec![9]);
    assert_eq!(dht.store_get(far), Some(vec![9]));
    assert_eq!(dht.get(far), Some(vec![9]));
    for i in 1..4u8 {
        dht.add_node(RemoteNode::new(node(), key(0x80, i), 1));
    }
    assert_eq!(dht.get(far), None);
    assert_eq!(dht.get(key(0, 2)), None);
}

#[test]
fn memory_store_overwrites() {
    let mut store = MemoryStore::new();
    assert_eq!(store.get(key(1, 1)), None);
    store.set(key(1, 1), vec![1]);
    store.set(key(1, 1), vec![2]);
    store.set(key(2, 2), vec![3]);
    assert_eq!(store.get(key(1, 1)), Some(vec![2]));
    assert_eq!(store.get(key(2, 2)), Some(vec![3]));
}

#[test]
fn hamming_nodes_know_their_distance() {
    let local = ham_dht::LocalNode::new(node(), Keypair::new(PrivateKey::from_u256(U256::new([1u8; 32]))).unwrap());
    let other = Keypair::random().unwrap().public_key();
    let remote = ham_dht::RemoteNode::new(node(), other, 30, &local);
    let expected = other.u256().hamming(local.key_pair.public_key().u256());
    assert_eq!(remote.dist_to_self, expected);
    assert_eq!(remote.ping_ms, 30);
    let me = ham_dht::RemoteNode::new(node(), local.key_pair.public_key(), 0, &local);
    assert_eq!(me.dist_to_self, 0);
}
