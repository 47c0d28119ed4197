use heapswap::chord::{
    k_to_finger_index, ChordBehaviour, ChordBehaviourConfig, ChordMode, ChordNode,
    ChordProtocolConfig, DEFAULT_MAX_PACKET_SIZE, KEYSPACE_SIZE,
};
use heapswap::versioned::V256;

/// The identifier whose ring position is `2^bit`.
fn power_of_two(bit: usize) -> V256 {
    let mut bytes = [0u8; 32];
    bytes[31 - bit / 8] = 1u8 << (bit % 8);
    V256::new(0, bytes)
}

#[test]
fn test_node_creation() {
    // The node sits at position 0 and the key at 2^100 + 5, so that some
    // finger lies above the key and some below it, as both lookups need.
    let node = ChordNode::new(V256::new(0, [0u8; 32]));

    let mut key_bytes = [0u8; 32];
    key_bytes[31 - 12] = 1u8 << 4;
    key_bytes[31] = 5;
    let key = V256::new(0, key_bytes);

    // find successor
    let successor = node.find_successor(&key);
    assert!(successor.bytes() > key.bytes());

    // find predecessor
    let predecessor = node.find_predecessor(&key);
    assert!(predecessor.bytes() < key.bytes());
}

#[test]
fn successor_and_predecessor_are_the_nearest_fingers() {
    let node = ChordNode::new(V256::new(0, [0u8; 32]));
    let mut key_bytes = [0u8; 32];
    key_bytes[31 - 12] = 1u8 << 4;
    key_bytes[31] = 5;
    let key = V256::new(0, key_bytes);
    assert_eq!(node.find_successor(&key).bytes(), power_of_two(101).bytes());
    assert_eq!(node.find_predecessor(&key).bytes(), power_of_two(100).bytes());
}

#[test]
fn fingers_are_powers_of_two_above_the_node() {
    let node = ChordNode::new(V256::new(0, [0u8; 32]));
    assert_eq!(node.fingers.len(), KEYSPACE_SIZE);
    assert!(node.predecessor.is_none());
    assert!(node.successor.is_none());
    for k in 0..KEYSPACE_SIZE {
        assert_eq!(node.fingers[k].bytes(), power_of_two(k).bytes());
        assert_eq!(*node.fingers[k].version(), 0);
    }
}

#[test]
fn finger_index_adds_modulo_the_ring() {
    let top = V256::new(3, [0xffu8; 32]);
    let first = k_to_finger_index(&top, 0);
    assert_eq!(first.bytes(), &[0u8; 32]);
    assert_eq!(*first.version(), 0);

    let mut seven = [0u8; 32];
    seven[31] = 7;
    let finger = k_to_finger_index(&V256::new(0, seven), 3);
    let mut fifteen = [0u8; 32];
    fifteen[31] = 15;
    assert_eq!(finger.bytes(), &fifteen);

    let carry = k_to_finger_index(&V256::new(0, [0xffu8; 32]), 255);
    let mut expected = [0xffu8; 32];
    expected[0] = 0x7f;
    assert_eq!(carry.bytes(), &expected);
}

#[test]
fn build_fingers_matches_node_fingers() {
    let id = power_of_two(7);
    let fingers = ChordNode::build_fingers(&id);
    let node = ChordNode::new(id);
    assert_eq!(fingers.len(), KEYSPACE_SIZE);
    for k in 0..KEYSPACE_SIZE {
        assert_eq!(fingers[k].bytes(), node.fingers[k].bytes());
    }
    // 2^7 + 2^7 = 2^8
    assert_eq!(fingers[7].bytes(), power_of_two(8).bytes());
}

#[test]
fn behaviour_mode_can_be_set() {
    let config = ChordBehaviourConfig::default();
    assert_eq!(config.mode, ChordMode::Client);
    let mut behaviour = ChordBehaviour::new(config);
    behaviour.set_mode(ChordMode::Server);
}

#[test]
fn protocol_config_defaults() {
    let mut config = ChordProtocolConfig::new(String::from("/chord/1.0.0"));
    assert_eq!(config.protocol_names().to_vec(), vec![String::from("/chord/1.0.0")]);
    assert_eq!(config.max_packet_size(), DEFAULT_MAX_PACKET_SIZE);
    config.set_max_packet_size(1024);
    assert_eq!(config.max_packet_size(), 1024);
    config.set_protocol_names(vec![String::from("a"), String::from("b")]);
    assert_eq!(config.protocol_names().len(), 2);
    assert_eq!(config.max_packet_size(), 1024);
}

#[test]
fn protocol_config_default_name() {
    let config = ChordProtocolConfig::default();
    assert_eq!(config.protocol_names().to_vec(), vec![String::from("/subfield/chord/1.0.0")]);
    assert_eq!(config.max_packet_size(), 16 * 1024);
}
