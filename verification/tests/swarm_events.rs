use heapswap::swarm_events::{
    client_event_actions, node_event_actions, protocol_event_actions, Endpoint, NetworkAction,
    NetworkEvent,
};

fn peers() -> Vec<(Vec<u8>, Vec<u8>)> {
    vec![(b"p1".to_vec(), b"/ip4/1".to_vec()), (b"p2".to_vec(), b"/ip4/2".to_vec())]
}

#[test]
fn client_dials_discovered_peers() {
    let actions = client_event_actions(&NetworkEvent::MdnsDiscovered { peers: peers() });
    assert_eq!(actions.len(), 2);
    assert!(matches!(&actions[0], NetworkAction::Dial { address } if address == b"/ip4/1"));
    assert!(matches!(&actions[1], NetworkAction::Dial { address } if address == b"/ip4/2"));
    assert!(client_event_actions(&NetworkEvent::MdnsExpired { peers: peers() }).is_empty());
}

#[test]
fn client_tracks_connections() {
    let dialed = client_event_actions(&NetworkEvent::ConnectionEstablished {
        peer: b"p".to_vec(),
        endpoint: Endpoint::Dialer { address: b"/out".to_vec() },
    });
    assert!(matches!(&dialed[..], [NetworkAction::AddAddress { peer, address }]
        if peer == b"p" && address == b"/out"));
    let accepted = client_event_actions(&NetworkEvent::ConnectionEstablished {
        peer: b"q".to_vec(),
        endpoint: Endpoint::Listener { local_addr: b"/local".to_vec(), send_back_addr: b"/back".to_vec() },
    });
    assert!(matches!(&accepted[..], [NetworkAction::AddAddress { peer, address }]
        if peer == b"q" && address == b"/back"));
    let closed = client_event_actions(&NetworkEvent::ConnectionClosed {
        peer: b"q".to_vec(),
        endpoint: Endpoint::Listener { local_addr: b"/local".to_vec(), send_back_addr: b"/back".to_vec() },
    });
    assert!(matches!(&closed[..], [NetworkAction::RemoveAddress { peer, address }]
        if peer == b"q" && address == b"/back"));
    assert!(client_event_actions(&NetworkEvent::Other).is_empty());
    assert!(client_event_actions(&NetworkEvent::NewListenAddr { address: b"/x".to_vec() }).is_empty());
}

#[test]
fn node_follows_the_local_network() {
    let added = node_event_actions(&NetworkEvent::MdnsDiscovered { peers: peers() });
    assert_eq!(added.len(), 4);
    assert!(matches!(&added[0], NetworkAction::AddAddress { peer, address } if peer == b"p1" && address == b"/ip4/1"));
    assert!(matches!(&added[1], NetworkAction::AddExplicitPeer { peer } if peer == b"p1"));
    assert!(matches!(&added[2], NetworkAction::AddAddress { peer, address } if peer == b"p2" && address == b"/ip4/2"));
    assert!(matches!(&added[3], NetworkAction::AddExplicitPeer { peer } if peer == b"p2"));
    let removed = node_event_actions(&NetworkEvent::MdnsExpired { peers: peers() });
    assert_eq!(removed.len(), 4);
    assert!(matches!(&removed[0], NetworkAction::RemoveAddress { peer, .. } if peer == b"p1"));
    assert!(matches!(&removed[3], NetworkAction::RemoveExplicitPeer { peer } if peer == b"p2"));
    assert!(node_event_actions(&NetworkEvent::ConnectionClosed {
        peer: b"p".to_vec(),
        endpoint: Endpoint::Dialer { address: b"/out".to_vec() },
    })
    .is_empty());
}

#[test]
fn protocol_node_dials_and_records() {
    let actions = protocol_event_actions(&NetworkEvent::MdnsDiscovered { peers: peers() });
    assert_eq!(actions.len(), 4);
    assert!(matches!(&actions[0], NetworkAction::Dial { address } if address == b"/ip4/1"));
    assert!(matches!(&actions[1], NetworkAction::AddAddress { peer, address } if peer == b"p1" && address == b"/ip4/1"));
    assert!(matches!(&actions[2], NetworkAction::Dial { address } if address == b"/ip4/2"));
    assert!(matches!(&actions[3], NetworkAction::AddAddress { peer, address } if peer == b"p2" && address == b"/ip4/2"));
    let accepted = protocol_event_actions(&NetworkEvent::ConnectionEstablished {
        peer: b"q".to_vec(),
        endpoint: Endpoint::Listener { local_addr: b"/local".to_vec(), send_back_addr: b"/back".to_vec() },
    });
    assert!(matches!(&accepted[..], [NetworkAction::AddAddress { peer, address }]
        if peer == b"q" && address == b"/back"));
    assert!(protocol_event_actions(&NetworkEvent::MdnsExpired { peers: peers() }).is_empty());
    assert!(protocol_event_actions(&NetworkEvent::ConnectionClosed {
        peer: b"q".to_vec(),
        endpoint: Endpoint::Dialer { address: b"/out".to_vec() },
    })
    .is_empty());
}
