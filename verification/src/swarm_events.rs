//! What a node does about the events of its network swarm.  Peers and
//! multiaddrs are given by their bytes; the caller turns the swarm's events
//! into `NetworkEvent`s and performs the `NetworkAction`s handed back.
use vstd::prelude::*;
use crate::arrays::vec_from_slice;

verus! {

/// The local end of a connection: dialed out to `address`, or accepted on
/// `local_addr` from a peer reachable at `send_back_addr`.
pub enum Endpoint {
    Dialer { address: Vec<u8> },
    Listener { local_addr: Vec<u8>, send_back_addr: Vec<u8> },
}

/// The swarm events a node acts on; every other event is `Other`.
pub enum NetworkEvent {
    NewListenAddr { address: Vec<u8> },
    /// Peers found on the local network, each with a multiaddr.
    MdnsDiscovered { peers: Vec<(Vec<u8>, Vec<u8>)> },
    /// Local-network peers whose record expired, each with a multiaddr.
    MdnsExpired { peers: Vec<(Vec<u8>, Vec<u8>)> },
    ConnectionEstablished { peer: Vec<u8>, endpoint: Endpoint },
    ConnectionClosed { peer: Vec<u8>, endpoint: Endpoint },
    Other,
}

/// What the swarm is asked to do.
#[derive(Debug)]
pub enum NetworkAction {
    Dial { address: Vec<u8> },
    /// Adds a peer's address to the Kademlia routing table.
    AddAddress { peer: Vec<u8>, address: Vec<u8> },
    /// Removes a peer's address from the Kademlia routing table.
    RemoveAddress { peer: Vec<u8>, address: Vec<u8> },
    /// Makes a peer an explicit gossipsub peer.
    AddExplicitPeer { peer: Vec<u8> },
    /// Stops treating a peer as an explicit gossipsub peer.
    RemoveExplicitPeer { peer: Vec<u8> },
}

/// An action as the mathematical value it denotes.
pub enum ActionView {
    Dial(Seq<u8>),
    AddAddress(Seq<u8>, Seq<u8>),
    RemoveAddress(Seq<u8>, Seq<u8>),
    AddExplicitPeer(Seq<u8>),
    RemoveExplicitPeer(Seq<u8>),
}

impl View for NetworkAction {
    type V = ActionView;

    open spec fn view(&self) -> ActionView {
        match self {
            NetworkAction::Dial { address } => ActionView::Dial(address@),
            NetworkAction::AddAddress { peer, address } => ActionView::AddAddress(peer@, address@),
            NetworkAction::RemoveAddress { peer, address } => ActionView::RemoveAddress(
                peer@,
                address@,
            ),
            NetworkAction::AddExplicitPeer { peer } => ActionView::AddExplicitPeer(peer@),
            NetworkAction::RemoveExplicitPeer { peer } => ActionView::RemoveExplicitPeer(peer@),
        }
    }
}

/// The views of a list of actions.
pub open spec fn actions_view(v: Seq<NetworkAction>) -> Seq<ActionView> {
    Seq::new(v.len(), |i: int| v[i]@)
}

/// The views of a list of (peer, multiaddr) pairs.
pub open spec fn peers_view(v: Seq<(Vec<u8>, Vec<u8>)>) -> Seq<(Seq<u8>, Seq<u8>)> {
    Seq::new(v.len(), |i: int| (v[i].0@, v[i].1@))
}

/// The address through which a connection reaches the peer.
pub open spec fn peer_address(e: Endpoint) -> Seq<u8> {
    match e {
        Endpoint::Dialer { address } => address@,
        Endpoint::Listener { send_back_addr, .. } => send_back_addr@,
    }
}

/// A client dials every discovered multiaddr, and keeps the routing table
/// in step with its connections: the peer's address is added when a
/// connection opens and removed when it closes.
pub open spec fn client_actions(e: NetworkEvent) -> Seq<ActionView> {
    match e {
        NetworkEvent::MdnsDiscovered { peers } => Seq::new(
            peers@.len(),
            |i: int| ActionView::Dial(peers@[i].1@),
        ),
        NetworkEvent::ConnectionEstablished { peer, endpoint } => seq![
            ActionView::AddAddress(peer@, peer_address(endpoint)),
        ],
        NetworkEvent::ConnectionClosed { peer, endpoint } => seq![
            ActionView::RemoveAddress(peer@, peer_address(endpoint)),
        ],
        _ => Seq::empty(),
    }
}

/// For each discovered peer, in order: its address joins the routing table
/// and it becomes an explicit gossipsub peer.
pub open spec fn discovered_actions(peers: Seq<(Seq<u8>, Seq<u8>)>) -> Seq<ActionView>
    decreases peers.len(),
{
    if peers.len() == 0 {
        Seq::empty()
    } else {
        let (p, a) = peers.last();
        discovered_actions(peers.drop_last()).push(ActionView::AddAddress(p, a)).push(
            ActionView::AddExplicitPeer(p),
        )
    }
}

/// For each expired peer, in order: its address leaves the routing table
/// and it stops being an explicit gossipsub peer.
pub open spec fn expired_actions(peers: Seq<(Seq<u8>, Seq<u8>)>) -> Seq<ActionView>
    decreases peers.len(),
{
    if peers.len() == 0 {
        Seq::empty()
    } else {
        let (p, a) = peers.last();
        expired_actions(peers.drop_last()).push(ActionView::RemoveAddress(p, a)).push(
            ActionView::RemoveExplicitPeer(p),
        )
    }
}

/// A node follows the local network: discovered peers are added to the
/// routing table and to gossipsub, expired ones removed from both.
pub open spec fn node_actions(e: NetworkEvent) -> Seq<ActionView> {
    match e {
        NetworkEvent::MdnsDiscovered { peers } => discovered_actions(peers_view(peers@)),
        NetworkEvent::MdnsExpired { peers } => expired_actions(peers_view(peers@)),
        _ => Seq::empty(),
    }
}

/// The address through which a connection reaches the peer.
fn endpoint_address(endpoint: &Endpoint) -> (r: Vec<u8>)
    ensures
        r@ == peer_address(*endpoint),
{
    match endpoint {
        Endpoint::Dialer { address } => vec_from_slice(address.as_slice()),
        Endpoint::Listener { send_back_addr, .. } => vec_from_slice(send_back_addr.as_slice()),
    }
}

/// The actions of a client for `event`.
pub fn client_event_actions(event: &NetworkEvent) -> (r: Vec<NetworkAction>)
    ensures
        actions_view(r@) == client_actions(*event),
{
    let mut actions: Vec<NetworkAction> = Vec::new();
    match event {
        NetworkEvent::MdnsDiscovered { peers } => {
            let mut i: usize = 0;
            while i < peers.len()
                invariant
                    0 <= i <= peers@.len(),
                    actions_view(actions@) == Seq::new(
                        i as nat,
                        |j: int| ActionView::Dial(peers@[j].1@),
                    ),
                decreases peers@.len() - i,
            {
                let ghost before = actions@;
                let address = vec_from_slice(peers[i].1.as_slice());
                actions.push(NetworkAction::Dial { address });
                proof {
                    assert(actions@[before.len() as int]@ == ActionView::Dial(peers@[i as int].1@));
                    assert(actions_view(actions@) =~= actions_view(before).push(
                        ActionView::Dial(peers@[i as int].1@),
                    ));
                }
                i += 1;
                proof {
                    assert(actions_view(actions@) =~= Seq::new(
                        i as nat,
                        |j: int| ActionView::Dial(peers@[j].1@),
                    ));
                }
            }
        },
        NetworkEvent::ConnectionEstablished { peer, endpoint } => {
            let address = endpoint_address(endpoint);
            actions.push(NetworkAction::AddAddress { peer: vec_from_slice(peer.as_slice()), address });
            proof {
                assert(actions_view(actions@) =~= client_actions(*event));
            }
        },
        NetworkEvent::ConnectionClosed { peer, endpoint } => {
            let address = endpoint_address(endpoint);
            actions.push(
                NetworkAction::RemoveAddress { peer: vec_from_slice(peer.as_slice()), address },
            );
            proof {
                assert(actions_view(actions@) =~= client_actions(*event));
            }
        },
        _ => {
            proof {
                assert(actions_view(actions@) =~= client_actions(*event));
            }
        },
    }
    actions
}

/// For each of `peers`, in order: the routing-table action for the peer and
/// its address, then the gossipsub action for the peer; both add when
/// `adding` and remove otherwise.
fn peer_pair_actions(peers: &Vec<(Vec<u8>, Vec<u8>)>, adding: bool) -> (r: Vec<NetworkAction>)
    ensures
        actions_view(r@) == (if adding {
            discovered_actions(peers_view(peers@))
        } else {
            expired_actions(peers_view(peers@))
        }),
{
    let mut actions: Vec<NetworkAction> = Vec::new();
    let mut i: usize = 0;
    while i < peers.len()
        invariant
            0 <= i <= peers@.len(),
            actions_view(actions@) == (if adding {
                discovered_actions(peers_view(peers@).subrange(0, i as int))
            } else {
                expired_actions(peers_view(peers@).subrange(0, i as int))
            }),
        decreases peers@.len() - i,
    {
        let ghost before = actions@;
        let ghost pv = peers_view(peers@);
        let ghost p = peers@[i as int].0@;
        let ghost a = peers@[i as int].1@;
        let peer = vec_from_slice(peers[i].0.as_slice());
        let address = vec_from_slice(peers[i].1.as_slice());
        let again = vec_from_slice(peers[i].0.as_slice());
        if adding {
            actions.push(NetworkAction::AddAddress { peer, address });
            actions.push(NetworkAction::AddExplicitPeer { peer: again });
        } else {
            actions.push(NetworkAction::RemoveAddress { peer, address });
            actions.push(NetworkAction::RemoveExplicitPeer { peer: again });
        }
        proof {
            let prefix = pv.subrange(0, i + 1);
            assert(prefix.drop_last() =~= pv.subrange(0, i as int));
            assert(prefix.last() == (p, a));
            if adding {
                assert(actions@[before.len() as int]@ == ActionView::AddAddress(p, a));
                assert(actions@[before.len() as int + 1]@ == ActionView::AddExplicitPeer(p));
                assert(actions_view(actions@) =~= actions_view(before).push(
                    ActionView::AddAddress(p, a),
                ).push(ActionView::AddExplicitPeer(p)));
            } else {
                assert(actions@[before.len() as int]@ == ActionView::RemoveAddress(p, a));
                assert(actions@[before.len() as int + 1]@ == ActionView::RemoveExplicitPeer(p));
                assert(actions_view(actions@) =~= actions_view(before).push(
                    ActionView::RemoveAddress(p, a),
                ).push(ActionView::RemoveExplicitPeer(p)));
            }
        }
        i += 1;
    }
    proof {
        assert(peers_view(peers@).subrange(0, peers@.len() as int) =~= peers_view(peers@));
    }
    actions
}

/// The actions of a node for `event`.
pub fn node_event_actions(event: &NetworkEvent) -> (r: Vec<NetworkAction>)
    ensures
        actions_view(r@) == node_actions(*event),
{
    match event {
        NetworkEvent::MdnsDiscovered { peers } => peer_pair_actions(peers, true),
        NetworkEvent::MdnsExpired { peers } => peer_pair_actions(peers, false),
        _ => {
            let actions: Vec<NetworkAction> = Vec::new();
            proof {
                assert(actions_view(actions@) =~= node_actions(*event));
            }
            actions
        },
    }
}

/// For each discovered peer, in order: dial its multiaddr, then add that
/// address to the routing table.
pub open spec fn dial_and_add_actions(peers: Seq<(Seq<u8>, Seq<u8>)>) -> Seq<ActionView>
    decreases peers.len(),
{
    if peers.len() == 0 {
        Seq::empty()
    } else {
        let (p, a) = peers.last();
        dial_and_add_actions(peers.drop_last()).push(ActionView::Dial(a)).push(
            ActionView::AddAddress(p, a),
        )
    }
}

/// A protocol node dials and records every discovered peer, and records the
/// address of every connection that opens.
pub open spec fn protocol_actions(e: NetworkEvent) -> Seq<ActionView> {
    match e {
        NetworkEvent::MdnsDiscovered { peers } => dial_and_add_actions(peers_view(peers@)),
        NetworkEvent::ConnectionEstablished { peer, endpoint } => seq![
            ActionView::AddAddress(peer@, peer_address(endpoint)),
        ],
        _ => Seq::empty(),
    }
}

/// The actions of a protocol node for `event`.
pub fn protocol_event_actions(event: &NetworkEvent) -> (r: Vec<NetworkAction>)
    ensures
        actions_view(r@) == protocol_actions(*event),
{
    let mut actions: Vec<NetworkAction> = Vec::new();
    match event {
        NetworkEvent::MdnsDiscovered { peers } => {
            let mut i: usize = 0;
            while i < peers.len()
                invariant
                    0 <= i <= peers@.len(),
                    actions_view(actions@) == dial_and_add_actions(
                        peers_view(peers@).subrange(0, i as int),
                    ),
                decreases peers@.len() - i,
            {
                let ghost before = actions@;
                let ghost pv = peers_view(peers@);
                let ghost p = peers@[i as int].0@;
                let ghost a = peers@[i as int].1@;
                let dial_address = vec_from_slice(peers[i].1.as_slice());
                let peer = vec_from_slice(peers[i].0.as_slice());
                let address = vec_from_slice(peers[i].1.as_slice());
                actions.push(NetworkAction::Dial { address: dial_address });
                actions.push(NetworkAction::AddAddress { peer, address });
                proof {
                    let prefix = pv.subrange(0, i + 1);
                    assert(prefix.drop_last() =~= pv.subrange(0, i as int));
                    assert(prefix.last() == (p, a));
                    assert(actions@[before.len() as int]@ == ActionView::Dial(a));
                    assert(actions@[before.len() as int + 1]@ == ActionView::AddAddress(p, a));
                    assert(actions_view(actions@) =~= actions_view(before).push(
                        ActionView::Dial(a),
                    ).push(ActionView::AddAddress(p, a)));
                }
                i += 1;
            }
            proof {
                assert(peers_view(peers@).subrange(0, peers@.len() as int) =~= peers_view(peers@));
            }
        },
        NetworkEvent::ConnectionEstablished { peer, endpoint } => {
            let address = endpoint_address(endpoint);
            actions.push(NetworkAction::AddAddress { peer: vec_from_slice(peer.as_slice()), address });
            proof {
                assert(actions_view(actions@) =~= protocol_actions(*event));
            }
        },
        _ => {
            proof {
                assert(actions_view(actions@) =~= protocol_actions(*event));
            }
        },
    }
    actions
}

/// Closing a connection undoes opening it: for the same peer and endpoint,
/// a client adds on opening, and removes on closing, the same address: the
/// one it dialed, or the one an accepted peer can be reached at.
pub proof fn law_client_close_mirrors_open(peer: Vec<u8>, endpoint: Endpoint)
    ensures
        ({
            let address = match endpoint {
                Endpoint::Dialer { address } => address@,
                Endpoint::Listener { send_back_addr, .. } => send_back_addr@,
            };
            &&& client_actions(NetworkEvent::ConnectionEstablished { peer, endpoint }) == seq![
                ActionView::AddAddress(peer@, address),
            ]
            &&& client_actions(NetworkEvent::ConnectionClosed { peer, endpoint }) == seq![
                ActionView::RemoveAddress(peer@, address),
            ]
        }),
{
}

/// A client dials exactly the discovered multiaddrs, in the order found, and
/// does nothing about expired peers.
pub proof fn law_client_dials_discovered(peers: Vec<(Vec<u8>, Vec<u8>)>)
    ensures
        client_actions(NetworkEvent::MdnsDiscovered { peers }).len() == peers@.len(),
        forall|i: int|
            0 <= i < peers@.len() ==> #[trigger] client_actions(
                NetworkEvent::MdnsDiscovered { peers },
            )[i] == ActionView::Dial(peers@[i].1@),
        client_actions(NetworkEvent::MdnsExpired { peers }).len() == 0,
{
}

/// For each discovered peer, a node adds its address to the routing table and
/// then makes it an explicit gossipsub peer; for each expired peer it removes
/// both; the actions of peer `i` stand at `2i` and `2i + 1`.
pub proof fn law_node_follows_peers(peers: Seq<(Seq<u8>, Seq<u8>)>)
    ensures
        discovered_actions(peers).len() == 2 * peers.len(),
        expired_actions(peers).len() == 2 * peers.len(),
        forall|i: int|
            0 <= i < peers.len() ==> {
                &&& #[trigger] discovered_actions(peers)[2 * i] == ActionView::AddAddress(
                    peers[i].0,
                    peers[i].1,
                )
                &&& discovered_actions(peers)[2 * i + 1] == ActionView::AddExplicitPeer(peers[i].0)
                &&& expired_actions(peers)[2 * i] == ActionView::RemoveAddress(
                    peers[i].0,
                    peers[i].1,
                )
                &&& expired_actions(peers)[2 * i + 1] == ActionView::RemoveExplicitPeer(peers[i].0)
            },
    decreases peers.len(),
{
    if peers.len() > 0 {
        let q = peers.drop_last();
        law_node_follows_peers(q);
        assert forall|i: int| 0 <= i < peers.len() implies {
            &&& #[trigger] discovered_actions(peers)[2 * i] == ActionView::AddAddress(
                peers[i].0,
                peers[i].1,
            )
            &&& discovered_actions(peers)[2 * i + 1] == ActionView::AddExplicitPeer(peers[i].0)
            &&& expired_actions(peers)[2 * i] == ActionView::RemoveAddress(peers[i].0, peers[i].1)
            &&& expired_actions(peers)[2 * i + 1] == ActionView::RemoveExplicitPeer(peers[i].0)
        } by {
            if i < peers.len() - 1 {
                assert(q[i] == peers[i]);
                assert(discovered_actions(q)[2 * i] == ActionView::AddAddress(q[i].0, q[i].1));
            }
        }
    }
}

/// For each discovered peer, a protocol node dials its address and then adds
/// it to the routing table; the actions of peer `i` stand at `2i` and `2i + 1`.
pub proof fn law_protocol_dials_and_records(peers: Seq<(Seq<u8>, Seq<u8>)>)
    ensures
        dial_and_add_actions(peers).len() == 2 * peers.len(),
        forall|i: int|
            0 <= i < peers.len() ==> {
                &&& #[trigger] dial_and_add_actions(peers)[2 * i] == ActionView::Dial(peers[i].1)
                &&& dial_and_add_actions(peers)[2 * i + 1] == ActionView::AddAddress(
                    peers[i].0,
                    peers[i].1,
                )
            },
    decreases peers.len(),
{
    if peers.len() > 0 {
        let q = peers.drop_last();
        law_protocol_dials_and_records(q);
        assert forall|i: int| 0 <= i < peers.len() implies {
            &&& #[trigger] dial_and_add_actions(peers)[2 * i] == ActionView::Dial(peers[i].1)
            &&& dial_and_add_actions(peers)[2 * i + 1] == ActionView::AddAddress(
                peers[i].0,
                peers[i].1,
            )
        } by {
            if i < peers.len() - 1 {
                assert(q[i] == peers[i]);
                assert(dial_and_add_actions(q)[2 * i] == ActionView::Dial(q[i].1));
            }
        }
    }
}

} // verus!
