//! Chord: finger tables on the 256-bit identifier ring.
//!
//! Finger `k` of node `n` targets `(n + 2^k) mod 2^256`, for `0 <= k < 256`.
use vstd::prelude::*;
use crate::keyspace::{be_add_mod, be_lt, be_pow2, be_value, ring_size, two_pow};
use crate::versioned::V256;

verus! {

/// A Chord identifier.
pub type ChordId = V256;

/// Number of fingers, one per bit of the identifier.
pub const KEYSPACE_SIZE: usize = 256;

/// The ring position of an identifier.
pub open spec fn ring_pos(id: ChordId) -> nat {
    be_value(id@.1)
}

/// The target of finger `k` of a node at ring position `n`.
pub open spec fn finger_target(n: nat, k: nat) -> nat {
    (n + two_pow(k)) % ring_size()
}

/// Finger `k` of node `n`: the identifier at `(n + 2^k) mod 2^256`, version 0.
pub fn k_to_finger_index(n: &ChordId, k: u8) -> (r: ChordId)
    ensures
        ring_pos(r) == finger_target(ring_pos(*n), k as nat),
        r@.0 == 0,
{
    let step = be_pow2(k);
    let sum = be_add_mod(n.bytes(), &step);
    V256::new(0, sum)
}

/// A Chord node: its identifier, neighbours and finger table.
pub struct ChordNode {
    pub id: ChordId,
    pub predecessor: Option<ChordId>,
    pub successor: Option<ChordId>,
    pub fingers: Vec<ChordId>,
}

impl ChordNode {
    /// A node with no neighbours and its full finger table.
    pub fn new(id: ChordId) -> (r: ChordNode)
        ensures
            r.id == id,
            r.predecessor is None,
            r.successor is None,
            r.fingers@.len() == KEYSPACE_SIZE,
            forall|k: int|
                0 <= k < KEYSPACE_SIZE ==> ring_pos(#[trigger] r.fingers@[k]) == finger_target(
                    ring_pos(id),
                    k as nat,
                ),
            forall|k: int| 0 <= k < KEYSPACE_SIZE ==> (#[trigger] r.fingers@[k])@.0 == 0,
    {
        let fingers = ChordNode::build_fingers(&id);
        ChordNode { id, predecessor: None, successor: None, fingers }
    }

    /// The fingers of `id`, finger `k` at index `k`.
    pub fn build_fingers(id: &ChordId) -> (r: Vec<ChordId>)
        ensures
            r@.len() == KEYSPACE_SIZE,
            forall|k: int|
                0 <= k < KEYSPACE_SIZE ==> ring_pos(#[trigger] r@[k]) == finger_target(
                    ring_pos(*id),
                    k as nat,
                ),
            forall|k: int| 0 <= k < KEYSPACE_SIZE ==> (#[trigger] r@[k])@.0 == 0,
    {
        let mut fingers: Vec<ChordId> = Vec::new();
        let mut i: usize = 0;
        while i < KEYSPACE_SIZE
            invariant
                0 <= i <= KEYSPACE_SIZE,
                fingers@.len() == i,
                forall|k: int|
                    0 <= k < i ==> ring_pos(#[trigger] fingers@[k]) == finger_target(
                        ring_pos(*id),
                        k as nat,
                    ),
                forall|k: int| 0 <= k < i ==> (#[trigger] fingers@[k])@.0 == 0,
            decreases KEYSPACE_SIZE - i,
        {
            let finger = k_to_finger_index(id, i as u8);
            fingers.push(finger);
            i += 1;
        }
        fingers
    }

    /// The finger with the smallest ring position above `id`.  Some finger
    /// must lie above `id`: with none the lookup fails.
    pub fn find_successor(&self, id: &ChordId) -> (r: &ChordId)
        requires
            exists|j: int| 0 <= j < self.fingers@.len() && ring_pos(self.fingers@[j]) > ring_pos(*id),
        ensures
            self.fingers@.contains(*r),
            ring_pos(*r) > ring_pos(*id),
            forall|j: int|
                0 <= j < self.fingers@.len() && ring_pos(self.fingers@[j]) > ring_pos(*id)
                    ==> ring_pos(*r) <= ring_pos(#[trigger] self.fingers@[j]),
    {
        let n = self.fingers.len();
        let mut best: Option<usize> = None;
        let mut i: usize = 0;
        while i < n
            invariant
                0 <= i <= n,
                n == self.fingers@.len(),
                best matches Some(b) ==> b < i && ring_pos(self.fingers@[b as int]) > ring_pos(*id),
                best is None ==> forall|j: int| 0 <= j < i ==> ring_pos(self.fingers@[j]) <= ring_pos(*id),
                best matches Some(b) ==> forall|j: int|
                    0 <= j < i && ring_pos(self.fingers@[j]) > ring_pos(*id) ==> ring_pos(
                        self.fingers@[b as int],
                    ) <= ring_pos(#[trigger] self.fingers@[j]),
            decreases n - i,
        {
            let f = &self.fingers[i];
            if be_lt(id.bytes(), f.bytes()) {
                match best {
                    None => {
                        best = Some(i);
                    },
                    Some(b) => {
                        if be_lt(f.bytes(), self.fingers[b].bytes()) {
                            best = Some(i);
                        }
                    },
                }
            }
            i += 1;
        }
        match best {
            Some(b) => {
                &self.fingers[b]
            },
            None => {
                proof {
                    let j = choose|j: int|
                        0 <= j < self.fingers@.len() && ring_pos(self.fingers@[j]) > ring_pos(*id);
                    assert(ring_pos(self.fingers@[j]) <= ring_pos(*id));
                }
                &self.fingers[0]
            },
        }
    }

    /// The finger with the largest ring position below `id`.  Some finger
    /// must lie below `id`: with none the lookup fails.
    pub fn find_predecessor(&self, id: &ChordId) -> (r: &ChordId)
        requires
            exists|j: int| 0 <= j < self.fingers@.len() && ring_pos(self.fingers@[j]) < ring_pos(*id),
        ensures
            self.fingers@.contains(*r),
            ring_pos(*r) < ring_pos(*id),
            forall|j: int|
                0 <= j < self.fingers@.len() && ring_pos(self.fingers@[j]) < ring_pos(*id)
                    ==> ring_pos(#[trigger] self.fingers@[j]) <= ring_pos(*r),
    {
        let n = self.fingers.len();
        let mut best: Option<usize> = None;
        let mut i: usize = 0;
        while i < n
            invariant
                0 <= i <= n,
                n == self.fingers@.len(),
                best matches Some(b) ==> b < i && ring_pos(self.fingers@[b as int]) < ring_pos(*id),
                best is None ==> forall|j: int| 0 <= j < i ==> ring_pos(self.fingers@[j]) >= ring_pos(*id),
                best matches Some(b) ==> forall|j: int|
                    0 <= j < i && ring_pos(self.fingers@[j]) < ring_pos(*id) ==> ring_pos(
                        #[trigger] self.fingers@[j],
                    ) <= ring_pos(self.fingers@[b as int]),
            decreases n - i,
        {
            let f = &self.fingers[i];
            if be_lt(f.bytes(), id.bytes()) {
                match best {
                    None => {
                        best = Some(i);
                    },
                    Some(b) => {
                        if be_lt(self.fingers[b].bytes(), f.bytes()) {
                            best = Some(i);
                        }
                    },
                }
            }
            i += 1;
        }
        match best {
            Some(b) => {
                &self.fingers[b]
            },
            None => {
                proof {
                    let j = choose|j: int|
                        0 <= j < self.fingers@.len() && ring_pos(self.fingers@[j]) < ring_pos(*id);
                    assert(ring_pos(self.fingers@[j]) >= ring_pos(*id));
                }
                &self.fingers[0]
            },
        }
    }
}

/// Whether a node answers Chord requests or only makes them.
#[derive(Debug, Clone, Copy, PartialEq, Eq, Structural)]
pub enum ChordMode {
    Server,
    Client,
}

pub struct ChordBehaviourConfig {
    pub mode: ChordMode,
}

impl Default for ChordBehaviourConfig {
    /// Nodes start as clients.
    fn default() -> (r: ChordBehaviourConfig)
        ensures
            r.mode == ChordMode::Client,
    {
        ChordBehaviourConfig { mode: ChordMode::Client }
    }
}

pub struct ChordBehaviour {
    config: ChordBehaviourConfig,
}

impl ChordBehaviour {
    pub fn new(config: ChordBehaviourConfig) -> (r: ChordBehaviour)
        ensures
            r.mode() == config.mode,
    {
        ChordBehaviour { config }
    }

    /// The mode the behaviour runs in.
    pub closed spec fn mode(&self) -> ChordMode {
        self.config.mode
    }

    pub fn set_mode(&mut self, mode: ChordMode)
        ensures
            final(self).mode() == mode,
    {
        self.config.mode = mode
    }
}

/// Status of the connection to a node.
#[derive(Debug, Clone, Copy, PartialEq, Eq, Structural)]
pub enum ConnectionType {
    /// Not tried to connect.
    NotConnected,
    /// Connected.
    Connected,
    /// Recently connected.
    CanConnect,
    /// Tried to connect and failed.
    CannotConnect,
}

/// Request sent to a peer.
#[derive(Debug, Clone, Copy, PartialEq, Eq, Structural)]
pub enum ChordRequestMsg {
    Ping,
}

/// Response received from a peer.
#[derive(Debug, Clone, Copy, PartialEq, Eq, Structural)]
pub enum ChordResponseMsg {
    Pong,
}

/// The default maximum size of a length-delimited packet.
pub const DEFAULT_MAX_PACKET_SIZE: usize = 16384;

/// The protocol name spoken by default.
pub open spec fn default_protocol_name() -> Seq<char> {
    "/subfield/chord/1.0.0"@
}

/// Protocol names and packet limit of the Chord wire protocol.
pub struct ChordProtocolConfig {
    protocol_names: Vec<String>,
    max_packet_size: usize,
}

impl ChordProtocolConfig {
    /// A configuration speaking the one protocol `protocol_name`.
    pub fn new(protocol_name: String) -> (r: ChordProtocolConfig)
        ensures
            r.names_spec() == seq![protocol_name@],
            r.max_packet_size_spec() == DEFAULT_MAX_PACKET_SIZE,
    {
        let mut protocol_names: Vec<String> = Vec::new();
        protocol_names.push(protocol_name);
        let r = ChordProtocolConfig { protocol_names, max_packet_size: DEFAULT_MAX_PACKET_SIZE };
        proof {
            assert(r.names_spec() =~= seq![protocol_name@]);
        }
        r
    }

    /// The protocol names, as character sequences.
    pub closed spec fn names_spec(&self) -> Seq<Seq<char>> {
        Seq::new(self.protocol_names@.len(), |i: int| self.protocol_names@[i]@)
    }

    pub closed spec fn max_packet_size_spec(&self) -> usize {
        self.max_packet_size
    }

    pub fn protocol_names(&self) -> (r: &[String])
        ensures
            r@.len() == self.names_spec().len(),
            forall|i: int| 0 <= i < r@.len() ==> #[trigger] r@[i]@ == self.names_spec()[i],
    {
        self.protocol_names.as_slice()
    }

    pub fn set_protocol_names(&mut self, names: Vec<String>)
        ensures
            final(self).names_spec() == Seq::new(names@.len(), |i: int| names@[i]@),
            final(self).max_packet_size_spec() == old(self).max_packet_size_spec(),
    {
        self.protocol_names = names;
    }

    pub fn max_packet_size(&self) -> (r: usize)
        ensures
            r == self.max_packet_size_spec(),
    {
        self.max_packet_size
    }

    pub fn set_max_packet_size(&mut self, size: usize)
        ensures
            final(self).max_packet_size_spec() == size,
            final(self).names_spec() == old(self).names_spec(),
    {
        self.max_packet_size = size;
    }
}

impl Default for ChordProtocolConfig {
    /// The default protocol name and packet limit.
    fn default() -> (r: ChordProtocolConfig)
        ensures
            r.names_spec() == seq![default_protocol_name()],
            r.max_packet_size_spec() == DEFAULT_MAX_PACKET_SIZE,
    {
        ChordProtocolConfig::new(String::from_str("/subfield/chord/1.0.0"))
    }
}

/// The Chord ring operations a node offers.
pub trait ChordTrait<Node> {
    /// The node that succeeds `id` on the ring.
    fn find_successor(&self, id: &ChordId) -> ChordId;

    /// The finger closest before `id`.
    fn closest_preceding_node(&self, id: &ChordId) -> ChordId;

    /// A new ring holding only this node.
    fn create(&self) -> Node;

    /// Joins the ring of `n`.
    fn join(&self, n: Node) -> Node;

    /// Checks the successor's predecessor and notifies the successor.
    fn stabilize(&self) -> Node;

    /// `n` might be this node's predecessor.
    fn notify(&self, n: Node) -> Node;

    /// Refreshes finger table entries.
    fn fix_fingers(&self) -> Node;

    /// Clears the predecessor if it has failed.
    fn check_predecessor(&self) -> Node;
}

/// The finger targets of a node are pairwise distinct: `2^k mod 2^256` differ
/// for distinct `k < 256`, and so do their sums with the node's position.
pub proof fn law_finger_targets_distinct(n: nat, j: nat, k: nat)
    requires
        j < k < 256,
    ensures
        finger_target(n, j) != finger_target(n, k),
{
    crate::keyspace::lemma_two_pow_add(j, (k - j) as nat);
    crate::keyspace::lemma_two_pow_bytes(32);
    crate::keyspace::lemma_two_pow_add(k, (256 - k) as nat);
    crate::keyspace::lemma_two_pow_positive(j);
    crate::keyspace::lemma_two_pow_positive((k - j) as nat);
    crate::keyspace::lemma_two_pow_positive((256 - k) as nat);
    let m = ring_size();
    let a = two_pow(j);
    let b = two_pow(k);
    assert(two_pow((k - j) as nat) >= 2) by {
        assert(two_pow((k - j) as nat) == 2 * two_pow((k - j - 1) as nat));
        crate::keyspace::lemma_two_pow_positive((k - j - 1) as nat);
    }
    assert(a < b) by (nonlinear_arith)
        requires
            b == a * two_pow((k - j) as nat),
            a >= 1,
            two_pow((k - j) as nat) >= 2,
    ;
    assert(two_pow((256 - k) as nat) >= 2) by {
        assert(two_pow((256 - k) as nat) == 2 * two_pow((255 - k) as nat));
        crate::keyspace::lemma_two_pow_positive((255 - k) as nat);
    }
    assert(b < m) by (nonlinear_arith)
        requires
            m == b * two_pow((256 - k) as nat),
            b >= 1,
            two_pow((256 - k) as nat) >= 2,
    ;
    assert((n + a) % m != (n + b) % m) by (nonlinear_arith)
        requires
            0 < a < b < m,
    ;
}

/// Two identifiers at the same ring position have the same bytes.
pub proof fn law_ring_pos_injective(a: ChordId, b: ChordId)
    requires
        ring_pos(a) == ring_pos(b),
    ensures
        a@.1 == b@.1,
{
    a.lemma_len();
    b.lemma_len();
    crate::keyspace::lemma_be_value_injective(a@.1, b@.1);
}

} // verus!
