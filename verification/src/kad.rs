//! A Kademlia-style routing table: 256 buckets indexed by the number of
//! leading bits a node's key shares with the local key, an index of known
//! nodes by key, and a local record store.
use vstd::prelude::*;
use crate::u256::{U256, leading_zero_bits, xor_bytes};

verus! {

/// Number of nodes handed back by a nearest-node search.
pub const ALPHA: usize = 3;

/// Capacity of a bucket.
pub const K: usize = 20;

/// Number of bits of a key, and of buckets.
pub const D: usize = 256;

/// Network location of a node.
#[derive(Debug, Clone, Copy)]
pub struct Node {
    pub ipv4: [u8; 4],
    pub ipv4_port: u16,
    pub ipv6: Option<[u8; 16]>,
    pub ipv6_port: Option<u16>,
}

/// A node known to the table.
#[derive(Debug, Clone, Copy)]
pub struct RemoteNode {
    pub node: Node,
    pub public_key: U256,
    pub ping_ms: u32,
}

impl RemoteNode {
    pub fn new(node: Node, public_key: U256, ping_ms: u32) -> (r: RemoteNode)
        ensures
            r.node == node,
            r.public_key == public_key,
            r.ping_ms == ping_ms,
    {
        RemoteNode { node, public_key, ping_ms }
    }

    pub fn public_key(&self) -> (r: &U256)
        ensures
            *r == self.public_key,
    {
        &self.public_key
    }
}

/// The local node: its location and public key.
#[derive(Debug, Clone, Copy)]
pub struct LocalNode {
    pub node: Node,
    pub public_key: U256,
}

impl LocalNode {
    pub fn new(node: Node, public_key: U256) -> (r: LocalNode)
        ensures
            r.node == node,
            r.public_key == public_key,
    {
        LocalNode { node, public_key }
    }
}

/// XOR distance as the number of leading bits two keys share.
pub open spec fn key_distance(a: U256, b: U256) -> nat {
    leading_zero_bits(xor_bytes(a@, b@))
}

/// Whether some node of `v` has key `k`.
pub open spec fn holds_key(v: Seq<RemoteNode>, k: Seq<u8>) -> bool {
    exists|i: int| 0 <= i < v.len() && (#[trigger] v[i]).public_key@ == k
}

/// No two nodes of `v` share a key.
pub open spec fn keys_distinct(v: Seq<RemoteNode>) -> bool {
    forall|i: int, j: int|
        0 <= i < v.len() && 0 <= j < v.len() && i != j ==> (#[trigger] v[i]).public_key@ != (
        #[trigger] v[j]).public_key@
}

/// The nodes of `v` by key.
pub open spec fn index_map(v: Seq<RemoteNode>) -> Map<Seq<u8>, RemoteNode> {
    Map::new(
        |k: Seq<u8>| holds_key(v, k),
        |k: Seq<u8>| v[choose|i: int| 0 <= i < v.len() && (#[trigger] v[i]).public_key@ == k],
    )
}

/// `s` without the nodes whose key is `k`, the others in order.
pub open spec fn without_key(s: Seq<RemoteNode>, k: Seq<u8>) -> Seq<RemoteNode>
    decreases s.len(),
{
    if s.len() == 0 {
        s
    } else if s.last().public_key@ == k {
        without_key(s.drop_last(), k)
    } else {
        without_key(s.drop_last(), k).push(s.last())
    }
}

/// Removing a key that no node of `s` has leaves `s` as it is.
proof fn lemma_without_absent_key(s: Seq<RemoteNode>, k: Seq<u8>)
    requires
        !holds_key(s, k),
    ensures
        without_key(s, k) == s,
    decreases s.len(),
{
    if s.len() > 0 {
        assert(s.last().public_key@ != k) by {
            assert(s[s.len() - 1] == s.last());
        }
        assert(!holds_key(s.drop_last(), k)) by {
            if holds_key(s.drop_last(), k) {
                let i = choose|i: int| 0 <= i < s.drop_last().len() && (#[trigger] s.drop_last()[i]).public_key@ == k;
                assert(s[i] == s.drop_last()[i]);
            }
        }
        lemma_without_absent_key(s.drop_last(), k);
        assert(s.drop_last().push(s.last()) =~= s);
    }
}

/// Adding a node whose key is neither indexed nor in its bucket, then
/// removing it, gives back the bucket and the index as they were.
pub proof fn law_add_then_remove(
    index: Map<Seq<u8>, RemoteNode>,
    bucket: Seq<RemoteNode>,
    node: RemoteNode,
)
    requires
        !index.dom().contains(node.public_key@),
        !holds_key(bucket, node.public_key@),
    ensures
        without_key(bucket.push(node), node.public_key@) == bucket,
        index.insert(node.public_key@, node).remove(node.public_key@) == index,
{
    let pushed = bucket.push(node);
    assert(pushed.drop_last() =~= bucket);
    lemma_without_absent_key(bucket, node.public_key@);
    assert(index.insert(node.public_key@, node).remove(node.public_key@) =~= index);
}

/// Every indexed node is listed in the bucket of its distance to `local`.
pub open spec fn indexed_in_buckets(
    index: Map<Seq<u8>, RemoteNode>,
    buckets: Seq<Seq<RemoteNode>>,
    local: U256,
) -> bool {
    forall|k: Seq<u8>|
        #[trigger] index.dom().contains(k) ==> key_distance(index[k].public_key, local)
            < buckets.len() && holds_key(
            buckets[key_distance(index[k].public_key, local) as int],
            k,
        )
}

proof fn lemma_index_key(v: Seq<RemoteNode>, k: Seq<u8>)
    requires
        index_map(v).dom().contains(k),
    ensures
        index_map(v)[k].public_key@ == k,
{
    let j = choose|i: int| 0 <= i < v.len() && (#[trigger] v[i]).public_key@ == k;
    assert(v[j].public_key@ == k);
}

proof fn lemma_push_keeps(s: Seq<RemoteNode>, n: RemoteNode, k: Seq<u8>)
    requires
        holds_key(s, k) || n.public_key@ == k,
    ensures
        holds_key(s.push(n), k),
{
    if n.public_key@ == k {
        assert(s.push(n)[s.len() as int] == n);
    } else {
        let j = choose|i: int| 0 <= i < s.len() && (#[trigger] s[i]).public_key@ == k;
        assert(s.push(n)[j] == s[j]);
    }
}

proof fn lemma_remove_at_keeps(s: Seq<RemoteNode>, m: int, k: Seq<u8>)
    requires
        holds_key(s, k),
        0 <= m < s.len(),
        s[m].public_key@ != k,
    ensures
        holds_key(s.remove(m), k),
{
    let j = choose|i: int| 0 <= i < s.len() && (#[trigger] s[i]).public_key@ == k;
    if j < m {
        assert(s.remove(m)[j] == s[j]);
    } else {
        assert(s.remove(m)[j - 1] == s[j]);
    }
}

proof fn lemma_without_key_keeps(s: Seq<RemoteNode>, k: Seq<u8>, k2: Seq<u8>)
    requires
        holds_key(s, k2),
        k2 != k,
    ensures
        holds_key(without_key(s, k), k2),
    decreases s.len(),
{
    let j = choose|i: int| 0 <= i < s.len() && (#[trigger] s[i]).public_key@ == k2;
    if j == s.len() - 1 {
        assert(s.last() == s[j]);
        lemma_push_keeps(without_key(s.drop_last(), k), s.last(), k2);
    } else {
        assert(s.drop_last()[j] == s[j]);
        lemma_without_key_keeps(s.drop_last(), k, k2);
        if s.last().public_key@ != k {
            lemma_push_keeps(without_key(s.drop_last(), k), s.last(), k2);
        }
    }
}

proof fn lemma_without_key_len(s: Seq<RemoteNode>, k: Seq<u8>)
    ensures
        without_key(s, k).len() <= s.len(),
        holds_key(s, k) ==> without_key(s, k).len() < s.len(),
    decreases s.len(),
{
    if s.len() > 0 {
        lemma_without_key_len(s.drop_last(), k);
        if holds_key(s, k) && s.last().public_key@ != k {
            let j = choose|i: int| 0 <= i < s.len() && (#[trigger] s[i]).public_key@ == k;
            assert(j != s.len() - 1);
            assert(s.drop_last()[j] == s[j]);
        }
    }
}

/// Indexing `node` and appending it to its bucket keeps every indexed node
/// listed.
proof fn lemma_indexed_push(
    idx: Map<Seq<u8>, RemoteNode>,
    bs: Seq<Seq<RemoteNode>>,
    local: U256,
    node: RemoteNode,
)
    requires
        indexed_in_buckets(idx, bs, local),
        key_distance(node.public_key, local) < bs.len(),
    ensures
        ({
            let d = key_distance(node.public_key, local) as int;
            indexed_in_buckets(idx.insert(node.public_key@, node), bs.update(d, bs[d].push(node)), local)
        }),
{
    let d = key_distance(node.public_key, local) as int;
    let idx2 = idx.insert(node.public_key@, node);
    let bs2 = bs.update(d, bs[d].push(node));
    assert forall|k: Seq<u8>| #[trigger] idx2.dom().contains(k) implies key_distance(idx2[k].public_key, local) < bs2.len() && holds_key(
        bs2[key_distance(idx2[k].public_key, local) as int],
        k,
    ) by {
        if k == node.public_key@ {
            lemma_push_keeps(bs[d], node, k);
        } else {
            let dk = key_distance(idx[k].public_key, local) as int;
            assert(idx.dom().contains(k));
            if dk == d {
                lemma_push_keeps(bs[d], node, k);
            }
        }
    }
}

/// Evicting entry `m` of `node`'s bucket, unindexing its key, and adding
/// `node` keeps every indexed node listed.
proof fn lemma_indexed_evict(
    idx: Map<Seq<u8>, RemoteNode>,
    bs: Seq<Seq<RemoteNode>>,
    local: U256,
    node: RemoteNode,
    m: int,
)
    requires
        indexed_in_buckets(idx, bs, local),
        key_distance(node.public_key, local) < bs.len(),
        0 <= m < bs[key_distance(node.public_key, local) as int].len(),
    ensures
        ({
            let d = key_distance(node.public_key, local) as int;
            let e = bs[d][m];
            indexed_in_buckets(
                idx.remove(e.public_key@).insert(node.public_key@, node),
                bs.update(d, bs[d].remove(m).push(node)),
                local,
            )
        }),
{
    let d = key_distance(node.public_key, local) as int;
    let e = bs[d][m];
    let idx2 = idx.remove(e.public_key@).insert(node.public_key@, node);
    let bs2 = bs.update(d, bs[d].remove(m).push(node));
    assert forall|k: Seq<u8>| #[trigger] idx2.dom().contains(k) implies key_distance(idx2[k].public_key, local) < bs2.len() && holds_key(
        bs2[key_distance(idx2[k].public_key, local) as int],
        k,
    ) by {
        if k == node.public_key@ {
            lemma_push_keeps(bs[d].remove(m), node, k);
        } else {
            assert(idx.dom().contains(k));
            let dk = key_distance(idx[k].public_key, local) as int;
            if dk == d {
                lemma_remove_at_keeps(bs[d], m, k);
                lemma_push_keeps(bs[d].remove(m), node, k);
            }
        }
    }
}

/// Replacing the indexed node with `node`'s key by `node`, in the index and
/// in its bucket, keeps every indexed node listed.
proof fn lemma_indexed_replace(
    idx: Map<Seq<u8>, RemoteNode>,
    bs: Seq<Seq<RemoteNode>>,
    local: U256,
    node: RemoteNode,
)
    requires
        indexed_in_buckets(idx, bs, local),
        key_distance(node.public_key, local) < bs.len(),
    ensures
        ({
            let d = key_distance(node.public_key, local) as int;
            indexed_in_buckets(
                idx.insert(node.public_key@, node),
                bs.update(d, without_key(bs[d], node.public_key@).push(node)),
                local,
            )
        }),
{
    let d = key_distance(node.public_key, local) as int;
    let idx2 = idx.insert(node.public_key@, node);
    let bs2 = bs.update(d, without_key(bs[d], node.public_key@).push(node));
    assert forall|k: Seq<u8>| #[trigger] idx2.dom().contains(k) implies key_distance(idx2[k].public_key, local) < bs2.len() && holds_key(
        bs2[key_distance(idx2[k].public_key, local) as int],
        k,
    ) by {
        if k == node.public_key@ {
            lemma_push_keeps(without_key(bs[d], node.public_key@), node, k);
        } else {
            assert(idx.dom().contains(k));
            let dk = key_distance(idx[k].public_key, local) as int;
            if dk == d {
                lemma_without_key_keeps(bs[d], node.public_key@, k);
                lemma_push_keeps(without_key(bs[d], node.public_key@), node, k);
            }
        }
    }
}

/// Unindexing `key` and dropping it from its bucket keeps every other
/// indexed node listed.
proof fn lemma_indexed_remove(
    idx: Map<Seq<u8>, RemoteNode>,
    bs: Seq<Seq<RemoteNode>>,
    local: U256,
    key: U256,
)
    requires
        indexed_in_buckets(idx, bs, local),
        key_distance(key, local) < bs.len(),
    ensures
        ({
            let d = key_distance(key, local) as int;
            indexed_in_buckets(idx.remove(key@), bs.update(d, without_key(bs[d], key@)), local)
        }),
{
    let d = key_distance(key, local) as int;
    let idx2 = idx.remove(key@);
    let bs2 = bs.update(d, without_key(bs[d], key@));
    assert forall|k: Seq<u8>| #[trigger] idx2.dom().contains(k) implies key_distance(idx2[k].public_key, local) < bs2.len() && holds_key(
        bs2[key_distance(idx2[k].public_key, local) as int],
        k,
    ) by {
        assert(idx.dom().contains(k));
        let dk = key_distance(idx[k].public_key, local) as int;
        if dk == d {
            lemma_without_key_keeps(bs[d], key@, k);
        }
    }
}

proof fn lemma_index_map_at(v: Seq<RemoteNode>, i: int)
    requires
        keys_distinct(v),
        0 <= i < v.len(),
    ensures
        index_map(v).dom().contains(v[i].public_key@),
        index_map(v)[v[i].public_key@] == v[i],
{
    let k = v[i].public_key@;
    assert(holds_key(v, k));
    let j = choose|j: int| 0 <= j < v.len() && (#[trigger] v[j]).public_key@ == k;
    assert(v[j].public_key@ == k);
    assert(i == j);
}

/// Position of the node with key `key`, if any.
fn find_key(v: &Vec<RemoteNode>, key: &U256) -> (r: Option<usize>)
    ensures
        r matches Some(i) ==> i < v@.len() && v@[i as int].public_key@ == key@,
        r is None ==> !holds_key(v@, key@),
{
    let mut i: usize = 0;
    while i < v.len()
        invariant
            0 <= i <= v@.len(),
            forall|j: int| 0 <= j < i ==> (#[trigger] v@[j]).public_key@ != key@,
        decreases v@.len() - i,
    {
        if v[i].public_key.equals(key) {
            return Some(i);
        }
        i += 1;
    }
    None
}

/// Sets the node for `node`'s key, replacing any node with that key.
fn index_insert(v: &mut Vec<RemoteNode>, node: RemoteNode)
    requires
        keys_distinct(old(v)@),
    ensures
        keys_distinct(final(v)@),
        index_map(final(v)@) == index_map(old(v)@).insert(node.public_key@, node),
{
    let ghost old_v = v@;
    match find_key(v, &node.public_key) {
        Some(i) => {
            v.set(i, node);
            proof {
                let ii = i as int;
                let nv = v@;
                assert(keys_distinct(nv)) by {
                    assert forall|a: int, b: int|
                        0 <= a < nv.len() && 0 <= b < nv.len() && a != b implies (
                    #[trigger] nv[a]).public_key@ != (#[trigger] nv[b]).public_key@ by {
                        if a != i && b != i {
                            assert(old_v[a] == nv[a] && old_v[b] == nv[b]);
                        } else if a == i {
                            assert(old_v[b] == nv[b]);
                            assert(old_v[ii].public_key@ != old_v[b].public_key@);
                        } else {
                            assert(old_v[a] == nv[a]);
                            assert(old_v[a].public_key@ != old_v[ii].public_key@);
                        }
                    }
                }
                let m = index_map(old_v).insert(node.public_key@, node);
                assert forall|k: Seq<u8>| #[trigger] index_map(nv).dom().contains(k) <==> m.dom().contains(k) by {
                    if holds_key(nv, k) {
                        let j = choose|j: int| 0 <= j < nv.len() && (#[trigger] nv[j]).public_key@ == k;
                        if j != i {
                            assert(old_v[j] == nv[j]);
                        }
                    }
                    if holds_key(old_v, k) {
                        let j = choose|j: int| 0 <= j < old_v.len() && (#[trigger] old_v[j]).public_key@ == k;
                        if j != i {
                            assert(old_v[j] == nv[j]);
                        } else {
                            assert(nv[ii].public_key@ == k);
                        }
                    }
                    if k == node.public_key@ {
                        assert(nv[ii].public_key@ == k);
                    }
                }
                assert forall|k: Seq<u8>| #[trigger] index_map(nv).dom().contains(k) implies index_map(nv)[k] == m[k] by {
                    let j = choose|j: int| 0 <= j < nv.len() && (#[trigger] nv[j]).public_key@ == k;
                    lemma_index_map_at(nv, j);
                    if j != i {
                        assert(old_v[j] == nv[j]);
                        lemma_index_map_at(old_v, j);
                    }
                }
                assert(index_map(nv) =~= m);
            }
        },
        None => {
            v.push(node);
            proof {
                let nv = v@;
                let n = old_v.len() as int;
                assert(keys_distinct(nv)) by {
                    assert forall|a: int, b: int|
                        0 <= a < nv.len() && 0 <= b < nv.len() && a != b implies (
                    #[trigger] nv[a]).public_key@ != (#[trigger] nv[b]).public_key@ by {
                        if a == n {
                            assert(nv[b] == old_v[b]);
                        } else if b == n {
                            assert(nv[a] == old_v[a]);
                        } else {
                            assert(nv[a] == old_v[a] && nv[b] == old_v[b]);
                        }
                    }
                }
                let m = index_map(old_v).insert(node.public_key@, node);
                assert forall|k: Seq<u8>| #[trigger] index_map(nv).dom().contains(k) <==> m.dom().contains(k) by {
                    if holds_key(nv, k) {
                        let j = choose|j: int| 0 <= j < nv.len() && (#[trigger] nv[j]).public_key@ == k;
                        if j != n {
                            assert(old_v[j] == nv[j]);
                        }
                    }
                    if holds_key(old_v, k) {
                        let j = choose|j: int| 0 <= j < old_v.len() && (#[trigger] old_v[j]).public_key@ == k;
                        assert(old_v[j] == nv[j]);
                    }
                    if k == node.public_key@ {
                        assert(nv[n].public_key@ == k);
                    }
                }
                assert forall|k: Seq<u8>| #[trigger] index_map(nv).dom().contains(k) implies index_map(nv)[k] == m[k] by {
                    let j = choose|j: int| 0 <= j < nv.len() && (#[trigger] nv[j]).public_key@ == k;
                    lemma_index_map_at(nv, j);
                    if j != n {
                        assert(old_v[j] == nv[j]);
                        lemma_index_map_at(old_v, j);
                    }
                }
                assert(index_map(nv) =~= m);
            }
        },
    }
}

/// Drops the node with key `key`, if any.
fn index_remove(v: &mut Vec<RemoteNode>, key: &U256)
    requires
        keys_distinct(old(v)@),
    ensures
        keys_distinct(final(v)@),
        index_map(final(v)@) == index_map(old(v)@).remove(key@),
{
    let ghost old_v = v@;
    match find_key(v, key) {
        Some(i) => {
            v.remove(i);
            proof {
                let nv = v@;
                old_v.remove_ensures(i as int);
                assert forall|a: int| 0 <= a < nv.len() implies #[trigger] nv[a] == old_v[if a < i {
                    a
                } else {
                    a + 1
                }] by {}
                assert(keys_distinct(nv)) by {
                    assert forall|a: int, b: int|
                        0 <= a < nv.len() && 0 <= b < nv.len() && a != b implies (
                    #[trigger] nv[a]).public_key@ != (#[trigger] nv[b]).public_key@ by {
                        let a2 = if a < i { a } else { a + 1 };
                        let b2 = if b < i { b } else { b + 1 };
                        assert(nv[a] == old_v[a2] && nv[b] == old_v[b2]);
                    }
                }
                let m = index_map(old_v).remove(key@);
                assert forall|k: Seq<u8>| #[trigger] index_map(nv).dom().contains(k) <==> m.dom().contains(k) by {
                    if holds_key(nv, k) {
                        let j = choose|j: int| 0 <= j < nv.len() && (#[trigger] nv[j]).public_key@ == k;
                        let j2 = if j < i { j } else { j + 1 };
                        assert(nv[j] == old_v[j2]);
                        assert(old_v[j2].public_key@ != old_v[i as int].public_key@);
                    }
                    if holds_key(old_v, k) && k != key@ {
                        let j = choose|j: int| 0 <= j < old_v.len() && (#[trigger] old_v[j]).public_key@ == k;
                        assert(j != i);
                        let j1 = if j < i { j } else { j - 1 };
                        assert(nv[j1] == old_v[j]);
                    }
                }
                assert forall|k: Seq<u8>| #[trigger] index_map(nv).dom().contains(k) implies index_map(nv)[k] == m[k] by {
                    let j = choose|j: int| 0 <= j < nv.len() && (#[trigger] nv[j]).public_key@ == k;
                    let j2 = if j < i { j } else { j + 1 };
                    assert(nv[j] == old_v[j2]);
                    lemma_index_map_at(nv, j);
                    lemma_index_map_at(old_v, j2);
                }
                assert(index_map(nv) =~= m);
            }
        },
        None => {
            proof {
                assert(index_map(old_v) =~= index_map(old_v).remove(key@));
            }
        },
    }
}

/// The nodes of `v` whose key is not `key`, in order.
fn retain_other_keys(v: &Vec<RemoteNode>, key: &U256) -> (r: Vec<RemoteNode>)
    ensures
        r@ == without_key(v@, key@),
{
    let mut r: Vec<RemoteNode> = Vec::new();
    let mut i: usize = 0;
    proof {
        assert(v@.subrange(0, 0) =~= Seq::<RemoteNode>::empty());
    }
    while i < v.len()
        invariant
            0 <= i <= v@.len(),
            r@ == without_key(v@.subrange(0, i as int), key@),
        decreases v@.len() - i,
    {
        proof {
            assert(v@.subrange(0, i + 1).drop_last() =~= v@.subrange(0, i as int));
        }
        if !v[i].public_key.equals(key) {
            r.push(v[i]);
        }
        i += 1;
    }
    proof {
        assert(v@.subrange(0, v@.len() as int) =~= v@);
    }
    r
}

/// A copy of a node list.
fn copy_nodes(v: &Vec<RemoteNode>) -> (r: Vec<RemoteNode>)
    ensures
        r@ == v@,
{
    let mut r: Vec<RemoteNode> = Vec::new();
    let mut i: usize = 0;
    while i < v.len()
        invariant
            0 <= i <= v@.len(),
            r@ == v@.subrange(0, i as int),
        decreases v@.len() - i,
    {
        r.push(v[i]);
        i += 1;
        proof {
            assert(r@ =~= v@.subrange(0, i as int));
        }
    }
    proof {
        assert(v@.subrange(0, v@.len() as int) =~= v@);
    }
    r
}


proof fn lemma_leading_zero_bits_bound(s: Seq<u8>)
    ensures
        leading_zero_bits(s) <= 8 * s.len(),
        leading_zero_bits(s) == 8 * s.len() ==> forall|i: int| 0 <= i < s.len() ==> s[i] == 0u8,
    decreases s.len(),
{
    if s.len() > 0 {
        lemma_leading_zero_bits_bound(s.drop_first());
        vstd::std_specs::bits::axiom_u8_leading_zeros(s[0]);
        if leading_zero_bits(s) == 8 * s.len() {
            assert forall|i: int| 0 <= i < s.len() implies s[i] == 0u8 by {
                if i > 0 {
                    assert(s.drop_first()[i - 1] == s[i]);
                }
            }
        }
    }
}

/// Distinct keys are fewer than 256 bits apart, so their bucket exists.
pub proof fn lemma_distance_below_256(a: U256, b: U256)
    requires
        a@ != b@,
    ensures
        key_distance(a, b) < 256,
{
    a.lemma_len();
    b.lemma_len();
    let x = xor_bytes(a@, b@);
    lemma_leading_zero_bits_bound(x);
    if key_distance(a, b) >= 256 {
        assert forall|i: int| 0 <= i < 32 implies a@[i] == b@[i] by {
            let p = a@[i];
            let q = b@[i];
            assert(x[i] == p ^ q);
            assert(p ^ q == 0u8 ==> p == q) by (bit_vector);
        }
        assert(a@ =~= b@);
    }
}

/// A key is at distance 256 from itself: it has no bucket.
pub proof fn law_distance_to_self(a: U256)
    ensures
        key_distance(a, a) == 256,
{
    crate::u256::law_xor_self(a);
}

/// Distance does not depend on the order of the keys.
pub proof fn law_distance_symmetric(a: U256, b: U256)
    ensures
        key_distance(a, b) == key_distance(b, a),
{
    crate::u256::law_xor_symmetric(a, b);
}

/// Index of the first node with the lowest ping.
pub open spec fn min_ping_index(b: Seq<RemoteNode>) -> int
    decreases b.len(),
{
    if b.len() <= 1 {
        0
    } else {
        let j = min_ping_index(b.drop_last());
        if b.last().ping_ms < b[j].ping_ms {
            b.len() - 1
        } else {
            j
        }
    }
}

/// The node `min_ping_index` picks has the lowest ping of the bucket, and
/// every node before it has a strictly higher ping: it is the first node of
/// lowest ping.
pub proof fn law_min_ping_index_is_first_minimum(b: Seq<RemoteNode>)
    requires
        b.len() > 0,
    ensures
        0 <= min_ping_index(b) < b.len(),
        forall|j: int| 0 <= j < b.len() ==> b[min_ping_index(b)].ping_ms <= #[trigger] b[j].ping_ms,
        forall|j: int| 0 <= j < min_ping_index(b) ==> b[min_ping_index(b)].ping_ms < #[trigger] b[j].ping_ms,
    decreases b.len(),
{
    if b.len() > 1 {
        let q = b.drop_last();
        law_min_ping_index_is_first_minimum(q);
        assert forall|j: int| 0 <= j < q.len() implies #[trigger] q[j] == b[j] by {}
        let m = min_ping_index(q);
        assert(q[m] == b[m]);
        assert forall|j: int| 0 <= j < b.len() implies b[min_ping_index(b)].ping_ms <= #[trigger] b[j].ping_ms by {
            if j < b.len() - 1 {
                assert(q[j] == b[j]);
            }
        }
        assert forall|j: int| 0 <= j < min_ping_index(b) implies b[min_ping_index(b)].ping_ms < #[trigger] b[j].ping_ms by {
            if j < b.len() - 1 {
                assert(q[j] == b[j]);
            }
        }
    }
}

/// A full bucket is left as it is when some node of it pings no slower than
/// the new node: eviction only happens for a node faster than all of them.
pub proof fn law_full_bucket_keeps_its_nodes(b: Seq<RemoteNode>, node: RemoteNode)
    requires
        b.len() > 0,
        exists|j: int| 0 <= j < b.len() && (#[trigger] b[j]).ping_ms <= node.ping_ms,
    ensures
        node.ping_ms >= b[min_ping_index(b)].ping_ms,
{
    law_min_ping_index_is_first_minimum(b);
    let j = choose|j: int| 0 <= j < b.len() && (#[trigger] b[j]).ping_ms <= node.ping_ms;
    assert(b[min_ping_index(b)].ping_ms <= b[j].ping_ms);
}

/// Index of the first node whose key has the most leading bits in common
/// with `key`.
pub open spec fn first_most_shared_index(pool: Seq<RemoteNode>, key: U256) -> int
    decreases pool.len(),
{
    if pool.len() <= 1 {
        0
    } else {
        let j = first_most_shared_index(pool.drop_last(), key);
        if key_distance(pool.last().public_key, key) > key_distance(pool[j].public_key, key) {
            pool.len() - 1
        } else {
            j
        }
    }
}

proof fn lemma_min_ping_index_range(b: Seq<RemoteNode>)
    ensures
        b.len() > 0 ==> 0 <= min_ping_index(b) < b.len(),
    decreases b.len(),
{
    if b.len() > 1 {
        lemma_min_ping_index_range(b.drop_last());
    }
}

proof fn lemma_first_most_shared_index_range(pool: Seq<RemoteNode>, key: U256)
    ensures
        pool.len() > 0 ==> 0 <= first_most_shared_index(pool, key) < pool.len(),
    decreases pool.len(),
{
    if pool.len() > 1 {
        lemma_first_most_shared_index_range(pool.drop_last(), key);
    }
}

/// Takes, `count` times at most, the first node of `pool` that has the most
/// leading bits in common with `key`, each with that count.
pub open spec fn select_nearest(pool: Seq<RemoteNode>, key: U256, count: nat) -> Seq<
    (nat, RemoteNode),
>
    decreases count,
{
    if count == 0 || pool.len() == 0 {
        Seq::empty()
    } else {
        let i = first_most_shared_index(pool, key);
        seq![(key_distance(pool[i].public_key, key), pool[i])] + select_nearest(
            pool.remove(i),
            key,
            (count - 1) as nat,
        )
    }
}

/// The nodes a search hands back: from bucket `d` upwards, `need` at most.
pub open spec fn nearest_from(buckets: Seq<Seq<RemoteNode>>, key: U256, d: nat, need: nat) -> Seq<
    (nat, RemoteNode),
>
    decreases 256 - d,
{
    if need == 0 || d >= 256 {
        Seq::empty()
    } else {
        let s = select_nearest(buckets[d as int], key, need);
        s + nearest_from(buckets, key, d + 1, (need - s.len()) as nat)
    }
}

proof fn lemma_select_nearest_len(pool: Seq<RemoteNode>, key: U256, count: nat)
    ensures
        select_nearest(pool, key, count).len() <= count,
    decreases count,
{
    if count > 0 && pool.len() > 0 {
        lemma_select_nearest_len(pool.remove(first_most_shared_index(pool, key)), key, (count - 1) as nat);
    }
}

/// What picking `count` times leaves of `pool`.
pub open spec fn select_rest(pool: Seq<RemoteNode>, key: U256, count: nat) -> Seq<RemoteNode>
    decreases count,
{
    if count == 0 || pool.len() == 0 {
        pool
    } else {
        select_rest(pool.remove(first_most_shared_index(pool, key)), key, (count - 1) as nat)
    }
}

proof fn lemma_first_most_shared_is_max(pool: Seq<RemoteNode>, key: U256)
    requires
        pool.len() > 0,
    ensures
        forall|j: int|
            0 <= j < pool.len() ==> key_distance(#[trigger] pool[j].public_key, key) <= key_distance(
                pool[first_most_shared_index(pool, key)].public_key,
                key,
            ),
    decreases pool.len(),
{
    lemma_first_most_shared_index_range(pool, key);
    if pool.len() > 1 {
        let q = pool.drop_last();
        lemma_first_most_shared_is_max(q, key);
        lemma_first_most_shared_index_range(q, key);
        let jq = first_most_shared_index(q, key);
        assert(q[jq] == pool[jq]);
        assert forall|j: int| 0 <= j < pool.len() implies key_distance(
            #[trigger] pool[j].public_key,
            key,
        ) <= key_distance(pool[first_most_shared_index(pool, key)].public_key, key) by {
            if j < pool.len() - 1 {
                assert(q[j] == pool[j]);
            }
        }
    }
}

proof fn lemma_select_rest_within(pool: Seq<RemoteNode>, key: U256, count: nat)
    ensures
        forall|j: int|
            0 <= j < select_rest(pool, key, count).len() ==> pool.contains(
                #[trigger] select_rest(pool, key, count)[j],
            ),
        select_nearest(pool, key, count).len() + select_rest(pool, key, count).len() == pool.len(),
    decreases count,
{
    if count > 0 && pool.len() > 0 {
        let i = first_most_shared_index(pool, key);
        lemma_first_most_shared_index_range(pool, key);
        let q = pool.remove(i);
        lemma_select_rest_within(q, key, (count - 1) as nat);
        assert forall|j: int| 0 <= j < select_rest(pool, key, count).len() implies pool.contains(
            #[trigger] select_rest(pool, key, count)[j],
        ) by {
            let x = select_rest(q, key, (count - 1) as nat)[j];
            assert(q.contains(x));
            let k = choose|k: int| 0 <= k < q.len() && q[k] == x;
            if k < i {
                assert(pool[k] == x);
            } else {
                assert(pool[k + 1] == x);
            }
        }
    }
}

/// Taking from a bucket: every node taken shares at least as many leading
/// bits with `key` as every node left behind, its count is that number of
/// bits, and the nodes taken and left add up to the bucket.
pub proof fn law_select_nearest_takes_nearest(pool: Seq<RemoteNode>, key: U256, count: nat)
    ensures
        ({
            let taken = select_nearest(pool, key, count);
            let rest = select_rest(pool, key, count);
            &&& taken.len() + rest.len() == pool.len()
            &&& forall|i: int|
                0 <= i < taken.len() ==> (#[trigger] taken[i]).0 == key_distance(
                    taken[i].1.public_key,
                    key,
                )
            &&& forall|i: int, j: int|
                0 <= i < taken.len() && 0 <= j < rest.len() ==> key_distance(
                    (#[trigger] rest[j]).public_key,
                    key,
                ) <= (#[trigger] taken[i]).0
        }),
    decreases count,
{
    lemma_select_rest_within(pool, key, count);
    if count > 0 && pool.len() > 0 {
        let i0 = first_most_shared_index(pool, key);
        lemma_first_most_shared_index_range(pool, key);
        lemma_first_most_shared_is_max(pool, key);
        let q = pool.remove(i0);
        law_select_nearest_takes_nearest(q, key, (count - 1) as nat);
        lemma_select_rest_within(q, key, (count - 1) as nat);
        let taken = select_nearest(pool, key, count);
        let rest = select_rest(pool, key, count);
        let head = (key_distance(pool[i0].public_key, key), pool[i0]);
        assert(taken == seq![head] + select_nearest(q, key, (count - 1) as nat));
        assert forall|i: int, j: int|
            0 <= i < taken.len() && 0 <= j < rest.len() implies key_distance(
                (#[trigger] rest[j]).public_key,
                key,
            ) <= (#[trigger] taken[i]).0 by {
            if i == 0 {
                assert(pool.contains(rest[j]));
                let k = choose|k: int| 0 <= k < pool.len() && pool[k] == rest[j];
                assert(key_distance(pool[k].public_key, key) <= head.0);
            } else {
                assert(taken[i] == select_nearest(q, key, (count - 1) as nat)[i - 1]);
            }
        }
        assert forall|i: int| 0 <= i < taken.len() implies (#[trigger] taken[i]).0 == key_distance(
            taken[i].1.public_key,
            key,
        ) by {
            if i > 0 {
                assert(taken[i] == select_nearest(q, key, (count - 1) as nat)[i - 1]);
            }
        }
    }
}

/// A search never hands back more nodes than it was asked for.
pub proof fn law_nearest_bounded(buckets: Seq<Seq<RemoteNode>>, key: U256, d: nat, need: nat)
    ensures
        nearest_from(buckets, key, d, need).len() <= need,
    decreases 256 - d,
{
    if need > 0 && d < 256 {
        let s = select_nearest(buckets[d as int], key, need);
        lemma_select_nearest_len(buckets[d as int], key, need);
        law_nearest_bounded(buckets, key, d + 1, (need - s.len()) as nat);
    }
}

/// A bucket of nodes.
pub struct Bucket {
    k: usize,
    remote_nodes: Vec<RemoteNode>,
}

impl Bucket {
    /// An empty bucket of capacity `k`.
    pub fn new(k: usize) -> (r: Bucket)
        ensures
            r.capacity() == k,
            r.nodes() == Seq::<RemoteNode>::empty(),
    {
        Bucket { k, remote_nodes: Vec::new() }
    }

    /// The capacity the bucket was made with.
    pub fn k(&self) -> (r: &usize)
        ensures
            *r == self.capacity(),
    {
        &self.k
    }

    pub fn remote_nodes(&self) -> (r: &Vec<RemoteNode>)
        ensures
            r@ == self.nodes(),
    {
        &self.remote_nodes
    }

    pub closed spec fn nodes(&self) -> Seq<RemoteNode> {
        self.remote_nodes@
    }

    pub closed spec fn capacity(&self) -> usize {
        self.k
    }
}

/// A node handed back by a search, with its distance count.
pub struct NearRemoteNode {
    distance: usize,
    remote_node: RemoteNode,
}

impl View for NearRemoteNode {
    type V = (nat, RemoteNode);

    closed spec fn view(&self) -> (nat, RemoteNode) {
        (self.distance as nat, self.remote_node)
    }
}

impl NearRemoteNode {
    pub fn distance(&self) -> (r: &usize)
        ensures
            *r as nat == self@.0,
    {
        &self.distance
    }

    pub fn remote_node(&self) -> (r: &RemoteNode)
        ensures
            *r == self@.1,
    {
        &self.remote_node
    }
}

/// The views of a list of search results.
pub open spec fn near_view(v: Seq<NearRemoteNode>) -> Seq<(nat, RemoteNode)> {
    Seq::new(v.len(), |i: int| v[i]@)
}

/// Records kept by key.
pub struct MemoryStore {
    entries: Vec<(U256, Vec<u8>)>,
}

/// Whether some entry of `v` has key `k`.
pub open spec fn store_holds(v: Seq<(U256, Vec<u8>)>, k: Seq<u8>) -> bool {
    exists|i: int| 0 <= i < v.len() && (#[trigger] v[i]).0@ == k
}

impl MemoryStore {
    pub fn new() -> (r: MemoryStore)
        ensures
            r.wf(),
            r.contents() == Map::<Seq<u8>, Seq<u8>>::empty(),
    {
        let r = MemoryStore { entries: Vec::new() };
        proof {
            assert(r.contents() =~= Map::<Seq<u8>, Seq<u8>>::empty());
        }
        r
    }

    /// No key is stored twice.
    pub closed spec fn wf(&self) -> bool {
        forall|i: int, j: int|
            0 <= i < self.entries@.len() && 0 <= j < self.entries@.len() && i != j
                ==> (#[trigger] self.entries@[i]).0@ != (#[trigger] self.entries@[j]).0@
    }

    /// The stored values by key.
    pub closed spec fn contents(&self) -> Map<Seq<u8>, Seq<u8>> {
        Map::new(
            |k: Seq<u8>| store_holds(self.entries@, k),
            |k: Seq<u8>|
                self.entries@[choose|i: int|
                    0 <= i < self.entries@.len() && (#[trigger] self.entries@[i]).0@ == k].1@,
        )
    }

    proof fn lemma_contents_at(&self, i: int)
        requires
            self.wf(),
            0 <= i < self.entries@.len(),
        ensures
            self.contents().dom().contains(self.entries@[i].0@),
            self.contents()[self.entries@[i].0@] == self.entries@[i].1@,
    {
        let k = self.entries@[i].0@;
        assert(store_holds(self.entries@, k));
        let j = choose|j: int| 0 <= j < self.entries@.len() && (#[trigger] self.entries@[j]).0@ == k;
        assert(self.entries@[j].0@ == k);
    }

    fn find(&self, key: &U256) -> (r: Option<usize>)
        ensures
            r matches Some(i) ==> i < self.entries@.len() && self.entries@[i as int].0@ == key@,
            r is None ==> !store_holds(self.entries@, key@),
    {
        let mut i: usize = 0;
        while i < self.entries.len()
            invariant
                0 <= i <= self.entries@.len(),
                forall|j: int| 0 <= j < i ==> (#[trigger] self.entries@[j]).0@ != key@,
            decreases self.entries@.len() - i,
        {
            if self.entries[i].0.equals(key) {
                return Some(i);
            }
            i += 1;
        }
        None
    }

    /// The value stored under `key`, if any.
    pub fn get(&self, key: U256) -> (r: Option<Vec<u8>>)
        requires
            self.wf(),
        ensures
            r is Some == self.contents().dom().contains(key@),
            r matches Some(v) ==> v@ == self.contents()[key@],
    {
        match self.find(&key) {
            Some(i) => {
                proof {
                    self.lemma_contents_at(i as int);
                }
                Some(crate::arrays::vec_from_slice(self.entries[i].1.as_slice()))
            },
            None => None,
        }
    }

    /// Stores `value` under `key`, replacing any previous value.
    pub fn set(&mut self, key: U256, value: Vec<u8>)
        requires
            old(self).wf(),
        ensures
            final(self).wf(),
            final(self).contents() == old(self).contents().insert(key@, value@),
    {
        let ghost old_s = *self;
        match self.find(&key) {
            Some(i) => {
                self.entries.set(i, (key, value));
                proof {
                    let ii = i as int;
                    let nv = self.entries@;
                    let ov = old_s.entries@;
                    assert forall|a: int, b: int|
                        0 <= a < nv.len() && 0 <= b < nv.len() && a != b implies (
                    #[trigger] nv[a]).0@ != (#[trigger] nv[b]).0@ by {
                        if a != ii && b != ii {
                            assert(ov[a] == nv[a] && ov[b] == nv[b]);
                        } else if a == ii {
                            assert(ov[b] == nv[b]);
                            assert(ov[ii].0@ != ov[b].0@);
                        } else {
                            assert(ov[a] == nv[a]);
                            assert(ov[a].0@ != ov[ii].0@);
                        }
                    }
                    let m = old_s.contents().insert(key@, value@);
                    assert forall|k: Seq<u8>| #[trigger] self.contents().dom().contains(k) <==> m.dom().contains(k) by {
                        if store_holds(nv, k) {
                            let j = choose|j: int| 0 <= j < nv.len() && (#[trigger] nv[j]).0@ == k;
                            if j != ii {
                                assert(ov[j] == nv[j]);
                            }
                        }
                        if store_holds(ov, k) {
                            let j = choose|j: int| 0 <= j < ov.len() && (#[trigger] ov[j]).0@ == k;
                            if j != ii {
                                assert(ov[j] == nv[j]);
                            } else {
                                assert(nv[ii].0@ == k);
                            }
                        }
                        if k == key@ {
                            assert(nv[ii].0@ == k);
                        }
                    }
                    assert forall|k: Seq<u8>| #[trigger] self.contents().dom().contains(k) implies self.contents()[k] == m[k] by {
                        let j = choose|j: int| 0 <= j < nv.len() && (#[trigger] nv[j]).0@ == k;
                        self.lemma_contents_at(j);
                        if j != ii {
                            assert(ov[j] == nv[j]);
                            old_s.lemma_contents_at(j);
                        }
                    }
                    assert(self.contents() =~= m);
                }
            },
            None => {
                self.entries.push((key, value));
                proof {
                    let nv = self.entries@;
                    let ov = old_s.entries@;
                    let n = ov.len() as int;
                    assert forall|a: int, b: int|
                        0 <= a < nv.len() && 0 <= b < nv.len() && a != b implies (
                    #[trigger] nv[a]).0@ != (#[trigger] nv[b]).0@ by {
                        if a == n {
                            assert(nv[b] == ov[b]);
                        } else if b == n {
                            assert(nv[a] == ov[a]);
                        } else {
                            assert(nv[a] == ov[a] && nv[b] == ov[b]);
                        }
                    }
                    let m = old_s.contents().insert(key@, value@);
                    assert forall|k: Seq<u8>| #[trigger] self.contents().dom().contains(k) <==> m.dom().contains(k) by {
                        if store_holds(nv, k) {
                            let j = choose|j: int| 0 <= j < nv.len() && (#[trigger] nv[j]).0@ == k;
                            if j != n {
                                assert(ov[j] == nv[j]);
                            }
                        }
                        if store_holds(ov, k) {
                            let j = choose|j: int| 0 <= j < ov.len() && (#[trigger] ov[j]).0@ == k;
                            assert(ov[j] == nv[j]);
                        }
                        if k == key@ {
                            assert(nv[n].0@ == k);
                        }
                    }
                    assert forall|k: Seq<u8>| #[trigger] self.contents().dom().contains(k) implies self.contents()[k] == m[k] by {
                        let j = choose|j: int| 0 <= j < nv.len() && (#[trigger] nv[j]).0@ == k;
                        self.lemma_contents_at(j);
                        if j != n {
                            assert(ov[j] == nv[j]);
                            old_s.lemma_contents_at(j);
                        }
                    }
                    assert(self.contents() =~= m);
                }
            },
        }
    }
}

/// The routing table.
pub struct KadDHT {
    local_node: LocalNode,
    remote_nodes: Vec<RemoteNode>,
    buckets: Vec<Bucket>,
    store: MemoryStore,
}

/// The location the local node lists itself under.
fn dummy_node() -> (r: Node)
    ensures
        r.ipv4@ == seq![127u8, 0u8, 0u8, 1u8],
        r.ipv4_port == 1234,
        r.ipv6 is None,
        r.ipv6_port is None,
{
    let r = Node { ipv4: [127u8, 0u8, 0u8, 1u8], ipv4_port: 1234, ipv6: None, ipv6_port: None };
    proof {
        assert(r.ipv4@ =~= seq![127u8, 0u8, 0u8, 1u8]);
    }
    r
}

impl KadDHT {
    /// The table is well formed: 256 buckets, each of capacity `K` and
    /// holding at most `K` nodes, no key indexed twice, and the local key
    /// never indexed.
    pub closed spec fn wf(&self) -> bool {
        &&& self.buckets@.len() == D
        &&& forall|i: int|
            0 <= i < D ==> (#[trigger] self.buckets@[i]).k == K && self.buckets@[i].remote_nodes@.len()
                <= K
        &&& keys_distinct(self.remote_nodes@)
        &&& !holds_key(self.remote_nodes@, self.local_node.public_key@)
        &&& indexed_in_buckets(
            index_map(self.remote_nodes@),
            self.buckets_spec(),
            self.local_node.public_key,
        )
        &&& self.store.wf()
    }

    pub closed spec fn local_key(&self) -> U256 {
        self.local_node.public_key
    }

    /// The capacity of each bucket.
    pub closed spec fn capacities(&self) -> Seq<usize> {
        Seq::new(self.buckets@.len(), |i: int| self.buckets@[i].k)
    }

    /// A well-formed table has 256 buckets, each of capacity `K` and holding
    /// at most `K` nodes.
    pub proof fn law_table_shape(&self)
        requires
            self.wf(),
        ensures
            self.buckets_spec().len() == D,
            self.capacities().len() == D,
            forall|i: int| 0 <= i < D ==> #[trigger] self.capacities()[i] == K,
            forall|i: int| 0 <= i < D ==> (#[trigger] self.buckets_spec()[i]).len() <= K,
    {
        assert forall|i: int| 0 <= i < D implies #[trigger] self.capacities()[i] == K by {
            assert(self.buckets@[i].k == K);
        }
        assert forall|i: int| 0 <= i < D implies (#[trigger] self.buckets_spec()[i]).len() <= K by {
            assert(self.buckets@[i].remote_nodes@.len() <= K);
        }
    }

    /// The nodes of each bucket.
    pub closed spec fn buckets_spec(&self) -> Seq<Seq<RemoteNode>> {
        Seq::new(self.buckets@.len(), |i: int| self.buckets@[i].remote_nodes@)
    }

    /// The known nodes by key.
    pub closed spec fn index(&self) -> Map<Seq<u8>, RemoteNode> {
        index_map(self.remote_nodes@)
    }

    /// The local records by key.
    pub closed spec fn records(&self) -> Map<Seq<u8>, Seq<u8>> {
        self.store.contents()
    }

    /// A table with 256 empty buckets of capacity `K`, except that the local
    /// node lists itself in the last one; no node is indexed and no record
    /// stored.
    pub fn new(local_node: LocalNode) -> (r: KadDHT)
        ensures
            r.wf(),
            r.local_key() == local_node.public_key,
            r.buckets_spec().len() == D,
            r.capacities().len() == D,
            forall|i: int| 0 <= i < D ==> #[trigger] r.capacities()[i] == K,
            forall|i: int| 0 <= i < D - 1 ==> (#[trigger] r.buckets_spec()[i]).len() == 0,
            r.buckets_spec()[D - 1].len() == 1,
            r.buckets_spec()[D - 1][0].public_key == local_node.public_key,
            r.buckets_spec()[D - 1][0].ping_ms == 0,
            r.buckets_spec()[D - 1][0].node.ipv4@ == seq![127u8, 0u8, 0u8, 1u8],
            r.buckets_spec()[D - 1][0].node.ipv4_port == 1234,
            r.buckets_spec()[D - 1][0].node.ipv6 is None,
            r.buckets_spec()[D - 1][0].node.ipv6_port is None,
            r.index() == Map::<Seq<u8>, RemoteNode>::empty(),
            r.records() == Map::<Seq<u8>, Seq<u8>>::empty(),
    {
        let mut buckets: Vec<Bucket> = Vec::new();
        let mut i: usize = 0;
        while i < D
            invariant
                0 <= i <= D,
                buckets@.len() == i,
                forall|j: int| 0 <= j < i ==> (#[trigger] buckets@[j]).remote_nodes@.len() == 0,
                forall|j: int| 0 <= j < i ==> (#[trigger] buckets@[j]).k == K,
            decreases D - i,
        {
            buckets.push(Bucket::new(K));
            i += 1;
        }
        let self_remote_node = RemoteNode::new(dummy_node(), local_node.public_key, 0);
        let mut last_nodes: Vec<RemoteNode> = Vec::new();
        last_nodes.push(self_remote_node);
        buckets.set(D - 1, Bucket { k: K, remote_nodes: last_nodes });
        let r = KadDHT { local_node, remote_nodes: Vec::new(), buckets, store: MemoryStore::new() };
        proof {
            assert(r.index() =~= Map::<Seq<u8>, RemoteNode>::empty());
            assert(r.buckets_spec()[D - 1] =~= seq![self_remote_node]);
            assert forall|i: int| 0 <= i < D implies #[trigger] r.capacities()[i] == K by {
                assert(r.buckets@[i].k == K);
            }
        }
        r
    }

    pub fn local_node(&self) -> (r: &LocalNode)
        ensures
            r.public_key == self.local_key(),
    {
        &self.local_node
    }

    pub fn remote_nodes(&self) -> (r: &Vec<RemoteNode>)
        ensures
            index_map(r@) == self.index(),
    {
        &self.remote_nodes
    }

    pub fn buckets(&self) -> (r: &Vec<Bucket>)
        ensures
            r@.len() == self.buckets_spec().len(),
            forall|i: int| 0 <= i < r@.len() ==> (#[trigger] r@[i]).nodes() == self.buckets_spec()[i],
            forall|i: int| 0 <= i < r@.len() ==> (#[trigger] r@[i]).capacity() == self.capacities()[i],
    {
        &self.buckets
    }

    pub fn store(&self) -> (r: &MemoryStore)
        ensures
            r.contents() == self.records(),
    {
        &self.store
    }

    /// Replaces bucket `d`'s nodes, keeping its capacity.
    fn set_bucket(&mut self, d: usize, nodes: Vec<RemoteNode>)
        requires
            d < old(self).buckets@.len(),
        ensures
            final(self).buckets_spec() == old(self).buckets_spec().update(d as int, nodes@),
            final(self).buckets@.len() == old(self).buckets@.len(),
            forall|i: int| 0 <= i < final(self).buckets@.len() ==> (#[trigger] final(self).buckets@[i]).k == old(self).buckets@[i].k,
            final(self).local_node == old(self).local_node,
            final(self).remote_nodes == old(self).remote_nodes,
            final(self).store == old(self).store,
    {
        let k = self.buckets[d].k;
        self.buckets.set(d, Bucket { k, remote_nodes: nodes });
        proof {
            assert(self.buckets_spec() =~= old(self).buckets_spec().update(d as int, nodes@));
        }
    }

    /// Adds a node to the bucket of its distance to the local key.  If that
    /// bucket is full, the node with the lowest ping (the first of them) is
    /// evicted and handed back, but only when the new node's ping is lower
    /// still; otherwise nothing changes.  The local key has no bucket.
    pub fn add_node(&mut self, node: RemoteNode) -> (r: Option<RemoteNode>)
        requires
            old(self).wf(),
            node.public_key@ != old(self).local_key()@,
        ensures
            final(self).wf(),
            final(self).local_key() == old(self).local_key(),
            final(self).records() == old(self).records(),
            final(self).capacities() == old(self).capacities(),
            ({
                let d = key_distance(node.public_key, old(self).local_key()) as int;
                let b = old(self).buckets_spec()[d];
                let m = min_ping_index(b);
                if b.len() < K {
                    &&& r is None
                    &&& final(self).buckets_spec() == old(self).buckets_spec().update(d, b.push(node))
                    &&& final(self).index() == old(self).index().insert(node.public_key@, node)
                } else if node.ping_ms >= b[m].ping_ms {
                    &&& r is None
                    &&& final(self).buckets_spec() == old(self).buckets_spec()
                    &&& final(self).index() == old(self).index()
                } else {
                    &&& r == Some(b[m])
                    &&& final(self).buckets_spec() == old(self).buckets_spec().update(
                        d,
                        b.remove(m).push(node),
                    )
                    &&& final(self).index() == old(self).index().remove(b[m].public_key@).insert(
                        node.public_key@,
                        node,
                    )
                }
            }),
    {
        proof {
            lemma_distance_below_256(node.public_key, self.local_node.public_key);
        }
        let distance = node.public_key.xor_leading_zeroes(&self.local_node.public_key) as usize;
        let ghost b = self.buckets_spec()[distance as int];
        if self.buckets[distance].remote_nodes.len() < K {
            let mut nodes = copy_nodes(&self.buckets[distance].remote_nodes);
            nodes.push(node);
            self.set_bucket(distance, nodes);
            proof {
                assert forall|j: int| 0 <= j < D implies (#[trigger] self.buckets@[j]).k == K
                    && self.buckets@[j].remote_nodes@.len() <= K by {
                    assert(self.buckets_spec()[j] == self.buckets@[j].remote_nodes@);
                    assert(old(self).buckets_spec()[j] == old(self).buckets@[j].remote_nodes@);
                }
            }
            index_insert(&mut self.remote_nodes, node);
            proof {
                assert(!holds_key(self.remote_nodes@, self.local_node.public_key@)) by {
                    lemma_not_indexed_after_insert(old(self).remote_nodes@, self.remote_nodes@, node, self.local_node.public_key@);
                }
                lemma_indexed_push(old(self).index(), old(self).buckets_spec(), self.local_node.public_key, node);
            }
            return None;
        } else {
            let bucket = &self.buckets[distance].remote_nodes;
            let mut min_ping: u32 = u32::MAX;
            let mut min_ping_idx: usize = 0;
            let mut i: usize = 0;
            while i < bucket.len()
                invariant
                    0 <= i <= bucket@.len(),
                    bucket@ == b,
                    b.len() >= K,
                    i == 0 ==> min_ping == u32::MAX && min_ping_idx == 0,
                    i > 0 ==> min_ping_idx == min_ping_index(b.subrange(0, i as int)) && min_ping == b[min_ping_idx as int].ping_ms,
                    i > 0 ==> min_ping_idx < i,
                decreases bucket@.len() - i,
            {
                proof {
                    assert(b.subrange(0, i + 1).drop_last() =~= b.subrange(0, i as int));
                    lemma_min_ping_index_range(b.subrange(0, i as int));
                }
                if bucket[i].ping_ms < min_ping {
                    min_ping = bucket[i].ping_ms;
                    min_ping_idx = i;
                }
                i += 1;
            }
            proof {
                assert(b.subrange(0, b.len() as int) =~= b);
            }
            if node.ping_ms >= min_ping {
                return None;
            }
            let mut nodes = copy_nodes(bucket);
            let evicted = nodes.remove(min_ping_idx);
            nodes.push(node);
            self.set_bucket(distance, nodes);
            proof {
                assert forall|j: int| 0 <= j < D implies (#[trigger] self.buckets@[j]).k == K
                    && self.buckets@[j].remote_nodes@.len() <= K by {
                    assert(self.buckets_spec()[j] == self.buckets@[j].remote_nodes@);
                    assert(old(self).buckets_spec()[j] == old(self).buckets@[j].remote_nodes@);
                }
            }
            index_remove(&mut self.remote_nodes, &evicted.public_key);
            let ghost mid = self.remote_nodes@;
            index_insert(&mut self.remote_nodes, node);
            proof {
                lemma_not_indexed_after_remove(old(self).remote_nodes@, mid, evicted.public_key, self.local_node.public_key@);
                lemma_not_indexed_after_insert(mid, self.remote_nodes@, node, self.local_node.public_key@);
                lemma_indexed_evict(old(self).index(), old(self).buckets_spec(), self.local_node.public_key, node, min_ping_idx as int);
            }
            return Some(evicted);
        }
    }

    /// Replaces the indexed node with `node`'s key by `node`: every entry with
    /// that key leaves its bucket and `node` is appended to it.  Returns
    /// whether such a node was indexed; if not, nothing changes.
    pub fn update_node(&mut self, node: RemoteNode) -> (r: bool)
        requires
            old(self).wf(),
        ensures
            final(self).wf(),
            final(self).local_key() == old(self).local_key(),
            final(self).records() == old(self).records(),
            final(self).capacities() == old(self).capacities(),
            r == old(self).index().dom().contains(node.public_key@),
            r ==> ({
                let d = key_distance(node.public_key, old(self).local_key()) as int;
                let b = old(self).buckets_spec()[d];
                &&& final(self).buckets_spec() == old(self).buckets_spec().update(
                    d,
                    without_key(b, node.public_key@).push(node),
                )
                &&& final(self).index() == old(self).index().insert(node.public_key@, node)
            }),
            !r ==> final(self).buckets_spec() == old(self).buckets_spec() && final(self).index()
                == old(self).index(),
    {
        let distance = node.public_key.xor_leading_zeroes(&self.local_node.public_key) as usize;
        match find_key(&self.remote_nodes, &node.public_key) {
            Some(i) => {
                proof {
                    if node.public_key@ == self.local_node.public_key@ {
                        assert(holds_key(self.remote_nodes@, self.local_node.public_key@)) by {
                            assert(self.remote_nodes@[i as int].public_key@ == node.public_key@);
                        }
                    }
                    lemma_distance_below_256(node.public_key, self.local_node.public_key);
                    lemma_index_map_at(self.remote_nodes@, i as int);
                }
                let indexed_key = self.remote_nodes[i].public_key;
                let mut nodes = retain_other_keys(&self.buckets[distance].remote_nodes, &indexed_key);
                nodes.push(node);
                self.set_bucket(distance, nodes);
                index_insert(&mut self.remote_nodes, node);
                proof {
                    lemma_not_indexed_after_insert(old(self).remote_nodes@, self.remote_nodes@, node, self.local_node.public_key@);
                    let d = distance as int;
                    let b = old(self).buckets_spec()[d];
                    lemma_index_key(old(self).remote_nodes@, node.public_key@);
                    assert(holds_key(b, node.public_key@));
                    lemma_without_key_len(b, node.public_key@);
                    assert forall|j: int| 0 <= j < D implies (#[trigger] self.buckets@[j]).k == K
                        && self.buckets@[j].remote_nodes@.len() <= K by {
                        assert(self.buckets_spec()[j] == self.buckets@[j].remote_nodes@);
                        assert(old(self).buckets_spec()[j] == old(self).buckets@[j].remote_nodes@);
                    }
                    lemma_indexed_replace(old(self).index(), old(self).buckets_spec(), self.local_node.public_key, node);
                }
                true
            },
            None => {
                proof {
                    assert(!index_map(self.remote_nodes@).dom().contains(node.public_key@));
                }
                false
            },
        }
    }

    /// Drops the indexed node with `node`'s key: every entry with that key
    /// leaves its bucket, and the index forgets it.  Returns whether such a
    /// node was indexed; if not, nothing changes.
    pub fn remove_node(&mut self, node: RemoteNode) -> (r: bool)
        requires
            old(self).wf(),
        ensures
            final(self).wf(),
            final(self).local_key() == old(self).local_key(),
            final(self).records() == old(self).records(),
            final(self).capacities() == old(self).capacities(),
            r == old(self).index().dom().contains(node.public_key@),
            r ==> ({
                let d = key_distance(node.public_key, old(self).local_key()) as int;
                let b = old(self).buckets_spec()[d];
                &&& final(self).buckets_spec() == old(self).buckets_spec().update(
                    d,
                    without_key(b, node.public_key@),
                )
                &&& final(self).index() == old(self).index().remove(node.public_key@)
            }),
            !r ==> final(self).buckets_spec() == old(self).buckets_spec() && final(self).index()
                == old(self).index(),
    {
        match find_key(&self.remote_nodes, &node.public_key) {
            Some(i) => {
                proof {
                    if node.public_key@ == self.local_node.public_key@ {
                        assert(holds_key(self.remote_nodes@, self.local_node.public_key@)) by {
                            assert(self.remote_nodes@[i as int].public_key@ == node.public_key@);
                        }
                    }
                    lemma_distance_below_256(node.public_key, self.local_node.public_key);
                    lemma_index_map_at(self.remote_nodes@, i as int);
                }
                let distance = node.public_key.xor_leading_zeroes(&self.local_node.public_key) as usize;
                let indexed_key = self.remote_nodes[i].public_key;
                let nodes = retain_other_keys(&self.buckets[distance].remote_nodes, &indexed_key);
                self.set_bucket(distance, nodes);
                index_remove(&mut self.remote_nodes, &node.public_key);
                proof {
                    lemma_not_indexed_after_remove(old(self).remote_nodes@, self.remote_nodes@, node.public_key, self.local_node.public_key@);
                    let d = distance as int;
                    let b = old(self).buckets_spec()[d];
                    lemma_without_key_len(b, node.public_key@);
                    assert forall|j: int| 0 <= j < D implies (#[trigger] self.buckets@[j]).k == K
                        && self.buckets@[j].remote_nodes@.len() <= K by {
                        assert(self.buckets_spec()[j] == self.buckets@[j].remote_nodes@);
                        assert(old(self).buckets_spec()[j] == old(self).buckets@[j].remote_nodes@);
                    }
                    lemma_indexed_remove(old(self).index(), old(self).buckets_spec(), self.local_node.public_key, node.public_key);
                }
                true
            },
            None => {
                proof {
                    assert(!index_map(self.remote_nodes@).dom().contains(node.public_key@));
                }
                false
            },
        }
    }
}

impl KadDHT {
    /// Searches from the bucket of `key`'s distance to the local key upwards,
    /// taking from each bucket, while fewer than `ALPHA` were found, the node
    /// whose key has the most leading bits in common with `key` (the first
    /// such), as `nearest_from` describes.
    pub fn nearest_nodes(&self, key: U256) -> (r: Vec<NearRemoteNode>)
        requires
            self.wf(),
        ensures
            near_view(r@) == nearest_from(
                self.buckets_spec(),
                key,
                key_distance(key, self.local_key()),
                ALPHA as nat,
            ),
            r@.len() <= ALPHA,
    {
        let mut ret: Vec<NearRemoteNode> = Vec::new();
        let mut distance: usize = key.xor_leading_zeroes(&self.local_node.public_key) as usize;
        let ghost bs = self.buckets_spec();
        let ghost d0: nat = distance as nat;
        proof {
            assert(near_view(ret@) =~= Seq::<(nat, RemoteNode)>::empty());
            assert(near_view(ret@) + nearest_from(bs, key, d0, ALPHA as nat) =~= nearest_from(bs, key, d0, ALPHA as nat));
        }
        while ret.len() < ALPHA && distance != D
            invariant
                self.wf(),
                bs == self.buckets_spec(),
                distance <= D,
                ret@.len() <= ALPHA,
                near_view(ret@) + nearest_from(bs, key, distance as nat, (ALPHA - ret@.len()) as nat)
                    == nearest_from(bs, key, d0, ALPHA as nat),
            decreases D - distance,
        {
            let mut potential = copy_nodes(&self.buckets[distance].remote_nodes);
            let ghost need0: nat = (ALPHA - ret@.len()) as nat;
            let ghost start = near_view(ret@);
            let ghost mut taken = Seq::<(nat, RemoteNode)>::empty();
            proof {
                assert(potential@ == bs[distance as int]);
                assert(select_nearest(bs[distance as int], key, need0) =~= taken + select_nearest(potential@, key, need0));
                assert(near_view(ret@) =~= start + taken);
            }
            while potential.len() != 0 && ret.len() < ALPHA
                invariant
                    ret@.len() <= ALPHA,
                    distance < D,
                    bs.len() == D,
                    start.len() + need0 == ALPHA,
                    near_view(ret@) == start + taken,
                    select_nearest(bs[distance as int], key, need0) == taken + select_nearest(
                        potential@,
                        key,
                        (ALPHA - ret@.len()) as nat,
                    ),
                decreases potential@.len(),
            {
                let ghost p = potential@;
                let mut best_dist: usize = 0;
                let mut best_idx: usize = 0;
                let mut i: usize = 0;
                while i < potential.len()
                    invariant
                        0 <= i <= potential@.len(),
                        potential@ == p,
                        p.len() > 0,
                        i == 0 ==> best_dist == 0 && best_idx == 0,
                        i > 0 ==> best_idx == first_most_shared_index(p.subrange(0, i as int), key)
                            && best_dist == key_distance(p[best_idx as int].public_key, key)
                            && best_idx < i,
                    decreases potential@.len() - i,
                {
                    proof {
                        assert(p.subrange(0, i + 1).drop_last() =~= p.subrange(0, i as int));
                        lemma_first_most_shared_index_range(p.subrange(0, i as int), key);
                    }
                    let dist = potential[i].public_key.xor_leading_zeroes(&key) as usize;
                    if i == 0 || dist > best_dist {
                        best_dist = dist;
                        best_idx = i;
                    }
                    i += 1;
                }
                proof {
                    assert(p.subrange(0, p.len() as int) =~= p);
                }
                let n = potential.remove(best_idx);
                let ghost item = (best_dist as nat, n);
                let ghost old_ret = ret@;
                ret.push(NearRemoteNode { distance: best_dist, remote_node: n });
                proof {
                    assert(near_view(ret@) =~= near_view(old_ret).push(item));
                    let c = (ALPHA - ret@.len() + 1) as nat;
                    assert(select_nearest(p, key, c) == seq![item] + select_nearest(potential@, key, (c - 1) as nat));
                    taken = taken.push(item);
                    assert(near_view(ret@) =~= start + taken);
                    assert(select_nearest(bs[distance as int], key, need0) =~= taken + select_nearest(potential@, key, (ALPHA - ret@.len()) as nat));
                }
            }
            proof {
                assert(select_nearest(potential@, key, (ALPHA - ret@.len()) as nat) =~= Seq::<(nat, RemoteNode)>::empty());
                assert(select_nearest(bs[distance as int], key, need0) =~= taken);
                assert(need0 > 0);
                assert(nearest_from(bs, key, distance as nat, need0) == taken + nearest_from(bs, key, (distance + 1) as nat, (need0 - taken.len()) as nat));
                assert(need0 - taken.len() == ALPHA - ret@.len());
                assert(near_view(ret@) + nearest_from(bs, key, (distance + 1) as nat, (ALPHA - ret@.len()) as nat) =~= start + nearest_from(bs, key, distance as nat, need0));
            }
            distance += 1;
        }
        proof {
            assert(nearest_from(bs, key, distance as nat, (ALPHA - ret@.len()) as nat) =~= Seq::<(nat, RemoteNode)>::empty());
            assert(near_view(ret@) =~= near_view(ret@) + Seq::<(nat, RemoteNode)>::empty());
            law_distance_symmetric(key, self.local_node.public_key);
        }
        ret
    }

    /// The locally stored value of `key`.
    pub fn store_get(&self, key: U256) -> (r: Option<Vec<u8>>)
        requires
            self.wf(),
        ensures
            r is Some == self.records().dom().contains(key@),
            r matches Some(v) ==> v@ == self.records()[key@],
    {
        self.store.get(key)
    }

    /// Stores `value` under `key` locally.
    pub fn store_set(&mut self, key: U256, value: Vec<u8>)
        requires
            old(self).wf(),
        ensures
            final(self).wf(),
            final(self).records() == old(self).records().insert(key@, value@),
            final(self).index() == old(self).index(),
            final(self).buckets_spec() == old(self).buckets_spec(),
            final(self).capacities() == old(self).capacities(),
            final(self).local_key() == old(self).local_key(),
    {
        self.store.set(key, value);
    }

    /// Looks `key` up: if the local node is among the nodes a search for
    /// `key` hands back, the local record of `key`, if any.
    pub fn get(&self, key: U256) -> (r: Option<Vec<u8>>)
        requires
            self.wf(),
        ensures
            ({
                let near = nearest_from(
                    self.buckets_spec(),
                    key,
                    key_distance(key, self.local_key()),
                    ALPHA as nat,
                );
                &&& r is Some == ((exists|i: int|
                    0 <= i < near.len() && (#[trigger] near[i]).1.public_key@
                        == self.local_key()@) && self.records().dom().contains(key@))
                &&& r matches Some(v) ==> v@ == self.records()[key@]
            }),
    {
        let nearest_nodes = self.nearest_nodes(key);
        let ghost near = near_view(nearest_nodes@);
        let ghost target = nearest_from(
            self.buckets_spec(),
            key,
            key_distance(key, self.local_key()),
            ALPHA as nat,
        );
        let mut i: usize = 0;
        while i < nearest_nodes.len()
            invariant
                self.wf(),
                0 <= i <= nearest_nodes@.len(),
                near == near_view(nearest_nodes@),
                near == target,
                target == nearest_from(
                    self.buckets_spec(),
                    key,
                    key_distance(key, self.local_key()),
                    ALPHA as nat,
                ),
                forall|j: int| 0 <= j < i && (#[trigger] near[j]).1.public_key@ == self.local_key()@
                    ==> !self.records().dom().contains(key@),
            decreases nearest_nodes@.len() - i,
        {
            if nearest_nodes[i].remote_node.public_key.equals(&self.local_node.public_key) {
                if let Some(value) = self.store_get(key) {
                    proof {
                        assert(near[i as int].1.public_key@ == self.local_key()@);
                        assert(target[i as int].1.public_key@ == self.local_key()@);
                    }
                    return Some(value);
                }
            }
            i += 1;
        }
        None
    }

    /// The number of nodes in each bucket.
    pub fn bucket_counts(&self) -> (r: Vec<usize>)
        ensures
            r@.len() == self.buckets_spec().len(),
            forall|i: int| 0 <= i < r@.len() ==> r@[i] == self.buckets_spec()[i].len(),
    {
        let mut r: Vec<usize> = Vec::new();
        let mut i: usize = 0;
        while i < self.buckets.len()
            invariant
                0 <= i <= self.buckets@.len(),
                r@.len() == i,
                forall|j: int| 0 <= j < i ==> r@[j] == self.buckets_spec()[j].len(),
            decreases self.buckets@.len() - i,
        {
            r.push(self.buckets[i].remote_nodes.len());
            i += 1;
        }
        r
    }
}

proof fn lemma_not_indexed_after_insert(before: Seq<RemoteNode>, after: Seq<RemoteNode>, node: RemoteNode, local: Seq<u8>)
    requires
        keys_distinct(before),
        keys_distinct(after),
        !holds_key(before, local),
        node.public_key@ != local,
        index_map(after) == index_map(before).insert(node.public_key@, node),
    ensures
        !holds_key(after, local),
{
    if holds_key(after, local) {
        assert(index_map(after).dom().contains(local));
        assert(index_map(before).dom().contains(local));
    }
}

proof fn lemma_not_indexed_after_remove(before: Seq<RemoteNode>, after: Seq<RemoteNode>, key: U256, local: Seq<u8>)
    requires
        keys_distinct(before),
        keys_distinct(after),
        !holds_key(before, local),
        index_map(after) == index_map(before).remove(key@),
    ensures
        !holds_key(after, local),
{
    if holds_key(after, local) {
        assert(index_map(after).dom().contains(local));
        assert(index_map(before).dom().contains(local));
    }
}

} // verus!
