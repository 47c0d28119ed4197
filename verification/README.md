# heapswap

The core of a peer-to-peer store, written in Verus.  Every function in
`src/` carries a contract that Verus proves, except the small wrappers
around outside crates, whose contracts are trusted and described in their
doc comments.

- `keyspace`, `u256`, `address`, `versioned`: 256-bit keys and their
  packed views, 64-byte addresses grown from a seed, and versioned byte
  identifiers with their wire form.
- `hash`, `keys`: BLAKE3 hashing, Ed25519 keys, signatures and X25519
  shared secrets, through the `blake3`, `ed25519-dalek` and `x25519-dalek`
  crates.
- `topic`, `entry`, `fieldplex`, `author`: subfields, the topic hashes an
  entry is published under, and the checks of an entry's signatures.
- `chord`, `kad`, `ham_dht`: Chord finger tables and a Kademlia-style
  routing table with its record store.
- `channel`, `bootstrap`, `swarm_events`, `command`, `events`, `proto`: a
  registry of one-shot and stream channels, the decisions of a client's
  bootstrap and of its reactions to network events, and the parsing of
  console commands.

`app/` holds what stays outside the proofs: waiting on channels, the
floating-point Jaccard similarity, and serde forms of the identifiers.
