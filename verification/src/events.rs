//! The role a subfield node plays in the network.
use vstd::prelude::*;

verus! {

/// Whether a node answers requests of others (`Server`) or only makes them
/// (`Client`).
#[derive(Debug, Clone, Copy, PartialEq, Eq, Structural)]
pub enum SubfieldMode {
    Client,
    Server,
}

} // verus!
