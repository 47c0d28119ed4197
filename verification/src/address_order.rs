//! The order of addresses: their packed words compared one by one.
use vstd::prelude::*;
use core::cmp::Ordering;
use crate::address::{Address, PackedOrder, words_order};
use crate::u256::packed_of;

verus! {

/// The standard ordering of a packed comparison.
pub open spec fn order_of(p: PackedOrder) -> Ordering {
    match p {
        PackedOrder::Less => Ordering::Less,
        PackedOrder::Equal => Ordering::Equal,
        PackedOrder::Greater => Ordering::Greater,
    }
}

impl PartialOrd for Address {
    fn partial_cmp(&self, other: &Self) -> (r: Option<Ordering>) {
        match self.compare_packed(other) {
            PackedOrder::Less => Some(Ordering::Less),
            PackedOrder::Equal => Some(Ordering::Equal),
            PackedOrder::Greater => Some(Ordering::Greater),
        }
    }
}

impl vstd::std_specs::cmp::PartialOrdSpecImpl for Address {
    open spec fn obeys_partial_cmp_spec() -> bool {
        true
    }

    open spec fn partial_cmp_spec(&self, other: &Address) -> Option<Ordering> {
        Some(order_of(words_order(packed_of(self@), packed_of(other@))))
    }
}

} // verus!
