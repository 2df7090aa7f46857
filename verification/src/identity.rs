//! Identities that the compositor compares: clients, touch slots.

use vstd::prelude::*;

verus! {

/// A value whose `same_as` is exactly equality of values, as the identities
/// the compositor keeps (connected clients, touch slots) compare. The
/// integer types implement it here; a key type of the compositor implements
/// it with a `PartialEq` that compares the whole value.
pub trait Identity: Sized {
    /// Whether `self` and `other` are the same identity.
    fn same_as(&self, other: &Self) -> (r: bool)
        ensures
            r == (*self == *other),
    ;
}

impl Identity for u32 {
    fn same_as(&self, other: &Self) -> (r: bool) {
        *self == *other
    }
}

impl Identity for u64 {
    fn same_as(&self, other: &Self) -> (r: bool) {
        *self == *other
    }
}

impl Identity for i32 {
    fn same_as(&self, other: &Self) -> (r: bool) {
        *self == *other
    }
}

} // verus!
