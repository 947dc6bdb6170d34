//! What a counted map asks of its keys and of its values.

use vstd::prelude::*;

verus! {

/// A key can be told apart from every other key.
pub trait MapKey: Sized {
    /// Decides whether two keys are the same key.
    fn same_key(&self, other: &Self) -> (r: bool)
        ensures
            r == (*self == *other),
    ;
}

/// A value knows what a map reads for a key that it does not hold.
pub trait MapValue: Copy {
    /// The value that stands for a missing entry.
    spec fn absent() -> Self;

    /// Computes the value that stands for a missing entry.
    fn absent_value() -> (r: Self)
        ensures
            r == Self::absent(),
    ;
}

impl MapKey for u32 {
    fn same_key(&self, other: &Self) -> (r: bool) {
        *self == *other
    }
}

impl MapKey for u64 {
    fn same_key(&self, other: &Self) -> (r: bool) {
        *self == *other
    }
}

impl MapValue for u32 {
    open spec fn absent() -> Self {
        0
    }

    fn absent_value() -> (r: Self) {
        0
    }
}

impl MapValue for u64 {
    open spec fn absent() -> Self {
        0
    }

    fn absent_value() -> (r: Self) {
        0
    }
}

impl MapValue for u128 {
    open spec fn absent() -> Self {
        0
    }

    fn absent_value() -> (r: Self) {
        0
    }
}

} // verus!
