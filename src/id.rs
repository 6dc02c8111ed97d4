//! Identity tags.

use vstd::prelude::*;

verus! {

/// Relies on `rand::random`: a value drawn from the thread's generator.
/// Nothing is known of the value, so nothing is promised of it.
pub assume_specification<T>[ rand::random::<T> ]() -> (r: T)
    where
        rand::distributions::Standard: rand::distributions::Distribution<T>,
;

/// A random 64-bit identity tag.
#[derive(Clone, Copy, Debug, PartialEq, Eq, Hash, Structural)]
pub struct MagicId(pub u64);

impl MagicId {
    /// Draws a fresh tag.
    pub(crate) fn new() -> (r: Self) {
        MagicId(rand::random::<u64>())
    }
}

} // verus!
