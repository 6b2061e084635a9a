//! Merging of settings layers.
//!
//! Settings are read in layers (defaults, user settings, profiles, project
//! settings); each later layer is merged into the value built so far.

use vstd::prelude::*;

verus! {

/// A settings value that can absorb a later layer of the same type.
pub trait MergeFrom: Sized {
    /// Whether `after` is what merging `source` into `before` may give.
    spec fn merge_result(before: Self, source: Self, after: Self) -> bool;

    /// Merges the later layer `other` into `self`.
    fn merge_from(&mut self, other: &Self)
        ensures
            Self::merge_result(*old(self), *other, *final(self)),
    ;
}

} // verus!
