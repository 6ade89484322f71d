//! The verdict of comparing a fresh plan with the cached one.

use vstd::prelude::*;

verus! {

/// State of the cache with respect to a freshly derived plan.
#[derive(Debug, Clone, Copy, PartialEq, Eq, Structural)]
pub enum Difference {
    /// The cache file holds exactly the canonical form of the fresh plan.
    Same,
    /// A cache file exists, and its content disagrees with the fresh plan.
    Different,
    /// There is no cache file.
    Missing,
}

impl Difference {
    /// `true` when nothing has to be rebuilt.
    pub fn is_same(&self) -> (same: bool)
        ensures
            same <==> *self == Difference::Same,
    {
        matches!(self, Difference::Same)
    }
}

} // verus!
