//! The outcome of applying a plan.

use vstd::prelude::*;

verus! {

/// What became of one file of a mapping.
#[derive(Debug, PartialEq, Eq)]
pub enum Outcome {
    /// The file was copied; so many bytes were written.
    Written(u64),
    /// The file was linked.
    Linked,
    /// The target was there already and was left as it was.
    Skipped,
    /// The file could not be put in place.
    Failed(String),
}

/// The outcomes of applying a plan: for each mapping, in the order of the
/// plan, one outcome per file of the mapping. Every mapping is attempted; a
/// failure does not stop the others.
#[derive(Debug, PartialEq, Eq)]
pub struct BuildReport {
    pub results: Vec<Vec<Outcome>>,
}

/// Whether any of the outcomes is a failure.
pub open spec fn any_failed(outcomes: Seq<Outcome>) -> bool {
    exists|j: int| 0 <= j < outcomes.len() && outcomes[j] is Failed
}

impl BuildReport {
    /// Whether the mapping at `i` has a file that failed.
    pub open spec fn mapping_failed(&self, i: int) -> bool {
        any_failed(self.results@[i]@)
    }

    /// Whether any mapping has a file that failed.
    pub open spec fn failed(&self) -> bool {
        exists|i: int| 0 <= i < self.results@.len() && self.mapping_failed(i)
    }

    /// `true` if and only if a file of some mapping failed.
    pub fn has_errors(&self) -> (errors: bool)
        ensures
            errors == self.failed(),
    {
        let mut i: usize = 0;
        while i < self.results.len()
            invariant
                i <= self.results.len(),
                forall|k: int| 0 <= k < i ==> !self.mapping_failed(k),
            decreases self.results.len() - i,
        {
            let outcomes = &self.results[i];
            let mut j: usize = 0;
            while j < outcomes.len()
                invariant
                    i < self.results.len(),
                    outcomes == self.results@[i as int],
                    j <= outcomes.len(),
                    forall|k: int| 0 <= k < j ==> !(outcomes@[k] is Failed),
                decreases outcomes.len() - j,
            {
                if let Outcome::Failed(_) = outcomes[j] {
                    assert(self.mapping_failed(i as int));
                    return true;
                }
                j += 1;
            }
            i += 1;
        }
        false
    }

    /// The positions, in the order of the plan, of the mappings that failed.
    pub fn failed_mappings(&self) -> (failed: Vec<usize>)
        ensures
            forall|k: int| 0 <= k < failed@.len() ==> failed@[k] < self.results@.len()
                && self.mapping_failed(failed@[k] as int),
            forall|i: int| 0 <= i < self.results@.len() && self.mapping_failed(i)
                ==> failed@.contains(i as usize),
            forall|a: int, b: int| 0 <= a < b < failed@.len() ==> failed@[a] < failed@[b],
    {
        let mut failed: Vec<usize> = Vec::new();
        let mut i: usize = 0;
        while i < self.results.len()
            invariant
                i <= self.results.len(),
                forall|k: int| 0 <= k < failed@.len() ==> failed@[k] < i
                    && self.mapping_failed(failed@[k] as int),
                forall|m: int| 0 <= m < i && self.mapping_failed(m) ==> failed@.contains(
                    m as usize,
                ),
                forall|a: int, b: int| 0 <= a < b < failed@.len() ==> failed@[a] < failed@[b],
            decreases self.results.len() - i,
        {
            let outcomes = &self.results[i];
            let mut j: usize = 0;
            let mut found = false;
            while j < outcomes.len() && !found
                invariant
                    i < self.results.len(),
                    outcomes == self.results@[i as int],
                    j <= outcomes.len(),
                    found ==> self.mapping_failed(i as int),
                    !found ==> forall|k: int| 0 <= k < j ==> !(outcomes@[k] is Failed),
                decreases outcomes.len() - j + if found { 0int } else { 1int },
            {
                if let Outcome::Failed(_) = outcomes[j] {
                    found = true;
                } else {
                    j += 1;
                }
            }
            if found {
                let ghost before = failed@;
                failed.push(i);
                proof {
                    assert(failed@[before.len() as int] == i);
                    assert forall|m: int| 0 <= m < i + 1 && self.mapping_failed(m) implies failed@.contains(
                        m as usize,
                    ) by {
                        if m < i {
                            let k = choose|k: int| 0 <= k < before.len() && before[k] == m as usize;
                            assert(failed@[k] == m as usize);
                        }
                    }
                }
            }
            i += 1;
        }
        failed
    }
}

} // verus!
