//! What a run does once the discrepancies of all repositories are known.
use vstd::prelude::*;

verus! {

/// The course of a run after the comparison.
#[derive(Debug, Clone, Copy, PartialEq, Eq, Structural)]
pub enum RunMode {
    /// Nothing differs: report that no change is needed.
    NoChanges,
    /// Report the discrepancies and change nothing.
    DryRun,
    /// Report the discrepancies, then resolve them in order.
    Apply,
}

impl RunMode {
    /// Mutations are made only when some discrepancy was found and the run
    /// was confirmed.
    pub fn decide(n_discrepancies: usize, confirm: bool) -> (r: Self)
        ensures
            n_discrepancies == 0 ==> r == RunMode::NoChanges,
            n_discrepancies > 0 && !confirm ==> r == RunMode::DryRun,
            n_discrepancies > 0 && confirm ==> r == RunMode::Apply,
    {
        if n_discrepancies == 0 {
            RunMode::NoChanges
        } else if confirm {
            RunMode::Apply
        } else {
            RunMode::DryRun
        }
    }
}

} // verus!
