//! What a run reports of its progress.

use vstd::prelude::*;

verus! {

/// A report of progress: either the count of finished steps and, if known,
/// the count of all steps, set anew, or a number of steps finished since the
/// last report.
#[derive(Debug, Clone, Copy, PartialEq, Eq, Structural)]
pub enum ProgressUpdate {
    SetTo { iterations: usize, total_iterations: Option<usize> },
    Increment { iterations: usize },
}

/// The number of steps of a run over `groups` datasets: one to write and one
/// to analyse each dataset, and one more for every ten of them.
pub open spec fn planned_steps(groups: nat) -> nat {
    groups * 2 + groups / 10
}

/// The report with which a run over `groups` datasets announces its steps.
pub fn planned_progress(groups: usize) -> (update: ProgressUpdate)
    requires
        planned_steps(groups as nat) <= usize::MAX,
    ensures
        update == (ProgressUpdate::SetTo {
            iterations: 0,
            total_iterations: Some(planned_steps(groups as nat) as usize),
        }),
{
    ProgressUpdate::SetTo { iterations: 0, total_iterations: Some(groups * 2 + groups / 10) }
}

} // verus!
