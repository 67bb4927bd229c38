//! The variables that the CI system sets for a run.
use vstd::prelude::*;

verus! {

/// What the CI system says of the run: whether it is one, and the event that
/// started it, with the path of the file describing that event.
pub struct GitHubVariables {
    pub ci: bool,
    pub github_actions: bool,
    pub github_event_name: String,
    pub github_event_path: String,
}

} // verus!
