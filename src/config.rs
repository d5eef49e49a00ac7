//! Defaults of the per-project settings.
use vstd::prelude::*;

verus! {

/// Pipelines listed per project when the settings do not say.
pub fn default_num_pipelines() -> (r: usize)
    ensures
        r == 5,
{
    5
}

/// Branch pattern used when the settings give none: every branch.
pub const DEFAULT_MATCH_BRANCH: &'static str = ".*";

} // verus!
