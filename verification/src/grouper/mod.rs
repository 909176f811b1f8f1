pub mod date_grouper;
pub mod dupe_grouper;
pub mod size_grouper;

use vstd::prelude::*;

use crate::text::text_eq;

verus! {

/// Which groupings a rebuild request recomputes.
#[derive(Debug, Clone, Copy, PartialEq, Eq)]
pub struct RebuildPlan {
    pub date: bool,
    pub duplicates: bool,
}

/// The groupings that `group_type` names: `"date"`, `"duplicates"`, or `"all"`
/// for both; any other text names none.
pub fn rebuild_plan(group_type: &str) -> (plan: RebuildPlan)
    ensures
        plan.date == (group_type@ == "date"@ || group_type@ == "all"@),
        plan.duplicates == (group_type@ == "duplicates"@ || group_type@ == "all"@),
{
    let all = text_eq(group_type, "all");
    let date = text_eq(group_type, "date");
    let duplicates = text_eq(group_type, "duplicates");
    RebuildPlan { date: date || all, duplicates: duplicates || all }
}

} // verus!
