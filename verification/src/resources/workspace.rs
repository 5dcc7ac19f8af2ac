//! `drata workspace list`: every workspace.

use vstd::prelude::*;
use crate::cli::WorkspaceAction;
use crate::resources::{list_plan, list_v, planned, Plan, PlanV, UsageError};

verus! {

/// What a workspace command asks of the API.
pub open spec fn workspace_plan(a: WorkspaceAction) -> Result<PlanV, Seq<char>> {
    match a {
        WorkspaceAction::List => Ok(list_v("/workspaces"@, false)),
    }
}

/// Plans a workspace command.
pub fn plan(action: &WorkspaceAction) -> (r: Result<Plan, UsageError>)
    ensures
        planned(r, workspace_plan(*action)),
{
    match action {
        WorkspaceAction::List => Ok(list_plan("/workspaces".to_string(), false)),
    }
}

} // verus!
