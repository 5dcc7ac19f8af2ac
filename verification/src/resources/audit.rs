//! `drata audit ...`: audits in a workspace, read-only.

use vstd::prelude::*;
use crate::cli::AuditAction;
use crate::resources::{cat3, cat4, list_plan, list_v, planned, Plan, PlanV, UsageError};

verus! {

/// What an audit command asks of the API.
pub open spec fn audit_plan(a: AuditAction) -> Result<PlanV, Seq<char>> {
    match a {
        AuditAction::List { workspace_id, all } => Ok(list_v("/workspaces/"@ + workspace_id@ + "/audits"@, all)),
        AuditAction::Get { workspace_id, audit_id } => Ok(
            PlanV::Fetch { path: "/workspaces/"@ + workspace_id@ + "/audits/"@ + audit_id@ },
        ),
    }
}

/// Plans an audit command.
pub fn plan(action: &AuditAction) -> (r: Result<Plan, UsageError>)
    ensures
        planned(r, audit_plan(*action)),
{
    match action {
        AuditAction::List { workspace_id, all } => Ok(list_plan(cat3("/workspaces/", workspace_id.as_str(), "/audits"), *all)),
        AuditAction::Get { workspace_id, audit_id } => Ok(
            Plan::Fetch { path: cat4("/workspaces/", workspace_id.as_str(), "/audits/", audit_id.as_str()) },
        ),
    }
}

} // verus!
