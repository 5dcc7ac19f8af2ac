//! `drata user ...`: users and roles, read-only.

use vstd::prelude::*;
use crate::cli::UserAction;
use crate::resources::{cat2, cat3, list_plan, list_v, planned, Plan, PlanV, UsageError};

verus! {

/// What a user or role command asks of the API.
pub open spec fn user_plan(a: UserAction) -> Result<PlanV, Seq<char>> {
    match a {
        UserAction::List { all } => Ok(list_v("/users"@, all)),
        UserAction::Get { user_id } => Ok(PlanV::Fetch { path: "/users/"@ + user_id@ }),
        UserAction::Roles => Ok(list_v("/roles"@, false)),
        UserAction::Role { role_id } => Ok(PlanV::Fetch { path: "/roles/"@ + role_id@ }),
        UserAction::RoleUsers { role_id, all } => Ok(list_v("/roles/"@ + role_id@ + "/users"@, all)),
    }
}

/// Plans a user or role command.
pub fn plan(action: &UserAction) -> (r: Result<Plan, UsageError>)
    ensures
        planned(r, user_plan(*action)),
{
    match action {
        UserAction::List { all } => Ok(list_plan("/users".to_string(), *all)),
        UserAction::Get { user_id } => Ok(Plan::Fetch { path: cat2("/users/", user_id.as_str()) }),
        UserAction::Roles => Ok(list_plan("/roles".to_string(), false)),
        UserAction::Role { role_id } => Ok(Plan::Fetch { path: cat2("/roles/", role_id.as_str()) }),
        UserAction::RoleUsers { role_id, all } => Ok(list_plan(cat3("/roles/", role_id.as_str(), "/users"), *all)),
    }
}

} // verus!
