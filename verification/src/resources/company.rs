//! `drata company get`: the company record.

use vstd::prelude::*;
use crate::cli::CompanyAction;
use crate::resources::{planned, Plan, PlanV, UsageError};

verus! {

/// What a company command asks of the API.
pub open spec fn company_plan(a: CompanyAction) -> Result<PlanV, Seq<char>> {
    match a {
        CompanyAction::Get => Ok(PlanV::Fetch { path: "/company"@ }),
    }
}

/// Plans a company command.
pub fn plan(action: &CompanyAction) -> (r: Result<Plan, UsageError>)
    ensures
        planned(r, company_plan(*action)),
{
    match action {
        CompanyAction::Get => Ok(Plan::Fetch { path: "/company".to_string() }),
    }
}

} // verus!
