//! `drata event ...`: events, read-only.

use vstd::prelude::*;
use crate::cli::EventAction;
use crate::resources::{cat2, list_plan, list_v, planned, Plan, PlanV, UsageError};

verus! {

/// What an event command asks of the API.
pub open spec fn event_plan(a: EventAction) -> Result<PlanV, Seq<char>> {
    match a {
        EventAction::List { all } => Ok(list_v("/events"@, all)),
        EventAction::Get { event_id } => Ok(PlanV::Fetch { path: "/events/"@ + event_id@ }),
    }
}

/// Plans an event command.
pub fn plan(action: &EventAction) -> (r: Result<Plan, UsageError>)
    ensures
        planned(r, event_plan(*action)),
{
    match action {
        EventAction::List { all } => Ok(list_plan("/events".to_string(), *all)),
        EventAction::Get { event_id } => Ok(Plan::Fetch { path: cat2("/events/", event_id.as_str()) }),
    }
}

} // verus!
