//! `drata personnel ...`: personnel records.

use vstd::prelude::*;
use crate::cli::{EmploymentStatus, PersonnelAction};
use crate::client::with_query;
use crate::expand::{append_expand, expand_pairs};
use crate::json::{field_of, fields_view, member, Json, JsonV};
use crate::resources::{given, lemma_put_opt_field, lemma_put_str_field, cat2, list_plan, list_v, planned, put_opt, put_str, send_object, set_opt, set_str, Plan, PlanV, UsageError};

verus! {

/// The spec value of an employment status.
pub open spec fn employment_status_name(s: EmploymentStatus) -> Seq<char> {
    match s {
        EmploymentStatus::CurrentEmployee => "CURRENT_EMPLOYEE"@,
        EmploymentStatus::FormerEmployee => "FORMER_EMPLOYEE"@,
        EmploymentStatus::CurrentContractor => "CURRENT_CONTRACTOR"@,
        EmploymentStatus::FormerContractor => "FORMER_CONTRACTOR"@,
        EmploymentStatus::OutOfScope => "OUT_OF_SCOPE"@,
        EmploymentStatus::Unknown => "UNKNOWN"@,
        EmploymentStatus::SpecialFormerEmployee => "SPECIAL_FORMER_EMPLOYEE"@,
        EmploymentStatus::SpecialFormerContractor => "SPECIAL_FORMER_CONTRACTOR"@,
        EmploymentStatus::FutureHire => "FUTURE_HIRE"@,
        EmploymentStatus::ServiceAccount => "SERVICE_ACCOUNT"@,
    }
}

/// Renders an employment status as the API spells it.
pub fn employment_status_str(es: &EmploymentStatus) -> (r: &'static str)
    ensures
        r@ == employment_status_name(*es),
{
    match es {
        EmploymentStatus::CurrentEmployee => "CURRENT_EMPLOYEE",
        EmploymentStatus::FormerEmployee => "FORMER_EMPLOYEE",
        EmploymentStatus::CurrentContractor => "CURRENT_CONTRACTOR",
        EmploymentStatus::FormerContractor => "FORMER_CONTRACTOR",
        EmploymentStatus::OutOfScope => "OUT_OF_SCOPE",
        EmploymentStatus::Unknown => "UNKNOWN",
        EmploymentStatus::SpecialFormerEmployee => "SPECIAL_FORMER_EMPLOYEE",
        EmploymentStatus::SpecialFormerContractor => "SPECIAL_FORMER_CONTRACTOR",
        EmploymentStatus::FutureHire => "FUTURE_HIRE",
        EmploymentStatus::ServiceAccount => "SERVICE_ACCOUNT",
    }
}

/// What a personnel command asks of the API.
pub open spec fn personnel_plan(a: PersonnelAction) -> Result<PlanV, Seq<char>> {
    match a {
        PersonnelAction::List { all, expand } => Ok(list_v(with_query("/personnel"@, expand_pairs(expand@)), all)),
        PersonnelAction::Get { personnel_id, expand } => Ok(
            PlanV::Fetch { path: with_query("/personnel/"@ + personnel_id@, expand_pairs(expand@)) },
        ),
        PersonnelAction::Update { personnel_id, employment_status, started_at, separated_at, not_human_reason } => {
            let b = match employment_status {
                Some(s) => put_str(Seq::empty(), "employmentStatus"@, employment_status_name(s)),
                None => Seq::empty(),
            };
            Ok(
                PlanV::Send {
                    method: "PUT"@,
                    path: "/personnel/"@ + personnel_id@,
                    body: Some(
                        JsonV::Object(
                            put_opt(put_opt(put_opt(b, "startedAt"@, started_at), "separatedAt"@, separated_at),
                                "notHumanReason"@, not_human_reason),
                        ),
                    ),
                    confirm: true,
                },
            )
        },
    }
}

/// Plans a personnel command.
pub fn plan(action: &PersonnelAction) -> (r: Result<Plan, UsageError>)
    ensures
        planned(r, personnel_plan(*action)),
{
    match action {
        PersonnelAction::List { all, expand } => Ok(list_plan(append_expand("/personnel", expand.as_slice()), *all)),
        PersonnelAction::Get { personnel_id, expand } => {
            let p = cat2("/personnel/", personnel_id.as_str());
            Ok(Plan::Fetch { path: append_expand(p.as_str(), expand.as_slice()) })
        },
        PersonnelAction::Update { personnel_id, employment_status, started_at, separated_at, not_human_reason } => {
            let mut body: Vec<(String, Json)> = Vec::new();
            assert(fields_view(body@) =~= Seq::<(Seq<char>, JsonV)>::empty());
            match employment_status {
                Some(s) => set_str(&mut body, "employmentStatus", employment_status_str(s)),
                None => {},
            }
            set_opt(&mut body, "startedAt", started_at);
            set_opt(&mut body, "separatedAt", separated_at);
            set_opt(&mut body, "notHumanReason", not_human_reason);
            Ok(send_object("PUT", cat2("/personnel/", personnel_id.as_str()), body, true))
        },
    }
}

/// The member a personnel update body holds under `k`: each given flag under
/// its API key (the status in the API's spelling), nothing else.
pub open spec fn personnel_member(
    k: Seq<char>,
    employment_status: Option<EmploymentStatus>,
    started_at: Option<String>,
    separated_at: Option<String>,
    not_human_reason: Option<String>,
) -> Option<JsonV> {
    if k == "employmentStatus"@ {
        match employment_status {
            Some(s) => Some(JsonV::Str(employment_status_name(s))),
            None => None,
        }
    } else if k == "startedAt"@ {
        given(started_at)
    } else if k == "separatedAt"@ {
        given(separated_at)
    } else if k == "notHumanReason"@ {
        given(not_human_reason)
    } else {
        None
    }
}

/// `personnel update` sends a confirmed `PUT /personnel/{id}` whose body
/// carries every given flag under its API key and nothing else.
pub proof fn lemma_personnel_update_body(a: PersonnelAction)
    ensures
        a matches PersonnelAction::Update { personnel_id, employment_status, started_at, separated_at, not_human_reason }
            ==> (personnel_plan(a) matches Ok(PlanV::Send { method, path, body: Some(b), confirm }) && method == "PUT"@
            && path == "/personnel/"@ + personnel_id@ && confirm && forall|k: Seq<char>|
            #[trigger] member(b, k) == personnel_member(k, employment_status, started_at, separated_at, not_human_reason)),
{
    reveal_strlit("employmentStatus");
    reveal_strlit("startedAt");
    reveal_strlit("separatedAt");
    reveal_strlit("notHumanReason");
    assert("employmentStatus"@.len() == 16 && "employmentStatus"@[0] == 'e');
    assert("startedAt"@.len() == 9 && "startedAt"@[0] == 's');
    assert("separatedAt"@.len() == 11 && "separatedAt"@[0] == 's');
    assert("notHumanReason"@.len() == 14 && "notHumanReason"@[0] == 'n');
    if let PersonnelAction::Update { employment_status, started_at, separated_at, not_human_reason, .. } = a {
        let m0 = Seq::<(Seq<char>, JsonV)>::empty();
        let b = match employment_status {
            Some(s) => put_str(m0, "employmentStatus"@, employment_status_name(s)),
            None => m0,
        };
        let m2 = put_opt(b, "startedAt"@, started_at);
        let m3 = put_opt(m2, "separatedAt"@, separated_at);
        let m4 = put_opt(m3, "notHumanReason"@, not_human_reason);
        assert forall|k: Seq<char>|
            #[trigger] field_of(m4, k) == personnel_member(k, employment_status, started_at, separated_at, not_human_reason) by {
            match employment_status {
                Some(s) => lemma_put_str_field(m0, "employmentStatus"@, employment_status_name(s), k),
                None => {},
            }
            lemma_put_opt_field(b, "startedAt"@, started_at, k);
            lemma_put_opt_field(m2, "separatedAt"@, separated_at, k);
            lemma_put_opt_field(m3, "notHumanReason"@, not_human_reason, k);
            assert(field_of(m0, k) is None);
        }
    }
}

} // verus!
