//! `drata risk ...`: risks in a risk register. Every path is nested under
//! `/risk-registers/{registerId}`; creating a risk needs the register ID.

use vstd::prelude::*;
use crate::cli::{RiskAction, RiskStatus, RiskTreatmentPlan};
use crate::client::{fields_text, files_view, with_query, Multipart};
use crate::expand::{append_expand, expand_pairs};
use crate::json::{field_of, fields_view, insert_member, lemma_field_of_insert, map_insert, member, Json, JsonV};
use crate::resources::{
    given, lemma_put_opt_field,
    cat3, cat4, cat5, curated_example, list_plan, list_v, missing_value, planned, put_opt, put_str,
    requires_text, send_object, set_opt, set_str, Plan, PlanV, UsageError,
};
use crate::spec::{required_example, ExampleError};

verus! {

/// The spec value of a treatment plan.
pub open spec fn treatment_plan_name(tp: RiskTreatmentPlan) -> Seq<char> {
    match tp {
        RiskTreatmentPlan::Untreated => "UNTREATED"@,
        RiskTreatmentPlan::Accept => "ACCEPT"@,
        RiskTreatmentPlan::Transfer => "TRANSFER"@,
        RiskTreatmentPlan::Avoid => "AVOID"@,
        RiskTreatmentPlan::Mitigate => "MITIGATE"@,
    }
}

/// Renders a treatment plan as the API spells it.
pub fn treatment_plan_str(tp: &RiskTreatmentPlan) -> (r: &'static str)
    ensures
        r@ == treatment_plan_name(*tp),
{
    match tp {
        RiskTreatmentPlan::Untreated => "UNTREATED",
        RiskTreatmentPlan::Accept => "ACCEPT",
        RiskTreatmentPlan::Transfer => "TRANSFER",
        RiskTreatmentPlan::Avoid => "AVOID",
        RiskTreatmentPlan::Mitigate => "MITIGATE",
    }
}

/// The spec value of a risk status.
pub open spec fn risk_status_name(s: RiskStatus) -> Seq<char> {
    match s {
        RiskStatus::Active => "ACTIVE"@,
        RiskStatus::Archived => "ARCHIVED"@,
        RiskStatus::Closed => "CLOSED"@,
    }
}

/// Renders a risk status as the API spells it.
pub fn risk_status_str(s: &RiskStatus) -> (r: &'static str)
    ensures
        r@ == risk_status_name(*s),
{
    match s {
        RiskStatus::Active => "ACTIVE",
        RiskStatus::Archived => "ARCHIVED",
        RiskStatus::Closed => "CLOSED",
    }
}

/// The `--example` skeleton of `risk create`, `None` for other commands.
pub fn example_if_requested(action: &RiskAction, doc: &Json) -> (r: Option<Result<String, ExampleError>>)
    ensures
        r is Some <==> (*action matches RiskAction::Create { example, .. } && example),
        r matches Some(x) ==> curated_example(doc@, "POST"@, "/risk-registers/{riskRegisterId}/risks"@, x),
{
    match action {
        RiskAction::Create { example, .. } => if *example {
            Some(required_example(doc, "POST", "/risk-registers/{riskRegisterId}/risks"))
        } else {
            None
        },
        _ => None,
    }
}

/// The risks of a register.
pub open spec fn risks_path(register: Seq<char>) -> Seq<char> {
    "/risk-registers/"@ + register + "/risks"@
}

/// One risk of a register.
pub open spec fn risk_path(register: Seq<char>, risk: Seq<char>) -> Seq<char> {
    "/risk-registers/"@ + register + "/risks/"@ + risk
}

/// `key: value` set in a key-ordered object when `value` is present.
pub open spec fn put_json(m: Seq<(Seq<char>, JsonV)>, key: Seq<char>, value: Option<Json>) -> Seq<(Seq<char>, JsonV)> {
    match value {
        Some(v) => map_insert(m, key, v@),
        None => m,
    }
}

/// `key: name` set in a key-ordered object when `value` is present.
pub open spec fn put_name(m: Seq<(Seq<char>, JsonV)>, key: Seq<char>, name: Option<Seq<char>>) -> Seq<(Seq<char>, JsonV)> {
    match name {
        Some(n) => put_str(m, key, n),
        None => m,
    }
}

/// The body of a risk create or update: the fields that were given.
pub open spec fn risk_body(
    title: Option<String>,
    description: Option<String>,
    treatment_plan: Option<RiskTreatmentPlan>,
    impact: Option<Json>,
    likelihood: Option<Json>,
    status: Option<RiskStatus>,
) -> JsonV {
    JsonV::Object(
        put_name(
            put_json(
                put_json(
                    put_name(
                        put_opt(put_opt(Seq::empty(), "title"@, title), "description"@, description),
                        "treatmentPlan"@,
                        match treatment_plan {
                            Some(tp) => Some(treatment_plan_name(tp)),
                            None => None,
                        },
                    ),
                    "impact"@,
                    impact,
                ),
                "likelihood"@,
                likelihood,
            ),
            "status"@,
            match status {
                Some(st) => Some(risk_status_name(st)),
                None => None,
            },
        ),
    )
}

/// The file parts of a document upload: one `files` part per path.
pub open spec fn document_parts(files: Seq<String>) -> Seq<(Seq<char>, Seq<char>)> {
    files.map_values(|f: String| ("files"@, f@))
}

/// What a risk command asks of the API, or why it is refused.
pub open spec fn risk_plan(a: RiskAction) -> Result<PlanV, Seq<char>> {
    match a {
        RiskAction::List { register_id, all, expand } => Ok(
            list_v(with_query(risks_path(register_id@), expand_pairs(expand@)), all),
        ),
        RiskAction::Get { register_id, risk_id, expand } => Ok(
            PlanV::Fetch { path: with_query(risk_path(register_id@, risk_id@), expand_pairs(expand@)) },
        ),
        RiskAction::Create { register_id, title, description, treatment_plan, impact, likelihood, status, .. } => {
            match register_id {
                None => Err(requires_text("risk create"@, "<register_id>"@)),
                Some(rid) => Ok(
                    PlanV::Send {
                        method: "POST"@,
                        path: risks_path(rid@),
                        body: Some(risk_body(title, description, treatment_plan, impact, likelihood, status)),
                        confirm: true,
                    },
                ),
            }
        },
        RiskAction::Update { register_id, risk_id, title, description, treatment_plan, impact, likelihood, status } => Ok(
            PlanV::Send {
                method: "PUT"@,
                path: risk_path(register_id@, risk_id@),
                body: Some(risk_body(title, description, treatment_plan, impact, likelihood, status)),
                confirm: true,
            },
        ),
        RiskAction::Insights { register_id } => Ok(
            PlanV::Fetch { path: "/risk-registers/"@ + register_id@ + "/insights"@ },
        ),
        RiskAction::Upload { register_id, risk_id, files } => Ok(
            PlanV::Upload {
                method: "POST"@,
                path: risk_path(register_id@, risk_id@) + "/documents"@,
                files: document_parts(files@),
                fields: Seq::empty(),
            },
        ),
    }
}

/// Sets `key` to a copy of `value` when it is present.
fn set_json(m: &mut Vec<(String, Json)>, key: &str, value: &Option<Json>)
    ensures
        fields_view(final(m)@) == put_json(fields_view(old(m)@), key@, *value),
{
    match value {
        Some(v) => insert_member(m, key.to_string(), v.copy()),
        None => {},
    }
}

/// The members of a risk create or update.
fn risk_members(
    title: &Option<String>,
    description: &Option<String>,
    treatment_plan: &Option<RiskTreatmentPlan>,
    impact: &Option<Json>,
    likelihood: &Option<Json>,
    status: &Option<RiskStatus>,
) -> (r: Vec<(String, Json)>)
    ensures
        JsonV::Object(fields_view(r@)) == risk_body(*title, *description, *treatment_plan, *impact, *likelihood, *status),
{
    let mut body: Vec<(String, Json)> = Vec::new();
    assert(fields_view(body@) =~= Seq::<(Seq<char>, JsonV)>::empty());
    set_opt(&mut body, "title", title);
    set_opt(&mut body, "description", description);
    match treatment_plan {
        Some(tp) => set_str(&mut body, "treatmentPlan", treatment_plan_str(tp)),
        None => {},
    }
    set_json(&mut body, "impact", impact);
    set_json(&mut body, "likelihood", likelihood);
    match status {
        Some(st) => set_str(&mut body, "status", risk_status_str(st)),
        None => {},
    }
    body
}

/// The upload form of `files`: one `files` part per path, in order.
fn documents_form(files: &Vec<String>) -> (r: Multipart)
    ensures
        files_view(r.files@) == document_parts(files@),
        r.fields@.len() == 0,
{
    let mut form = Multipart::new();
    let mut i: usize = 0;
    while i < files.len()
        invariant
            i <= files@.len(),
            files_view(form.files@) == document_parts(files@.subrange(0, i as int)),
            form.fields@.len() == 0,
        decreases files.len() - i,
    {
        form.add_file("files", files[i].as_str());
        assert(document_parts(files@.subrange(0, i + 1)) =~= document_parts(files@.subrange(0, i as int)).push(
            ("files"@, files@[i as int]@),
        ));
        i = i + 1;
    }
    assert(files@.subrange(0, files@.len() as int) =~= files@);
    form
}

/// Plans a risk command: the request it makes, or why it is refused before
/// anything is sent.
pub fn plan(action: &RiskAction) -> (r: Result<Plan, UsageError>)
    ensures
        planned(r, risk_plan(*action)),
{
    match action {
        RiskAction::List { register_id, all, expand } => {
            let p = cat3("/risk-registers/", register_id.as_str(), "/risks");
            Ok(list_plan(append_expand(p.as_str(), expand.as_slice()), *all))
        },
        RiskAction::Get { register_id, risk_id, expand } => {
            let p = cat4("/risk-registers/", register_id.as_str(), "/risks/", risk_id.as_str());
            Ok(Plan::Fetch { path: append_expand(p.as_str(), expand.as_slice()) })
        },
        RiskAction::Create { register_id, title, description, treatment_plan, impact, likelihood, status, .. } => {
            match register_id {
                None => Err(missing_value("risk create", "<register_id>")),
                Some(rid) => {
                    let body = risk_members(title, description, treatment_plan, impact, likelihood, status);
                    Ok(send_object("POST", cat3("/risk-registers/", rid.as_str(), "/risks"), body, true))
                },
            }
        },
        RiskAction::Update { register_id, risk_id, title, description, treatment_plan, impact, likelihood, status } => {
            let body = risk_members(title, description, treatment_plan, impact, likelihood, status);
            let p = cat4("/risk-registers/", register_id.as_str(), "/risks/", risk_id.as_str());
            Ok(send_object("PUT", p, body, true))
        },
        RiskAction::Insights { register_id } => Ok(
            Plan::Fetch { path: cat3("/risk-registers/", register_id.as_str(), "/insights") },
        ),
        RiskAction::Upload { register_id, risk_id, files } => {
            let form = documents_form(files);
            assert(fields_text(form.fields@) =~= Seq::<(Seq<char>, Seq<char>)>::empty());
            Ok(
                Plan::Upload {
                    method: "POST".to_string(),
                    path: cat5("/risk-registers/", register_id.as_str(), "/risks/", risk_id.as_str(), "/documents"),
                    form,
                },
            )
        },
    }
}

/// The member a risk body holds under `k`, given the flags: each given
/// flag under its API key (enums in the API's spelling, scores as given),
/// nothing else.
pub open spec fn risk_member(
    k: Seq<char>,
    title: Option<String>,
    description: Option<String>,
    treatment_plan: Option<RiskTreatmentPlan>,
    impact: Option<Json>,
    likelihood: Option<Json>,
    status: Option<RiskStatus>,
) -> Option<JsonV> {
    if k == "title"@ {
        given(title)
    } else if k == "description"@ {
        given(description)
    } else if k == "treatmentPlan"@ {
        match treatment_plan {
            Some(tp) => Some(JsonV::Str(treatment_plan_name(tp))),
            None => None,
        }
    } else if k == "impact"@ {
        match impact {
            Some(j) => Some(j@),
            None => None,
        }
    } else if k == "likelihood"@ {
        match likelihood {
            Some(j) => Some(j@),
            None => None,
        }
    } else if k == "status"@ {
        match status {
            Some(st) => Some(JsonV::Str(risk_status_name(st))),
            None => None,
        }
    } else {
        None
    }
}

/// Setting an optional JSON member.
proof fn lemma_put_json_field(m: Seq<(Seq<char>, JsonV)>, key: Seq<char>, value: Option<Json>, q: Seq<char>)
    ensures
        field_of(put_json(m, key, value), q) == (if q == key && value is Some {
            Some(value.unwrap()@)
        } else {
            field_of(m, q)
        }),
{
    match value {
        Some(v) => lemma_field_of_insert(m, key, v@, q),
        None => {},
    }
}

/// Setting an optional name member.
proof fn lemma_put_name_field(m: Seq<(Seq<char>, JsonV)>, key: Seq<char>, name: Option<Seq<char>>, q: Seq<char>)
    ensures
        field_of(put_name(m, key, name), q) == (if q == key && name is Some {
            Some(JsonV::Str(name.unwrap()))
        } else {
            field_of(m, q)
        }),
{
    match name {
        Some(n) => lemma_field_of_insert(m, key, JsonV::Str(n), q),
        None => {},
    }
}

/// The members of a risk body are exactly the given flags.
proof fn lemma_risk_body_members(
    title: Option<String>,
    description: Option<String>,
    treatment_plan: Option<RiskTreatmentPlan>,
    impact: Option<Json>,
    likelihood: Option<Json>,
    status: Option<RiskStatus>,
)
    ensures
        forall|k: Seq<char>|
            #[trigger] member(risk_body(title, description, treatment_plan, impact, likelihood, status), k)
                == risk_member(k, title, description, treatment_plan, impact, likelihood, status),
{
    reveal_strlit("title");
    reveal_strlit("description");
    reveal_strlit("treatmentPlan");
    reveal_strlit("impact");
    reveal_strlit("likelihood");
    reveal_strlit("status");
    assert("title"@.len() == 5);
    assert("description"@.len() == 11);
    assert("treatmentPlan"@.len() == 13);
    assert("impact"@.len() == 6 && "impact"@[0] == 'i');
    assert("likelihood"@.len() == 10);
    assert("status"@.len() == 6 && "status"@[0] == 's');
    let tp = match treatment_plan {
        Some(t) => Some(treatment_plan_name(t)),
        None => None,
    };
    let st = match status {
        Some(x) => Some(risk_status_name(x)),
        None => None,
    };
    let m0 = Seq::<(Seq<char>, JsonV)>::empty();
    let m1 = put_opt(m0, "title"@, title);
    let m2 = put_opt(m1, "description"@, description);
    let m3 = put_name(m2, "treatmentPlan"@, tp);
    let m4 = put_json(m3, "impact"@, impact);
    let m5 = put_json(m4, "likelihood"@, likelihood);
    let m6 = put_name(m5, "status"@, st);
    assert(JsonV::Object(m6) == risk_body(title, description, treatment_plan, impact, likelihood, status));
    assert forall|k: Seq<char>|
        #[trigger] field_of(m6, k) == risk_member(k, title, description, treatment_plan, impact, likelihood, status) by {
        lemma_put_opt_field(m0, "title"@, title, k);
        lemma_put_opt_field(m1, "description"@, description, k);
        lemma_put_name_field(m2, "treatmentPlan"@, tp, k);
        lemma_put_json_field(m3, "impact"@, impact, k);
        lemma_put_json_field(m4, "likelihood"@, likelihood, k);
        lemma_put_name_field(m5, "status"@, st, k);
        assert(field_of(m0, k) is None);
    }
}

/// `risk update` sends a confirmed `PUT /risk-registers/{r}/risks/{id}`
/// and `risk create` a confirmed `POST /risk-registers/{r}/risks` (refused
/// without a register); either body carries every given flag under its API
/// key (`--impact 5` as `"impact": 5`) and nothing for a flag left out.
pub proof fn lemma_risk_write_bodies(a: RiskAction)
    ensures
        a matches RiskAction::Update { register_id, risk_id, title, description, treatment_plan, impact, likelihood, status }
            ==> (risk_plan(a) matches Ok(PlanV::Send { method, path, body: Some(b), confirm }) && method == "PUT"@
            && path == "/risk-registers/"@ + register_id@ + "/risks/"@ + risk_id@ && confirm && forall|k: Seq<char>|
            #[trigger] member(b, k) == risk_member(k, title, description, treatment_plan, impact, likelihood, status)),
        a matches RiskAction::Create { register_id, title, description, treatment_plan, impact, likelihood, status, .. }
            ==> (register_id is None ==> risk_plan(a) is Err),
        a matches RiskAction::Create { register_id, title, description, treatment_plan, impact, likelihood, status, .. }
            ==> (register_id matches Some(r) ==> (risk_plan(a) matches Ok(PlanV::Send { method, path, body: Some(b), confirm })
            && method == "POST"@ && path == "/risk-registers/"@ + r@ + "/risks"@ && confirm && forall|k: Seq<char>|
            #[trigger] member(b, k) == risk_member(k, title, description, treatment_plan, impact, likelihood, status))),
{
    match a {
        RiskAction::Update { title, description, treatment_plan, impact, likelihood, status, .. } => {
            lemma_risk_body_members(title, description, treatment_plan, impact, likelihood, status);
        },
        RiskAction::Create { title, description, treatment_plan, impact, likelihood, status, .. } => {
            lemma_risk_body_members(title, description, treatment_plan, impact, likelihood, status);
        },
        _ => {},
    }
}

} // verus!
