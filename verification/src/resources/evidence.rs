//! `drata evidence ...`: evidence library items in a workspace. With
//! `--file` a create or update is sent as a multipart upload instead of a
//! JSON body.

use vstd::prelude::*;
use crate::cli::{EvidenceAction, RenewalScheduleType};
use crate::client::{fields_text, with_query, Multipart};
use crate::expand::{append_expand, expand_pairs};
use crate::json::{field_of, fields_view, member, Json, JsonV};
use crate::resources::{
    given, lemma_put_opt_field, lemma_put_str_field,
    cat3, cat4, curated_example, list_plan, list_v, missing_value, planned, put_opt, put_str, requires_text,
    send_empty, send_object, set_opt, set_str, Plan, PlanV, UsageError,
};
use crate::spec::{required_example, ExampleError};

verus! {

/// The spec value of a renewal schedule.
pub open spec fn renewal_schedule_name(t: RenewalScheduleType) -> Seq<char> {
    match t {
        RenewalScheduleType::OneMonth => "ONE_MONTH"@,
        RenewalScheduleType::TwoMonths => "TWO_MONTHS"@,
        RenewalScheduleType::ThreeMonths => "THREE_MONTHS"@,
        RenewalScheduleType::SixMonths => "SIX_MONTHS"@,
        RenewalScheduleType::OneYear => "ONE_YEAR"@,
        RenewalScheduleType::Custom => "CUSTOM"@,
        RenewalScheduleType::NoSchedule => "NONE"@,
    }
}

/// Renders a renewal schedule as the API spells it.
pub fn renewal_schedule_type_str(rst: &RenewalScheduleType) -> (r: &'static str)
    ensures
        r@ == renewal_schedule_name(*rst),
{
    match rst {
        RenewalScheduleType::OneMonth => "ONE_MONTH",
        RenewalScheduleType::TwoMonths => "TWO_MONTHS",
        RenewalScheduleType::ThreeMonths => "THREE_MONTHS",
        RenewalScheduleType::SixMonths => "SIX_MONTHS",
        RenewalScheduleType::OneYear => "ONE_YEAR",
        RenewalScheduleType::Custom => "CUSTOM",
        RenewalScheduleType::NoSchedule => "NONE",
    }
}

/// The `--example` skeleton of `evidence create`, `None` for other commands.
pub fn example_if_requested(action: &EvidenceAction, doc: &Json) -> (r: Option<Result<String, ExampleError>>)
    ensures
        r is Some <==> (*action matches EvidenceAction::Create { example, .. } && example),
        r matches Some(x) ==> curated_example(doc@, "POST"@, "/workspaces/{workspaceId}/evidence-library"@, x),
{
    match action {
        EvidenceAction::Create { example, .. } => if *example {
            Some(required_example(doc, "POST", "/workspaces/{workspaceId}/evidence-library"))
        } else {
            None
        },
        _ => None,
    }
}

/// The evidence library of a workspace.
pub open spec fn library_path(ws: Seq<char>) -> Seq<char> {
    "/workspaces/"@ + ws + "/evidence-library"@
}

/// One evidence library item.
pub open spec fn item_path(ws: Seq<char>, id: Seq<char>) -> Seq<char> {
    "/workspaces/"@ + ws + "/evidence-library/"@ + id
}

/// The JSON body of an evidence create or update.
pub open spec fn evidence_body(
    name: Option<String>,
    description: Option<String>,
    rst: Option<RenewalScheduleType>,
) -> JsonV {
    let b = put_opt(put_opt(Seq::empty(), "name"@, name), "description"@, description);
    JsonV::Object(
        match rst {
            Some(t) => put_str(b, "renewalScheduleType"@, renewal_schedule_name(t)),
            None => b,
        },
    )
}

/// A create or update: an upload of `file` when given, else a JSON body.
pub open spec fn evidence_write(
    method: Seq<char>,
    path: Seq<char>,
    name: Option<String>,
    description: Option<String>,
    rst: Option<RenewalScheduleType>,
    file: Option<String>,
) -> PlanV {
    match file {
        Some(f) => PlanV::Upload { method, path, files: seq![("file"@, f@)], fields: Seq::empty() },
        None => PlanV::Send { method, path, body: Some(evidence_body(name, description, rst)), confirm: true },
    }
}

/// What an evidence command asks of the API, or why it is refused.
pub open spec fn evidence_plan(a: EvidenceAction) -> Result<PlanV, Seq<char>> {
    match a {
        EvidenceAction::List { workspace_id, all, expand } => Ok(
            list_v(with_query(library_path(workspace_id@), expand_pairs(expand@)), all),
        ),
        EvidenceAction::Get { workspace_id, evidence_id, expand } => Ok(
            PlanV::Fetch { path: with_query(item_path(workspace_id@, evidence_id@), expand_pairs(expand@)) },
        ),
        EvidenceAction::Create { workspace_id, name, description, renewal_schedule_type, file, .. } => match workspace_id {
            None => Err(requires_text("evidence create"@, "<workspace_id>"@)),
            Some(ws) => Ok(evidence_write("POST"@, library_path(ws@), name, description, renewal_schedule_type, file)),
        },
        EvidenceAction::Update { workspace_id, evidence_id, name, description, renewal_schedule_type, file } => Ok(
            evidence_write("PUT"@, item_path(workspace_id@, evidence_id@), name, description, renewal_schedule_type, file),
        ),
        EvidenceAction::Remove { workspace_id, evidence_id } => Ok(
            PlanV::Send { method: "DELETE"@, path: item_path(workspace_id@, evidence_id@), body: None, confirm: true },
        ),
        EvidenceAction::GetVersion { workspace_id, evidence_id, version_id, expand } => Ok(
            PlanV::Fetch {
                path: with_query(
                    item_path(workspace_id@, evidence_id@) + "/versions/"@ + version_id@,
                    expand_pairs(expand@),
                ),
            },
        ),
    }
}

/// Plans a create or update of an evidence item.
fn write_plan(
    method: &str,
    path: String,
    name: &Option<String>,
    description: &Option<String>,
    rst: &Option<RenewalScheduleType>,
    file: &Option<String>,
) -> (r: Plan)
    ensures
        r@ == evidence_write(method@, path@, *name, *description, *rst, *file),
{
    match file {
        Some(f) => {
            let form = Multipart::single("file", f.as_str());
            assert(fields_text(form.fields@) =~= Seq::<(Seq<char>, Seq<char>)>::empty());
            Plan::Upload { method: method.to_string(), path, form }
        },
        None => {
            let mut body: Vec<(String, Json)> = Vec::new();
            assert(fields_view(body@) =~= Seq::<(Seq<char>, JsonV)>::empty());
            set_opt(&mut body, "name", name);
            set_opt(&mut body, "description", description);
            match rst {
                Some(t) => set_str(&mut body, "renewalScheduleType", renewal_schedule_type_str(t)),
                None => {},
            }
            send_object(method, path, body, true)
        },
    }
}

/// Plans an evidence command: the request it makes, or why it is refused
/// before anything is sent.
pub fn plan(action: &EvidenceAction) -> (r: Result<Plan, UsageError>)
    ensures
        planned(r, evidence_plan(*action)),
{
    match action {
        EvidenceAction::List { workspace_id, all, expand } => {
            let p = cat3("/workspaces/", workspace_id.as_str(), "/evidence-library");
            Ok(list_plan(append_expand(p.as_str(), expand.as_slice()), *all))
        },
        EvidenceAction::Get { workspace_id, evidence_id, expand } => {
            let p = cat4("/workspaces/", workspace_id.as_str(), "/evidence-library/", evidence_id.as_str());
            Ok(Plan::Fetch { path: append_expand(p.as_str(), expand.as_slice()) })
        },
        EvidenceAction::Create { workspace_id, name, description, renewal_schedule_type, file, .. } => match workspace_id {
            None => Err(missing_value("evidence create", "<workspace_id>")),
            Some(ws) => Ok(
                write_plan(
                    "POST",
                    cat3("/workspaces/", ws.as_str(), "/evidence-library"),
                    name,
                    description,
                    renewal_schedule_type,
                    file,
                ),
            ),
        },
        EvidenceAction::Update { workspace_id, evidence_id, name, description, renewal_schedule_type, file } => {
            let p = cat4("/workspaces/", workspace_id.as_str(), "/evidence-library/", evidence_id.as_str());
            Ok(write_plan("PUT", p, name, description, renewal_schedule_type, file))
        },
        EvidenceAction::Remove { workspace_id, evidence_id } => {
            let p = cat4("/workspaces/", workspace_id.as_str(), "/evidence-library/", evidence_id.as_str());
            Ok(send_empty("DELETE", p))
        },
        EvidenceAction::GetVersion { workspace_id, evidence_id, version_id, expand } => {
            let p = cat4("/workspaces/", workspace_id.as_str(), "/evidence-library/", evidence_id.as_str());
            let q = cat3(p.as_str(), "/versions/", version_id.as_str());
            Ok(Plan::Fetch { path: append_expand(q.as_str(), expand.as_slice()) })
        },
    }
}

/// The member an evidence body holds under `k`: each given flag under its
/// API key (the schedule in the API's spelling), nothing else.
pub open spec fn evidence_member(
    k: Seq<char>,
    name: Option<String>,
    description: Option<String>,
    rst: Option<RenewalScheduleType>,
) -> Option<JsonV> {
    if k == "name"@ {
        given(name)
    } else if k == "description"@ {
        given(description)
    } else if k == "renewalScheduleType"@ {
        match rst {
            Some(t) => Some(JsonV::Str(renewal_schedule_name(t))),
            None => None,
        }
    } else {
        None
    }
}

/// Without a file, an evidence create or update is a confirmed JSON write
/// whose body carries every given flag under its API key and nothing else;
/// with a file it is an upload of that file.
pub proof fn lemma_evidence_write_body(
    method: Seq<char>,
    path: Seq<char>,
    name: Option<String>,
    description: Option<String>,
    rst: Option<RenewalScheduleType>,
    file: Option<String>,
)
    ensures
        file is None ==> (evidence_write(method, path, name, description, rst, file) matches PlanV::Send {
            method: m,
            path: p,
            body: Some(b),
            confirm,
        } && m == method && p == path && confirm && forall|k: Seq<char>|
            #[trigger] member(b, k) == evidence_member(k, name, description, rst)),
        file matches Some(f) ==> evidence_write(method, path, name, description, rst, file) == (PlanV::Upload {
            method,
            path,
            files: seq![("file"@, f@)],
            fields: Seq::empty(),
        }),
{
    reveal_strlit("name");
    reveal_strlit("description");
    reveal_strlit("renewalScheduleType");
    assert("name"@.len() == 4 && "name"@[0] == 'n');
    assert("description"@.len() == 11 && "description"@[0] == 'd');
    assert("renewalScheduleType"@.len() == 19 && "renewalScheduleType"@[0] == 'r');
    let m0 = Seq::<(Seq<char>, JsonV)>::empty();
    let m1 = put_opt(m0, "name"@, name);
    let m2 = put_opt(m1, "description"@, description);
    let m3 = match rst {
        Some(t) => put_str(m2, "renewalScheduleType"@, renewal_schedule_name(t)),
        None => m2,
    };
    assert(evidence_body(name, description, rst) == JsonV::Object(m3));
    assert forall|k: Seq<char>| #[trigger] field_of(m3, k) == evidence_member(k, name, description, rst) by {
        lemma_put_opt_field(m0, "name"@, name, k);
        lemma_put_opt_field(m1, "description"@, description, k);
        match rst {
            Some(t) => lemma_put_str_field(m2, "renewalScheduleType"@, renewal_schedule_name(t), k),
            None => {},
        }
        assert(field_of(m0, k) is None);
    }
}

} // verus!
