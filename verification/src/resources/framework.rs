//! `drata framework ...`: frameworks in a workspace. Creates and updates,
//! like every write, are confirmed before they are sent.

use vstd::prelude::*;
use crate::cli::FrameworkAction;
use crate::json::{field_of, fields_view, member, Json, JsonV};
use crate::resources::{
    given, lemma_put_opt_field,
    cat3, cat4, cat5, curated_example, list_plan, list_v, missing_value, planned, put_opt, requires_text, send_object,
    set_opt, Plan, PlanV, UsageError,
};
use crate::spec::{required_example, ExampleError};

verus! {

/// The `--example` skeleton of `framework create`, `None` for other
/// commands.
pub fn example_if_requested(action: &FrameworkAction, doc: &Json) -> (r: Option<Result<String, ExampleError>>)
    ensures
        r is Some <==> (*action matches FrameworkAction::Create { example, .. } && example),
        r matches Some(x) ==> curated_example(doc@, "POST"@, "/workspaces/{workspaceId}/frameworks"@, x),
{
    match action {
        FrameworkAction::Create { example, .. } => if *example {
            Some(required_example(doc, "POST", "/workspaces/{workspaceId}/frameworks"))
        } else {
            None
        },
        _ => None,
    }
}

/// What a framework command asks of the API, or why it is refused.
pub open spec fn framework_plan(a: FrameworkAction) -> Result<PlanV, Seq<char>> {
    match a {
        FrameworkAction::List { workspace_id } => Ok(list_v("/workspaces/"@ + workspace_id@ + "/frameworks"@, false)),
        FrameworkAction::Create { workspace_id, name, short_name, description, .. } => match workspace_id {
            None => Err(requires_text("framework create"@, "<workspace_id>"@)),
            Some(ws) => Ok(
                PlanV::Send {
                    method: "POST"@,
                    path: "/workspaces/"@ + ws@ + "/frameworks"@,
                    body: Some(
                        JsonV::Object(
                            put_opt(put_opt(put_opt(Seq::empty(), "name"@, name), "shortName"@, short_name),
                                "description"@, description),
                        ),
                    ),
                    confirm: true,
                },
            ),
        },
        FrameworkAction::Update { workspace_id, framework_id, name, description } => Ok(
            PlanV::Send {
                method: "PUT"@,
                path: "/workspaces/"@ + workspace_id@ + "/frameworks/"@ + framework_id@,
                body: Some(JsonV::Object(put_opt(put_opt(Seq::empty(), "name"@, name), "description"@, description))),
                confirm: true,
            },
        ),
        FrameworkAction::Requirements { workspace_id, framework_id } => Ok(
            list_v("/workspaces/"@ + workspace_id@ + "/frameworks/"@ + framework_id@ + "/requirements"@, false),
        ),
    }
}

/// Plans a framework command: the request it makes, or why it is refused
/// before anything is sent.
pub fn plan(action: &FrameworkAction) -> (r: Result<Plan, UsageError>)
    ensures
        planned(r, framework_plan(*action)),
{
    match action {
        FrameworkAction::List { workspace_id } => Ok(
            list_plan(cat3("/workspaces/", workspace_id.as_str(), "/frameworks"), false),
        ),
        FrameworkAction::Create { workspace_id, name, short_name, description, .. } => match workspace_id {
            None => Err(missing_value("framework create", "<workspace_id>")),
            Some(ws) => {
                let mut body: Vec<(String, Json)> = Vec::new();
                assert(fields_view(body@) =~= Seq::<(Seq<char>, JsonV)>::empty());
                set_opt(&mut body, "name", name);
                set_opt(&mut body, "shortName", short_name);
                set_opt(&mut body, "description", description);
                Ok(send_object("POST", cat3("/workspaces/", ws.as_str(), "/frameworks"), body, true))
            },
        },
        FrameworkAction::Update { workspace_id, framework_id, name, description } => {
            let mut body: Vec<(String, Json)> = Vec::new();
            assert(fields_view(body@) =~= Seq::<(Seq<char>, JsonV)>::empty());
            set_opt(&mut body, "name", name);
            set_opt(&mut body, "description", description);
            let p = cat4("/workspaces/", workspace_id.as_str(), "/frameworks/", framework_id.as_str());
            Ok(send_object("PUT", p, body, true))
        },
        FrameworkAction::Requirements { workspace_id, framework_id } => {
            let p = cat5("/workspaces/", workspace_id.as_str(), "/frameworks/", framework_id.as_str(), "/requirements");
            Ok(list_plan(p, false))
        },
    }
}

/// The member a framework body holds under `k`: each given field under its
/// API key, nothing else.
pub open spec fn framework_member(
    k: Seq<char>,
    name: Option<String>,
    short_name: Option<String>,
    description: Option<String>,
) -> Option<JsonV> {
    if k == "name"@ {
        given(name)
    } else if k == "shortName"@ {
        given(short_name)
    } else if k == "description"@ {
        given(description)
    } else {
        None
    }
}

/// `framework create` (with a workspace) and `framework update` are
/// confirmed writes whose bodies carry every given flag under its API key
/// and nothing else.
pub proof fn lemma_framework_write_bodies(a: FrameworkAction)
    ensures
        a matches FrameworkAction::Update { workspace_id, framework_id, name, description } ==> (framework_plan(a) matches Ok(
            PlanV::Send { method, path, body: Some(b), confirm },
        ) && method == "PUT"@ && path == "/workspaces/"@ + workspace_id@ + "/frameworks/"@ + framework_id@ && confirm
            && forall|k: Seq<char>| #[trigger] member(b, k) == framework_member(k, name, None, description)),
        a matches FrameworkAction::Create { workspace_id, name, short_name, description, .. } ==> (workspace_id matches Some(
            ws,
        ) ==> (framework_plan(a) matches Ok(PlanV::Send { method, path, body: Some(b), confirm }) && method == "POST"@
            && path == "/workspaces/"@ + ws@ + "/frameworks"@ && confirm && forall|k: Seq<char>|
            #[trigger] member(b, k) == framework_member(k, name, short_name, description))),
{
    reveal_strlit("name");
    reveal_strlit("shortName");
    reveal_strlit("description");
    assert("name"@.len() == 4);
    assert("shortName"@.len() == 9);
    assert("description"@.len() == 11);
    match a {
        FrameworkAction::Update { name, description, .. } => {
            let m0 = Seq::<(Seq<char>, JsonV)>::empty();
            let m1 = put_opt(m0, "name"@, name);
            let m2 = put_opt(m1, "description"@, description);
            assert forall|k: Seq<char>| #[trigger] field_of(m2, k) == framework_member(k, name, None, description) by {
                lemma_put_opt_field(m0, "name"@, name, k);
                lemma_put_opt_field(m1, "description"@, description, k);
                assert(field_of(m0, k) is None);
            }
        },
        FrameworkAction::Create { name, short_name, description, .. } => {
            let m0 = Seq::<(Seq<char>, JsonV)>::empty();
            let m1 = put_opt(m0, "name"@, name);
            let m2 = put_opt(m1, "shortName"@, short_name);
            let m3 = put_opt(m2, "description"@, description);
            assert forall|k: Seq<char>| #[trigger] field_of(m3, k) == framework_member(k, name, short_name, description) by {
                lemma_put_opt_field(m0, "name"@, name, k);
                lemma_put_opt_field(m1, "shortName"@, short_name, k);
                lemma_put_opt_field(m2, "description"@, description, k);
                assert(field_of(m0, k) is None);
            }
        },
        _ => {},
    }
}

} // verus!
