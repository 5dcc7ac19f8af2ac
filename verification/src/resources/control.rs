//! `drata control ...`: controls in a workspace. Creating one needs a name,
//! a description and a code; comparing needs at least one control ID.

use vstd::prelude::*;
use crate::cli::ControlAction;
use crate::client::{push_query_pair, query_pairs, with_query};
use crate::expand::{append_expand, expand_pairs};
use crate::json::{field_of, fields_view, member, Json, JsonV};
use crate::resources::{
    given, lemma_put_opt_field, lemma_put_str_field,
    cat3, cat4, cat5, curated_example, list_plan, list_v, missing_value, planned, put_opt, put_str,
    requires_text, send_object, set_opt, set_str, Plan, PlanV, UsageError,
};
use crate::spec::{required_example, ExampleError};
use crate::text::{decimal, decimal_string, push_str};

verus! {

/// The `--example` skeleton of `control create`, `None` for other commands.
pub fn example_if_requested(action: &ControlAction, doc: &Json) -> (r: Option<Result<String, ExampleError>>)
    ensures
        r is Some <==> (*action matches ControlAction::Create { example, .. } && example),
        r matches Some(x) ==> curated_example(doc@, "POST"@, "/workspaces/{workspaceId}/controls"@, x),
{
    match action {
        ControlAction::Create { example, .. } => if *example {
            Some(required_example(doc, "POST", "/workspaces/{workspaceId}/controls"))
        } else {
            None
        },
        _ => None,
    }
}

/// The controls of a workspace.
pub open spec fn controls_path(ws: Seq<char>) -> Seq<char> {
    "/workspaces/"@ + ws + "/controls"@
}

/// One control of a workspace.
pub open spec fn control_path(ws: Seq<char>, id: Seq<char>) -> Seq<char> {
    "/workspaces/"@ + ws + "/controls/"@ + id
}

/// The `controlIds[]` query pairs of a comparison.
pub open spec fn compare_pairs(ids: Seq<u64>) -> Seq<(Seq<char>, Seq<char>)> {
    ids.map_values(|id: u64| ("controlIds[]"@, decimal(id as nat)))
}

/// The refusal of a comparison without control IDs.
pub open spec fn compare_empty_text() -> Seq<char> {
    "`drata control compare` requires at least one --control-ids value"@
}

/// What a control command asks of the API, or why it is refused.
pub open spec fn control_plan(a: ControlAction) -> Result<PlanV, Seq<char>> {
    match a {
        ControlAction::List { workspace_id, all, expand } => Ok(
            list_v(with_query(controls_path(workspace_id@), expand_pairs(expand@)), all),
        ),
        ControlAction::Get { workspace_id, control_id, expand } => Ok(
            PlanV::Fetch { path: with_query(control_path(workspace_id@, control_id@), expand_pairs(expand@)) },
        ),
        ControlAction::Create { workspace_id, name, description, code, question, activity, .. } => {
            if workspace_id is None {
                Err(requires_text("control create"@, "<workspace_id>"@))
            } else if name is None {
                Err(requires_text("control create"@, "--name"@))
            } else if description is None {
                Err(requires_text("control create"@, "--description"@))
            } else if code is None {
                Err(requires_text("control create"@, "--code"@))
            } else {
                Ok(
                    PlanV::Send {
                        method: "POST"@,
                        path: controls_path(workspace_id.unwrap()@),
                        body: Some(
                            JsonV::Object(
                                put_opt(
                                    put_opt(
                                        put_str(
                                            put_str(
                                                put_str(Seq::empty(), "name"@, name.unwrap()@),
                                                "description"@,
                                                description.unwrap()@,
                                            ),
                                            "code"@,
                                            code.unwrap()@,
                                        ),
                                        "question"@,
                                        question,
                                    ),
                                    "activity"@,
                                    activity,
                                ),
                            ),
                        ),
                        confirm: true,
                    },
                )
            }
        },
        ControlAction::Update { workspace_id, control_id, name, description, question, activity } => Ok(
            PlanV::Send {
                method: "PUT"@,
                path: control_path(workspace_id@, control_id@),
                body: Some(
                    JsonV::Object(
                        put_opt(
                            put_opt(put_opt(put_opt(Seq::empty(), "name"@, name), "description"@, description),
                                "question"@, question),
                            "activity"@,
                            activity,
                        ),
                    ),
                ),
                confirm: true,
            },
        ),
        ControlAction::Requirements { workspace_id, control_id } => Ok(
            list_v(control_path(workspace_id@, control_id@) + "/requirements"@, false),
        ),
        ControlAction::Compare { workspace_id, control_ids } => if control_ids@.len() == 0 {
            Err(compare_empty_text())
        } else {
            Ok(
                PlanV::Fetch {
                    path: "/workspaces/"@ + workspace_id@ + "/controls-requirement-comparison"@ + query_pairs(
                        '?',
                        compare_pairs(control_ids@),
                    ),
                },
            )
        },
    }
}

/// Plans a control command: the request it makes, or why it is refused
/// before anything is sent.
pub fn plan(action: &ControlAction) -> (r: Result<Plan, UsageError>)
    ensures
        planned(r, control_plan(*action)),
{
    match action {
        ControlAction::List { workspace_id, all, expand } => {
            let p = cat3("/workspaces/", workspace_id.as_str(), "/controls");
            Ok(list_plan(append_expand(p.as_str(), expand.as_slice()), *all))
        },
        ControlAction::Get { workspace_id, control_id, expand } => {
            let p = cat4("/workspaces/", workspace_id.as_str(), "/controls/", control_id.as_str());
            Ok(Plan::Fetch { path: append_expand(p.as_str(), expand.as_slice()) })
        },
        ControlAction::Create { workspace_id, name, description, code, question, activity, .. } => {
            let ws = match workspace_id {
                Some(w) => w,
                None => return Err(missing_value("control create", "<workspace_id>")),
            };
            let name = match name {
                Some(n) => n,
                None => return Err(missing_value("control create", "--name")),
            };
            let description = match description {
                Some(d) => d,
                None => return Err(missing_value("control create", "--description")),
            };
            let code = match code {
                Some(c) => c,
                None => return Err(missing_value("control create", "--code")),
            };
            let mut body: Vec<(String, Json)> = Vec::new();
            assert(fields_view(body@) =~= Seq::<(Seq<char>, JsonV)>::empty());
            set_str(&mut body, "name", name.as_str());
            set_str(&mut body, "description", description.as_str());
            set_str(&mut body, "code", code.as_str());
            set_opt(&mut body, "question", question);
            set_opt(&mut body, "activity", activity);
            Ok(send_object("POST", cat3("/workspaces/", ws.as_str(), "/controls"), body, true))
        },
        ControlAction::Update { workspace_id, control_id, name, description, question, activity } => {
            let mut body: Vec<(String, Json)> = Vec::new();
            assert(fields_view(body@) =~= Seq::<(Seq<char>, JsonV)>::empty());
            set_opt(&mut body, "name", name);
            set_opt(&mut body, "description", description);
            set_opt(&mut body, "question", question);
            set_opt(&mut body, "activity", activity);
            let p = cat4("/workspaces/", workspace_id.as_str(), "/controls/", control_id.as_str());
            Ok(send_object("PUT", p, body, true))
        },
        ControlAction::Requirements { workspace_id, control_id } => {
            let p = cat5("/workspaces/", workspace_id.as_str(), "/controls/", control_id.as_str(), "/requirements");
            Ok(list_plan(p, false))
        },
        ControlAction::Compare { workspace_id, control_ids } => {
            if control_ids.len() == 0 {
                let mut m = String::new();
                push_str(&mut m, "`drata control compare` requires at least one --control-ids value");
                return Err(UsageError { message: m });
            }
            let mut path = cat3("/workspaces/", workspace_id.as_str(), "/controls-requirement-comparison");
            let ghost base = path@;
            let ghost pairs = compare_pairs(control_ids@);
            let mut i: usize = 0;
            while i < control_ids.len()
                invariant
                    i <= control_ids@.len(),
                    pairs == compare_pairs(control_ids@),
                    path@ == base + query_pairs('?', pairs.subrange(0, i as int)),
                decreases control_ids.len() - i,
            {
                let sep = if i == 0 { '?' } else { '&' };
                let id = decimal_string(control_ids[i]);
                push_query_pair(&mut path, sep, "controlIds[]", id.as_str());
                proof {
                    let p = pairs.subrange(0, i + 1);
                    assert(p.drop_last() =~= pairs.subrange(0, i as int));
                }
                i = i + 1;
            }
            assert(pairs.subrange(0, pairs.len() as int) =~= pairs);
            Ok(Plan::Fetch { path })
        },
    }
}

/// The control flag keys are distinct.
proof fn lemma_control_keys_distinct()
    ensures
        "name"@ != "description"@, "name"@ != "code"@, "name"@ != "question"@, "name"@ != "activity"@,
        "description"@ != "code"@, "description"@ != "question"@, "description"@ != "activity"@,
        "code"@ != "question"@, "code"@ != "activity"@, "question"@ != "activity"@,
{
    reveal_strlit("name");
    reveal_strlit("description");
    reveal_strlit("code");
    reveal_strlit("question");
    reveal_strlit("activity");
    assert("name"@.len() == 4 && "name"@[0] == 'n');
    assert("description"@.len() == 11);
    assert("code"@.len() == 4 && "code"@[0] == 'c');
    assert("question"@.len() == 8 && "question"@[0] == 'q');
    assert("activity"@.len() == 8 && "activity"@[0] == 'a');
}

/// The member a control body holds under `k`: each given field under its
/// API key, nothing else.
pub open spec fn control_member(
    k: Seq<char>,
    name: Option<String>,
    description: Option<String>,
    code: Option<String>,
    question: Option<String>,
    activity: Option<String>,
) -> Option<JsonV> {
    if k == "name"@ {
        given(name)
    } else if k == "description"@ {
        given(description)
    } else if k == "code"@ {
        given(code)
    } else if k == "question"@ {
        given(question)
    } else if k == "activity"@ {
        given(activity)
    } else {
        None
    }
}

/// `control update` sends a confirmed `PUT` of the control whose body
/// carries every given flag under its API key and nothing else; `control
/// create` with its required values sends a confirmed `POST` whose body
/// carries name, description, code and the optional question and activity.
pub proof fn lemma_control_write_bodies(a: ControlAction)
    ensures
        a matches ControlAction::Update { workspace_id, control_id, name, description, question, activity } ==> (
        control_plan(a) matches Ok(PlanV::Send { method, path, body: Some(b), confirm }) && method == "PUT"@ && path
            == "/workspaces/"@ + workspace_id@ + "/controls/"@ + control_id@ && confirm && forall|k: Seq<char>|
            #[trigger] member(b, k) == control_member(k, name, description, None, question, activity)),
        a matches ControlAction::Create { workspace_id, name, description, code, question, activity, .. } ==> (
        workspace_id is Some && name is Some && description is Some && code is Some ==> (control_plan(a) matches Ok(
            PlanV::Send { method, path, body: Some(b), confirm },
        ) && method == "POST"@ && path == "/workspaces/"@ + workspace_id.unwrap()@ + "/controls"@ && confirm
            && forall|k: Seq<char>| #[trigger] member(b, k) == control_member(k, name, description, code, question, activity))),
{
    lemma_control_keys_distinct();
    match a {
        ControlAction::Update { name, description, question, activity, .. } => {
            let m0 = Seq::<(Seq<char>, JsonV)>::empty();
            let m1 = put_opt(m0, "name"@, name);
            let m2 = put_opt(m1, "description"@, description);
            let m3 = put_opt(m2, "question"@, question);
            let m4 = put_opt(m3, "activity"@, activity);
            assert forall|k: Seq<char>| #[trigger] field_of(m4, k) == control_member(k, name, description, None, question, activity) by {
                lemma_put_opt_field(m0, "name"@, name, k);
                lemma_put_opt_field(m1, "description"@, description, k);
                lemma_put_opt_field(m2, "question"@, question, k);
                lemma_put_opt_field(m3, "activity"@, activity, k);
                assert(field_of(m0, k) is None);
            }
        },
        ControlAction::Create { workspace_id, name, description, code, question, activity, .. } => {
            if workspace_id is Some && name is Some && description is Some && code is Some {
                let m0 = Seq::<(Seq<char>, JsonV)>::empty();
                let m1 = put_str(m0, "name"@, name.unwrap()@);
                let m2 = put_str(m1, "description"@, description.unwrap()@);
                let m3 = put_str(m2, "code"@, code.unwrap()@);
                let m4 = put_opt(m3, "question"@, question);
                let m5 = put_opt(m4, "activity"@, activity);
                assert forall|k: Seq<char>| #[trigger] field_of(m5, k) == control_member(k, name, description, code, question, activity) by {
                    lemma_put_str_field(m0, "name"@, name.unwrap()@, k);
                    lemma_put_str_field(m1, "description"@, description.unwrap()@, k);
                    lemma_put_str_field(m2, "code"@, code.unwrap()@, k);
                    lemma_put_opt_field(m3, "question"@, question, k);
                    lemma_put_opt_field(m4, "activity"@, activity, k);
                    assert(field_of(m0, k) is None);
                }
            }
        },
        _ => {},
    }
}

} // verus!
