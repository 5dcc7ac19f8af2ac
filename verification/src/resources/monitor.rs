//! `drata monitor ...`: monitoring tests in a workspace.

use vstd::prelude::*;
use crate::cli::MonitorAction;
use crate::json::{field_of, fields_view, insert_member, lemma_field_of_insert, map_insert, member, Json, JsonV};
use crate::resources::{given, lemma_put_opt_field, cat3, cat4, cat5, list_plan, list_v, planned, put_opt, send_object, set_opt, Plan, PlanV, UsageError};

verus! {

/// The monitoring tests of a workspace.
pub open spec fn tests_path(ws: Seq<char>) -> Seq<char> {
    "/workspaces/"@ + ws + "/monitoring-tests"@
}

/// One monitoring test.
pub open spec fn test_path(ws: Seq<char>, id: Seq<char>) -> Seq<char> {
    "/workspaces/"@ + ws + "/monitoring-tests/"@ + id
}

/// What a monitoring test command asks of the API.
pub open spec fn monitor_plan(a: MonitorAction) -> Result<PlanV, Seq<char>> {
    match a {
        MonitorAction::List { workspace_id, all } => Ok(list_v(tests_path(workspace_id@), all)),
        MonitorAction::Get { workspace_id, test_id } => Ok(PlanV::Fetch { path: test_path(workspace_id@, test_id@) }),
        MonitorAction::Update { workspace_id, test_id, name, enabled, description } => {
            let b = put_opt(Seq::empty(), "name"@, name);
            let b2 = match enabled {
                Some(e) => map_insert(b, "enabled"@, JsonV::Bool(e)),
                None => b,
            };
            Ok(
                PlanV::Send {
                    method: "PUT"@,
                    path: test_path(workspace_id@, test_id@),
                    body: Some(JsonV::Object(put_opt(b2, "description"@, description))),
                    confirm: true,
                },
            )
        },
        MonitorAction::Exclusions { workspace_id, test_id } => Ok(
            list_v(test_path(workspace_id@, test_id@) + "/exclusions"@, false),
        ),
        MonitorAction::Failures { workspace_id, test_id } => Ok(
            list_v(test_path(workspace_id@, test_id@) + "/failures"@, false),
        ),
        MonitorAction::Passes { workspace_id, test_id } => Ok(
            list_v(test_path(workspace_id@, test_id@) + "/passes"@, false),
        ),
    }
}

/// Plans a monitoring test command.
pub fn plan(action: &MonitorAction) -> (r: Result<Plan, UsageError>)
    ensures
        planned(r, monitor_plan(*action)),
{
    match action {
        MonitorAction::List { workspace_id, all } => Ok(
            list_plan(cat3("/workspaces/", workspace_id.as_str(), "/monitoring-tests"), *all),
        ),
        MonitorAction::Get { workspace_id, test_id } => Ok(
            Plan::Fetch { path: cat4("/workspaces/", workspace_id.as_str(), "/monitoring-tests/", test_id.as_str()) },
        ),
        MonitorAction::Update { workspace_id, test_id, name, enabled, description } => {
            let mut body: Vec<(String, Json)> = Vec::new();
            assert(fields_view(body@) =~= Seq::<(Seq<char>, JsonV)>::empty());
            set_opt(&mut body, "name", name);
            match enabled {
                Some(e) => insert_member(&mut body, "enabled".to_string(), Json::Bool(*e)),
                None => {},
            }
            set_opt(&mut body, "description", description);
            let p = cat4("/workspaces/", workspace_id.as_str(), "/monitoring-tests/", test_id.as_str());
            Ok(send_object("PUT", p, body, true))
        },
        MonitorAction::Exclusions { workspace_id, test_id } => Ok(
            list_plan(
                cat5("/workspaces/", workspace_id.as_str(), "/monitoring-tests/", test_id.as_str(), "/exclusions"),
                false,
            ),
        ),
        MonitorAction::Failures { workspace_id, test_id } => Ok(
            list_plan(
                cat5("/workspaces/", workspace_id.as_str(), "/monitoring-tests/", test_id.as_str(), "/failures"),
                false,
            ),
        ),
        MonitorAction::Passes { workspace_id, test_id } => Ok(
            list_plan(
                cat5("/workspaces/", workspace_id.as_str(), "/monitoring-tests/", test_id.as_str(), "/passes"),
                false,
            ),
        ),
    }
}

/// The member a monitoring test update body holds under `k`: each given
/// flag under its API key, nothing else.
pub open spec fn monitor_member(
    k: Seq<char>,
    name: Option<String>,
    enabled: Option<bool>,
    description: Option<String>,
) -> Option<JsonV> {
    if k == "name"@ {
        given(name)
    } else if k == "enabled"@ {
        match enabled {
            Some(e) => Some(JsonV::Bool(e)),
            None => None,
        }
    } else if k == "description"@ {
        given(description)
    } else {
        None
    }
}

/// `monitor update` sends a confirmed `PUT` of the test whose body carries
/// every given flag under its API key (`--enabled false` as
/// `"enabled": false`) and nothing else.
pub proof fn lemma_monitor_update_body(a: MonitorAction)
    ensures
        a matches MonitorAction::Update { workspace_id, test_id, name, enabled, description } ==> (monitor_plan(a) matches Ok(
            PlanV::Send { method, path, body: Some(b), confirm },
        ) && method == "PUT"@ && path == test_path(workspace_id@, test_id@) && confirm && forall|k: Seq<char>|
            #[trigger] member(b, k) == monitor_member(k, name, enabled, description)),
{
    reveal_strlit("name");
    reveal_strlit("enabled");
    reveal_strlit("description");
    assert("name"@.len() == 4 && "name"@[0] == 'n');
    assert("enabled"@.len() == 7 && "enabled"@[0] == 'e');
    assert("description"@.len() == 11 && "description"@[0] == 'd');
    if let MonitorAction::Update { name, enabled, description, .. } = a {
        let m0 = Seq::<(Seq<char>, JsonV)>::empty();
        let m1 = put_opt(m0, "name"@, name);
        let m2 = match enabled {
            Some(e) => map_insert(m1, "enabled"@, JsonV::Bool(e)),
            None => m1,
        };
        let m3 = put_opt(m2, "description"@, description);
        assert forall|k: Seq<char>| #[trigger] field_of(m3, k) == monitor_member(k, name, enabled, description) by {
            lemma_put_opt_field(m0, "name"@, name, k);
            match enabled {
                Some(e) => lemma_field_of_insert(m1, "enabled"@, JsonV::Bool(e), k),
                None => {},
            }
            lemma_put_opt_field(m2, "description"@, description, k);
            assert(field_of(m0, k) is None);
        }
    }
}

} // verus!
