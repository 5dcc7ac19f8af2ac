//! `drata register ...`: risk registers. An absent owner or workspace list
//! leaves that field out of the body; an empty one is sent to clear it.

use vstd::prelude::*;
use crate::cli::RegisterAction;
use crate::json::{field_of, fields_view, insert_member, lemma_field_of_insert, map_insert, member, Json, JsonV};
use crate::resources::{
    given, lemma_put_opt_field,
    cat2, curated_example, list_plan, list_v, planned, put_opt, send_empty, send_object, set_opt, u64_array,
    u64_items, Plan, PlanV, UsageError,
};
use crate::spec::{required_example, ExampleError};

verus! {

/// The `--example` skeleton of `register create`, `None` for other commands.
pub fn example_if_requested(action: &RegisterAction, doc: &Json) -> (r: Option<Result<String, ExampleError>>)
    ensures
        r is Some <==> (*action matches RegisterAction::Create { example, .. } && example),
        r matches Some(x) ==> curated_example(doc@, "POST"@, "/risk-registers"@, x),
{
    match action {
        RegisterAction::Create { example, .. } => if *example {
            Some(required_example(doc, "POST", "/risk-registers"))
        } else {
            None
        },
        _ => None,
    }
}

/// `key: [ids]` set when the list is present (an empty list included).
pub open spec fn put_ids(m: Seq<(Seq<char>, JsonV)>, key: Seq<char>, ids: Option<Vec<u64>>) -> Seq<(Seq<char>, JsonV)> {
    match ids {
        Some(v) => map_insert(m, key, JsonV::Array(u64_items(v@))),
        None => m,
    }
}

/// The body of a register create or update.
pub open spec fn register_body(
    name: Option<String>,
    description: Option<String>,
    owner_ids: Option<Vec<u64>>,
    workspace_ids: Option<Vec<u64>>,
) -> JsonV {
    JsonV::Object(
        put_ids(
            put_ids(put_opt(put_opt(Seq::empty(), "name"@, name), "description"@, description), "ownerIds"@, owner_ids),
            "workspaceIds"@,
            workspace_ids,
        ),
    )
}

/// What a register command asks of the API.
pub open spec fn register_plan(a: RegisterAction) -> Result<PlanV, Seq<char>> {
    match a {
        RegisterAction::List => Ok(list_v("/risk-registers"@, false)),
        RegisterAction::Get { register_id } => Ok(PlanV::Fetch { path: "/risk-registers/"@ + register_id@ }),
        RegisterAction::Create { name, description, owner_ids, workspace_ids, .. } => Ok(
            PlanV::Send {
                method: "POST"@,
                path: "/risk-registers"@,
                body: Some(register_body(name, description, owner_ids, workspace_ids)),
                confirm: true,
            },
        ),
        RegisterAction::Update { register_id, name, description, owner_ids, workspace_ids } => Ok(
            PlanV::Send {
                method: "PUT"@,
                path: "/risk-registers/"@ + register_id@,
                body: Some(register_body(name, description, owner_ids, workspace_ids)),
                confirm: true,
            },
        ),
        RegisterAction::Remove { register_id } => Ok(
            PlanV::Send { method: "DELETE"@, path: "/risk-registers/"@ + register_id@, body: None, confirm: true },
        ),
    }
}

/// The members of a register create or update.
fn register_members(
    name: &Option<String>,
    description: &Option<String>,
    owner_ids: &Option<Vec<u64>>,
    workspace_ids: &Option<Vec<u64>>,
) -> (r: Vec<(String, Json)>)
    ensures
        JsonV::Object(fields_view(r@)) == register_body(*name, *description, *owner_ids, *workspace_ids),
{
    let mut body: Vec<(String, Json)> = Vec::new();
    assert(fields_view(body@) =~= Seq::<(Seq<char>, JsonV)>::empty());
    set_opt(&mut body, "name", name);
    set_opt(&mut body, "description", description);
    match owner_ids {
        Some(ids) => insert_member(&mut body, "ownerIds".to_string(), u64_array(ids.as_slice())),
        None => {},
    }
    match workspace_ids {
        Some(ids) => insert_member(&mut body, "workspaceIds".to_string(), u64_array(ids.as_slice())),
        None => {},
    }
    body
}

/// Plans a register command.
pub fn plan(action: &RegisterAction) -> (r: Result<Plan, UsageError>)
    ensures
        planned(r, register_plan(*action)),
{
    match action {
        RegisterAction::List => Ok(list_plan("/risk-registers".to_string(), false)),
        RegisterAction::Get { register_id } => Ok(Plan::Fetch { path: cat2("/risk-registers/", register_id.as_str()) }),
        RegisterAction::Create { name, description, owner_ids, workspace_ids, .. } => {
            let body = register_members(name, description, owner_ids, workspace_ids);
            Ok(send_object("POST", "/risk-registers".to_string(), body, true))
        },
        RegisterAction::Update { register_id, name, description, owner_ids, workspace_ids } => {
            let body = register_members(name, description, owner_ids, workspace_ids);
            Ok(send_object("PUT", cat2("/risk-registers/", register_id.as_str()), body, true))
        },
        RegisterAction::Remove { register_id } => Ok(
            send_empty("DELETE", cat2("/risk-registers/", register_id.as_str())),
        ),
    }
}

/// A list flag as the member it becomes: the IDs as numbers (an empty
/// list included).
pub open spec fn given_ids(ids: Option<Vec<u64>>) -> Option<JsonV> {
    match ids {
        Some(v) => Some(JsonV::Array(u64_items(v@))),
        None => None,
    }
}

/// The member a register body holds under `k`: each given flag under its
/// API key, nothing else.
pub open spec fn register_member(
    k: Seq<char>,
    name: Option<String>,
    description: Option<String>,
    owner_ids: Option<Vec<u64>>,
    workspace_ids: Option<Vec<u64>>,
) -> Option<JsonV> {
    if k == "name"@ {
        given(name)
    } else if k == "description"@ {
        given(description)
    } else if k == "ownerIds"@ {
        given_ids(owner_ids)
    } else if k == "workspaceIds"@ {
        given_ids(workspace_ids)
    } else {
        None
    }
}

/// The members of a register body are exactly the given flags.
pub proof fn lemma_register_body_members(
    name: Option<String>,
    description: Option<String>,
    owner_ids: Option<Vec<u64>>,
    workspace_ids: Option<Vec<u64>>,
)
    ensures
        forall|k: Seq<char>|
            #[trigger] member(register_body(name, description, owner_ids, workspace_ids), k) == register_member(
                k,
                name,
                description,
                owner_ids,
                workspace_ids,
            ),
{
    reveal_strlit("name");
    reveal_strlit("description");
    reveal_strlit("ownerIds");
    reveal_strlit("workspaceIds");
    assert("name"@.len() == 4 && "name"@[0] == 'n' && "name"@[3] == 'e');
    assert("description"@.len() == 11 && "description"@[0] == 'd' && "description"@[10] == 'n');
    assert("ownerIds"@.len() == 8 && "ownerIds"@[0] == 'o' && "ownerIds"@[7] == 's');
    assert("workspaceIds"@.len() == 12 && "workspaceIds"@[0] == 'w' && "workspaceIds"@[11] == 's');
    let m0 = Seq::<(Seq<char>, JsonV)>::empty();
    let m1 = put_opt(m0, "name"@, name);
    let m2 = put_opt(m1, "description"@, description);
    let m3 = put_ids(m2, "ownerIds"@, owner_ids);
    let m4 = put_ids(m3, "workspaceIds"@, workspace_ids);
    assert forall|k: Seq<char>| #[trigger] field_of(m4, k) == register_member(k, name, description, owner_ids, workspace_ids) by {
        lemma_put_opt_field(m0, "name"@, name, k);
        lemma_put_opt_field(m1, "description"@, description, k);
        match owner_ids {
            Some(v) => lemma_field_of_insert(m2, "ownerIds"@, JsonV::Array(u64_items(v@)), k),
            None => {},
        }
        match workspace_ids {
            Some(v) => lemma_field_of_insert(m3, "workspaceIds"@, JsonV::Array(u64_items(v@)), k),
            None => {},
        }
        assert(field_of(m0, k) is None);
    }
}

} // verus!
