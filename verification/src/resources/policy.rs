//! `drata policy ...`: policies. Creating one needs a name, an owner, a
//! source type, a description and a renewal date; with `--file` it is sent as
//! a multipart upload, which only an UPLOADED policy accepts.

use vstd::prelude::*;
use crate::cli::{PolicyAction, PolicySourceType};
use crate::client::{with_query, Multipart};
use crate::expand::{append_expand, expand_pairs};
use crate::json::{field_of, fields_view, lemma_field_of_insert, member, Json, JsonV};
use crate::resources::{
    given, lemma_put_opt_field,
    cat2, cat3, cat4, curated_example, list_plan, list_v, missing_value, planned, put_opt, put_str, put_u64,
    requires_text, send_object, set_opt, set_str, set_u64, Plan, PlanV, UsageError,
};
use crate::spec::{required_example, ExampleError};
use crate::text::{decimal, decimal_string, push_str};

verus! {

/// The spec value of a policy source type.
pub open spec fn source_type_name(t: PolicySourceType) -> Seq<char> {
    match t {
        PolicySourceType::Uploaded => "UPLOADED"@,
        PolicySourceType::External => "EXTERNAL"@,
    }
}

/// Renders a policy source type as the API spells it.
pub fn source_type_str(st: &PolicySourceType) -> (r: &'static str)
    ensures
        r@ == source_type_name(*st),
{
    match st {
        PolicySourceType::Uploaded => "UPLOADED",
        PolicySourceType::External => "EXTERNAL",
    }
}

/// The `--example` skeleton of `policy create`, `None` for other commands.
pub fn example_if_requested(action: &PolicyAction, doc: &Json) -> (r: Option<Result<String, ExampleError>>)
    ensures
        r is Some <==> (*action matches PolicyAction::Create { example, .. } && example),
        r matches Some(x) ==> curated_example(doc@, "POST"@, "/policies"@, x),
{
    match action {
        PolicyAction::Create { example, .. } => if *example {
            Some(required_example(doc, "POST", "/policies"))
        } else {
            None
        },
        _ => None,
    }
}

/// The refusal of `--file` on an EXTERNAL policy.
pub open spec fn external_file_text() -> Seq<char> {
    "--file is only valid for UPLOADED policies. EXTERNAL policies reference an existing file via --source-type external and do not accept a file upload. Remove --file or change --source-type."@
}

/// One policy.
pub open spec fn policy_path(id: Seq<char>) -> Seq<char> {
    "/policies/"@ + id
}

/// What a policy create asks of the API once every required value is
/// there.
pub open spec fn create_write(
    name: Seq<char>,
    owner: u64,
    source: PolicySourceType,
    description: Seq<char>,
    renewal: Seq<char>,
    file: Option<String>,
) -> Result<PlanV, Seq<char>> {
    match file {
        Some(f) => if source == PolicySourceType::External {
            Ok(PlanV::Refuse { method: "POST"@, path: "/policies"@, message: external_file_text() })
        } else {
            Ok(
                PlanV::Upload {
                    method: "POST"@,
                    path: "/policies"@,
                    files: seq![("file"@, f@)],
                    fields: seq![
                        ("name"@, name),
                        ("ownerId"@, decimal(owner as nat)),
                        ("sourceType"@, source_type_name(source)),
                        ("description"@, description),
                        ("renewalDate"@, renewal),
                    ],
                },
            )
        },
        None => Ok(
            PlanV::Send {
                method: "POST"@,
                path: "/policies"@,
                body: Some(
                    JsonV::Object(
                        put_str(
                            put_str(
                                put_str(put_u64(put_str(Seq::empty(), "name"@, name), "ownerId"@, owner), "sourceType"@,
                                    source_type_name(source)),
                                "description"@,
                                description,
                            ),
                            "renewalDate"@,
                            renewal,
                        ),
                    ),
                ),
                confirm: true,
            },
        ),
    }
}

/// What a policy command asks of the API, or why it is refused.
pub open spec fn policy_plan(a: PolicyAction) -> Result<PlanV, Seq<char>> {
    match a {
        PolicyAction::List { all, expand } => Ok(list_v(with_query("/policies"@, expand_pairs(expand@)), all)),
        PolicyAction::Get { policy_id, expand } => Ok(
            PlanV::Fetch { path: with_query(policy_path(policy_id@), expand_pairs(expand@)) },
        ),
        PolicyAction::Create { name, owner_id, source_type, description, renewal_date, file, .. } => {
            if name is None {
                Err(requires_text("policy create"@, "--name"@))
            } else if owner_id is None {
                Err(requires_text("policy create"@, "--owner-id"@))
            } else if source_type is None {
                Err(requires_text("policy create"@, "--source-type"@))
            } else if description is None {
                Err(requires_text("policy create"@, "--description"@))
            } else if renewal_date is None {
                Err(requires_text("policy create"@, "--renewal-date"@))
            } else {
                create_write(
                    name.unwrap()@,
                    owner_id.unwrap(),
                    source_type.unwrap(),
                    description.unwrap()@,
                    renewal_date.unwrap()@,
                    file,
                )
            }
        },
        PolicyAction::Update { policy_id, name, owner_id, description, renewal_date } => {
            let b = put_opt(put_opt(put_opt(Seq::empty(), "name"@, name), "description"@, description), "renewalDate"@,
                renewal_date);
            Ok(
                PlanV::Send {
                    method: "PUT"@,
                    path: policy_path(policy_id@),
                    body: Some(
                        JsonV::Object(
                            match owner_id {
                                Some(id) => put_u64(b, "ownerId"@, id),
                                None => b,
                            },
                        ),
                    ),
                    confirm: true,
                },
            )
        },
        PolicyAction::Actions { policy_id } => Ok(list_v(policy_path(policy_id@) + "/actions"@, false)),
        PolicyAction::Versions { policy_id, expand } => Ok(
            list_v(with_query(policy_path(policy_id@) + "/policy-versions"@, expand_pairs(expand@)), false),
        ),
        PolicyAction::Version { policy_id, version_id } => Ok(
            PlanV::Fetch { path: policy_path(policy_id@) + "/policy-versions/"@ + version_id@ },
        ),
    }
}

/// Plans a policy create once every required value is there.
fn plan_create(
    name: &String,
    owner: u64,
    source: &PolicySourceType,
    description: &String,
    renewal: &String,
    file: &Option<String>,
) -> (r: Result<Plan, UsageError>)
    ensures
        planned(r, create_write(name@, owner, *source, description@, renewal@, *file)),
{
    match file {
        Some(f) => {
            if *source == PolicySourceType::External {
                let mut m = String::new();
                push_str(
                    &mut m,
                    "--file is only valid for UPLOADED policies. EXTERNAL policies reference an existing file via --source-type external and do not accept a file upload. Remove --file or change --source-type.",
                );
                return Ok(Plan::Refuse { method: "POST".to_string(), path: "/policies".to_string(), message: m });
            }
            let mut form = Multipart::single("file", f.as_str());
            let owner_text = decimal_string(owner);
            form.add_field("name", name.as_str());
            form.add_field("ownerId", owner_text);
            form.add_field("sourceType", source_type_str(source));
            form.add_field("description", description.as_str());
            form.add_field("renewalDate", renewal.as_str());
            let ghost want = seq![
                ("name"@, name@),
                ("ownerId"@, decimal(owner as nat)),
                ("sourceType"@, source_type_name(*source)),
                ("description"@, description@),
                ("renewalDate"@, renewal@),
            ];
            assert(crate::client::fields_text(form.fields@) =~= want);
            Ok(Plan::Upload { method: "POST".to_string(), path: "/policies".to_string(), form })
        },
        None => {
            let mut body: Vec<(String, Json)> = Vec::new();
            assert(fields_view(body@) =~= Seq::<(Seq<char>, JsonV)>::empty());
            set_str(&mut body, "name", name.as_str());
            set_u64(&mut body, "ownerId", owner);
            set_str(&mut body, "sourceType", source_type_str(source));
            set_str(&mut body, "description", description.as_str());
            set_str(&mut body, "renewalDate", renewal.as_str());
            Ok(send_object("POST", "/policies".to_string(), body, true))
        },
    }
}

/// Plans a policy command: the request it makes, or why it is refused
/// before anything is sent.
pub fn plan(action: &PolicyAction) -> (r: Result<Plan, UsageError>)
    ensures
        planned(r, policy_plan(*action)),
{
    match action {
        PolicyAction::List { all, expand } => Ok(list_plan(append_expand("/policies", expand.as_slice()), *all)),
        PolicyAction::Get { policy_id, expand } => {
            let p = cat2("/policies/", policy_id.as_str());
            Ok(Plan::Fetch { path: append_expand(p.as_str(), expand.as_slice()) })
        },
        PolicyAction::Create { name, owner_id, source_type, description, renewal_date, file, .. } => {
            let name = match name {
                Some(n) => n,
                None => return Err(missing_value("policy create", "--name")),
            };
            let owner = match owner_id {
                Some(o) => *o,
                None => return Err(missing_value("policy create", "--owner-id")),
            };
            let source = match source_type {
                Some(s) => s,
                None => return Err(missing_value("policy create", "--source-type")),
            };
            let description = match description {
                Some(d) => d,
                None => return Err(missing_value("policy create", "--description")),
            };
            let renewal = match renewal_date {
                Some(d) => d,
                None => return Err(missing_value("policy create", "--renewal-date")),
            };
            plan_create(name, owner, source, description, renewal, file)
        },
        PolicyAction::Update { policy_id, name, owner_id, description, renewal_date } => {
            let mut body: Vec<(String, Json)> = Vec::new();
            assert(fields_view(body@) =~= Seq::<(Seq<char>, JsonV)>::empty());
            set_opt(&mut body, "name", name);
            set_opt(&mut body, "description", description);
            set_opt(&mut body, "renewalDate", renewal_date);
            match owner_id {
                Some(id) => set_u64(&mut body, "ownerId", *id),
                None => {},
            }
            Ok(send_object("PUT", cat2("/policies/", policy_id.as_str()), body, true))
        },
        PolicyAction::Actions { policy_id } => Ok(list_plan(cat3("/policies/", policy_id.as_str(), "/actions"), false)),
        PolicyAction::Versions { policy_id, expand } => {
            let p = cat3("/policies/", policy_id.as_str(), "/policy-versions");
            Ok(list_plan(append_expand(p.as_str(), expand.as_slice()), false))
        },
        PolicyAction::Version { policy_id, version_id } => Ok(
            Plan::Fetch { path: cat4("/policies/", policy_id.as_str(), "/policy-versions/", version_id.as_str()) },
        ),
    }
}

/// The member a policy update body holds under `k`: each given flag under
/// its API key (the owner as a number), nothing else.
pub open spec fn policy_update_member(
    k: Seq<char>,
    name: Option<String>,
    owner_id: Option<u64>,
    description: Option<String>,
    renewal_date: Option<String>,
) -> Option<JsonV> {
    if k == "name"@ {
        given(name)
    } else if k == "description"@ {
        given(description)
    } else if k == "renewalDate"@ {
        given(renewal_date)
    } else if k == "ownerId"@ {
        match owner_id {
            Some(id) => Some(JsonV::Number(decimal(id as nat))),
            None => None,
        }
    } else {
        None
    }
}

/// `policy update` sends a confirmed `PUT /policies/{id}` whose body
/// carries every given flag under its API key and nothing else.
pub proof fn lemma_policy_update_body(a: PolicyAction)
    ensures
        a matches PolicyAction::Update { policy_id, name, owner_id, description, renewal_date } ==> (policy_plan(a) matches Ok(
            PlanV::Send { method, path, body: Some(b), confirm },
        ) && method == "PUT"@ && path == "/policies/"@ + policy_id@ && confirm && forall|k: Seq<char>|
            #[trigger] member(b, k) == policy_update_member(k, name, owner_id, description, renewal_date)),
{
    reveal_strlit("name");
    reveal_strlit("description");
    reveal_strlit("renewalDate");
    reveal_strlit("ownerId");
    assert("name"@.len() == 4 && "name"@[0] == 'n');
    assert("description"@.len() == 11 && "description"@[0] == 'd');
    assert("renewalDate"@.len() == 11 && "renewalDate"@[0] == 'r');
    assert("ownerId"@.len() == 7 && "ownerId"@[0] == 'o');
    if let PolicyAction::Update { name, owner_id, description, renewal_date, .. } = a {
        let m0 = Seq::<(Seq<char>, JsonV)>::empty();
        let m1 = put_opt(m0, "name"@, name);
        let m2 = put_opt(m1, "description"@, description);
        let m3 = put_opt(m2, "renewalDate"@, renewal_date);
        let m4 = match owner_id {
            Some(id) => put_u64(m3, "ownerId"@, id),
            None => m3,
        };
        assert forall|k: Seq<char>| #[trigger] field_of(m4, k) == policy_update_member(k, name, owner_id, description, renewal_date) by {
            lemma_put_opt_field(m0, "name"@, name, k);
            lemma_put_opt_field(m1, "description"@, description, k);
            lemma_put_opt_field(m2, "renewalDate"@, renewal_date, k);
            match owner_id {
                Some(id) => lemma_field_of_insert(m3, "ownerId"@, JsonV::Number(decimal(id as nat)), k),
                None => {},
            }
            assert(field_of(m0, k) is None);
        }
    }
}

/// A policy create without a file posts, confirmed, to `/policies` a body
/// with the name, the owner as a number, the source type in the API's
/// spelling, the description and the renewal date; nothing else. With a
/// file, an UPLOADED policy is a multipart upload of that file with the same
/// five fields, and an EXTERNAL one is confirmed and then refused.
pub proof fn lemma_policy_create_write(
    name: Seq<char>,
    owner: u64,
    source: PolicySourceType,
    description: Seq<char>,
    renewal: Seq<char>,
    file: Option<String>,
)
    ensures
        file is None ==> (create_write(name, owner, source, description, renewal, file) matches Ok(PlanV::Send {
            method,
            path,
            body: Some(b),
            confirm,
        }) && method == "POST"@ && path == "/policies"@ && confirm && forall|k: Seq<char>|
            #[trigger] member(b, k) == (if k == "name"@ {
                Some(JsonV::Str(name))
            } else if k == "ownerId"@ {
                Some(JsonV::Number(decimal(owner as nat)))
            } else if k == "sourceType"@ {
                Some(JsonV::Str(source_type_name(source)))
            } else if k == "description"@ {
                Some(JsonV::Str(description))
            } else if k == "renewalDate"@ {
                Some(JsonV::Str(renewal))
            } else {
                None
            })),
        file is Some ==> (source == PolicySourceType::External ==> (create_write(
            name,
            owner,
            source,
            description,
            renewal,
            file,
        ) matches Ok(PlanV::Refuse { method, path, message }) && method == "POST"@ && path == "/policies"@ && message
            == external_file_text())),
        file matches Some(f) ==> (source != PolicySourceType::External ==> create_write(
            name,
            owner,
            source,
            description,
            renewal,
            file,
        ) == Ok::<PlanV, Seq<char>>(
            PlanV::Upload {
                method: "POST"@,
                path: "/policies"@,
                files: seq![("file"@, f@)],
                fields: seq![
                    ("name"@, name),
                    ("ownerId"@, decimal(owner as nat)),
                    ("sourceType"@, source_type_name(source)),
                    ("description"@, description),
                    ("renewalDate"@, renewal),
                ],
            },
        )),
{
    reveal_strlit("name");
    reveal_strlit("ownerId");
    reveal_strlit("sourceType");
    reveal_strlit("description");
    reveal_strlit("renewalDate");
    assert("name"@.len() == 4 && "name"@[0] == 'n' && "name"@[3] == 'e');
    assert("ownerId"@.len() == 7 && "ownerId"@[0] == 'o' && "ownerId"@[6] == 'd');
    assert("sourceType"@.len() == 10 && "sourceType"@[0] == 's' && "sourceType"@[9] == 'e');
    assert("description"@.len() == 11 && "description"@[0] == 'd' && "description"@[10] == 'n');
    assert("renewalDate"@.len() == 11 && "renewalDate"@[0] == 'r' && "renewalDate"@[10] == 'e');
    let m0 = Seq::<(Seq<char>, JsonV)>::empty();
    let m1 = put_str(m0, "name"@, name);
    let m2 = put_u64(m1, "ownerId"@, owner);
    let m3 = put_str(m2, "sourceType"@, source_type_name(source));
    let m4 = put_str(m3, "description"@, description);
    let m5 = put_str(m4, "renewalDate"@, renewal);
    assert forall|k: Seq<char>| #[trigger] field_of(m5, k) == (if k == "name"@ {
                Some(JsonV::Str(name))
            } else if k == "ownerId"@ {
                Some(JsonV::Number(decimal(owner as nat)))
            } else if k == "sourceType"@ {
                Some(JsonV::Str(source_type_name(source)))
            } else if k == "description"@ {
                Some(JsonV::Str(description))
            } else if k == "renewalDate"@ {
                Some(JsonV::Str(renewal))
            } else {
                None
            }) by {
        lemma_field_of_insert(m0, "name"@, JsonV::Str(name), k);
        lemma_field_of_insert(m1, "ownerId"@, JsonV::Number(decimal(owner as nat)), k);
        lemma_field_of_insert(m2, "sourceType"@, JsonV::Str(source_type_name(source)), k);
        lemma_field_of_insert(m3, "description"@, JsonV::Str(description), k);
        lemma_field_of_insert(m4, "renewalDate"@, JsonV::Str(renewal), k);
        assert(field_of(m0, k) is None);
    }
}

} // verus!
