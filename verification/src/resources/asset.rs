//! `drata asset ...`: assets. Creating one needs a name, a description, a
//! type, at least one class type and an owner; updates are sparse.

use vstd::prelude::*;
use crate::cli::{AssetAction, AssetClassType, AssetType};
use crate::client::with_query;
use crate::expand::{append_expand, expand_pairs};
use crate::json::{field_of, fields_view, items_view, lemma_field_of_insert, map_insert, member, Json, JsonV};
use crate::resources::{
    given, lemma_put_opt_field, lemma_put_str_field,
    cat2, curated_example, list_plan, list_v, missing_value, planned, put_opt, put_str, put_u64, requires_text,
    send_empty, send_object, set_opt, set_str, set_u64, Plan, PlanV, UsageError,
};
use crate::spec::{required_example, ExampleError};

verus! {

/// The spec value of an asset type.
pub open spec fn asset_type_name(t: AssetType) -> Seq<char> {
    match t {
        AssetType::Physical => "PHYSICAL"@,
        AssetType::Virtual => "VIRTUAL"@,
    }
}

/// Renders an asset type as the API spells it.
pub fn asset_type_str(at: &AssetType) -> (r: &'static str)
    ensures
        r@ == asset_type_name(*at),
{
    match at {
        AssetType::Physical => "PHYSICAL",
        AssetType::Virtual => "VIRTUAL",
    }
}

/// The spec value of an asset class type.
pub open spec fn asset_class_name(t: AssetClassType) -> Seq<char> {
    match t {
        AssetClassType::Hardware => "HARDWARE"@,
        AssetClassType::Policy => "POLICY"@,
        AssetClassType::Document => "DOCUMENT"@,
        AssetClassType::Personnel => "PERSONNEL"@,
        AssetClassType::Software => "SOFTWARE"@,
        AssetClassType::Code => "CODE"@,
        AssetClassType::Container => "CONTAINER"@,
        AssetClassType::Compute => "COMPUTE"@,
        AssetClassType::Networking => "NETWORKING"@,
        AssetClassType::Database => "DATABASE"@,
        AssetClassType::Storage => "STORAGE"@,
    }
}

/// Renders an asset class type as the API spells it.
pub fn asset_class_type_str(t: &AssetClassType) -> (r: &'static str)
    ensures
        r@ == asset_class_name(*t),
{
    match t {
        AssetClassType::Hardware => "HARDWARE",
        AssetClassType::Policy => "POLICY",
        AssetClassType::Document => "DOCUMENT",
        AssetClassType::Personnel => "PERSONNEL",
        AssetClassType::Software => "SOFTWARE",
        AssetClassType::Code => "CODE",
        AssetClassType::Container => "CONTAINER",
        AssetClassType::Compute => "COMPUTE",
        AssetClassType::Networking => "NETWORKING",
        AssetClassType::Database => "DATABASE",
        AssetClassType::Storage => "STORAGE",
    }
}

/// The `--example` skeleton of `asset create`, `None` for other commands.
pub fn example_if_requested(action: &AssetAction, doc: &Json) -> (r: Option<Result<String, ExampleError>>)
    ensures
        r is Some <==> (*action matches AssetAction::Create { example, .. } && example),
        r matches Some(x) ==> curated_example(doc@, "POST"@, "/assets"@, x),
{
    match action {
        AssetAction::Create { example, .. } => if *example {
            Some(required_example(doc, "POST", "/assets"))
        } else {
            None
        },
        _ => None,
    }
}

/// The JSON strings of some class types.
pub open spec fn class_items(ts: Seq<AssetClassType>) -> Seq<JsonV> {
    ts.map_values(|t: AssetClassType| JsonV::Str(asset_class_name(t)))
}

/// The JSON array of class types, as the API spells them.
fn class_array(ts: &Vec<AssetClassType>) -> (r: Json)
    ensures
        r@ == JsonV::Array(class_items(ts@)),
{
    let mut items: Vec<Json> = Vec::new();
    let mut i: usize = 0;
    while i < ts.len()
        invariant
            i <= ts@.len(),
            items_view(items@) == class_items(ts@).subrange(0, i as int),
        decreases ts.len() - i,
    {
        let ghost before = items@;
        let name = asset_class_type_str(&ts[i]);
        let item = Json::Str(name.to_string());
        assert(item@ == JsonV::Str(asset_class_name(ts@[i as int])));
        items.push(item);
        proof {
            assert(items@.drop_last() =~= before);
            assert(items_view(items@) == items_view(before).push(item@));
            assert(class_items(ts@).subrange(0, i + 1) =~= class_items(ts@).subrange(0, i as int).push(
                JsonV::Str(asset_class_name(ts@[i as int])),
            ));
        }
        i = i + 1;
    }
    assert(class_items(ts@).subrange(0, ts@.len() as int) =~= class_items(ts@));
    Json::Array(items)
}

/// The path of one asset.
pub open spec fn asset_path(id: Seq<char>) -> Seq<char> {
    "/assets/"@ + id
}

/// What an asset command asks of the API, or why it is refused.
pub open spec fn asset_plan(a: AssetAction) -> Result<PlanV, Seq<char>> {
    match a {
        AssetAction::List { all, expand } => Ok(list_v(with_query("/assets"@, expand_pairs(expand@)), all)),
        AssetAction::Get { asset_id, expand } => Ok(
            PlanV::Fetch { path: with_query(asset_path(asset_id@), expand_pairs(expand@)) },
        ),
        AssetAction::Create { name, description, asset_type, asset_class_types, owner_id, notes, .. } => {
            if name is None {
                Err(requires_text("asset create"@, "--name"@))
            } else if description is None {
                Err(requires_text("asset create"@, "--description"@))
            } else if asset_type is None {
                Err(requires_text("asset create"@, "--asset-type"@))
            } else if owner_id is None {
                Err(requires_text("asset create"@, "--owner-id"@))
            } else if asset_class_types@.len() == 0 {
                Err(requires_text("asset create"@, "at least one --asset-class-types"@))
            } else {
                Ok(
                    PlanV::Send {
                        method: "POST"@,
                        path: "/assets"@,
                        body: Some(
                            JsonV::Object(
                                put_opt(
                                    put_u64(
                                        map_insert(
                                            put_str(
                                                put_str(
                                                    put_str(Seq::empty(), "name"@, name.unwrap()@),
                                                    "description"@,
                                                    description.unwrap()@,
                                                ),
                                                "assetType"@,
                                                asset_type_name(asset_type.unwrap()),
                                            ),
                                            "assetClassTypes"@,
                                            JsonV::Array(class_items(asset_class_types@)),
                                        ),
                                        "ownerId"@,
                                        owner_id.unwrap(),
                                    ),
                                    "notes"@,
                                    notes,
                                ),
                            ),
                        ),
                        confirm: true,
                    },
                )
            }
        },
        AssetAction::Update { asset_id, name, description, asset_type, notes } => {
            let b = put_opt(put_opt(put_opt(Seq::empty(), "name"@, name), "description"@, description), "notes"@, notes);
            Ok(
                PlanV::Send {
                    method: "PUT"@,
                    path: asset_path(asset_id@),
                    body: Some(
                        JsonV::Object(
                            match asset_type {
                                Some(t) => put_str(b, "assetType"@, asset_type_name(t)),
                                None => b,
                            },
                        ),
                    ),
                    confirm: true,
                },
            )
        },
        AssetAction::Remove { asset_id } => Ok(
            PlanV::Send { method: "DELETE"@, path: asset_path(asset_id@), body: None, confirm: true },
        ),
    }
}

/// Plans an asset command: the request it makes, or why it is refused
/// before anything is sent.
pub fn plan(action: &AssetAction) -> (r: Result<Plan, UsageError>)
    ensures
        planned(r, asset_plan(*action)),
{
    match action {
        AssetAction::List { all, expand } => Ok(list_plan(append_expand("/assets", expand.as_slice()), *all)),
        AssetAction::Get { asset_id, expand } => {
            let p = cat2("/assets/", asset_id.as_str());
            Ok(Plan::Fetch { path: append_expand(p.as_str(), expand.as_slice()) })
        },
        AssetAction::Create { name, description, asset_type, asset_class_types, owner_id, notes, .. } => {
            let name = match name {
                Some(n) => n,
                None => return Err(missing_value("asset create", "--name")),
            };
            let description = match description {
                Some(d) => d,
                None => return Err(missing_value("asset create", "--description")),
            };
            let asset_type = match asset_type {
                Some(t) => t,
                None => return Err(missing_value("asset create", "--asset-type")),
            };
            let owner_id = match owner_id {
                Some(o) => *o,
                None => return Err(missing_value("asset create", "--owner-id")),
            };
            if asset_class_types.len() == 0 {
                return Err(missing_value("asset create", "at least one --asset-class-types"));
            }
            let mut body: Vec<(String, Json)> = Vec::new();
            assert(fields_view(body@) =~= Seq::<(Seq<char>, JsonV)>::empty());
            set_str(&mut body, "name", name.as_str());
            set_str(&mut body, "description", description.as_str());
            set_str(&mut body, "assetType", asset_type_str(asset_type));
            crate::json::insert_member(&mut body, "assetClassTypes".to_string(), class_array(asset_class_types));
            set_u64(&mut body, "ownerId", owner_id);
            set_opt(&mut body, "notes", notes);
            Ok(send_object("POST", "/assets".to_string(), body, true))
        },
        AssetAction::Update { asset_id, name, description, asset_type, notes } => {
            let mut body: Vec<(String, Json)> = Vec::new();
            assert(fields_view(body@) =~= Seq::<(Seq<char>, JsonV)>::empty());
            set_opt(&mut body, "name", name);
            set_opt(&mut body, "description", description);
            set_opt(&mut body, "notes", notes);
            match asset_type {
                Some(t) => set_str(&mut body, "assetType", asset_type_str(t)),
                None => {},
            }
            Ok(send_object("PUT", cat2("/assets/", asset_id.as_str()), body, true))
        },
        AssetAction::Remove { asset_id } => Ok(send_empty("DELETE", cat2("/assets/", asset_id.as_str()))),
    }
}

/// The member an asset update body holds under `k`: each given flag under
/// its API key (the type in the API's spelling), nothing else.
pub open spec fn asset_update_member(
    k: Seq<char>,
    name: Option<String>,
    description: Option<String>,
    asset_type: Option<AssetType>,
    notes: Option<String>,
) -> Option<JsonV> {
    if k == "name"@ {
        given(name)
    } else if k == "description"@ {
        given(description)
    } else if k == "notes"@ {
        given(notes)
    } else if k == "assetType"@ {
        match asset_type {
            Some(t) => Some(JsonV::Str(asset_type_name(t))),
            None => None,
        }
    } else {
        None
    }
}

/// `asset update` sends a confirmed `PUT` of the asset whose body carries
/// every given flag under its API key and nothing else.
pub proof fn lemma_asset_update_body(a: AssetAction)
    ensures
        a matches AssetAction::Update { asset_id, name, description, asset_type, notes } ==> (asset_plan(a) matches Ok(
            PlanV::Send { method, path, body: Some(b), confirm },
        ) && method == "PUT"@ && path == asset_path(asset_id@) && confirm && forall|k: Seq<char>|
            #[trigger] member(b, k) == asset_update_member(k, name, description, asset_type, notes)),
{
    reveal_strlit("name");
    reveal_strlit("description");
    reveal_strlit("notes");
    reveal_strlit("assetType");
    assert("name"@.len() == 4 && "name"@[0] == 'n');
    assert("description"@.len() == 11 && "description"@[0] == 'd');
    assert("notes"@.len() == 5 && "notes"@[0] == 'n');
    assert("assetType"@.len() == 9 && "assetType"@[0] == 'a');
    if let AssetAction::Update { name, description, asset_type, notes, .. } = a {
        let m0 = Seq::<(Seq<char>, JsonV)>::empty();
        let m1 = put_opt(m0, "name"@, name);
        let m2 = put_opt(m1, "description"@, description);
        let m3 = put_opt(m2, "notes"@, notes);
        let m4 = match asset_type {
            Some(t) => put_str(m3, "assetType"@, asset_type_name(t)),
            None => m3,
        };
        assert forall|k: Seq<char>| #[trigger] field_of(m4, k) == asset_update_member(k, name, description, asset_type, notes) by {
            lemma_put_opt_field(m0, "name"@, name, k);
            lemma_put_opt_field(m1, "description"@, description, k);
            lemma_put_opt_field(m2, "notes"@, notes, k);
            match asset_type {
                Some(t) => lemma_put_str_field(m3, "assetType"@, asset_type_name(t), k),
                None => {},
            }
            assert(field_of(m0, k) is None);
        }
    }
}

/// `asset create` with all its required values posts, confirmed, to
/// `/assets` a body with the name, description, type, class types (in the
/// API's spelling, in order), the owner as a number, and the notes when
/// given; nothing else.
pub proof fn lemma_asset_create_body(a: AssetAction)
    ensures
        a matches AssetAction::Create { name, description, asset_type, asset_class_types, owner_id, notes, .. } ==> (
        name is Some && description is Some && asset_type is Some && owner_id is Some && asset_class_types@.len() > 0
            ==> (asset_plan(a) matches Ok(PlanV::Send { method, path, body: Some(b), confirm }) && method == "POST"@
            && path == "/assets"@ && confirm && forall|k: Seq<char>|
            #[trigger] member(b, k) == (if k == "name"@ {
                Some(JsonV::Str(name.unwrap()@))
            } else if k == "description"@ {
                Some(JsonV::Str(description.unwrap()@))
            } else if k == "assetType"@ {
                Some(JsonV::Str(asset_type_name(asset_type.unwrap())))
            } else if k == "assetClassTypes"@ {
                Some(JsonV::Array(class_items(asset_class_types@)))
            } else if k == "ownerId"@ {
                Some(JsonV::Number(crate::text::decimal(owner_id.unwrap() as nat)))
            } else if k == "notes"@ {
                given(notes)
            } else {
                None
            }))),
{
    reveal_strlit("name");
    reveal_strlit("description");
    reveal_strlit("assetType");
    reveal_strlit("assetClassTypes");
    reveal_strlit("ownerId");
    reveal_strlit("notes");
    assert("name"@.len() == 4 && "name"@[0] == 'n' && "name"@[3] == 'e');
    assert("description"@.len() == 11 && "description"@[0] == 'd' && "description"@[10] == 'n');
    assert("assetType"@.len() == 9 && "assetType"@[0] == 'a' && "assetType"@[8] == 'e');
    assert("assetClassTypes"@.len() == 15 && "assetClassTypes"@[0] == 'a' && "assetClassTypes"@[14] == 's');
    assert("ownerId"@.len() == 7 && "ownerId"@[0] == 'o' && "ownerId"@[6] == 'd');
    assert("notes"@.len() == 5 && "notes"@[0] == 'n' && "notes"@[4] == 's');
    if let AssetAction::Create { name, description, asset_type, asset_class_types, owner_id, notes, .. } = a {
        if name is Some && description is Some && asset_type is Some && owner_id is Some && asset_class_types@.len() > 0 {
            let m0 = Seq::<(Seq<char>, JsonV)>::empty();
            let m1 = put_str(m0, "name"@, name.unwrap()@);
            let m2 = put_str(m1, "description"@, description.unwrap()@);
            let m3 = put_str(m2, "assetType"@, asset_type_name(asset_type.unwrap()));
            let m4 = map_insert(m3, "assetClassTypes"@, JsonV::Array(class_items(asset_class_types@)));
            let m5 = put_u64(m4, "ownerId"@, owner_id.unwrap());
            let m6 = put_opt(m5, "notes"@, notes);
            assert forall|k: Seq<char>| #[trigger] field_of(m6, k) == (if k == "name"@ {
                Some(JsonV::Str(name.unwrap()@))
            } else if k == "description"@ {
                Some(JsonV::Str(description.unwrap()@))
            } else if k == "assetType"@ {
                Some(JsonV::Str(asset_type_name(asset_type.unwrap())))
            } else if k == "assetClassTypes"@ {
                Some(JsonV::Array(class_items(asset_class_types@)))
            } else if k == "ownerId"@ {
                Some(JsonV::Number(crate::text::decimal(owner_id.unwrap() as nat)))
            } else if k == "notes"@ {
                given(notes)
            } else {
                None
            }) by {
                lemma_put_str_field(m0, "name"@, name.unwrap()@, k);
                lemma_put_str_field(m1, "description"@, description.unwrap()@, k);
                lemma_put_str_field(m2, "assetType"@, asset_type_name(asset_type.unwrap()), k);
                lemma_field_of_insert(m3, "assetClassTypes"@, JsonV::Array(class_items(asset_class_types@)), k);
                lemma_field_of_insert(m4, "ownerId"@, JsonV::Number(crate::text::decimal(owner_id.unwrap() as nat)), k);
                lemma_put_opt_field(m5, "notes"@, notes, k);
                assert(field_of(m0, k) is None);
            }
        }
    }
}

} // verus!
