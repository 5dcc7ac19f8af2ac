use drata_cli::cli::{
    AssetAction, ControlAction, EvidenceAction, FrameworkAction, PolicyAction, RawArgs, RegisterAction, RiskAction, VendorAction,
};
use drata_cli::json::Json;
use drata_cli::raw::{example_if_requested, example_skeleton};
use drata_cli::resources::{asset, control, evidence, framework, policy, register, risk, vendor};
use drata_cli::spec::{example_for_operation, find_by_method_path, operation_tags, operations, required_example};

const FIXTURE: &str = r##"{
  "tags": [{"name": "Vendors"}],
  "paths": {
    "/vendors": {
      "parameters": [],
      "get": {"operationId": "listVendors", "tags": ["Vendors"]},
      "post": {
        "operationId": "createVendor",
        "tags": ["Vendors"],
        "requestBody": {"content": {"application/json": {"schema": {"$ref": "#/components/schemas/CreateVendor"}}}}
      }
    },
    "/vendors/{id}/documents": {
      "post": {
        "operationId": "uploadVendorDocument",
        "tags": ["Vendors", "Audit Requests"],
        "requestBody": {"content": {"multipart/form-data": {"schema": {"type": "object"}}}}
      }
    },
    "/assets": {
      "post": {
        "operationId": "createAsset",
        "tags": ["Assets"],
        "requestBody": {"content": {"application/json": {"schema": {
          "type": "object",
          "required": ["name", "ownerId"],
          "properties": {"name": {"type": "string"}, "ownerId": {"type": "integer"}, "notes": {"type": "string"}}
        }}}}
      }
    },
    "/risk-registers": {
      "post": {
        "operationId": "createRiskRegister",
        "tags": ["Risk Management"],
        "requestBody": {"content": {"application/json": {"schema": {
          "type": "object", "required": ["name"], "properties": {"name": {"type": "string", "example": "Main"}}
        }}}}
      }
    }
  },
  "components": {
    "schemas": {
      "CreateVendor": {
        "type": "object",
        "required": ["name"],
        "properties": {
          "name": {"type": "string", "example": "Acme"},
          "risk": {"allOf": [{"$ref": "#/components/schemas/VendorRisk"}], "default": "LOW"},
          "notes": {"type": "string"}
        }
      },
      "VendorRisk": {"type": "string", "enum": ["NONE", "LOW", "MODERATE", "HIGH"]}
    }
  }
}"##;

fn to_json(v: &serde_json::Value) -> Json {
    match v {
        serde_json::Value::Null => Json::Null,
        serde_json::Value::Bool(b) => Json::Bool(*b),
        serde_json::Value::Number(n) => Json::Number(n.to_string()),
        serde_json::Value::String(s) => Json::Str(s.clone()),
        serde_json::Value::Array(a) => Json::Array(a.iter().map(to_json).collect()),
        serde_json::Value::Object(m) => Json::Object(m.iter().map(|(k, v)| (k.clone(), to_json(v))).collect()),
    }
}

fn doc() -> Json {
    to_json(&serde_json::from_str(FIXTURE).unwrap())
}

fn raw_args(example: bool) -> RawArgs {
    RawArgs {
        method: "post".into(),
        path: "/vendors".into(),
        query: vec![],
        data: None,
        file: vec![],
        file_field: None,
        field: vec![],
        example,
    }
}

#[test]
fn example_skeleton_unknown_op_errors() {
    let err = example_skeleton(&doc(), "post", "/no/such/path").unwrap_err();
    assert!(err.message().contains("no operation"));
}

#[test]
fn example_skeleton_get_has_no_body() {
    let err = example_skeleton(&doc(), "get", "/vendors").unwrap_err();
    assert!(err.message().contains("no JSON request body"));
}

#[test]
fn example_skeleton_known_op_returns_json() {
    let out = example_skeleton(&doc(), "post", "/vendors").unwrap();
    let parsed: serde_json::Value = serde_json::from_str(&out).unwrap();
    assert!(parsed.get("name").is_some());
}

#[test]
fn example_skeleton_messages_are_exact() {
    let err = example_skeleton(&doc(), "get", "/vendors").unwrap_err();
    assert_eq!(err.message(), "`GET /vendors` has no JSON request body (it may be a GET or a multipart upload)");
    let err = example_skeleton(&doc(), "post", "/nope").unwrap_err();
    assert_eq!(
        err.message(),
        "no operation `POST /nope` in the spec; check the method and path template (e.g. /vendors/{id})"
    );
}

#[test]
fn example_if_requested_none_without_flag() {
    assert!(example_if_requested(&raw_args(false), &doc()).is_none());
}

#[test]
fn example_if_requested_some_with_flag() {
    let out = example_if_requested(&raw_args(true), &doc()).unwrap().unwrap();
    assert!(out.contains("name"));
}

#[test]
fn find_by_method_path_resolves_a_known_op() {
    let op = find_by_method_path(&doc(), "post", "/vendors").unwrap();
    assert!(op.is_some());
    let op = op.unwrap();
    assert_eq!(op.method, "POST");
    assert!(op.tags.contains(&"Vendors".to_string()));
}

#[test]
fn find_by_method_path_returns_none_for_unknown() {
    assert!(find_by_method_path(&doc(), "get", "/no/such/path").unwrap().is_none());
}

#[test]
fn operations_come_from_every_path_and_method() {
    let ops = operations(&doc()).unwrap();
    let listed: Vec<(String, String)> = ops.iter().map(|o| (o.method.clone(), o.path.clone())).collect();
    assert_eq!(
        listed,
        vec![
            ("POST".to_string(), "/assets".to_string()),
            ("POST".to_string(), "/risk-registers".to_string()),
            ("GET".to_string(), "/vendors".to_string()),
            ("POST".to_string(), "/vendors".to_string()),
            ("POST".to_string(), "/vendors/{id}/documents".to_string()),
        ]
    );
    let multipart = ops.iter().filter(|o| o.multipart).count();
    assert_eq!(multipart, 1);
}

#[test]
fn operation_tags_are_sorted_and_distinct() {
    let tags = operation_tags(&doc()).unwrap();
    assert_eq!(tags, vec!["Assets", "Audit Requests", "Risk Management", "Vendors"]);
}

#[test]
fn document_without_paths_is_an_error() {
    let empty = to_json(&serde_json::from_str("{}").unwrap());
    assert!(operations(&empty).is_err());
    assert!(find_by_method_path(&empty, "get", "/vendors").is_err());
}

#[test]
fn example_for_get_operation_is_none() {
    assert!(example_for_operation(&doc(), "get", "/vendors").is_none());
}

#[test]
fn example_for_unknown_operation_is_none() {
    assert!(example_for_operation(&doc(), "post", "/no/such/path").is_none());
}

#[test]
fn example_resolves_enum_refs_to_a_real_value() {
    let example = example_for_operation(&doc(), "post", "/vendors").unwrap();
    assert!(!example.contains("$ref"), "skeleton must not leak a raw $ref: {example}");
}

#[test]
fn example_for_create_vendor_includes_required_name() {
    let example = example_for_operation(&doc(), "post", "/vendors").unwrap();
    assert_eq!(example, "{\n  \"name\": \"Acme\",\n  \"risk\": \"LOW\"\n}\n");
    let parsed: serde_json::Value = serde_json::from_str(&example).unwrap();
    assert!(parsed.is_object());
}

#[test]
fn required_example_refuses_operation_without_body() {
    let err = required_example(&doc(), "GET", "/vendors").unwrap_err();
    assert_eq!(err.message(), "operation `GET /vendors` has no JSON request body");
}

#[test]
fn example_requested_for_create_with_example_flag() {
    let action = RegisterAction::Create {
        name: None,
        description: None,
        owner_ids: Some(vec![]),
        workspace_ids: Some(vec![]),
        example: true,
    };
    let result = register::example_if_requested(&action, &doc());
    assert!(result.is_some(), "expected Some for create --example");
    let inner = result.expect("Some").expect("skeleton should not error");
    assert!(!inner.is_empty(), "skeleton should not be empty");
    assert_eq!(inner, "{\n  \"name\": \"Main\"\n}\n");
}

#[test]
fn example_not_requested_for_list() {
    assert!(register::example_if_requested(&RegisterAction::List, &doc()).is_none());
}

#[test]
fn example_not_requested_for_get() {
    let action = RegisterAction::Get { register_id: "1".to_string() };
    assert!(register::example_if_requested(&action, &doc()).is_none());
}

#[test]
fn example_not_requested_when_example_false() {
    let action = RegisterAction::Create {
        name: Some("test".to_string()),
        description: None,
        owner_ids: Some(vec![]),
        workspace_ids: Some(vec![]),
        example: false,
    };
    assert!(register::example_if_requested(&action, &doc()).is_none());
}

#[test]
fn example_only_for_create_with_flag() {
    let create_example = AssetAction::Create {
        name: None,
        description: None,
        asset_type: None,
        asset_class_types: vec![],
        owner_id: None,
        notes: None,
        example: true,
    };
    let out = asset::example_if_requested(&create_example, &doc());
    assert!(out.is_some());
    assert_eq!(out.unwrap().unwrap(), "{\n  \"name\": \"string\",\n  \"ownerId\": 0\n}\n");

    let create_no_example = AssetAction::Create {
        name: Some("a".to_string()),
        description: None,
        asset_type: None,
        asset_class_types: vec![],
        owner_id: None,
        notes: None,
        example: false,
    };
    assert!(asset::example_if_requested(&create_no_example, &doc()).is_none());

    let list = AssetAction::List { all: false, expand: vec![] };
    assert!(asset::example_if_requested(&list, &doc()).is_none());
}

#[test]
fn tests_example_only_for_create_with_flag() {
    let create_example = ControlAction::Create {
        workspace_id: None,
        name: None,
        description: None,
        code: None,
        question: None,
        activity: None,
        example: true,
    };
    let out = control::example_if_requested(&create_example, &doc()).unwrap();
    assert_eq!(
        out.unwrap_err().message(),
        "operation `POST /workspaces/{workspaceId}/controls` has no JSON request body"
    );
    let create_no_example = ControlAction::Create {
        workspace_id: Some("1".to_string()),
        name: Some("c".to_string()),
        description: None,
        code: None,
        question: None,
        activity: None,
        example: false,
    };
    assert!(control::example_if_requested(&create_no_example, &doc()).is_none());
    let list = ControlAction::List { workspace_id: "1".to_string(), all: false, expand: vec![] };
    assert!(control::example_if_requested(&list, &doc()).is_none());
}

#[test]
fn evidence_example_only_for_create_with_flag() {
    let create_example = EvidenceAction::Create {
        workspace_id: None,
        name: None,
        description: None,
        renewal_schedule_type: None,
        file: None,
        example: true,
    };
    assert!(evidence::example_if_requested(&create_example, &doc()).is_some());
    let create_no_example = EvidenceAction::Create {
        workspace_id: Some("1".to_string()),
        name: Some("e".to_string()),
        description: None,
        renewal_schedule_type: None,
        file: None,
        example: false,
    };
    assert!(evidence::example_if_requested(&create_no_example, &doc()).is_none());
    let list = EvidenceAction::List { workspace_id: "1".to_string(), all: false, expand: vec![] };
    assert!(evidence::example_if_requested(&list, &doc()).is_none());
}

#[test]
fn framework_example_only_for_create_with_flag() {
    let create_example = FrameworkAction::Create {
        workspace_id: None,
        name: None,
        short_name: None,
        description: None,
        example: true,
    };
    assert!(framework::example_if_requested(&create_example, &doc()).is_some());
    let create_no_example = FrameworkAction::Create {
        workspace_id: Some("1".to_string()),
        name: Some("f".to_string()),
        short_name: None,
        description: None,
        example: false,
    };
    assert!(framework::example_if_requested(&create_no_example, &doc()).is_none());
    let list = FrameworkAction::List { workspace_id: "1".to_string() };
    assert!(framework::example_if_requested(&list, &doc()).is_none());
}

#[test]
fn policy_example_only_for_create_with_flag() {
    let create_example = PolicyAction::Create {
        name: None,
        owner_id: None,
        source_type: None,
        description: None,
        renewal_date: None,
        file: None,
        example: true,
    };
    assert!(policy::example_if_requested(&create_example, &doc()).is_some());
    let create_no_example = PolicyAction::Create {
        name: Some("p".to_string()),
        owner_id: None,
        source_type: None,
        description: None,
        renewal_date: None,
        file: None,
        example: false,
    };
    assert!(policy::example_if_requested(&create_no_example, &doc()).is_none());
    let list = PolicyAction::List { all: false, expand: vec![] };
    assert!(policy::example_if_requested(&list, &doc()).is_none());
}

#[test]
fn example_if_requested_for_vendor_create() {
    let create = VendorAction::Create {
        name: None,
        category: None,
        risk: None,
        status: None,
        url: None,
        notes: None,
        example: true,
    };
    assert_eq!(vendor::example_if_requested(&create), Some(vendor::VENDOR_CREATE_EXAMPLE));
    let parsed: serde_json::Value = serde_json::from_str(vendor::VENDOR_CREATE_EXAMPLE).unwrap();
    assert_eq!(parsed["name"], "Example Vendor");
}

#[test]
fn example_if_requested_none_for_list() {
    let list = VendorAction::List { patterns: vec![], all: false, expand: vec![] };
    assert!(vendor::example_if_requested(&list).is_none());
}

fn tags_document() -> Json {
    let mut top: Vec<String> = Vec::new();
    let mut paths: Vec<String> = Vec::new();
    for i in 1..=33 {
        top.push(format!("{{\"name\": \"Area {i:02}\"}}"));
        paths.push(format!(
            "\"/area{i}\": {{\"get\": {{\"operationId\": \"listArea{i}\", \"tags\": [\"Area {i:02}\"]}}, \"post\": {{\"operationId\": \"createArea{i}\", \"tags\": [\"Area {i:02}\"]}}}}"
        ));
    }
    paths.push(
        "\"/audit-requests\": {\"get\": {\"operationId\": \"listAuditRequests\", \"tags\": [\"Audit Requests\"]}}"
            .to_string(),
    );
    paths.push(
        "\"/procurement-connection-mappings\": {\"get\": {\"operationId\": \"listMappings\", \"tags\": [\"Procurement Connection Mappings\", \"Area 01\"]}}"
            .to_string(),
    );
    let text = format!("{{\"tags\": [{}], \"paths\": {{{}}}}}", top.join(", "), paths.join(", "));
    to_json(&serde_json::from_str(&text).unwrap())
}

#[test]
fn operation_tags_include_the_two_missing_from_top_level() {
    let tags = operation_tags(&tags_document()).unwrap();
    assert_eq!(tags.len(), 35, "expected 35 operation-level tags, got {}", tags.len());
    assert!(tags.contains(&"Audit Requests".to_string()));
    assert!(tags.contains(&"Procurement Connection Mappings".to_string()));
}

#[test]
fn risk_example_only_for_create_with_flag() {
    let create_example = RiskAction::Create {
        register_id: None,
        title: None,
        description: None,
        treatment_plan: None,
        impact: None,
        likelihood: None,
        status: None,
        example: true,
    };
    assert!(risk::example_if_requested(&create_example, &doc()).is_some());
    let create_no_example = RiskAction::Create {
        register_id: Some("1".to_string()),
        title: Some("t".to_string()),
        description: None,
        treatment_plan: None,
        impact: None,
        likelihood: None,
        status: None,
        example: false,
    };
    assert!(risk::example_if_requested(&create_no_example, &doc()).is_none());
    let list = RiskAction::List { register_id: "1".to_string(), all: false, expand: vec![] };
    assert!(risk::example_if_requested(&list, &doc()).is_none());
}
