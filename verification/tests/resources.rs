use drata_cli::cli::{
    AssetAction, AssetClassType, AssetType, AuditAction, CompanyAction, ControlAction, DeviceAction,
    DeviceDocumentType, EmploymentStatus, EventAction, EvidenceAction, MonitorAction, PersonnelAction, PolicyAction,
    PolicySourceType, RegisterAction, RenewalScheduleType, RiskAction, RiskStatus, RiskTreatmentPlan, SecurityReviewStatus,
    SecurityReviewType, UserAction, VendorAction, VendorQuestionnaireAction, VendorSecurityReviewAction,
    WorkspaceAction,
};
use drata_cli::json::Json;
use drata_cli::json_text::to_compact;
use drata_cli::resources::{
    asset, audit, company, control, device, event, evidence, framework, monitor, personnel, policy, register, risk,
    set_opt, user, vendor, workspace, Plan,
};

fn body_text(plan: &Plan) -> String {
    match plan {
        Plan::Send { body: Some(b), .. } => to_compact(b),
        _ => String::new(),
    }
}

fn send_parts(plan: &Plan) -> (String, String, bool) {
    match plan {
        Plan::Send { method, path, confirm, .. } => (method.clone(), path.clone(), *confirm),
        _ => (String::new(), String::new(), false),
    }
}

fn object_text(members: Vec<(String, Json)>) -> String {
    to_compact(&Json::Object(members))
}

#[test]
fn asset_type_str_roundtrips() {
    assert_eq!(asset::asset_type_str(&AssetType::Physical), "PHYSICAL");
    assert_eq!(asset::asset_type_str(&AssetType::Virtual), "VIRTUAL");
    assert_eq!(asset::asset_class_type_str(&AssetClassType::Networking), "NETWORKING");
}

#[test]
fn renewal_schedule_type_str_roundtrips() {
    assert_eq!(evidence::renewal_schedule_type_str(&RenewalScheduleType::OneMonth), "ONE_MONTH");
    assert_eq!(evidence::renewal_schedule_type_str(&RenewalScheduleType::OneYear), "ONE_YEAR");
    assert_eq!(evidence::renewal_schedule_type_str(&RenewalScheduleType::NoSchedule), "NONE");
    assert_eq!(evidence::renewal_schedule_type_str(&RenewalScheduleType::Custom), "CUSTOM");
}

#[test]
fn employment_status_str_roundtrips() {
    assert_eq!(personnel::employment_status_str(&EmploymentStatus::CurrentEmployee), "CURRENT_EMPLOYEE");
    assert_eq!(personnel::employment_status_str(&EmploymentStatus::FormerEmployee), "FORMER_EMPLOYEE");
    assert_eq!(personnel::employment_status_str(&EmploymentStatus::ServiceAccount), "SERVICE_ACCOUNT");
    assert_eq!(personnel::employment_status_str(&EmploymentStatus::FutureHire), "FUTURE_HIRE");
}

#[test]
fn source_type_str_roundtrips() {
    assert_eq!(policy::source_type_str(&PolicySourceType::Uploaded), "UPLOADED");
    assert_eq!(policy::source_type_str(&PolicySourceType::External), "EXTERNAL");
}

#[test]
fn treatment_plan_str_roundtrips() {
    assert_eq!(risk::treatment_plan_str(&RiskTreatmentPlan::Untreated), "UNTREATED");
    assert_eq!(risk::treatment_plan_str(&RiskTreatmentPlan::Accept), "ACCEPT");
    assert_eq!(risk::treatment_plan_str(&RiskTreatmentPlan::Mitigate), "MITIGATE");
    assert_eq!(risk::risk_status_str(&RiskStatus::Archived), "ARCHIVED");
}

#[test]
fn device_document_and_security_review_spellings() {
    assert_eq!(
        device::device_document_type_str(&DeviceDocumentType::HardDriveEncryptionEvidence),
        "HARD_DRIVE_ENCRYPTION_EVIDENCE"
    );
    assert_eq!(vendor::status_str(&SecurityReviewStatus::NotYetStarted), "NOT_YET_STARTED");
    assert_eq!(vendor::type_str(&SecurityReviewType::SocReport), "SOC_REPORT");
}

#[test]
fn set_opt_inserts_only_present_values() {
    let mut body: Vec<(String, Json)> = Vec::new();
    set_opt(&mut body, "name", &Some("Laptop".to_string()));
    set_opt(&mut body, "notes", &None);
    assert_eq!(object_text(body), r#"{"name":"Laptop"}"#);
}

#[test]
fn tests_set_opt_inserts_only_present_values() {
    let mut body: Vec<(String, Json)> = Vec::new();
    set_opt(&mut body, "name", &Some("x".to_string()));
    set_opt(&mut body, "category", &Some("SECURITY".to_string()));
    set_opt(&mut body, "risk", &None);
    assert_eq!(object_text(body), r#"{"category":"SECURITY","name":"x"}"#);
}

#[test]
fn personnel_set_opt_inserts_only_present_values() {
    let mut body: Vec<(String, Json)> = Vec::new();
    set_opt(&mut body, "startedAt", &Some("2024-01-01".to_string()));
    set_opt(&mut body, "separatedAt", &None);
    assert_eq!(object_text(body), r#"{"startedAt":"2024-01-01"}"#);
}

#[test]
fn audit_actions_are_constructible() {
    let list = AuditAction::List { workspace_id: "ws1".to_string(), all: false };
    assert!(matches!(list, AuditAction::List { .. }));
    let get = AuditAction::Get { workspace_id: "ws1".to_string(), audit_id: "a1".to_string() };
    assert!(matches!(get, AuditAction::Get { .. }));
    assert!(matches!(audit::plan(&get).unwrap(), Plan::Fetch { path } if path == "/workspaces/ws1/audits/a1"));
}

#[test]
fn company_action_get_compiles() {
    let action = CompanyAction::Get;
    assert!(matches!(action, CompanyAction::Get));
    assert!(matches!(company::plan(&action).unwrap(), Plan::Fetch { path } if path == "/company"));
}

#[test]
fn workspace_action_list_compiles() {
    let action = WorkspaceAction::List;
    assert!(matches!(action, WorkspaceAction::List));
    assert!(matches!(workspace::plan(&action).unwrap(), Plan::List { path, .. } if path == "/workspaces"));
}

#[test]
fn event_actions_are_constructible() {
    let list = EventAction::List { all: false };
    assert!(matches!(list, EventAction::List { .. }));
    let get = EventAction::Get { event_id: "e1".to_string() };
    assert!(matches!(get, EventAction::Get { .. }));
    assert!(matches!(event::plan(&EventAction::List { all: true }).unwrap(), Plan::Stream { path } if path == "/events"));
}

#[test]
fn monitor_actions_are_constructible() {
    let update = MonitorAction::Update {
        workspace_id: "ws1".to_string(),
        test_id: "t1".to_string(),
        name: None,
        enabled: Some(true),
        description: None,
    };
    assert!(matches!(update, MonitorAction::Update { .. }));
    let plan = monitor::plan(&update).unwrap();
    assert_eq!(send_parts(&plan), ("PUT".to_string(), "/workspaces/ws1/monitoring-tests/t1".to_string(), true));
    assert_eq!(body_text(&plan), r#"{"enabled":true}"#);
    for (action, tail) in [
        (MonitorAction::Exclusions { workspace_id: "ws1".to_string(), test_id: "t1".to_string() }, "/exclusions"),
        (MonitorAction::Failures { workspace_id: "ws1".to_string(), test_id: "t1".to_string() }, "/failures"),
        (MonitorAction::Passes { workspace_id: "ws1".to_string(), test_id: "t1".to_string() }, "/passes"),
    ] {
        let want = format!("/workspaces/ws1/monitoring-tests/t1{tail}");
        assert!(matches!(monitor::plan(&action).unwrap(), Plan::List { path, .. } if path == want));
    }
}

#[test]
fn device_action_variants_are_exhaustive() {
    let actions = [
        DeviceAction::List { all: false, expand: vec![] },
        DeviceAction::Get { device_id: "1".to_string(), expand: vec![] },
        DeviceAction::ForPersonnel { personnel_id: "2".to_string(), expand: vec![] },
        DeviceAction::Apps { device_id: "3".to_string() },
    ];
    assert_eq!(actions.len(), 4);
    let upload = DeviceAction::Upload {
        device_id: "9".to_string(),
        file: "/tmp/av.png".to_string(),
        doc_type: DeviceDocumentType::AntivirusEvidence,
    };
    match device::plan(&upload).unwrap() {
        Plan::Upload { method, path, form } => {
            assert_eq!(method, "POST");
            assert_eq!(path, "/devices/9/documents");
            assert_eq!(form.files.len(), 1);
            assert_eq!(form.files[0].field, "file");
            assert_eq!(form.fields, vec![("type".to_string(), "ANTIVIRUS_EVIDENCE".to_string())]);
        },
        _ => panic!("expected an upload"),
    }
}

#[test]
fn user_list_action_is_read_only() {
    let list = UserAction::List { all: false };
    assert!(matches!(list, UserAction::List { .. }));
    let get = UserAction::Get { user_id: "1".to_string() };
    assert!(matches!(get, UserAction::Get { .. }));
    assert!(matches!(UserAction::Roles, UserAction::Roles));
    let role = UserAction::Role { role_id: "2".to_string() };
    assert!(matches!(role, UserAction::Role { .. }));
    let role_users = UserAction::RoleUsers { role_id: "3".to_string(), all: false };
    assert!(matches!(role_users, UserAction::RoleUsers { .. }));
    for action in [list, get, UserAction::Roles, role, role_users] {
        assert!(!matches!(user::plan(&action).unwrap(), Plan::Send { .. } | Plan::Upload { .. }));
    }
}

#[test]
fn vendor_create_requires_name_and_builds_sparse_body() {
    let create = VendorAction::Create {
        name: None,
        category: None,
        risk: None,
        status: None,
        url: None,
        notes: None,
        example: false,
    };
    assert_eq!(vendor::plan(&create).unwrap_err().message, "`drata vendor create` requires --name (or use --example)");
    let create = VendorAction::Create {
        name: Some("Okta".to_string()),
        category: Some("SECURITY".to_string()),
        risk: None,
        status: None,
        url: Some("https://okta.com".to_string()),
        notes: None,
        example: false,
    };
    let plan = vendor::plan(&create).unwrap();
    assert_eq!(send_parts(&plan), ("POST".to_string(), "/vendors".to_string(), true));
    assert_eq!(body_text(&plan), r#"{"category":"SECURITY","name":"Okta","url":"https://okta.com"}"#);
}

#[test]
fn vendor_list_with_all_and_patterns_is_refused() {
    let list = VendorAction::List { patterns: vec!["okta".to_string()], all: true, expand: vec![] };
    assert!(vendor::plan(&list).unwrap_err().message.contains("mutually exclusive"));
    let list = VendorAction::List { patterns: vec!["okta".to_string()], all: false, expand: vec!["x".to_string()] };
    match vendor::plan(&list).unwrap() {
        Plan::List { path, patterns } => {
            assert_eq!(path, "/vendors?expand%5B%5D=x");
            assert_eq!(patterns, vec!["okta".to_string()]);
        },
        _ => panic!("expected a buffered list"),
    }
}

#[test]
fn vendor_name_reads_name() {
    let v = Json::Object(vec![("id".to_string(), Json::Number("1".to_string())), ("name".to_string(), Json::Str("Okta".to_string()))]);
    assert_eq!(vendor::vendor_name(&v), "Okta");
    let v = Json::Object(vec![("id".to_string(), Json::Number("1".to_string()))]);
    assert_eq!(vendor::vendor_name(&v), "");
}

#[test]
fn questionnaire_send_body_has_numeric_ids() {
    let send = VendorAction::Questionnaire {
        action: VendorQuestionnaireAction::Send {
            vendor_id: "5".to_string(),
            email: "sec@v.com".to_string(),
            questionnaire_id: 12,
            security_review_id: 34,
            email_content: "Hi".to_string(),
            email_subject: None,
        },
    };
    let plan = vendor::plan(&send).unwrap();
    assert_eq!(send_parts(&plan), ("POST".to_string(), "/vendors/5/questionnaires".to_string(), true));
    assert_eq!(
        body_text(&plan),
        r#"{"email":"sec@v.com","emailContent":"Hi","questionnaireId":12,"securityReviewId":34}"#
    );
}

#[test]
fn security_review_list_puts_filters_before_expand() {
    let list = VendorAction::SecurityReview {
        action: VendorSecurityReviewAction::List {
            vendor_id: "5".to_string(),
            status: Some(SecurityReviewStatus::InProgress),
            review_type: Some(SecurityReviewType::Security),
            expand: vec!["q".to_string()],
            all: false,
        },
    };
    assert!(matches!(
        vendor::plan(&list).unwrap(),
        Plan::List { path, .. } if path == "/vendors/5/security-reviews?status=IN_PROGRESS&type=SECURITY&expand%5B%5D=q"
    ));
}

#[test]
fn control_compare_needs_ids_and_encodes_the_key() {
    let empty = ControlAction::Compare { workspace_id: "w".to_string(), control_ids: vec![] };
    assert_eq!(
        control::plan(&empty).unwrap_err().message,
        "`drata control compare` requires at least one --control-ids value"
    );
    let two = ControlAction::Compare { workspace_id: "w".to_string(), control_ids: vec![3, 14] };
    assert!(matches!(
        control::plan(&two).unwrap(),
        Plan::Fetch { path } if path == "/workspaces/w/controls-requirement-comparison?controlIds%5B%5D=3&controlIds%5B%5D=14"
    ));
}

#[test]
fn control_create_checks_required_values_in_order() {
    let missing_code = ControlAction::Create {
        workspace_id: Some("w".to_string()),
        name: Some("n".to_string()),
        description: Some("d".to_string()),
        code: None,
        question: None,
        activity: None,
        example: false,
    };
    assert_eq!(
        control::plan(&missing_code).unwrap_err().message,
        "`drata control create` requires --code (or use --example)"
    );
}

#[test]
fn asset_create_body_lists_class_types() {
    let create = AssetAction::Create {
        name: Some("Laptop".to_string()),
        description: Some("MacBook".to_string()),
        asset_type: Some(AssetType::Physical),
        asset_class_types: vec![AssetClassType::Hardware, AssetClassType::Software],
        owner_id: Some(7),
        notes: None,
        example: false,
    };
    let plan = asset::plan(&create).unwrap();
    assert_eq!(
        body_text(&plan),
        r#"{"assetClassTypes":["HARDWARE","SOFTWARE"],"assetType":"PHYSICAL","description":"MacBook","name":"Laptop","ownerId":7}"#
    );
    let no_classes = AssetAction::Create {
        name: Some("Laptop".to_string()),
        description: Some("MacBook".to_string()),
        asset_type: Some(AssetType::Physical),
        asset_class_types: vec![],
        owner_id: Some(7),
        notes: None,
        example: false,
    };
    assert_eq!(
        asset::plan(&no_classes).unwrap_err().message,
        "`drata asset create` requires at least one --asset-class-types (or use --example)"
    );
}

#[test]
fn register_body_distinguishes_absent_and_empty_lists() {
    let update = RegisterAction::Update {
        register_id: "r1".to_string(),
        name: None,
        description: None,
        owner_ids: Some(vec![]),
        workspace_ids: None,
    };
    let plan = register::plan(&update).unwrap();
    assert_eq!(send_parts(&plan), ("PUT".to_string(), "/risk-registers/r1".to_string(), true));
    assert_eq!(body_text(&plan), r#"{"ownerIds":[]}"#);
}

#[test]
fn evidence_with_file_is_an_upload() {
    let update = EvidenceAction::Update {
        workspace_id: "w".to_string(),
        evidence_id: "e".to_string(),
        name: None,
        description: None,
        renewal_schedule_type: None,
        file: Some("/tmp/e.pdf".to_string()),
    };
    assert!(matches!(
        evidence::plan(&update).unwrap(),
        Plan::Upload { method, path, .. } if method == "PUT" && path == "/workspaces/w/evidence-library/e"
    ));
}

#[test]
fn policy_file_is_refused_for_external_policies() {
    let create = PolicyAction::Create {
        name: Some("p".to_string()),
        owner_id: Some(1),
        source_type: Some(PolicySourceType::External),
        description: Some("d".to_string()),
        renewal_date: Some("2026-01-01".to_string()),
        file: Some("/tmp/p.pdf".to_string()),
        example: false,
    };
    match policy::plan(&create).unwrap() {
        Plan::Refuse { method, path, message } => {
            assert_eq!((method.as_str(), path.as_str()), ("POST", "/policies"));
            assert!(message.starts_with("--file is only valid for UPLOADED policies."));
        }
        other => panic!("unexpected plan {:?}", other),
    }
    let create = PolicyAction::Create {
        name: Some("p".to_string()),
        owner_id: Some(1),
        source_type: Some(PolicySourceType::Uploaded),
        description: Some("d".to_string()),
        renewal_date: Some("2026-01-01".to_string()),
        file: None,
        example: false,
    };
    assert_eq!(
        body_text(&policy::plan(&create).unwrap()),
        r#"{"description":"d","name":"p","ownerId":1,"renewalDate":"2026-01-01","sourceType":"UPLOADED"}"#
    );
}

#[test]
fn framework_writes_are_confirmed() {
    let update = drata_cli::cli::FrameworkAction::Update {
        workspace_id: "w".to_string(),
        framework_id: "f".to_string(),
        name: Some("SOC 2".to_string()),
        description: None,
    };
    let plan = framework::plan(&update).unwrap();
    assert_eq!(send_parts(&plan), ("PUT".to_string(), "/workspaces/w/frameworks/f".to_string(), true));
}

#[test]
fn personnel_update_body() {
    let update = PersonnelAction::Update {
        personnel_id: "p".to_string(),
        employment_status: Some(EmploymentStatus::OutOfScope),
        started_at: None,
        separated_at: Some("2025-05-05".to_string()),
        not_human_reason: None,
    };
    assert_eq!(
        body_text(&personnel::plan(&update).unwrap()),
        r#"{"employmentStatus":"OUT_OF_SCOPE","separatedAt":"2025-05-05"}"#
    );
}

#[test]
fn risk_create_needs_register_and_builds_sparse_body() {
    let create = RiskAction::Create {
        register_id: None,
        title: Some("t".to_string()),
        description: None,
        treatment_plan: None,
        impact: None,
        likelihood: None,
        status: None,
        example: false,
    };
    assert_eq!(
        risk::plan(&create).unwrap_err().message,
        "`drata risk create` requires <register_id> (or use --example)"
    );
    let create = RiskAction::Create {
        register_id: Some("9".to_string()),
        title: Some("My Risk".to_string()),
        description: None,
        treatment_plan: Some(RiskTreatmentPlan::Mitigate),
        impact: Some(Json::Number("2.5".to_string())),
        likelihood: Some(Json::Number("4".to_string())),
        status: Some(RiskStatus::Active),
        example: false,
    };
    let plan = risk::plan(&create).unwrap();
    assert_eq!(send_parts(&plan), ("POST".to_string(), "/risk-registers/9/risks".to_string(), true));
    assert_eq!(
        body_text(&plan),
        r#"{"impact":2.5,"likelihood":4,"status":"ACTIVE","title":"My Risk","treatmentPlan":"MITIGATE"}"#
    );
}

#[test]
fn risk_update_sends_only_given_fields() {
    let update = RiskAction::Update {
        register_id: "9".to_string(),
        risk_id: "r7".to_string(),
        title: None,
        description: Some("d".to_string()),
        treatment_plan: None,
        impact: Some(Json::Null),
        likelihood: None,
        status: Some(RiskStatus::Closed),
    };
    let plan = risk::plan(&update).unwrap();
    assert_eq!(send_parts(&plan), ("PUT".to_string(), "/risk-registers/9/risks/r7".to_string(), true));
    assert_eq!(body_text(&plan), r#"{"description":"d","impact":null,"status":"CLOSED"}"#);
}

#[test]
fn risk_reads_and_uploads() {
    let list = RiskAction::List { register_id: "9".to_string(), all: true, expand: vec!["owners".to_string()] };
    assert!(matches!(risk::plan(&list).unwrap(), Plan::Stream { path } if path == "/risk-registers/9/risks?expand%5B%5D=owners"));
    let get = RiskAction::Get { register_id: "9".to_string(), risk_id: "r7".to_string(), expand: vec![] };
    assert!(matches!(risk::plan(&get).unwrap(), Plan::Fetch { path } if path == "/risk-registers/9/risks/r7"));
    let insights = RiskAction::Insights { register_id: "9".to_string() };
    assert!(matches!(risk::plan(&insights).unwrap(), Plan::Fetch { path } if path == "/risk-registers/9/insights"));
    let upload = RiskAction::Upload {
        register_id: "9".to_string(),
        risk_id: "r7".to_string(),
        files: vec!["/tmp/a.pdf".to_string(), "/tmp/b.pdf".to_string()],
    };
    match risk::plan(&upload).unwrap() {
        Plan::Upload { method, path, form } => {
            assert_eq!(method, "POST");
            assert_eq!(path, "/risk-registers/9/risks/r7/documents");
            let parts: Vec<(String, String)> = form.files.iter().map(|f| (f.field.clone(), f.path.clone())).collect();
            assert_eq!(
                parts,
                vec![
                    ("files".to_string(), "/tmp/a.pdf".to_string()),
                    ("files".to_string(), "/tmp/b.pdf".to_string()),
                ]
            );
            assert!(form.fields.is_empty());
        }
        other => panic!("unexpected plan {:?}", other),
    }
}
