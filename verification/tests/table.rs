use drata_cli::json::Json;
use drata_cli::output::table::{render, truncate, DEFAULT_WIDTH};

fn to_json(v: &serde_json::Value) -> Json {
    match v {
        serde_json::Value::Null => Json::Null,
        serde_json::Value::Bool(b) => Json::Bool(*b),
        serde_json::Value::Number(n) => Json::Number(n.to_string()),
        serde_json::Value::String(s) => Json::Str(s.clone()),
        serde_json::Value::Array(a) => Json::Array(a.iter().map(to_json).collect()),
        serde_json::Value::Object(m) => Json::Object(m.iter().map(|(k, v)| (k.clone(), to_json(v))).collect()),
    }
}

fn json(text: &str) -> Json {
    to_json(&serde_json::from_str(text).unwrap())
}

#[test]
fn render_vendors_shows_core_columns() {
    let v = json(
        r#"{"data": [
            {"id": 1, "name": "Okta", "category": "SECURITY", "risk": "LOW", "status": "ACTIVE", "renewalDate": "2026-01-01"},
            {"id": 2, "name": "AWS", "category": "ENGINEERING", "risk": "MODERATE", "status": "APPROVED", "renewalDate": null}
        ]}"#,
    );
    let out = render(&v, DEFAULT_WIDTH).unwrap();
    assert!(out.contains("NAME"));
    assert!(out.contains("CATEGORY"));
    assert!(out.contains("Okta"));
    assert!(out.contains("SECURITY"));
    assert!(out.contains("AWS"));
    assert!(out.contains("1"));
    assert!(out.contains("2"));
}

#[test]
fn render_single_vendor_get_envelope() {
    let v = json(r#"{"id": 7, "name": "Datadog", "category": "ENGINEERING", "risk": "LOW", "status": "ACTIVE"}"#);
    let out = render(&v, DEFAULT_WIDTH).unwrap();
    assert!(out.contains("Datadog"));
    assert!(out.contains("7"));
}

#[test]
fn render_questionnaires_shape() {
    let v = json(
        r#"{"data": [{"id": 10, "title": "SIG Lite", "recipientEmail": "sec@vendor.com", "isCompleted": false, "dateSent": "2026-06-01"}]}"#,
    );
    let out = render(&v, DEFAULT_WIDTH).unwrap();
    assert!(out.contains("TITLE"));
    assert!(out.contains("RECIPIENT"));
    assert!(out.contains("sec@vendor.com"));
    assert!(out.contains("false"));
}

#[test]
fn render_empty_data_is_no_results() {
    let v = json(r#"{"data": []}"#);
    let out = render(&v, DEFAULT_WIDTH).unwrap();
    assert!(out.contains("no results"));
}

#[test]
fn render_unknown_shape_returns_none() {
    let v = json(r#"{"data": [{"weird": "shape"}]}"#);
    assert!(render(&v, DEFAULT_WIDTH).is_none());
}

#[test]
fn truncate_is_char_boundary_safe() {
    let s = "héllo wörld with ünicode";
    let out = truncate(s, 8);
    assert!(out.chars().count() <= 8);
    assert!(out.ends_with('…'));
}

#[test]
fn truncate_exact_values() {
    assert_eq!(truncate("abcdef", 4), "abc…");
    assert_eq!(truncate("abc", 3), "abc");
    assert_eq!(truncate("abc", 1), "…");
    assert_eq!(truncate("abc", 0), "");
}

#[test]
fn render_security_reviews_list_shape() {
    let v = json(
        r#"{"data": [
            {"id": 1, "title": "Annual SOC2 Review", "status": "IN_PROGRESS", "type": "SOC_REPORT", "decision": null, "reviewDeadlineAt": "2026-12-31T00:00:00.000Z"},
            {"id": 2, "title": "Security Assessment", "status": "NOT_YET_STARTED", "type": "SECURITY", "decision": "APPROVED", "reviewDeadlineAt": "2026-06-30T00:00:00.000Z"}
        ]}"#,
    );
    let out = render(&v, DEFAULT_WIDTH).unwrap();
    for want in [
        "ID", "TITLE", "STATUS", "TYPE", "DECISION", "DEADLINE", "Annual SOC2 Review", "IN_PROGRESS", "SOC_REPORT",
        "Security Assessment", "NOT_YET_STARTED", "APPROVED", "1", "2",
    ] {
        assert!(out.contains(want), "missing {want}: {out}");
    }
}

#[test]
fn render_security_review_single_get() {
    let v = json(
        r#"{"id": 42, "title": "Vendor Review", "status": "COMPLETED", "type": "UPLOAD_REPORT", "decision": "APPROVED", "reviewDeadlineAt": "2026-09-01T00:00:00.000Z"}"#,
    );
    let out = render(&v, DEFAULT_WIDTH).unwrap();
    assert!(out.contains("42"));
    assert!(out.contains("Vendor Review"));
    assert!(out.contains("COMPLETED"));
    assert!(out.contains("UPLOAD_REPORT"));
    assert!(out.contains("APPROVED"));
}

#[test]
fn render_security_reviews_null_title_and_decision() {
    let v = json(
        r#"{"data": [{"id": 5, "title": null, "status": "NOT_YET_STARTED", "type": "SECURITY", "decision": null, "reviewDeadlineAt": "2027-01-01T00:00:00.000Z"}]}"#,
    );
    let out = render(&v, DEFAULT_WIDTH).unwrap();
    assert!(out.contains("5"));
    assert!(out.contains("NOT_YET_STARTED"));
    assert!(!out.contains("null"), "null fields should render as empty, got: {out}");
}

#[test]
fn narrow_terminal_lines_never_exceed_width_when_they_can_fit() {
    let v = json(
        r#"{"data": [{"id": 1, "name": "A very long vendor name indeed", "category": "SECURITY", "risk": "LOW", "status": "ACTIVE", "renewalDate": "2026-01-01"}]}"#,
    );
    let out = render(&v, 40).unwrap();
    for line in out.lines() {
        assert!(line.chars().count() <= 40, "line too wide: {line:?}");
    }
}
