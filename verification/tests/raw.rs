use drata_cli::raw::build_path;

#[test]
fn build_path_no_query_is_unchanged() {
    assert_eq!(build_path("/vendors", &[]).unwrap(), "/vendors");
}

#[test]
fn build_path_appends_query_with_question_mark() {
    let q = vec!["status=ACTIVE".to_string()];
    assert_eq!(build_path("/vendors", &q).unwrap(), "/vendors?status=ACTIVE");
}

#[test]
fn build_path_joins_multiple_with_ampersand() {
    let q = vec!["a=1".to_string(), "b=2".to_string()];
    assert_eq!(build_path("/v", &q).unwrap(), "/v?a=1&b=2");
}

#[test]
fn build_path_uses_ampersand_when_path_has_query() {
    let q = vec!["b=2".to_string()];
    assert_eq!(build_path("/v?a=1", &q).unwrap(), "/v?a=1&b=2");
}

#[test]
fn build_path_percent_encodes_values() {
    let q = vec!["name=a b&c".to_string()];
    assert_eq!(build_path("/v", &q).unwrap(), "/v?name=a%20b%26c");
}

#[test]
fn build_path_rejects_entry_without_equals() {
    let q = vec!["bogus".to_string()];
    let err = build_path("/v", &q).unwrap_err();
    assert!(err.message().contains("expected key=value"));
}

#[test]
fn build_path_splits_at_the_first_equals_and_reports_the_entry() {
    let q = vec!["k=a=b".to_string()];
    assert_eq!(build_path("/v", &q).unwrap(), "/v?k=a%3Db");
    let q = vec!["a=1".to_string(), "broken".to_string(), "x".to_string()];
    assert_eq!(build_path("/v", &q).unwrap_err().message(), "invalid --query `broken`: expected key=value");
}
