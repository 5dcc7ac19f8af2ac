use drata_cli::client::{
    base_url_for_lowered, base_url_for_region, encode_query, failure_means_absent, upload_part_meta, format_api_error, multipart_guard, on_response, parse_u64,
    rate_limited_message, write_guard, Multipart, PageError, Paginator, Reply, APAC_BASE_URL, EU_BASE_URL,
    US_BASE_URL,
};
use drata_cli::json::Json;

fn to_json(v: &serde_json::Value) -> Json {
    match v {
        serde_json::Value::Null => Json::Null,
        serde_json::Value::Bool(b) => Json::Bool(*b),
        serde_json::Value::Number(n) => Json::Number(n.to_string()),
        serde_json::Value::String(s) => Json::Str(s.clone()),
        serde_json::Value::Array(a) => Json::Array(a.iter().map(to_json).collect()),
        serde_json::Value::Object(m) => Json::Object(m.iter().map(|(k, v)| (k.clone(), to_json(v))).collect()),
    }
}

fn parsed(body: &str) -> Option<Json> {
    serde_json::from_str::<serde_json::Value>(body).ok().map(|v| to_json(&v))
}

#[test]
fn test_base_url_for_region() {
    assert_eq!(base_url_for_region("us").unwrap(), US_BASE_URL);
    assert_eq!(base_url_for_region("eu").unwrap(), EU_BASE_URL);
    assert_eq!(base_url_for_region("EU").unwrap(), EU_BASE_URL);
    assert_eq!(base_url_for_region("apac").unwrap(), APAC_BASE_URL);
    assert!(base_url_for_region("mars").is_err());
}

#[test]
fn test_new_rejects_unknown_region() {
    let result = base_url_for_region("mars");
    assert!(result.is_err(), "unknown region should return Err");
    if let Err(e) = result {
        let msg = e.message();
        assert!(msg.contains("mars"), "error should name the bad region: {msg}");
        assert!(msg.contains("us, eu, apac"), "error should list valid regions: {msg}");
    }
}

#[test]
fn test_encode_query_escapes_reserved() {
    assert_eq!(encode_query("a b"), "a%20b");
    assert_eq!(encode_query("a&b=c"), "a%26b%3Dc");
    assert_eq!(encode_query("simple"), "simple");
}

#[test]
fn encode_query_escapes_non_ascii_and_brackets() {
    assert_eq!(encode_query("expand[]"), "expand%5B%5D");
    assert_eq!(encode_query("é"), "%C3%A9");
    assert_eq!(encode_query("a+b#c"), "a%2Bb%23c");
}

#[test]
fn test_format_api_error_structured() {
    let body = r#"{"message":"Invalid Input","errors":["name is required"]}"#;
    let url = "https://public-api.drata.com/public/v2/vendors";
    let msg = format_api_error("POST", url, "400 Bad Request", body, parsed(body).as_ref());
    assert!(msg.contains("400"));
    assert!(msg.contains("Invalid Input"));
    assert!(msg.contains("name is required"));
    assert!(msg.contains("POST"));
    assert!(msg.contains(url));
}

#[test]
fn test_format_api_error_nested_error_message() {
    let body = r#"{"error":{"message":"forbidden"}}"#;
    let msg = format_api_error(
        "GET",
        "https://public-api.drata.com/public/v2/vendors/1",
        "403 Forbidden",
        body,
        parsed(body).as_ref(),
    );
    assert!(msg.contains("forbidden"));
    assert!(!msg.contains("Unknown error"));
}

#[test]
fn test_format_api_error_plain_text() {
    let msg = format_api_error(
        "GET",
        "https://public-api.drata.com/public/v2/vendors/999",
        "404 Not Found",
        "not found",
        parsed("not found").as_ref(),
    );
    assert!(msg.contains("404"));
    assert!(msg.contains("not found"));
}

#[test]
fn test_format_api_error_no_message_surfaces_body_and_url() {
    let body = r#"{"unexpected":[{"field":"name","detail":"too long"}]}"#;
    let url = "https://public-api.drata.com/public/v2/vendors";
    let msg = format_api_error("POST", url, "400 Bad Request", body, parsed(body).as_ref());
    assert!(!msg.contains("Unknown error"), "body must not be hidden: {msg}");
    assert!(msg.contains("too long"), "raw body must survive: {msg}");
    assert!(msg.contains(url));
    assert!(msg.contains("POST"));
}

#[test]
fn multipart_builder_collects_files_and_fields() {
    let mut form = Multipart::single("file", "/tmp/a.pdf");
    form.add_file("files", "/tmp/b.pdf")
        .add_field("type", "ANTIVIRUS_EVIDENCE")
        .add_opt_field("description", Some("d"))
        .add_opt_field("skip", None::<String>);

    assert_eq!(form.files.len(), 2);
    assert_eq!(form.files[0].field, "file");
    assert_eq!(form.files[1].field, "files");
    assert_eq!(form.fields.len(), 2);
    assert!(form.fields.iter().any(|(k, v)| k == "type" && v == "ANTIVIRUS_EVIDENCE"));
    assert!(form.fields.iter().any(|(k, v)| k == "description" && v == "d"));
    assert!(!form.is_empty());
    assert!(Multipart::new().is_empty());
}

#[test]
fn write_guard_allows_get_and_blocks_writes_when_read_only() {
    assert!(write_guard("GET", "/vendors", false).is_ok());
    assert!(write_guard("POST", "/vendors", true).is_ok());
    let err = write_guard("DELETE", "/vendors/1", false).unwrap_err();
    assert_eq!(
        err.message(),
        "write blocked: the active Drata credential is not write-enabled.\nNon-GET requests (DELETE /vendors/1) require a credential with `allow-writes: true`.\nSet it on the active profile in credentials.json, or pass --allow-writes."
    );
}

#[test]
fn post_multipart_blocked_on_readonly_client() {
    assert!(multipart_guard("POST", "/vendors/1/documents", false).is_err());
    assert!(multipart_guard("POST", "/vendors/1/documents", true).is_ok());
}

#[test]
fn paginator_walks_pages_until_null_cursor() {
    let mut pager = Paginator::new("/vendors", false);
    assert_eq!(pager.next_request().unwrap(), "/vendors?size=50");
    let page1 = parsed(r#"{"data":[{"id":1},{"id":2}],"pagination":{"cursor":"next"}}"#).unwrap();
    let (items, more) = pager.on_page(&page1);
    let more = more.unwrap();
    assert_eq!(items.len(), 2);
    assert!(more);
    assert_eq!(pager.next_request().unwrap(), "/vendors?size=50&cursor=next");
    let page2 = parsed(r#"{"data":[{"id":3}],"pagination":{"cursor":null}}"#).unwrap();
    let (items, more) = pager.on_page(&page2);
    let more = more.unwrap();
    assert_eq!(items.len(), 1);
    assert!(!more);
}

#[test]
fn paginator_uses_ampersand_after_existing_query() {
    let mut pager = Paginator::new("/vendors?expand%5B%5D=x", true);
    assert_eq!(pager.next_request().unwrap(), "/vendors?expand%5B%5D=x&size=50");
}

#[test]
fn stream_all_aborts_on_repeated_cursor() {
    let mut pager = Paginator::new("/items", true);
    let page = parsed(r#"{"data":[{"id":1}],"pagination":{"cursor":"stuck"}}"#).unwrap();
    pager.next_request().unwrap();
    assert!(pager.on_page(&page).1.is_ok());
    pager.next_request().unwrap();
    let (items, outcome) = pager.on_page(&page);
    assert_eq!(items.len(), 1, "the page's items are still handed back for the stream");
    let err = outcome.unwrap_err();
    assert!(matches!(err, PageError::RepeatedCursor { .. }));
    let msg = err.message();
    assert!(msg.contains("repeated cursor"), "error should mention repeated cursor: {msg}");
    assert_eq!(
        msg,
        "repeated cursor \"stuck\" detected in stream_all on path /items; server is not making forward progress."
    );
}

#[test]
fn retry_after_is_bounded_and_attempts_are_capped() {
    assert_eq!(on_response(1, 429, Some("7")), Reply::Retry { delay: 7 });
    assert_eq!(on_response(2, 429, Some("+3")), Reply::Retry { delay: 3 });
    assert_eq!(on_response(1, 429, Some("3600")), Reply::Retry { delay: 60 });
    assert_eq!(on_response(1, 429, Some("soon")), Reply::Retry { delay: 5 });
    assert_eq!(on_response(3, 429, None), Reply::Retry { delay: 5 });
    assert_eq!(on_response(4, 429, Some("1")), Reply::RateLimited);
    assert_eq!(on_response(1, 204, None), Reply::NoContent);
    assert_eq!(on_response(1, 200, None), Reply::Success);
    assert_eq!(on_response(1, 201, None), Reply::Success);
    assert_eq!(on_response(1, 404, None), Reply::Failed);
    assert_eq!(on_response(1, 302, None), Reply::Failed);
    assert_eq!(rate_limited_message(false), "Rate limited after 3 attempts");
    assert_eq!(rate_limited_message(true), "Rate limited after 3 attempts (multipart)");
}

#[test]
fn parse_u64_follows_the_standard_grammar() {
    assert_eq!(parse_u64("0"), Some(0));
    assert_eq!(parse_u64("+12"), Some(12));
    assert_eq!(parse_u64("18446744073709551615"), Some(u64::MAX));
    assert_eq!(parse_u64("18446744073709551616"), None);
    assert_eq!(parse_u64(""), None);
    assert_eq!(parse_u64("+"), None);
    assert_eq!(parse_u64("-1"), None);
    assert_eq!(parse_u64(" 1"), None);
    for s in ["0", "42", "+7", "x", "99999999999999999999", "007"] {
        assert_eq!(parse_u64(s), s.parse::<u64>().ok(), "{s}");
    }
}

#[test]
fn lowered_region_selects_base_url() {
    assert_eq!(base_url_for_lowered("eu".to_string()).unwrap(), EU_BASE_URL);
    assert_eq!(base_url_for_lowered("apac".to_string()).unwrap(), APAC_BASE_URL);
    assert_eq!(base_url_for_lowered("us".to_string()).unwrap(), US_BASE_URL);
    let err = base_url_for_lowered("EU".to_string()).unwrap_err();
    assert_eq!(err.region, "EU");
}

#[test]
fn upload_parts_carry_file_name_and_mime_type() {
    assert_eq!(
        upload_part_meta("/tmp/reports/soc2.pdf"),
        ("soc2.pdf".to_string(), "application/pdf".to_string())
    );
    assert_eq!(upload_part_meta("notes.txt"), ("notes.txt".to_string(), "text/plain".to_string()));
    assert_eq!(
        upload_part_meta("/tmp/blob"),
        ("blob".to_string(), "application/octet-stream".to_string())
    );
    assert_eq!(upload_part_meta("/tmp/.."), ("upload".to_string(), "application/octet-stream".to_string()));
}

#[test]
fn only_a_404_means_absent() {
    assert!(failure_means_absent(404));
    assert!(!failure_means_absent(400));
    assert!(!failure_means_absent(500));
    assert!(!failure_means_absent(403));
}
