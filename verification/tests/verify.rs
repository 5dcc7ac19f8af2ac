use drata_cli::json::Json;
use drata_cli::verify::{start, step, test_name, Action, Event, Harness, HarnessError, TEST_PREFIX};

fn vendor(id: Json, name: &str) -> Json {
    Json::Object(vec![("id".to_string(), id), ("name".to_string(), Json::Str(name.to_string()))])
}

#[test]
fn test_prefix_starts_with_zzz() {
    assert!(TEST_PREFIX.starts_with("zzz-"));
    assert!(TEST_PREFIX.contains("clitest"));
    assert_eq!(test_name("abc"), "zzz-clitest-abc");
}

#[test]
fn verify_run_succeeds_against_fixtures() {
    let name = test_name("0001");
    let (h, a) = start(name.clone());
    assert!(matches!(a, Action::Post { ref path, .. } if path == "/vendors"));
    let (h, a) = step(h, Event::Answered(vendor(Json::Number("77".to_string()), &name)));
    assert!(matches!(a, Action::Get { ref path } if path == "/vendors/77"));
    let (h, a) = step(h, Event::Answered(vendor(Json::Number("77".to_string()), &name)));
    assert!(matches!(a, Action::GetAll { ref path } if path == "/vendors"));
    let (h, a) = step(h, Event::Listed(vec![vendor(Json::Number("1".to_string()), "Okta"), vendor(Json::Number("77".to_string()), &name)]));
    assert!(matches!(a, Action::Delete { ref path } if path == "/vendors/77"));
    let (h, a) = step(h, Event::Answered(Json::Null));
    assert!(matches!(a, Action::TryGet { ref path } if path == "/vendors/77"));
    let (h, a) = step(h, Event::NotFound);
    assert!(matches!(h, Harness::Done));
    match a {
        Action::Finish(r) => {
            assert!(matches!(r.vendor_id, Json::Str(ref s) if s == "77"));
            assert!(r.created && r.verified_get && r.verified_list && r.deleted && r.verified_deleted);
        },
        _ => panic!("expected the run to pass"),
    }
}

#[test]
fn verify_create_failure_propagates_error() {
    let (h, _) = start(test_name("x"));
    let (h, a) = step(h, Event::Failed { not_found: false, message: "API error 500".to_string() });
    assert!(matches!(h, Harness::Done));
    match a {
        Action::Fail(e) => {
            assert_eq!(e.message(), "verify step 1 (create) failed");
            assert!(matches!(e, HarnessError::Step { ref cause, .. } if cause == "API error 500"));
        },
        _ => panic!("a failed create leaves nothing to clean up"),
    }
}

#[test]
fn failures_after_create_clean_up_the_throwaway_vendor() {
    let name = test_name("y");
    let (h, _) = start(name.clone());
    let (h, _) = step(h, Event::Answered(vendor(Json::Str("v-9".to_string()), &name)));
    let (_, a) = step(h, Event::Answered(vendor(Json::Str("v-9".to_string()), "someone else")));
    match a {
        Action::Cleanup { path, error } => {
            assert_eq!(path, "/vendors/v-9");
            assert_eq!(error.message(), "verify step 2a: expected name `zzz-clitest-y`, got `someone else`");
        },
        _ => panic!("expected a cleanup"),
    }
    let (h, _) = start(name.clone());
    let (h, _) = step(h, Event::Answered(vendor(Json::Str("v-9".to_string()), &name)));
    let (h, _) = step(h, Event::Answered(vendor(Json::Str("v-9".to_string()), &name)));
    let (_, a) = step(h, Event::Listed(vec![vendor(Json::Number("1".to_string()), "Okta")]));
    match a {
        Action::Cleanup { path, error } => {
            assert_eq!(path, "/vendors/v-9");
            assert_eq!(
                error.message(),
                "verify step 2b: vendor `zzz-clitest-y` not found in full paginated list (1 items scanned)"
            );
        },
        _ => panic!("expected a cleanup"),
    }
}

#[test]
fn unexpected_id_type_fails_without_cleanup() {
    let (h, _) = start(test_name("z"));
    let (_, a) = step(h, Event::Answered(vendor(Json::Bool(true), "zzz-clitest-z")));
    assert!(matches!(a, Action::Fail(HarnessError::UnexpectedId { id: Json::Bool(true) })));
}

#[test]
fn vendor_still_present_is_reported_not_verified() {
    let name = test_name("w");
    let (h, _) = start(name.clone());
    let (h, _) = step(h, Event::Answered(vendor(Json::Number("5".to_string()), &name)));
    let (h, _) = step(h, Event::Answered(vendor(Json::Number("5".to_string()), &name)));
    let (h, _) = step(h, Event::Listed(vec![vendor(Json::Number("5".to_string()), &name)]));
    let (h, _) = step(h, Event::Answered(Json::Null));
    let (_, a) = step(h, Event::Answered(vendor(Json::Number("5".to_string()), &name)));
    assert!(matches!(a, Action::Finish(ref r) if !r.verified_deleted));
}
