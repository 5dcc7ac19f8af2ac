use drata_cli::confirm::{always_no, always_yes, answer_confirms, fail_closed, gate, normalised_confirms, prompt, Gate};

#[test]
fn always_yes_confirms() {
    let f = always_yes();
    assert!(f("POST", "/vendors").unwrap());
    assert!(f("DELETE", "/vendors/1").unwrap());
}

#[test]
fn always_no_aborts() {
    let f = always_no();
    assert!(!f("POST", "/vendors").unwrap());
    assert!(!f("PUT", "/vendors/1").unwrap());
}

#[test]
fn fail_closed_errors_without_tty() {
    let f = fail_closed();
    let err = f("POST", "/vendors").unwrap_err();
    let msg = err.message();
    assert!(msg.contains("not a TTY"), "got: {msg}");
    assert!(msg.contains("POST"), "got: {msg}");
    assert!(msg.contains("/vendors"), "got: {msg}");
}

#[test]
fn fail_closed_includes_path_in_message() {
    let f = fail_closed();
    let err = f("DELETE", "/assets/42").unwrap_err();
    let msg = err.message();
    assert!(msg.contains("DELETE"), "got: {msg}");
    assert!(msg.contains("/assets/42"), "got: {msg}");
    assert_eq!(
        msg,
        "mutation DELETE /assets/42 requires confirmation but stdin is not a TTY. Pass --yes to bypass, or run interactively."
    );
}

#[test]
fn gate_follows_the_fail_closed_rules() {
    assert_eq!(gate(true, false, "POST", "/v").unwrap(), Gate::Proceed);
    assert_eq!(gate(true, true, "POST", "/v").unwrap(), Gate::Proceed);
    assert_eq!(gate(false, true, "POST", "/v").unwrap(), Gate::Ask);
    let err = gate(false, false, "PUT", "/v/1").unwrap_err();
    assert_eq!(err.method, "PUT");
    assert_eq!(err.path, "/v/1");
}

#[test]
fn only_y_or_yes_confirms() {
    assert!(answer_confirms("y\n"));
    assert!(answer_confirms("  YES \n"));
    assert!(answer_confirms("Yes"));
    assert!(!answer_confirms("n\n"));
    assert!(!answer_confirms(""));
    assert!(!answer_confirms("yess"));
    assert_eq!(prompt("POST", "/vendors"), "About to POST /vendors. Proceed? [y/N] ");
}

#[test]
fn normalised_answer_is_exactly_y_or_yes() {
    assert!(normalised_confirms("y"));
    assert!(normalised_confirms("yes"));
    assert!(!normalised_confirms("no"));
    assert!(!normalised_confirms(""));
    assert!(!normalised_confirms("YES"));
    assert!(!normalised_confirms(" yes"));
}
