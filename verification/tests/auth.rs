use drata_cli::config::{AuthDiagnostic, TokenSource};
use drata_cli::resources::auth::{auth, login_message, logout_message, whoami};

fn diag(source: TokenSource) -> AuthDiagnostic {
    AuthDiagnostic {
        profile: "default".to_string(),
        region: Some("us".to_string()),
        allow_writes: false,
        token_source: source,
        credentials_path: None,
        known_profiles: vec![],
    }
}

#[test]
fn whoami_runs_with_each_source() {
    assert!(whoami(&diag(TokenSource::CliFlag)).contains("source:    --api-key flag"));
    assert!(whoami(&diag(TokenSource::EnvVar)).contains("source:    DRATA_API_KEY env var"));
    assert!(whoami(&diag(TokenSource::Profile("default".to_string()))).contains("source:    profile \"default\""));
}

#[test]
fn auth_runs_on_fresh_install() {
    let text = auth(&diag(TokenSource::NotFound));
    assert!(text.starts_with("key:       not found\nsource:    (none found)\n"));
    assert!(text.ends_with("  export DRATA_API_KEY=<your-key>\n"));
}

#[test]
fn diagnostic_report_is_exact() {
    let d = AuthDiagnostic {
        profile: "work".to_string(),
        region: None,
        allow_writes: true,
        token_source: TokenSource::Profile("work".to_string()),
        credentials_path: Some("/home/u/.config/drata/credentials.json".to_string()),
        known_profiles: vec!["default".to_string(), "work".to_string()],
    };
    assert_eq!(
        whoami(&d),
        "key:       found\nsource:    profile \"work\"\nprofile:   work\nregion:    (default us)\nwrites:    enabled\ncreds:     /home/u/.config/drata/credentials.json\nprofiles:  default, work\n"
    );
    assert_eq!(auth(&d), whoami(&d));
    let missing = diag(TokenSource::NotFound);
    assert!(!whoami(&missing).contains("To configure a key"));
    assert!(auth(&missing).contains("\nTo configure a key:\n  drata login --api-key <your-key> --region us\n"));
}

#[test]
fn login_and_logout_messages() {
    assert_eq!(login_message("default", "eu", true), "Saved profile \"default\" (region eu, writes enabled).");
    assert_eq!(login_message("ro", "us", false), "Saved profile \"ro\" (region us, writes disabled).");
    assert_eq!(logout_message("x", true), "Removed profile \"x\".");
    assert_eq!(logout_message("x", false), "No profile named \"x\" to remove.");
}
