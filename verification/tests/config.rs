use drata_cli::cli::{LogLevel, OutputFormat};
use drata_cli::config::{
    credentials_path, no_key_error_message, remove_profile, save_profile, xdg_config_dir, xdg_data_dir,
    AuthDiagnostic, Config, Credentials, Inputs, Profile, TokenSource, DEFAULT_PROFILE, DEFAULT_REGION,
};

fn profile(key: &str, region: &str, writes: bool) -> Profile {
    Profile { api_key: key.to_string(), region: region.to_string(), allow_writes: writes }
}

fn inputs() -> Inputs {
    Inputs {
        cli_profile: None,
        env_profile: None,
        cli_api_key: None,
        env_api_key: None,
        cli_region: None,
        env_region: None,
        cli_allow_writes: false,
        cli_output: None,
        cli_log_level: None,
    }
}

fn creds() -> Credentials {
    let mut c = Credentials::new();
    save_profile(&mut c, "default", profile("k-default", "eu", true));
    save_profile(&mut c, "ro", profile("k-ro", "apac", false));
    c
}

#[test]
fn resolved_defaults_without_flags_or_env() {
    let c = Config::resolve(&inputs(), &creds()).unwrap();
    assert_eq!(c.api_key, "k-default");
    assert_eq!(c.profile, DEFAULT_PROFILE);
    assert_eq!(c.region, "eu");
    assert!(c.allow_writes);
    assert_eq!(c.output_format, OutputFormat::Auto);
    assert_eq!(c.log_level, "warn");
    assert!(matches!(c.token_source, TokenSource::Profile(ref p) if p == "default"));
}

#[test]
fn cli_beats_env_beats_profile() {
    let mut i = inputs();
    i.env_api_key = Some("k-env".to_string());
    i.env_region = Some("us".to_string());
    let c = Config::resolve(&i, &creds()).unwrap();
    assert_eq!(c.api_key, "k-env");
    assert!(matches!(c.token_source, TokenSource::EnvVar));
    assert_eq!(c.region, "us");
    assert!(!c.allow_writes, "a key from the environment is read-only");
    i.cli_api_key = Some("k-cli".to_string());
    i.cli_region = Some("apac".to_string());
    i.cli_log_level = Some(LogLevel::Debug);
    i.cli_output = Some(OutputFormat::Json);
    let c = Config::resolve(&i, &creds()).unwrap();
    assert_eq!(c.api_key, "k-cli");
    assert!(matches!(c.token_source, TokenSource::CliFlag));
    assert_eq!(c.region, "apac");
    assert_eq!(c.log_level, "debug");
    assert_eq!(c.output_format, OutputFormat::Json);
    i.cli_allow_writes = true;
    assert!(Config::resolve(&i, &creds()).unwrap().allow_writes);
}

#[test]
fn selected_profile_and_missing_key() {
    let mut i = inputs();
    i.env_profile = Some("ro".to_string());
    let c = Config::resolve(&i, &creds()).unwrap();
    assert_eq!(c.api_key, "k-ro");
    assert!(!c.allow_writes);
    i.cli_profile = Some("nobody".to_string());
    let err = Config::resolve(&i, &creds()).unwrap_err();
    assert_eq!(err.profile, "nobody");
    assert!(err.message().starts_with("No Drata API key found for profile \"nobody\"."));
    let c = Config::resolve(&{ let mut j = inputs(); j.env_api_key = Some("k".to_string()); j }, &Credentials::new()).unwrap();
    assert_eq!(c.region, DEFAULT_REGION);
}

#[test]
fn no_key_message_is_exact() {
    assert_eq!(
        no_key_error_message("default"),
        "No Drata API key found for profile \"default\".\n\nTo configure a key:\n     drata login --profile default --api-key <your-key> --region us\n\nor set an env var:\n     export DRATA_API_KEY=<your-key>\n\nRun `drata auth` to verify detection."
    );
}

#[test]
fn profiles_stay_in_name_order_and_replace_in_place() {
    let mut c = Credentials::new();
    save_profile(&mut c, "zeta", profile("z", "us", false));
    save_profile(&mut c, "alpha", profile("a", "us", false));
    save_profile(&mut c, "mid", profile("m", "us", false));
    save_profile(&mut c, "alpha", profile("a2", "eu", true));
    assert_eq!(c.names(), vec!["alpha", "mid", "zeta"]);
    assert_eq!(c.get("alpha").unwrap().api_key, "a2");
    assert!(c.get("alpha").unwrap().allow_writes);
    assert!(remove_profile(&mut c, "mid"));
    assert!(!remove_profile(&mut c, "mid"));
    assert_eq!(c.names(), vec!["alpha", "zeta"]);
    assert!(c.get("mid").is_none());
}

#[test]
fn legacy_file_migrates_to_default_profile() {
    let (c, migrated) = Credentials::from_parsed(None, Some(profile("legacy", "us", false)));
    assert!(migrated);
    assert_eq!(c.names(), vec!["default"]);
    assert_eq!(c.get("default").unwrap().api_key, "legacy");
    let (c, migrated) = Credentials::from_parsed(Some(creds()), Some(profile("legacy", "us", false)));
    assert!(!migrated);
    assert_eq!(c.len(), 2);
    let (c, migrated) = Credentials::from_parsed(Some(Credentials::new()), None);
    assert!(!migrated);
    assert!(c.is_empty());
}

#[test]
fn empty_or_unknown_credentials_file_is_a_fresh_install() {
    let (c, migrated) = Credentials::from_parsed(None, None);
    assert!(!migrated);
    assert!(c.is_empty());
}

#[test]
fn xdg_directories_and_credentials_path() {
    let home = Some("/home/u".to_string());
    assert_eq!(xdg_config_dir(&Some("/cfg".to_string()), &home), Some("/cfg".to_string()));
    assert_eq!(xdg_config_dir(&Some("relative".to_string()), &home), Some("/home/u/.config".to_string()));
    assert_eq!(xdg_config_dir(&None, &Some("/home/u/".to_string())), Some("/home/u/.config".to_string()));
    assert_eq!(xdg_data_dir(&None, &home), Some("/home/u/.local/share".to_string()));
    assert_eq!(xdg_data_dir(&None, &None), None);
    assert_eq!(
        credentials_path(&Some("/home/u/.config".to_string())),
        Some("/home/u/.config/drata/credentials.json".to_string())
    );
    assert_eq!(credentials_path(&None), None);
}

#[test]
fn auth_diagnostic_without_key() {
    let d = AuthDiagnostic::resolve(&inputs(), &Credentials::new(), None);
    assert!(matches!(d.token_source, TokenSource::NotFound));
    assert_eq!(d.profile, "default");
    assert_eq!(d.region, None);
    assert!(!d.allow_writes);
    let d = AuthDiagnostic::resolve(&inputs(), &creds(), Some("/c".to_string()));
    assert!(matches!(d.token_source, TokenSource::Profile(ref p) if p == "default"));
    assert_eq!(d.region, Some("eu".to_string()));
    assert!(d.allow_writes);
    assert_eq!(d.known_profiles, vec!["default", "ro"]);
    assert_eq!(d.credentials_path, Some("/c".to_string()));
}

#[test]
fn test_xdg_config_dir_honors_env_and_falls_back() {
    let home = Some("/home/tester".to_string());
    let dir = Some("/tmp/xdg-config-test".to_string());
    assert_eq!(xdg_config_dir(&dir, &home).as_deref(), Some("/tmp/xdg-config-test"));
    let fallback = xdg_config_dir(&None, &home).unwrap();
    assert!(fallback.ends_with(".config"), "fallback should be ~/.config, got {}", fallback);
}

#[test]
fn test_xdg_data_dir_honors_env_and_falls_back() {
    let home = Some("/home/tester".to_string());
    let dir = Some("/tmp/xdg-data-test".to_string());
    assert_eq!(xdg_data_dir(&dir, &home).as_deref(), Some("/tmp/xdg-data-test"));
    let fallback = xdg_data_dir(&None, &home).unwrap();
    assert!(fallback.ends_with(".local/share"), "fallback should be ~/.local/share, got {}", fallback);
}
