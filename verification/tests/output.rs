use drata_cli::cli::OutputFormat;
use drata_cli::json::Json;
use drata_cli::output::{as_json, pager_command, rendered, should_page, split_whitespace};

#[test]
fn pager_command_respects_env() {
    let (cmd, args) = pager_command(Some("bat --style=plain"));
    assert_eq!(cmd, "bat");
    assert_eq!(args, vec!["--style=plain"]);
}

#[test]
fn pager_command_defaults_to_less() {
    let (cmd, args) = pager_command(None);
    assert_eq!(cmd, "less");
    assert!(args.contains(&"-F".to_string()));
    assert!(args.contains(&"-X".to_string()));
    let (cmd, args) = pager_command(Some("  \t "));
    assert_eq!(cmd, "less");
    assert_eq!(args, vec!["-R", "-F", "-X"]);
}

#[test]
fn split_whitespace_matches_std() {
    for s in ["", "  a  b\tc\n", "one", " \u{3000}x\u{85}y ", "less -R -F -X"] {
        let std: Vec<String> = s.split_whitespace().map(String::from).collect();
        assert_eq!(split_whitespace(s), std, "{s:?}");
    }
}

#[test]
fn test_print_value_json_format() {
    let v = Json::Object(vec![("key".to_string(), Json::Str("val".to_string()))]);
    assert!(as_json(OutputFormat::Json, true));
    assert_eq!(rendered(&v, true, 80), "{\n  \"key\": \"val\"\n}");
}

#[test]
fn test_print_value_table_format() {
    let v = Json::Object(vec![("key".to_string(), Json::Str("val".to_string()))]);
    assert!(!as_json(OutputFormat::Table, false));
    assert_eq!(rendered(&v, false, 80), "{\n  \"key\": \"val\"\n}");
}

#[test]
fn test_print_value_table_known_shape() {
    let row = Json::Object(vec![
        ("id".to_string(), Json::Number("1".to_string())),
        ("name".to_string(), Json::Str("Okta".to_string())),
        ("status".to_string(), Json::Str("ACTIVE".to_string())),
    ]);
    let v = Json::Object(vec![("data".to_string(), Json::Array(vec![row]))]);
    let out = rendered(&v, false, 120);
    assert!(out.contains("Okta"));
    assert!(!out.ends_with('\n'));
}

#[test]
fn auto_format_follows_the_terminal() {
    assert!(as_json(OutputFormat::Auto, false));
    assert!(!as_json(OutputFormat::Auto, true));
}

#[test]
fn paging_only_on_a_terminal_when_taller_than_the_screen() {
    assert!(!should_page("a\nb\nc", false, 2));
    assert!(should_page("a\nb\nc", true, 2));
    assert!(!should_page("a\nb\nc\n", true, 3));
    assert!(!should_page("a\nb", true, 1));
    assert!(should_page("a\nb\nc\n", true, 1));
    assert_eq!("a\nb\nc\n".lines().count(), 3);
}
