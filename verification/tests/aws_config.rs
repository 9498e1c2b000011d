use awsx::{
    format_profile_summaries, get_aws_profile_summaries, get_selected_profile, parse_ini_content,
    parse_persisted_profile, persist_active_profile, read_persisted_profile, set_selected_profile,
    update_default_profile, AwsProfileSummary,
};
use ini::Ini;

const AWSX_SELECTED_PROFILE_KEY: &str = "awsx_selected_profile";

fn parse_profile_summaries(config: &str, credentials: &str) -> Vec<AwsProfileSummary> {
    let config_ini = Ini::load_from_str(config).ok();
    let credentials_ini = Ini::load_from_str(credentials).ok();
    get_aws_profile_summaries(config_ini.as_ref(), credentials_ini.as_ref())
}

/// Writes a document out and reads it back, as a round trip through a file does.
fn reload(ini: &Ini) -> Ini {
    let mut bytes: Vec<u8> = Vec::new();
    ini.write_to(&mut bytes).expect("writing to memory should succeed");
    let text = String::from_utf8(bytes).expect("written text should be UTF-8");
    Ini::load_from_str(&text).expect("written text should parse")
}

#[test]
fn test_parse_ini_content_basic() {
    let content = r#"
[default]
aws_access_key_id=123
[profile dev]
region=us-east-1
"#;
    let profiles = parse_ini_content(content);
    assert!(profiles.contains(&"default".to_string()));
    assert!(profiles.contains(&"dev".to_string()));
}

#[test]
fn test_parse_ini_content_no_prefix() {
    let credentials = r#"
[staging]
region=us-west-2
"#;
    let summaries = parse_profile_summaries("", credentials);
    assert_eq!(summaries[0].name, "staging");
}

#[test]
fn test_parse_ini_content_ignores_non_profile_config_sections() {
    let content = r#"
[sso-session corp]
sso_start_url=https://example.awsapps.com/start

[profile dev]
region=us-west-2
"#;

    let profiles = parse_ini_content(content);
    assert_eq!(profiles, vec!["dev".to_string()]);
}

#[test]
fn test_parse_ini_content_empty() {
    let profiles = parse_ini_content("");
    assert!(profiles.is_empty());
}

#[test]
fn test_parse_ini_content_malformed() {
    let profiles = parse_ini_content("not ini format");
    assert!(profiles.is_empty());
}

#[test]
fn test_parse_persisted_profile_trims_value() {
    assert_eq!(parse_persisted_profile("meta\n"), Some("meta".to_string()));
    assert_eq!(parse_persisted_profile("   \n"), None);
}

#[test]
fn test_persist_and_read_active_profile_from_path() {
    // Neither file exists yet: both start out as new documents.
    let mut config = Ini::new();
    let mut credentials = Ini::new();
    let available_profiles = vec!["meta".to_string(), "dev".to_string()];

    persist_active_profile(&mut config, &mut credentials, "meta");
    let config = reload(&config);
    let credentials = reload(&credentials);
    let persisted = read_persisted_profile(Some(&config), Some(&credentials), &available_profiles)
        .expect("profile should exist");

    assert_eq!(persisted, "meta");
    assert_eq!(get_selected_profile(&credentials).as_deref(), Some("meta"));
}

#[test]
fn test_persisted_profile_ignores_missing_profile() {
    let mut config = Ini::new();
    let mut credentials = Ini::new();
    let available_profiles = vec!["dev".to_string()];

    persist_active_profile(&mut config, &mut credentials, "meta");
    let config = reload(&config);
    let credentials = reload(&credentials);
    let persisted = read_persisted_profile(Some(&config), Some(&credentials), &available_profiles);

    assert_eq!(persisted, None);
}

#[test]
fn test_persisted_profile_ignores_diverged_markers() {
    let mut config = Ini::new();
    let mut credentials = Ini::new();
    let available_profiles = vec!["meta".to_string(), "dev".to_string()];

    persist_active_profile(&mut config, &mut credentials, "meta");
    let config = reload(&config);
    let mut credentials = reload(&credentials);
    set_selected_profile(&mut credentials, "dev");
    let credentials = reload(&credentials);

    let persisted = read_persisted_profile(Some(&config), Some(&credentials), &available_profiles);

    assert_eq!(persisted, None);
}

#[test]
fn test_profile_summaries_ignore_non_profile_config_sections() {
    let config = r#"
[sso-session corp]
sso_start_url=https://example.awsapps.com/start

[profile dev]
region=us-west-2
"#;

    let summaries = parse_profile_summaries(config, "");
    assert_eq!(summaries.len(), 1);
    assert_eq!(summaries[0].name, "dev");
}

#[test]
fn test_profile_summaries_include_account_region_and_details() {
    let config = r#"
[profile default]
region=us-east-1
output=json

[profile sso-dev]
region=us-west-2
sso_account_id=123456789012
sso_role_name=DeveloperAccess

[profile prod-admin]
role_arn=arn:aws:iam::210987654321:role/AdminAccess
source_profile=base
region=eu-central-1

[profile chained]
source_profile=prod-admin
"#;
    let credentials = r#"
[base]
aws_access_key_id=AKIAEXAMPLE
aws_secret_access_key=secret
"#;

    let summaries = parse_profile_summaries(config, credentials);

    assert_eq!(summaries[0].name, "default");
    assert_eq!(summaries[0].auth_type, "config");
    assert_eq!(summaries[0].region.as_deref(), Some("us-east-1"));
    assert!(summaries[0].details.contains(&"output=json".to_string()));

    let sso = summaries
        .iter()
        .find(|summary| summary.name == "sso-dev")
        .expect("sso-dev summary should exist");
    assert_eq!(sso.account_id.as_deref(), Some("123456789012"));
    assert_eq!(sso.auth_type, "sso");
    assert_eq!(sso.region.as_deref(), Some("us-west-2"));
    assert!(sso.details.contains(&"sso_role=DeveloperAccess".to_string()));

    let prod = summaries
        .iter()
        .find(|summary| summary.name == "prod-admin")
        .expect("prod-admin summary should exist");
    assert_eq!(prod.account_id.as_deref(), Some("210987654321"));
    assert_eq!(prod.auth_type, "role");
    assert!(prod.details.contains(&"role=AdminAccess".to_string()));
    assert!(prod.details.contains(&"source=base".to_string()));

    let chained = summaries
        .iter()
        .find(|summary| summary.name == "chained")
        .expect("chained summary should exist");
    assert_eq!(chained.account_id.as_deref(), Some("210987654321"));
    assert_eq!(chained.auth_type, "source");
}

#[test]
fn test_profile_summaries_handle_source_profile_cycles() {
    let config = r#"
[profile alpha]
source_profile=beta

[profile beta]
source_profile=alpha
"#;

    let summaries = parse_profile_summaries(config, "");
    let alpha = summaries
        .iter()
        .find(|summary| summary.name == "alpha")
        .expect("alpha summary should exist");

    assert_eq!(alpha.account_id, None);
}

#[test]
fn test_update_default_profile_clears_stale_keys() {
    // Config with an SSO profile in [default] and a static-creds profile
    let mut config = Ini::new();
    config
        .with_section(Some("default"))
        .set("region", "us-east-1")
        .set("sso_account_id", "111111111111")
        .set("sso_role_name", "OldRole")
        .set("sso_start_url", "https://old.example.com")
        .set(AWSX_SELECTED_PROFILE_KEY, "sso-old");
    config
        .with_section(Some("profile static-prof"))
        .set("region", "us-west-2")
        .set("output", "json");
    let config = reload(&config);

    // Credentials with a static profile
    let mut creds = Ini::new();
    creds
        .with_section(Some("static-prof"))
        .set("aws_access_key_id", "AKIA123")
        .set("aws_secret_access_key", "secret123");
    let creds = reload(&creds);

    // Switch to static-prof
    let update = update_default_profile(Some(config), Some(creds), "static-prof");
    let updated_config = reload(&update.config.expect("config should be updated"));
    let updated_creds = reload(&update.credentials.expect("credentials should be updated"));

    // Verify config [default] has NO stale SSO keys
    let default_section = updated_config.section(Some("default")).unwrap();
    assert_eq!(default_section.get("region"), Some("us-west-2"));
    assert_eq!(default_section.get("output"), Some("json"));
    assert!(default_section.get("sso_account_id").is_none());
    assert!(default_section.get("sso_role_name").is_none());
    assert!(default_section.get("sso_start_url").is_none());
    // awsx marker should be preserved
    assert_eq!(default_section.get(AWSX_SELECTED_PROFILE_KEY), Some("sso-old"));

    // Verify credentials [default] has the static creds
    let default_creds = updated_creds.section(Some("default")).unwrap();
    assert_eq!(default_creds.get("aws_access_key_id"), Some("AKIA123"));
    assert_eq!(default_creds.get("aws_secret_access_key"), Some("secret123"));
}

#[test]
fn test_format_profile_summaries_renders_table() {
    let summaries = vec![AwsProfileSummary {
        name: "dev".to_string(),
        account_id: Some("123456789012".to_string()),
        auth_type: "sso".to_string(),
        region: Some("us-west-2".to_string()),
        details: vec!["sso_role=DeveloperAccess".to_string()],
    }];

    let rendered = format_profile_summaries(&summaries);

    assert!(rendered.contains("PROFILE"));
    assert!(rendered.contains("ACCOUNT"));
    assert!(rendered.contains("dev"));
    assert!(rendered.contains("123456789012"));
    assert!(rendered.contains("sso_role=DeveloperAccess"));
}
