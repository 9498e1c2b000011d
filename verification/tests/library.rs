use awsx::{
    build_profile_summaries, config_profile_names, current_profile_output, hook_output, load_ini_text, profile_lines,
    switch_output, table_output, awsx_command, check_switch_target, format_profile_summaries, get_aws_profile_summaries, get_aws_profiles,
    get_persisted_profile, get_selected_profile, initial_cursor, parse_ini_content, parse_persisted_profile,
    persist_active_profile, plan_command, read_persisted_profile, set_selected_profile, update_default_profile,
    update_default_profile_outcome, AwsProfileSummary, Cli, CliAction, CliParseError, Commands,
};
use ini::Ini;

fn doc(text: &str) -> Ini {
    Ini::load_from_str(text).expect("test document should parse")
}

fn summaries(config: &str, credentials: &str) -> Vec<AwsProfileSummary> {
    let c = doc(config);
    let k = doc(credentials);
    get_aws_profile_summaries(Some(&c), Some(&k))
}

fn find<'a>(s: &'a [AwsProfileSummary], name: &str) -> &'a AwsProfileSummary {
    s.iter().find(|x| x.name == name).expect("profile should be listed")
}

fn reload(ini: &Ini) -> Ini {
    let mut bytes: Vec<u8> = Vec::new();
    ini.write_to(&mut bytes).expect("writing to memory should succeed");
    doc(&String::from_utf8(bytes).expect("written text should be UTF-8"))
}

fn strings(v: &[&str]) -> Vec<String> {
    v.iter().map(|s| s.to_string()).collect()
}

// --- listing order -----------------------------------------------------------

#[test]
fn profiles_list_default_first_then_by_byte_order() {
    let config = "[profile zeta]\n[profile Alpha]\n[default]\n[profile beta]\n";
    let credentials = "[alpha]\n[Zed]\n";
    let c = doc(config);
    let k = doc(credentials);
    assert_eq!(
        get_aws_profiles(Some(&c), Some(&k)),
        strings(&["default", "Alpha", "Zed", "alpha", "beta", "zeta"])
    );
}

#[test]
fn profiles_without_documents_are_empty() {
    assert!(get_aws_profiles(None, None).is_empty());
    assert!(get_aws_profile_summaries(None, None).is_empty());
}

#[test]
fn parse_ini_content_sorts_by_name_without_default_first() {
    let profiles = parse_ini_content("[profile b]\n[default]\n[profile a]\n");
    assert_eq!(profiles, strings(&["a", "b", "default"]));
}

#[test]
fn config_ignores_general_and_unprefixed_sections_but_credentials_do_not() {
    let config = "region=eu-west-1\n[plain]\n[profile ]\n[profile  \t]\n[profile x]\n";
    let c = doc(config);
    assert_eq!(get_aws_profiles(Some(&c), None), strings(&["x"]));
    let k = doc("[plain]\n[  ]\n");
    assert_eq!(get_aws_profiles(None, Some(&k)), strings(&["plain"]));
}

// --- merging sections --------------------------------------------------------

#[test]
fn repeated_section_only_its_first_entry_counts() {
    let s = summaries("[profile a]\nregion=r1\n[profile a]\nregion=r2\noutput=json\n", "");
    let a = find(&s, "a");
    assert_eq!(a.region.as_deref(), Some("r1"));
    assert!(a.details.is_empty());
}

#[test]
fn repeated_key_keeps_the_later_value() {
    let s = summaries("[profile a]\nregion=r1\nregion=r2\n", "");
    assert_eq!(find(&s, "a").region.as_deref(), Some("r2"));
}

#[test]
fn credentials_settings_override_config_settings() {
    let s = summaries("[profile a]\nregion=r1\n", "[a]\nregion=r2\naws_session_token=t\n");
    let a = find(&s, "a");
    assert_eq!(a.region.as_deref(), Some("r2"));
    assert_eq!(a.auth_type, "static");
    assert_eq!(a.details, strings(&["static_creds"]));
}

// --- account ids -------------------------------------------------------------

#[test]
fn invalid_sso_account_id_hides_aws_account_id() {
    let s = summaries("[profile a]\nsso_account_id=12345\naws_account_id=111122223333\n", "");
    assert_eq!(find(&s, "a").account_id, None);
    let s = summaries("[profile a]\naws_account_id=111122223333\n", "");
    assert_eq!(find(&s, "a").account_id.as_deref(), Some("111122223333"));
}

#[test]
fn account_id_from_role_arn_then_mfa_serial() {
    let s = summaries(
        "[profile a]\nrole_arn=arn:aws:iam::bad:role/R\nmfa_serial=arn:aws:iam::444455556666:mfa/me\n",
        "",
    );
    assert_eq!(find(&s, "a").account_id.as_deref(), Some("444455556666"));
    let s = summaries("[profile a]\nrole_arn=arn:aws:iam\n", "");
    assert_eq!(find(&s, "a").account_id, None);
}

#[test]
fn account_id_must_be_twelve_ascii_digits() {
    let s = summaries("[profile a]\nsso_account_id=1234567890123\n[profile b]\nsso_account_id=12345678901x\n", "");
    assert_eq!(find(&s, "a").account_id, None);
    assert_eq!(find(&s, "b").account_id, None);
}

#[test]
fn account_follows_source_chain_and_stops_on_cycle() {
    let config = "[profile a]\nsource_profile=b\n[profile b]\nsource_profile=c\n[profile c]\nsso_account_id=000000000007\n[profile d]\nsource_profile=d\n[profile e]\nsource_profile=missing\n";
    let s = summaries(config, "");
    assert_eq!(find(&s, "a").account_id.as_deref(), Some("000000000007"));
    assert_eq!(find(&s, "d").account_id, None);
    assert_eq!(find(&s, "e").account_id, None);
}

// --- kinds of authentication and details --------------------------------------

#[test]
fn auth_types_follow_their_precedence() {
    let config = "[profile s]\nsso_session=x\nrole_arn=y\n[profile r]\nrole_arn=y\ncredential_process=z\n[profile p]\ncredential_process=z\n[profile c]\nregion=x\n";
    let credentials = "[k]\naws_secret_access_key=x\nsource_profile=c\n[src]\nsource_profile=c\n";
    let s = summaries(config, credentials);
    assert_eq!(find(&s, "s").auth_type, "sso");
    assert_eq!(find(&s, "r").auth_type, "role");
    assert_eq!(find(&s, "p").auth_type, "process");
    assert_eq!(find(&s, "k").auth_type, "static");
    assert_eq!(find(&s, "src").auth_type, "source");
    assert_eq!(find(&s, "c").auth_type, "config");
}

#[test]
fn details_come_in_fixed_order() {
    let config = "[profile a]\nmfa_serial=m\noutput=text\ncredential_process=cmd\nsso_role_name=Dev\nsource_profile=base\nrole_arn=arn:aws:iam::123456789012:role/Admin\n";
    let credentials = "[a]\naws_access_key_id=k\n";
    let s = summaries(config, credentials);
    assert_eq!(
        find(&s, "a").details,
        strings(&[
            "role=Admin",
            "source=base",
            "sso_role=Dev",
            "output=text",
            "credential_process",
            "mfa",
            "static_creds"
        ])
    );
}

#[test]
fn role_label_falls_back_to_the_whole_arn() {
    let s = summaries("[profile a]\nrole_arn=arn:aws:iam::123456789012:user/Bob\n[profile b]\nrole_arn=short\n", "");
    assert_eq!(find(&s, "a").details, strings(&["role=arn:aws:iam::123456789012:user/Bob"]));
    assert_eq!(find(&s, "b").details, strings(&["role=short"]));
}

// --- the table ----------------------------------------------------------------

#[test]
fn table_has_exact_layout() {
    let summaries = vec![AwsProfileSummary {
        name: "dev".to_string(),
        account_id: Some("123456789012".to_string()),
        auth_type: "sso".to_string(),
        region: Some("us-west-2".to_string()),
        details: vec!["sso_role=DeveloperAccess".to_string()],
    }];
    assert_eq!(
        format_profile_summaries(&summaries),
        "PROFILE  ACCOUNT       TYPE  REGION     DETAILS\ndev      123456789012  sso   us-west-2  sso_role=DeveloperAccess"
    );
}

#[test]
fn table_uses_dashes_and_joins_details() {
    let summaries = vec![
        AwsProfileSummary {
            name: "default".to_string(),
            account_id: None,
            auth_type: "config".to_string(),
            region: None,
            details: vec![],
        },
        AwsProfileSummary {
            name: "ab".to_string(),
            account_id: None,
            auth_type: "static".to_string(),
            region: None,
            details: vec!["static_creds".to_string(), "x".to_string()],
        },
    ];
    assert_eq!(
        format_profile_summaries(&summaries),
        "PROFILE  ACCOUNT  TYPE    REGION  DETAILS\ndefault  -        config  -       -\nab       -        static  -       static_creds, x"
    );
}

#[test]
fn table_columns_line_up() {
    let s = summaries(
        "[profile a]\nregion=eu-central-1\n[profile much-longer-name]\nsso_account_id=123456789012\n",
        "",
    );
    let table = format_profile_summaries(&s);
    let lines: Vec<&str> = table.lines().collect();
    assert_eq!(lines.len(), 3);
    let w = "much-longer-name".len();
    for line in &lines {
        assert_eq!(&line[w..w + 2], "  ");
        assert_ne!(line.as_bytes()[w + 2], b' ');
    }
}

#[test]
fn table_without_profiles_says_so() {
    assert_eq!(
        format_profile_summaries(&[]),
        "No AWS profiles found in ~/.aws/config or ~/.aws/credentials"
    );
}

// --- remembering the selected profile -----------------------------------------

#[test]
fn persisted_profile_is_trimmed_and_read_back() {
    let mut config = Ini::new();
    let mut credentials = doc("[default]\nregion=x\n");
    persist_active_profile(&mut config, &mut credentials, "  dev \n");
    let config = reload(&config);
    let credentials = reload(&credentials);
    assert_eq!(get_selected_profile(&config).as_deref(), Some("dev"));
    assert_eq!(credentials.section(Some("default")).unwrap().get("region"), Some("x"));
    let available = strings(&["dev"]);
    assert_eq!(read_persisted_profile(Some(&config), Some(&credentials), &available).as_deref(), Some("dev"));
}

#[test]
fn persisted_profile_from_one_document_is_enough() {
    let mut config = Ini::new();
    set_selected_profile(&mut config, "dev");
    let available = strings(&["dev"]);
    assert_eq!(read_persisted_profile(Some(&config), None, &available).as_deref(), Some("dev"));
    assert_eq!(read_persisted_profile(None, Some(&config), &available).as_deref(), Some("dev"));
    assert_eq!(read_persisted_profile(None, None, &available), None);
}

#[test]
fn blank_marker_means_nothing_remembered() {
    let config = doc("[default]\nawsx_selected_profile=\n");
    assert_eq!(get_selected_profile(&config), None);
    assert_eq!(parse_persisted_profile("\u{2003}x\u{a0}"), Some("x".to_string()));
}

#[test]
fn get_persisted_profile_only_gives_existing_profiles() {
    let config = doc("[profile dev]\n[default]\nawsx_selected_profile=dev\n");
    assert_eq!(get_persisted_profile(Some(&config), None).as_deref(), Some("dev"));
    let config = doc("[default]\nawsx_selected_profile=gone\n");
    assert_eq!(get_persisted_profile(Some(&config), None), None);
    let credentials = doc("[dev]\n");
    let config = doc("[default]\nawsx_selected_profile=dev\n");
    assert_eq!(get_persisted_profile(Some(&config), Some(&credentials)).as_deref(), Some("dev"));
}

// --- making a profile the default ---------------------------------------------

#[test]
fn switching_to_default_changes_nothing() {
    let update = update_default_profile(Some(doc("[profile default]\nx=1\n")), Some(doc("[default]\n")), "default");
    assert!(update.config.is_none());
    assert!(update.credentials.is_none());
    assert_eq!(update_default_profile_outcome("default", false, false), Ok(()));
}

#[test]
fn switching_to_an_unknown_profile_is_an_error() {
    let update = update_default_profile(Some(doc("[profile a]\n")), Some(doc("[a]\n")), "b");
    assert!(update.config.is_none());
    assert!(update.credentials.is_none());
    assert_eq!(
        update_default_profile_outcome("b", false, false),
        Err("Could not find profile 'b' in configuration files to persist.".to_string())
    );
    assert_eq!(update_default_profile_outcome("b", true, false), Ok(()));
    assert_eq!(update_default_profile_outcome("b", false, true), Ok(()));
}

#[test]
fn switching_copies_last_values_and_keeps_other_sections() {
    let config = doc("[default]\nold=1\n[profile a]\nregion=r1\nregion=r2\noutput=json\n[profile b]\nregion=rb\n");
    let update = update_default_profile(Some(config), None, "a");
    assert!(update.credentials.is_none());
    let config = reload(&update.config.expect("config should change"));
    let d = config.section(Some("default")).unwrap();
    assert_eq!(d.get("region"), Some("r2"));
    assert_eq!(d.get("output"), Some("json"));
    assert_eq!(d.get("old"), None);
    assert_eq!(d.get("awsx_selected_profile"), None);
    assert_eq!(config.section(Some("profile b")).unwrap().get("region"), Some("rb"));
    assert_eq!(config.section(Some("profile a")).unwrap().get("region"), Some("r1"));
}

#[test]
fn switching_from_empty_section_without_marker_drops_default() {
    let config = doc("[default]\nold=1\n[profile a]\n");
    let update = update_default_profile(Some(config), None, "a");
    let config = update.config.expect("config should change");
    assert!(config.section(Some("default")).is_none());
}

// --- command line decisions ---------------------------------------------------

#[test]
fn plan_follows_the_arguments() {
    let cli = |list: bool, profile: Option<&str>, command: Option<Commands>| Cli {
        list,
        profile: profile.map(|s| s.to_string()),
        command,
    };
    assert_eq!(
        plan_command(cli(true, None, Some(Commands::ListProfiles))),
        Err("--list cannot be combined with subcommands.".to_string())
    );
    assert_eq!(plan_command(cli(true, Some("x"), None)), Ok(CliAction::ListTable));
    assert_eq!(
        plan_command(cli(false, None, Some(Commands::Init { shell: "zsh".to_string() }))),
        Ok(CliAction::InitHook { shell: "zsh".to_string() })
    );
    assert_eq!(plan_command(cli(false, None, Some(Commands::ListProfiles))), Ok(CliAction::ListProfiles));
    assert_eq!(plan_command(cli(false, None, Some(Commands::CurrentProfile))), Ok(CliAction::CurrentProfile));
    assert_eq!(
        plan_command(cli(false, None, Some(Commands::Switch { profile: Some("p".to_string()) }))),
        Ok(CliAction::Switch { profile: Some("p".to_string()), from_hook: true })
    );
    assert_eq!(
        plan_command(cli(false, Some("q"), None)),
        Ok(CliAction::Switch { profile: Some("q".to_string()), from_hook: false })
    );
}

#[test]
fn switch_target_must_exist() {
    let profiles = strings(&["dev", "prod"]);
    assert_eq!(check_switch_target(&profiles, "prod", true), Ok(()));
    assert_eq!(
        check_switch_target(&profiles, "qa", true),
        Err("Error: Profile 'qa' not found.".to_string())
    );
    assert_eq!(check_switch_target(&profiles, "qa", false), Err("Profile 'qa' not found.".to_string()));
}

#[test]
fn picker_starts_at_the_current_profile() {
    let profiles = strings(&["a", "b", "b"]);
    assert_eq!(initial_cursor(&profiles, "b"), 1);
    assert_eq!(initial_cursor(&profiles, "z"), 0);
    assert_eq!(initial_cursor(&profiles, ""), 0);
}

#[test]
fn parsing_switch_without_profile_and_rejections() {
    let cli = Cli::try_parse_from(&["awsx", "switch"]).expect("should parse");
    assert_eq!(cli.command, Some(Commands::Switch { profile: None }));
    assert_eq!(Cli::try_parse_from(&["awsx", "init"]).err(), Some(CliParseError::Rejected));
    assert_eq!(Cli::try_parse_from(&["awsx", "dev", "extra"]).err(), Some(CliParseError::Rejected));
    assert_eq!(Cli::try_parse_from(&["awsx", "--help"]).err(), Some(CliParseError::Rejected));
    let cli = Cli::try_parse_from(&["awsx", "--list", "dev"]).expect("should parse");
    assert!(cli.list);
    assert_eq!(cli.profile, Some("dev".to_string()));
}

#[test]
fn subcommand_parts_are_read_as_clap_derives_them() {
    assert_eq!(
        Commands::from_parts("init", None, None),
        Err("the following required argument was not provided: shell".to_string())
    );
    assert_eq!(Commands::from_parts("help", None, None), Ok(None));
    assert_eq!(
        Cli::from_parts(None, None, None).err(),
        Some("the following required argument was not provided: list".to_string())
    );
    let cli = Cli::from_parts(Some(false), None, Some(("init".to_string(), Some("fish".to_string()), None)))
        .expect("should be read");
    assert_eq!(cli.command, Some(Commands::Init { shell: "fish".to_string() }));
}

fn args_of(cmd: &clap::Command) -> Vec<(&str, Option<&str>, bool, bool)> {
    cmd.get_arguments()
        .map(|a| {
            (
                a.get_id().as_str(),
                a.get_long(),
                a.is_required_set(),
                matches!(a.get_action(), clap::ArgAction::SetTrue),
            )
        })
        .collect()
}

#[test]
fn grammar_names_its_arguments_and_subcommands() {
    let cmd = awsx_command();
    assert_eq!(cmd.get_name(), "awsx");
    assert!(cmd.is_args_conflicts_with_subcommands_set());
    assert_eq!(args_of(&cmd), vec![("list", Some("list"), false, true), ("profile", None, false, false)]);
    let subs: Vec<(&str, Vec<(&str, Option<&str>, bool, bool)>)> =
        cmd.get_subcommands().map(|s| (s.get_name(), args_of(s))).collect();
    assert_eq!(
        subs,
        vec![
            ("init", vec![("shell", None, true, false)]),
            ("switch", vec![("profile", None, false, false)]),
            ("list-profiles", vec![]),
            ("current-profile", vec![]),
        ]
    );
}

#[test]
fn matches_are_read_into_arguments() {
    let matches = awsx_command().try_get_matches_from(["awsx", "init", "zsh"]).expect("parses");
    let cli = Cli::from_matches(matches).expect("reads");
    assert!(!cli.list);
    assert_eq!(cli.profile, None);
    assert_eq!(cli.command, Some(Commands::Init { shell: "zsh".to_string() }));
    let matches = awsx_command().try_get_matches_from(["awsx", "--list"]).expect("parses");
    let cli = Cli::from_matches(matches).expect("reads");
    assert!(cli.list);
    assert_eq!(cli.command, None);
}

#[test]
fn file_text_is_parsed_past_a_byte_order_mark() {
    let ini = load_ini_text("\u{feff}[profile dev]\nregion = eu-west-1\n").expect("parses");
    assert_eq!(ini.section(Some("profile dev")).and_then(|s| s.get("region")), Some("eu-west-1"));
    let plain = load_ini_text("[default]\nregion = us-east-1\n").expect("parses");
    assert_eq!(plain.section(Some("default")).and_then(|s| s.get("region")), Some("us-east-1"));
    assert!(load_ini_text("[unclosed\n").is_err());
}

#[test]
fn config_document_names_its_profiles_sorted() {
    let ini = doc("[profile zeta]\n[default]\n[profile alpha]\n");
    assert_eq!(config_profile_names(&ini), vec!["alpha", "default", "zeta"]);
}

#[test]
fn profiles_are_the_summaries_names() {
    let config = doc("[profile zeta]\nregion = eu-west-1\n[default]\n[profile alpha]\n");
    let credentials = doc("[beta]\naws_access_key_id = AKIA\n");
    let names = get_aws_profiles(Some(&config), Some(&credentials));
    let summaries = get_aws_profile_summaries(Some(&config), Some(&credentials));
    let summary_names: Vec<String> = summaries.iter().map(|s| s.name.clone()).collect();
    assert_eq!(names, summary_names);
    assert_eq!(names, vec!["default", "alpha", "beta", "zeta"]);
}

#[test]
fn outputs_of_each_action() {
    assert_eq!(profile_lines(&["default".to_string(), "dev".to_string()]), "default\ndev\n");
    assert_eq!(profile_lines(&[]), "");
    assert_eq!(current_profile_output(Some("dev".to_string())), "dev\n");
    assert_eq!(current_profile_output(None), "");
    assert_eq!(switch_output("dev", true), ("dev\n".to_string(), String::new()));
    assert_eq!(switch_output("dev", false), (String::new(), "Switched to AWS profile: dev\n".to_string()));
    assert_eq!(
        hook_output("tcsh"),
        Err("Unsupported shell: tcsh. Supported shells are bash, zsh, fish, powershell.\n".to_string())
    );
    assert!(hook_output("bash").expect("bash has a hook").ends_with("\n"));
    let table = table_output(&[]);
    assert_eq!(table, "No AWS profiles found in ~/.aws/config or ~/.aws/credentials\n");
}

#[test]
fn summaries_are_built_from_the_collected_records() {
    let config = doc("[profile dev]\nregion = eu-west-1\n[default]\nsso_account_id = 123456789012\n");
    let records = awsx::profiles::collect_profile_records(Some(&config), None);
    let summaries = build_profile_summaries(&records);
    assert_eq!(summaries, get_aws_profile_summaries(Some(&config), None));
    assert_eq!(summaries[0].name, "default");
    assert_eq!(summaries[0].account_id.as_deref(), Some("123456789012"));
    assert_eq!(summaries[1].region.as_deref(), Some("eu-west-1"));
}

#[test]
fn only_other_profiles_rewrite_default() {
    assert!(!awsx::switch_rewrites_default("default"));
    assert!(awsx::switch_rewrites_default("dev"));
}

#[test]
fn profiles_are_the_sections_that_define_them() {
    let config = doc("[default]\n[profile dev]\n[sandbox]\n[profile    ]\n[profile default]\n");
    let credentials = doc("[prod]\naws_access_key_id = AKIA\n");
    assert_eq!(get_aws_profiles(Some(&config), Some(&credentials)), vec!["default", "dev", "prod"]);
}

#[test]
fn credentials_values_win_over_config() {
    let config = doc("[profile dev]\nregion = eu-west-1\nsso_account_id = 111111111111\n");
    let credentials = doc("[dev]\nregion = us-east-1\n");
    let summaries = get_aws_profile_summaries(Some(&config), Some(&credentials));
    assert_eq!(summaries.len(), 1);
    assert_eq!(summaries[0].region.as_deref(), Some("us-east-1"));
    assert_eq!(summaries[0].account_id.as_deref(), Some("111111111111"));
}
