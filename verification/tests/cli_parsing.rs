use awsx::{Cli, Commands};

fn parse_from(args: &[&str]) -> Cli {
    Cli::try_parse_from(args).expect("arguments should parse")
}

#[test]
fn test_cli_parsing() {
    let cli = parse_from(&["awsx", "init", "bash"]);
    assert!(matches!(cli.command, Some(Commands::Init { .. })));
    assert!(!cli.list);

    if let Some(Commands::Init { shell }) = cli.command {
        assert_eq!(shell, "bash");
    }
}

#[test]
fn test_switch_cmd_parsing() {
    let cli = parse_from(&["awsx", "switch", "my-profile"]);
    assert!(matches!(cli.command, Some(Commands::Switch { profile: Some(_) })));

    if let Some(Commands::Switch { profile }) = cli.command {
        assert_eq!(profile, Some("my-profile".to_string()));
    }
}

#[test]
fn test_direct_profile_parsing() {
    let cli = parse_from(&["awsx", "dev"]);
    assert_eq!(cli.command, None);
    assert_eq!(cli.profile, Some("dev".to_string()));
}

#[test]
fn test_no_args_parsing() {
    let cli = parse_from(&["awsx"]);
    assert_eq!(cli.command, None);
    assert_eq!(cli.profile, None);
    assert!(!cli.list);
}

#[test]
fn test_list_profiles_parsing() {
    let cli = parse_from(&["awsx", "list-profiles"]);
    assert_eq!(cli.command, Some(Commands::ListProfiles));
    assert!(!cli.list);
}

#[test]
fn test_current_profile_parsing() {
    let cli = parse_from(&["awsx", "current-profile"]);
    assert_eq!(cli.command, Some(Commands::CurrentProfile));
    assert!(!cli.list);
}

#[test]
fn test_list_flag_parsing() {
    let cli = parse_from(&["awsx", "--list"]);
    assert!(cli.list);
    assert_eq!(cli.command, None);
}

#[test]
fn test_list_flag_conflicts_with_subcommands() {
    // With args_conflicts_with_subcommands, clap rejects this at parse time
    let result = Cli::try_parse_from(&["awsx", "--list", "init", "bash"]);
    assert!(result.is_err());
}
