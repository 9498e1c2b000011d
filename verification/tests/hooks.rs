use awsx::get_hook_script;

fn hook(shell: &str) -> String {
    get_hook_script(shell).expect("shell should be supported")
}

fn assert_common_profile_activation(hook: &str) {
    assert!(hook.contains("AWS_PROFILE"));
    assert!(hook.contains("AWS_DEFAULT_PROFILE"));
    assert!(hook.contains("AWS_SDK_LOAD_CONFIG"));
    assert!(hook.contains("AWS_ACCESS_KEY_ID"));
    assert!(hook.contains("AWS_SECRET_ACCESS_KEY"));
    assert!(hook.contains("--list"));
    assert!(hook.contains("current-profile"));
    assert!(hook.contains("-ne 1") || hook.contains("Count -ne 1"));
}

#[test]
fn test_bash_hook() {
    let hook = hook("bash");
    assert!(hook.contains("awsx()"));
    assert!(hook.contains("complete -F _awsx_completions awsx"));
    assert_common_profile_activation(&hook);
}

#[test]
fn test_zsh_hook() {
    let hook = hook("zsh");
    assert!(hook.contains("awsx()"));
    assert!(hook.contains("compdef _awsx_completions awsx"));
    assert_common_profile_activation(&hook);
}

#[test]
fn test_fish_hook() {
    let hook = hook("fish");
    assert!(hook.contains("function awsx"));
    assert!(hook.contains("complete -c awsx"));
    assert_common_profile_activation(&hook);
}

#[test]
fn test_powershell_hook() {
    let hook = hook("powershell");
    assert!(hook.contains("function awsx {"));
    assert!(hook.contains("Register-ArgumentCompleter"));
    assert_common_profile_activation(&hook);
}

#[test]
fn hook_for_unsupported_shell_is_none() {
    assert_eq!(get_hook_script("tcsh"), None);
    assert_eq!(get_hook_script("Bash"), None);
}

#[test]
fn hook_scripts_are_trimmed() {
    for shell in ["bash", "zsh", "fish", "powershell"] {
        let h = hook(shell);
        assert_eq!(h, h.trim());
        assert!(!h.starts_with('\n'));
        assert!(!h.ends_with('\n'));
    }
    assert!(hook("bash").starts_with("_awsx_apply_profile() {"));
    assert!(hook("bash").ends_with("complete -F _awsx_completions awsx"));
}
