use git_issues::completions::{script_for, Shell};

#[test]
fn every_script_is_nonempty_and_calls_back() {
    for shell in [Shell::Bash, Shell::Zsh, Shell::Fish] {
        let script = script_for(shell);
        assert!(!script.trim().is_empty(), "script should not be empty");
        assert!(
            script.contains("git issues complete-ids"),
            "script must call back into `git issues complete-ids`"
        );
    }
}

#[test]
fn scripts_hook_each_shells_git_dispatch() {
    assert!(script_for(Shell::Bash).contains("_git_issues()"));
    assert!(script_for(Shell::Zsh).starts_with("#compdef git-issues"));
    assert!(script_for(Shell::Fish).contains("__fish_seen_subcommand_from issues"));
}
