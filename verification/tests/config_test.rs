use git_issues::config;
use git_issues::config::{default_path, default_path_from, detect_remote, get, pick_remote, repo_root};
use git_issues::error::IssueError;
use git_issues::git::{capture, join_args, GitOutput};

fn ok(stdout: &str) -> Result<GitOutput, String> {
    Ok(GitOutput { success: true, stdout: stdout.to_string(), stderr: String::new() })
}

fn failed(stderr: &str) -> Result<GitOutput, String> {
    Ok(GitOutput { success: false, stdout: String::new(), stderr: stderr.to_string() })
}

fn strings(v: &[&str]) -> Vec<String> {
    v.iter().map(|s| s.to_string()).collect()
}

#[test]
fn config_value_is_trimmed() {
    assert_eq!(get(ok("  meta/other \n")), Some("meta/other".to_string()));
}

#[test]
fn blank_failed_or_unstarted_config_is_unset() {
    assert_eq!(get(ok("  \n")), None);
    assert_eq!(get(failed("")), None);
    assert_eq!(get(Err("no git".to_string())), None);
}

#[test]
fn set_succeeds_when_git_does() {
    assert!(config::set("issues.branch", "meta/x", ok("")).is_ok());
    match config::set("issues.branch", "meta/x", failed(" bad key \n")) {
        Err(IssueError::GitFailed { command, stderr }) => {
            assert_eq!(command, "config issues.branch meta/x");
            assert_eq!(stderr, "bad key");
        }
        _ => panic!("expected a git failure"),
    }
}

#[test]
fn capture_trims_output_or_names_the_command() {
    let args = strings(&["rev-parse", "--show-toplevel"]);
    assert_eq!(capture(&args, ok("/repo\n")).ok(), Some("/repo".to_string()));
    match capture(&args, Err("not found".to_string())) {
        Err(IssueError::Spawn { command, cause }) => {
            assert_eq!(command, "rev-parse --show-toplevel");
            assert_eq!(cause, "not found");
        }
        _ => panic!("expected a spawn failure"),
    }
}

#[test]
fn join_args_puts_single_spaces_between() {
    assert_eq!(join_args(&strings(&["-C", "/w", "add", "a b"])), "-C /w add a b");
    assert_eq!(join_args(&[]), "");
}

#[test]
fn repo_root_failure_means_not_in_a_repository() {
    assert_eq!(repo_root(ok(" /home/u/repo\n")).ok(), Some("/home/u/repo".to_string()));
    match repo_root(failed("fatal: not a git repository")) {
        Err(IssueError::NotInRepository { source }) => match *source {
            IssueError::GitFailed { command, stderr } => {
                assert_eq!(command, "rev-parse --show-toplevel");
                assert_eq!(stderr, "fatal: not a git repository");
            }
            _ => panic!("expected the git failure as cause"),
        },
        _ => panic!("expected not-in-repository"),
    }
}

#[test]
fn origin_is_preferred() {
    assert_eq!(pick_remote("upstream\norigin\n"), Some("origin".to_string()));
}

#[test]
fn otherwise_the_first_remote() {
    assert_eq!(pick_remote("upstream\nfork\n"), Some("upstream".to_string()));
    assert_eq!(pick_remote("\n\nfork"), Some("fork".to_string()));
    assert_eq!(pick_remote(""), None);
}

#[test]
fn remote_of_a_failed_listing_is_none() {
    assert_eq!(detect_remote(failed("")), None);
    assert_eq!(detect_remote(ok("origin\n")), Some("origin".to_string()));
}

#[test]
fn default_path_is_a_sibling() {
    assert_eq!(
        default_path_from("/home/u/repo", Some("repo".into()), Some("/home/u".into())),
        "/home/u/repo-issues"
    );
    assert_eq!(default_path_from("/", None, None), "/repo-issues");
    assert_eq!(default_path("/home/u/repo"), "/home/u/repo-issues");
    assert_eq!(default_path("/home/u/repo/"), "/home/u/repo-issues");
    assert_eq!(default_path("/"), "/repo-issues");
}
